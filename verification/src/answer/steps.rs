//! The recorded solution path of a generated puzzle.

use crate::move_dir::MoveDir;
use std::collections::VecDeque;
use vstd::prelude::*;

verus! {

/// An ordered queue of `(source index, direction)` steps that replays a
/// solution from the initial board.
#[derive(Debug, Clone, Eq, PartialEq)]
pub struct Steps(VecDeque<(usize, MoveDir)>);

impl View for Steps {
    type V = Seq<(usize, MoveDir)>;

    closed spec fn view(&self) -> Seq<(usize, MoveDir)> {
        self.0@
    }
}

impl Steps {
    /// An empty queue.
    pub fn new() -> (r: Steps)
        ensures
            r@ == Seq::<(usize, MoveDir)>::empty(),
    {
        Steps(VecDeque::new())
    }

    /// Appends a step at the back.
    pub fn push(&mut self, cell_no: usize, dir: MoveDir)
        ensures
            final(self)@ == old(self)@.push((cell_no, dir)),
    {
        self.0.push_back((cell_no, dir));
    }

    /// Removes and returns the oldest step, if any.
    pub fn pop_front(&mut self) -> (r: Option<(usize, MoveDir)>)
        ensures
            old(self)@.len() == 0 ==> r is None && final(self)@ == old(self)@,
            old(self)@.len() > 0 ==> r == Some(old(self)@[0]) && final(self)@ == old(
                self,
            )@.drop_first(),
    {
        let r = self.0.pop_front();
        proof {
            if old(self)@.len() > 0 {
                assert(final(self)@ =~= old(self)@.drop_first());
            }
        }
        r
    }

    /// Whether no step remains.
    pub fn is_empty(&self) -> (r: bool)
        ensures
            r == (self@.len() == 0),
    {
        self.0.len() == 0
    }
}

impl Default for Steps {
    /// An empty queue.
    fn default() -> (r: Steps)
        ensures
            r@ == Seq::<(usize, MoveDir)>::empty(),
    {
        Steps(VecDeque::new())
    }
}

} // verus!
