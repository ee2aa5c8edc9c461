//! Board topology policy: which moves the board's shape admits.

pub mod small_size;

use crate::movable_ratio::MovableRatio;
use crate::move_dir::MoveDir;
use vstd::prelude::*;

verus! {

/// Legality oracle for one board topology.
///
/// A calculator answers which direction is legal from which index and
/// which index a direction reaches. Alternate board shapes become
/// alternate implementations; the proofs in this crate are carried by the
/// contracts on [`small_size::SmallSizeCalculator`]'s inherent methods,
/// which its implementation of this trait forwards to.
pub trait Calculator {
    /// Whether the cell at `src_no` may move in direction `dir`.
    fn can_move(&self, ratios: &Vec<Option<MovableRatio>>, src_no: usize, dir: MoveDir) -> bool;

    /// The index offset the direction stands for.
    fn dir_as_isize(dir: &MoveDir) -> isize;

    /// The index reached from `src_no` in direction `dir` on a board of
    /// `size` cells, if it stays on the board.
    fn dist_no(src_no: usize, dir: &MoveDir, size: usize) -> Option<usize>;
}

} // verus!
