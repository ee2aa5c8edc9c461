//! The live content of a board cell.

use crate::ratio::Ratio;
use vstd::prelude::*;

verus! {

/// A cell's value together with its "moved" flag.
///
/// The flag marks a cell that just arrived by a swap and is temporarily
/// ineligible as a move source.
#[derive(Copy, Clone, Debug, Eq, PartialEq, Structural)]
pub struct MovableRatio {
    /// Whether the cell was the destination of a swap this round.
    pub moved: bool,
    /// The cell's value.
    pub ratio: Ratio,
}

/// Every occupied cell of the board holds a well-formed ratio.
pub open spec fn board_wf(b: Seq<Option<MovableRatio>>) -> bool {
    forall|i: int| 0 <= i < b.len() ==> (#[trigger] b[i] matches Some(c) ==> c.ratio.wf())
}

/// Decides [`board_wf`] at run time.
pub fn board_is_wf(ratios: &Vec<Option<MovableRatio>>) -> (b: bool)
    ensures
        b == board_wf(ratios@),
{
    let mut i: usize = 0;
    while i < ratios.len()
        invariant
            i <= ratios.len(),
            forall|j: int|
                0 <= j < i ==> (#[trigger] ratios@[j] matches Some(c) ==> c.ratio.wf()),
        decreases ratios.len() - i,
    {
        match &ratios[i] {
            Some(c) => {
                if !c.ratio.is_reduced() {
                    return false;
                }
            },
            None => {},
        }
        i = i + 1;
    }
    true
}

impl MovableRatio {
    /// A cell already marked as moved, as it stands right after a swap.
    pub fn new_moved(ratio: Ratio) -> (r: MovableRatio)
        ensures
            r.moved,
            r.ratio == ratio,
    {
        MovableRatio { moved: true, ratio }
    }

    /// An unmoved cell holding the integer `v`.
    pub fn from_int(v: i64) -> (r: MovableRatio)
        requires
            v > i64::MIN,
        ensures
            !r.moved,
            r.ratio.wf(),
            r.ratio.numer == v,
            r.ratio.denom == 1,
    {
        MovableRatio { moved: false, ratio: Ratio::from_int(v) }
    }
}

impl From<Ratio> for MovableRatio {
    /// An unmoved cell holding `value`.
    fn from(value: Ratio) -> (r: MovableRatio) {
        MovableRatio { moved: false, ratio: value }
    }
}

impl vstd::std_specs::convert::FromSpecImpl<Ratio> for MovableRatio {
    open spec fn obeys_from_spec() -> bool {
        true
    }

    open spec fn from_spec(value: Ratio) -> MovableRatio {
        MovableRatio { moved: false, ratio: value }
    }
}

} // verus!
