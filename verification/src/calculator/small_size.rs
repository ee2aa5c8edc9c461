//! The fixed four-cell diamond topology.

use crate::calculator::Calculator;
use crate::movable_ratio::{board_is_wf, board_wf, MovableRatio};
use crate::move_dir::MoveDir;
use crate::ratio::{reduction_fits, Ratio};
use vstd::prelude::*;

verus! {

/// Calculator for the four-cell diamond board.
///
/// The cells sit at the left (0), top (1), bottom (2) and right (3) of a
/// diamond; each direction is legal only from the source indices listed in
/// [`SmallSizeCalculator::allows_spec`].
#[derive(Debug, Default, Eq, PartialEq)]
pub struct SmallSizeCalculator;

impl SmallSizeCalculator {
    /// The index offset each direction stands for.
    pub open spec fn offset_spec(dir: MoveDir) -> int {
        match dir {
            MoveDir::LeftUp => -2,
            MoveDir::Up => -1,
            MoveDir::RightUp => 1,
            MoveDir::Left => -3,
            MoveDir::Right => 3,
            MoveDir::LeftDown => -1,
            MoveDir::Down => 1,
            MoveDir::RightDown => 2,
        }
    }

    /// The geometric adjacency table: the source indices each direction is
    /// legal from.
    pub open spec fn allows_spec(src: int, dir: MoveDir) -> bool {
        match dir {
            MoveDir::Up => src == 2,
            MoveDir::RightUp => src == 0 || src == 2,
            MoveDir::Right => src == 0,
            MoveDir::RightDown => src == 0 || src == 1,
            MoveDir::Down => src == 1,
            MoveDir::LeftDown => src == 1 || src == 3,
            MoveDir::Left => src == 3,
            MoveDir::LeftUp => src == 2 || src == 3,
        }
    }

    /// Whether the combining operation of `dir`, applied to an occupied
    /// destination, yields a representable result. Swap directions always
    /// do; divide additionally needs a divisor with a nonzero numerator.
    pub open spec fn combine_ok_spec(dir: MoveDir, dist: Ratio, src: Ratio) -> bool {
        match dir {
            MoveDir::LeftUp => src.numer != 0 && reduction_fits(
                dist.numer * src.denom,
                dist.denom * src.numer,
            ),
            MoveDir::RightUp => reduction_fits(dist.numer * src.numer, dist.denom * src.denom),
            MoveDir::LeftDown => reduction_fits(
                dist.numer * src.denom - src.numer * dist.denom,
                dist.denom * src.denom,
            ),
            MoveDir::RightDown => reduction_fits(
                dist.numer * src.denom + src.numer * dist.denom,
                dist.denom * src.denom,
            ),
            _ => true,
        }
    }

    /// The legality oracle: the topology table admits the direction from
    /// `src`, the source cell is occupied and unmoved, the destination lies
    /// on the board, and an occupied destination can absorb the source.
    pub open spec fn can_move_spec(b: Seq<Option<MovableRatio>>, src: int, dir: MoveDir) -> bool {
        &&& Self::allows_spec(src, dir)
        &&& 0 <= src < b.len()
        &&& b[src] is Some
        &&& !b[src]->0.moved
        &&& 0 <= src + Self::offset_spec(dir) < b.len()
        &&& (b[src + Self::offset_spec(dir)] matches Some(dc) ==> Self::combine_ok_spec(
            dir,
            dc.ratio,
            b[src]->0.ratio,
        ))
    }

    /// The index offset each direction stands for.
    pub fn dir_as_isize(dir: &MoveDir) -> (r: isize)
        ensures
            r as int == Self::offset_spec(*dir),
            -3 <= r <= 3,
    {
        match dir {
            MoveDir::LeftUp => -2,
            MoveDir::Up => -1,
            MoveDir::RightUp => 1,
            MoveDir::Left => -3,
            MoveDir::Right => 3,
            MoveDir::LeftDown => -1,
            MoveDir::Down => 1,
            MoveDir::RightDown => 2,
        }
    }

    /// The index reached from `src_no` in direction `dir` on a board of
    /// `size` cells, if it stays on the board.
    pub fn dist_no(src_no: usize, dir: &MoveDir, size: usize) -> (r: Option<usize>)
        ensures
            r is Some <==> 0 <= src_no + Self::offset_spec(*dir) < size,
            (r matches Some(d) ==> d == src_no + Self::offset_spec(*dir)),
    {
        let off = Self::dir_as_isize(dir);
        if off >= 0 {
            let ou = off as usize;
            if src_no < size && size - src_no > ou {
                Some(src_no + ou)
            } else {
                None
            }
        } else {
            let ou = (-off) as usize;
            if src_no >= ou && src_no - ou < size {
                Some(src_no - ou)
            } else {
                None
            }
        }
    }

    /// Whether the topology table admits `dir` from `src_no`.
    pub fn topology_allows(src_no: usize, dir: MoveDir) -> (r: bool)
        ensures
            r == Self::allows_spec(src_no as int, dir),
    {
        match dir {
            MoveDir::Up => src_no == 2,
            MoveDir::RightUp => src_no == 0 || src_no == 2,
            MoveDir::Right => src_no == 0,
            MoveDir::RightDown => src_no == 0 || src_no == 1,
            MoveDir::Down => src_no == 1,
            MoveDir::LeftDown => src_no == 1 || src_no == 3,
            MoveDir::Left => src_no == 3,
            MoveDir::LeftUp => src_no == 2 || src_no == 3,
        }
    }

    /// The legality oracle on a well-formed board.
    pub fn can_move(&self, ratios: &Vec<Option<MovableRatio>>, src_no: usize, dir: MoveDir) -> (r:
        bool)
        requires
            board_wf(ratios@),
        ensures
            r == Self::can_move_spec(ratios@, src_no as int, dir),
    {
        if src_no >= ratios.len() {
            return false;
        }
        let src_ratio = match ratios[src_no] {
            None => {
                return false;
            },
            Some(c) => {
                if c.moved {
                    return false;
                }
                c.ratio
            },
        };
        let dist = match Self::dist_no(src_no, &dir, ratios.len()) {
            None => {
                return false;
            },
            Some(d) => d,
        };
        let content_ok = match ratios[dist] {
            None => true,
            Some(dc) => match dir {
                MoveDir::LeftUp => dc.ratio.checked_div(src_ratio).is_some(),
                MoveDir::RightUp => dc.ratio.checked_mul(src_ratio).is_some(),
                MoveDir::LeftDown => dc.ratio.checked_sub(src_ratio).is_some(),
                MoveDir::RightDown => dc.ratio.checked_add(src_ratio).is_some(),
                _ => true,
            },
        };
        content_ok && Self::topology_allows(src_no, dir)
    }
}

impl Calculator for SmallSizeCalculator {
    /// Declines moves on boards whose cells are not in lowest terms; on
    /// well-formed boards, agrees with [`SmallSizeCalculator::can_move`].
    fn can_move(&self, ratios: &Vec<Option<MovableRatio>>, src_no: usize, dir: MoveDir) -> bool {
        if board_is_wf(ratios) {
            SmallSizeCalculator::can_move(self, ratios, src_no, dir)
        } else {
            false
        }
    }

    fn dir_as_isize(dir: &MoveDir) -> isize {
        SmallSizeCalculator::dir_as_isize(dir)
    }

    fn dist_no(src_no: usize, dir: &MoveDir, size: usize) -> Option<usize> {
        SmallSizeCalculator::dist_no(src_no, dir, size)
    }
}

} // verus!
