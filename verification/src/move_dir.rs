//! The eight directions a cell can move in.

use vstd::prelude::*;

verus! {

/// A direction of motion on the board.
///
/// The four straight directions swap two cells; the four diagonal
/// directions combine the source cell into the destination cell with an
/// arithmetic operation (divide, multiply, subtract or add).
#[derive(Debug, Copy, Clone, Eq, PartialEq, Structural)]
pub enum MoveDir {
    LeftUp,
    Up,
    RightUp,
    Left,
    Right,
    LeftDown,
    Down,
    RightDown,
}

impl MoveDir {
    /// Whether the direction swaps cells rather than combining them.
    pub open spec fn is_swap_spec(self) -> bool {
        match self {
            MoveDir::Up | MoveDir::Left | MoveDir::Right | MoveDir::Down => true,
            _ => false,
        }
    }

    /// The direction that undoes this one.
    pub open spec fn reverse_spec(self) -> MoveDir {
        match self {
            MoveDir::LeftUp => MoveDir::RightDown,
            MoveDir::Up => MoveDir::Down,
            MoveDir::RightUp => MoveDir::LeftDown,
            MoveDir::Left => MoveDir::Right,
            MoveDir::Right => MoveDir::Left,
            MoveDir::LeftDown => MoveDir::RightUp,
            MoveDir::Down => MoveDir::Up,
            MoveDir::RightDown => MoveDir::LeftUp,
        }
    }

    /// Name of the sprite that pictures the direction's operation.
    pub open spec fn asset_path_spec(self) -> Seq<char> {
        match self {
            MoveDir::LeftUp => "div.png"@,
            MoveDir::RightUp => "mul.png"@,
            MoveDir::LeftDown => "sub.png"@,
            MoveDir::RightDown => "add.png"@,
            _ => "swap.png"@,
        }
    }

    /// Name of the sprite that pictures the direction's operation.
    pub fn asset_path(&self) -> (r: &'static str)
        ensures
            r@ == self.asset_path_spec(),
    {
        match self {
            MoveDir::LeftUp => "div.png",
            MoveDir::RightUp => "mul.png",
            MoveDir::LeftDown => "sub.png",
            MoveDir::RightDown => "add.png",
            _ => "swap.png",
        }
    }

    /// Whether the direction swaps cells rather than combining them.
    pub fn is_swap(&self) -> (r: bool)
        ensures
            r == self.is_swap_spec(),
    {
        matches!(self, MoveDir::Up | MoveDir::Left | MoveDir::Right | MoveDir::Down)
    }

    /// The direction that undoes this one.
    pub fn reverse(&self) -> (r: MoveDir)
        ensures
            r == self.reverse_spec(),
    {
        match self {
            MoveDir::LeftUp => MoveDir::RightDown,
            MoveDir::Up => MoveDir::Down,
            MoveDir::RightUp => MoveDir::LeftDown,
            MoveDir::Left => MoveDir::Right,
            MoveDir::Right => MoveDir::Left,
            MoveDir::LeftDown => MoveDir::RightUp,
            MoveDir::Down => MoveDir::Up,
            MoveDir::RightDown => MoveDir::LeftUp,
        }
    }
}

} // verus!
