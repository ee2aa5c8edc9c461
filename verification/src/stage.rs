//! The mutable board: applies legal moves and tracks reversible history.

use crate::calculator::small_size::SmallSizeCalculator;
use crate::movable_ratio::{board_wf, MovableRatio};
use crate::move_dir::MoveDir;
use crate::ratio::{reduced_denom, reduced_numer, Ratio};
use vstd::pervasive::VecAdditionalExecFns;
use vstd::prelude::*;

verus! {

/// One board snapshot: the contents of every slot.
pub type Board = Seq<Option<MovableRatio>>;

/// The spec-level value of a [`Stage`]: the live board and both history
/// stacks, each stack a sequence of board snapshots with the newest last.
#[verifier::ext_equal]
pub struct StageState {
    /// The live board.
    pub board: Board,
    /// Snapshots that [`Stage::undo`] will restore, newest last.
    pub undo: Seq<Board>,
    /// Snapshots that [`Stage::redo`] will restore, newest last.
    pub redo: Seq<Board>,
}

/// The board handed to a fresh stage: every value occupies its slot,
/// unmoved.
pub open spec fn initial_board(ratios: Seq<Ratio>) -> Board {
    ratios.map_values(|r: Ratio| Some(MovableRatio { moved: false, ratio: r }))
}

/// Numerator of the fraction produced by the combining operation of `dir`
/// on destination value `dist` and source value `src`, before reduction.
pub open spec fn combine_numer(dir: MoveDir, dist: Ratio, src: Ratio) -> int {
    match dir {
        MoveDir::LeftUp => dist.numer * src.denom,
        MoveDir::RightUp => dist.numer * src.numer,
        MoveDir::LeftDown => dist.numer * src.denom - src.numer * dist.denom,
        _ => dist.numer * src.denom + src.numer * dist.denom,
    }
}

/// Denominator mate of [`combine_numer`].
pub open spec fn combine_denom(dir: MoveDir, dist: Ratio, src: Ratio) -> int {
    match dir {
        MoveDir::LeftUp => dist.denom * src.numer,
        _ => dist.denom * src.denom,
    }
}

/// The reduced value produced by the combining operation of `dir`.
pub open spec fn combined_ratio(dir: MoveDir, dist: Ratio, src: Ratio) -> Ratio {
    Ratio {
        numer: reduced_numer(combine_numer(dir, dist, src), combine_denom(dir, dist, src)) as i64,
        denom: reduced_denom(combine_numer(dir, dist, src), combine_denom(dir, dist, src)) as i64,
    }
}

/// The board after the cells at `src` and `dist` trade places; the cell
/// arriving at `dist` is flagged as moved.
pub open spec fn swapped_board(b: Board, src: int, dist: int) -> Board {
    let arriving = match b[src] {
        Some(c) => Some(MovableRatio { moved: true, ratio: c.ratio }),
        None => None,
    };
    b.update(src, b[dist]).update(dist, arriving)
}

/// The board after the cell at `src` moves in direction `dir`: unchanged
/// when the move is illegal; a swap for the straight directions and for a
/// combine into an empty slot; otherwise the destination absorbs the
/// source.
pub open spec fn moved_board(b: Board, src: int, dir: MoveDir) -> Board {
    if !SmallSizeCalculator::can_move_spec(b, src, dir) {
        b
    } else {
        let dist = src + SmallSizeCalculator::offset_spec(dir);
        if dir.is_swap_spec() {
            swapped_board(b, src, dist)
        } else {
            match b[dist] {
                None => swapped_board(b, src, dist),
                Some(dc) => b.update(src, None).update(
                    dist,
                    Some(
                        MovableRatio {
                            moved: false,
                            ratio: combined_ratio(dir, dc.ratio, b[src]->0.ratio),
                        },
                    ),
                ),
            }
        }
    }
}

/// What [`Stage::move_cell`] does to the whole stage: a legal move
/// replaces the board, pushes the old board for undo and clears redo; an
/// illegal move changes nothing.
pub open spec fn spec_move_cell(s: StageState, src: int, dir: MoveDir) -> StageState {
    if SmallSizeCalculator::can_move_spec(s.board, src, dir) {
        StageState {
            board: moved_board(s.board, src, dir),
            undo: s.undo.push(s.board),
            redo: Seq::empty(),
        }
    } else {
        s
    }
}

/// What [`Stage::undo`] does to the whole stage.
pub open spec fn spec_undo(s: StageState) -> StageState {
    if s.undo.len() > 0 {
        StageState {
            board: s.undo.last(),
            undo: s.undo.drop_last(),
            redo: s.redo.push(s.board),
        }
    } else {
        s
    }
}

/// What [`Stage::redo`] does to the whole stage.
pub open spec fn spec_redo(s: StageState) -> StageState {
    if s.redo.len() > 0 {
        StageState {
            board: s.redo.last(),
            undo: s.undo.push(s.board),
            redo: s.redo.drop_last(),
        }
    } else {
        s
    }
}

/// Number of occupied slots.
pub open spec fn occupied_count(b: Board) -> nat
    decreases b.len(),
{
    if b.len() == 0 {
        0
    } else {
        occupied_count(b.drop_last()) + (if b.last() is Some {
            1nat
        } else {
            0nat
        })
    }
}

/// Some slot holds a cell flagged as moved.
pub open spec fn any_moved(b: Board) -> bool {
    exists|i: int| 0 <= i < b.len() && #[trigger] b[i] is Some && b[i]->0.moved
}

/// The slot at `i` can serve as a move source: occupied and unmoved.
pub open spec fn cell_movable(b: Board, i: int) -> bool {
    0 <= i < b.len() && b[i] is Some && !b[i]->0.moved
}

/// A single unmoved value `v` occupies the board: the solved reading.
pub open spec fn is_last_ratio(b: Board, v: Ratio) -> bool {
    &&& occupied_count(b) == 1
    &&& !any_moved(b)
    &&& exists|i: int| 0 <= i < b.len() && b[i] == Some(MovableRatio { moved: false, ratio: v })
}

/// Extending a prefix by one slot counts that slot.
proof fn lemma_occupied_take_step(b: Board, i: int)
    requires
        0 <= i < b.len(),
    ensures
        occupied_count(b.take(i + 1)) == occupied_count(b.take(i)) + (if b[i] is Some {
            1nat
        } else {
            0nat
        }),
{
    assert(b.take(i + 1).drop_last() =~= b.take(i));
    assert(b.take(i + 1).last() == b[i]);
}

/// The occupied count of a four-slot board, slot by slot.
pub proof fn lemma_occupied_count4(b: Board)
    requires
        b.len() == 4,
    ensures
        occupied_count(b) == (if b[0] is Some {
            1nat
        } else {
            0nat
        }) + (if b[1] is Some {
            1nat
        } else {
            0nat
        }) + (if b[2] is Some {
            1nat
        } else {
            0nat
        }) + (if b[3] is Some {
            1nat
        } else {
            0nat
        }),
{
    let b3 = b.drop_last();
    let b2 = b3.drop_last();
    let b1 = b2.drop_last();
    let b0 = b1.drop_last();
    assert(occupied_count(b0) == 0);
    assert(b1.last() == b[0]);
    assert(b2.last() == b[1]);
    assert(b3.last() == b[2]);
    assert(b.last() == b[3]);
    assert(occupied_count(b1) == occupied_count(b0) + (if b[0] is Some {
        1nat
    } else {
        0nat
    }));
    assert(occupied_count(b2) == occupied_count(b1) + (if b[1] is Some {
        1nat
    } else {
        0nat
    }));
    assert(occupied_count(b3) == occupied_count(b2) + (if b[2] is Some {
        1nat
    } else {
        0nat
    }));
    assert(occupied_count(b) == occupied_count(b3) + (if b[3] is Some {
        1nat
    } else {
        0nat
    }));
}

/// The directions among the eight, in canonical order, that `can_move`
/// admits from `src`.
pub open spec fn dir_singleton(b: Board, src: int, dir: MoveDir) -> Seq<MoveDir> {
    if SmallSizeCalculator::can_move_spec(b, src, dir) {
        seq![dir]
    } else {
        Seq::empty()
    }
}

/// The legal directions from `src`, in the fixed canonical order.
pub open spec fn movable_dirs_spec(b: Board, src: int) -> Seq<MoveDir> {
    dir_singleton(b, src, MoveDir::LeftUp) + dir_singleton(b, src, MoveDir::Up) + dir_singleton(
        b,
        src,
        MoveDir::RightUp,
    ) + dir_singleton(b, src, MoveDir::Left) + dir_singleton(b, src, MoveDir::Right)
        + dir_singleton(b, src, MoveDir::LeftDown) + dir_singleton(b, src, MoveDir::Down)
        + dir_singleton(b, src, MoveDir::RightDown)
}

/// What previewing a move shows: the value the destination slot would
/// hold, `None` when there is nothing to preview or the operation fails.
pub open spec fn preview_spec(b: Board, src: int, dir: MoveDir) -> Option<Ratio> {
    if !(0 <= src < b.len() && b[src] is Some && !b[src]->0.moved) {
        None
    } else {
        let sv = b[src]->0.ratio;
        let dist = src + SmallSizeCalculator::offset_spec(dir);
        if !(0 <= dist < b.len()) || b[dist] is None {
            Some(sv)
        } else if dir.is_swap_spec() {
            Some(sv)
        } else if SmallSizeCalculator::combine_ok_spec(dir, b[dist]->0.ratio, sv) {
            Some(combined_ratio(dir, b[dist]->0.ratio, sv))
        } else {
            None
        }
    }
}

/// A direction the topology table does not admit from `src` is never
/// legal, whatever the board holds; neither is a source slot that is
/// empty or already flagged as moved.
pub proof fn lemma_can_move_rejects(b: Board, src: int, dir: MoveDir)
    ensures
        !SmallSizeCalculator::allows_spec(src, dir) ==> !SmallSizeCalculator::can_move_spec(
            b,
            src,
            dir,
        ),
        !cell_movable(b, src) ==> !SmallSizeCalculator::can_move_spec(b, src, dir),
{
}

/// Undoing a just-applied legal move restores the prior board exactly,
/// with the undo stack back where it was.
pub proof fn lemma_undo_reverts_move(s: StageState, src: int, dir: MoveDir)
    requires
        SmallSizeCalculator::can_move_spec(s.board, src, dir),
    ensures
        spec_undo(spec_move_cell(s, src, dir)).board == s.board,
        spec_undo(spec_move_cell(s, src, dir)).undo == s.undo,
{
    assert(s.undo.push(s.board).drop_last() =~= s.undo);
}

/// Redoing right after that undo restores the post-move stage exactly.
pub proof fn lemma_redo_restores_move(s: StageState, src: int, dir: MoveDir)
    requires
        SmallSizeCalculator::can_move_spec(s.board, src, dir),
    ensures
        spec_redo(spec_undo(spec_move_cell(s, src, dir))) == spec_move_cell(s, src, dir),
{
    let moved = spec_move_cell(s, src, dir);
    assert(s.undo.push(s.board).drop_last() =~= s.undo);
    assert(Seq::<Board>::empty().push(moved.board).drop_last() =~= Seq::<Board>::empty());
    assert(Seq::<Board>::empty().push(moved.board).last() == moved.board);
    assert(spec_redo(spec_undo(moved)) =~~= moved);
}

/// Any legal move clears the redo stack, so an undone move cannot be
/// redone once a new move is played.
pub proof fn lemma_move_clears_redo(s: StageState, src: int, dir: MoveDir)
    requires
        SmallSizeCalculator::can_move_spec(s.board, src, dir),
    ensures
        spec_move_cell(s, src, dir).redo == Seq::<Board>::empty(),
{
}

/// Every direction listed by `movable_dirs` is legal.
pub proof fn lemma_movable_dirs_sound(b: Board, src: int, d: MoveDir)
    requires
        movable_dirs_spec(b, src).contains(d),
    ensures
        SmallSizeCalculator::can_move_spec(b, src, d),
{
    let s = movable_dirs_spec(b, src);
    let k = choose|k: int| 0 <= k < s.len() && s[k] == d;
    assert(SmallSizeCalculator::can_move_spec(b, src, s[k]));
}

/// The two terminal readings exclude each other: a solved board still
/// offers its survivor as a move source, so it is never a dead end.
pub proof fn lemma_solved_not_failed(b: Board, v: Ratio)
    requires
        is_last_ratio(b, v),
    ensures
        exists|i: int| cell_movable(b, i),
{
    let w = choose|i: int|
        0 <= i < b.len() && b[i] == Some(MovableRatio { moved: false, ratio: v });
    assert(cell_movable(b, w));
}

/// Replacing one slot shifts the occupied count by the difference.
proof fn lemma_occupied_update(b: Board, i: int, v: Option<MovableRatio>)
    requires
        0 <= i < b.len(),
    ensures
        occupied_count(b.update(i, v)) == occupied_count(b) - (if b[i] is Some {
            1nat
        } else {
            0nat
        }) + (if v is Some {
            1nat
        } else {
            0nat
        }),
    decreases b.len(),
{
    if i == b.len() - 1 {
        assert(b.update(i, v).drop_last() =~= b.drop_last());
        assert(b.update(i, v).last() == v);
    } else {
        lemma_occupied_update(b.drop_last(), i, v);
        assert(b.update(i, v).drop_last() =~= b.drop_last().update(i, v));
        assert(b.update(i, v).last() == b.last());
    }
}

/// The number of values on the board never grows: a swap, or a move into
/// an empty slot, keeps it; a combine into an occupied slot lowers it by
/// one.
pub proof fn lemma_move_keeps_or_lowers_count(b: Board, src: int, dir: MoveDir)
    requires
        SmallSizeCalculator::can_move_spec(b, src, dir),
    ensures
        ({
            let dist = src + SmallSizeCalculator::offset_spec(dir);
            if !dir.is_swap_spec() && b[dist] is Some {
                occupied_count(moved_board(b, src, dir)) == occupied_count(b) - 1
            } else {
                occupied_count(moved_board(b, src, dir)) == occupied_count(b)
            }
        }),
{
    let dist = src + SmallSizeCalculator::offset_spec(dir);
    assert(src != dist);
    if dir.is_swap_spec() || b[dist] is None {
        let arriving = Some(MovableRatio { moved: true, ratio: b[src]->0.ratio });
        lemma_occupied_update(b, src, b[dist]);
        lemma_occupied_update(b.update(src, b[dist]), dist, arriving);
        assert(b.update(src, b[dist])[dist] == b[dist]);
    } else {
        let dc = b[dist]->0;
        let merged = Some(
            MovableRatio { moved: false, ratio: combined_ratio(dir, dc.ratio, b[src]->0.ratio) },
        );
        lemma_occupied_update(b, src, None);
        lemma_occupied_update(b.update(src, None), dist, merged);
        assert(b.update(src, None)[dist] == b[dist]);
    }
}

/// Every legal direction is listed by `movable_dirs`: together with
/// [`lemma_movable_dirs_sound`], the listing holds exactly the directions
/// `can_move` admits.
pub proof fn lemma_movable_dirs_complete(b: Board, src: int, d: MoveDir)
    requires
        SmallSizeCalculator::can_move_spec(b, src, d),
    ensures
        movable_dirs_spec(b, src).contains(d),
{
    broadcast use vstd::seq_lib::lemma_seq_concat_contains_all_elements;

    assert(dir_singleton(b, src, d) == seq![d]);
    assert(dir_singleton(b, src, d)[0] == d);
    assert(dir_singleton(b, src, d).contains(d));
}

/// Weight of one slot for the termination measure: unmoved cells weigh
/// most, moved cells less, empty slots nothing.
pub open spec fn cell_weight(c: Option<MovableRatio>) -> nat {
    match c {
        None => 0,
        Some(m) => if m.moved {
            2
        } else {
            3
        },
    }
}

/// Potential of a board; every legal move strictly lowers it.
pub open spec fn board_measure(b: Board) -> nat
    decreases b.len(),
{
    if b.len() == 0 {
        0
    } else {
        board_measure(b.drop_last()) + cell_weight(b.last())
    }
}

/// Replacing one slot shifts the potential by the difference in weight.
proof fn lemma_measure_update(b: Board, i: int, v: Option<MovableRatio>)
    requires
        0 <= i < b.len(),
    ensures
        board_measure(b.update(i, v)) == board_measure(b) - cell_weight(b[i]) + cell_weight(v),
    decreases b.len(),
{
    if i == b.len() - 1 {
        assert(b.update(i, v).drop_last() =~= b.drop_last());
        assert(b.update(i, v).last() == v);
    } else {
        lemma_measure_update(b.drop_last(), i, v);
        assert(b.update(i, v).drop_last() =~= b.drop_last().update(i, v));
        assert(b.update(i, v).last() == b.last());
    }
}

/// A legal move strictly lowers the board's potential: a swap spends an
/// unmoved cell's eligibility, and a combine empties a slot. Play from
/// any state therefore ends after finitely many moves.
pub proof fn lemma_move_decreases_measure(b: Board, src: int, dir: MoveDir)
    requires
        SmallSizeCalculator::can_move_spec(b, src, dir),
    ensures
        board_measure(moved_board(b, src, dir)) < board_measure(b),
{
    let dist = src + SmallSizeCalculator::offset_spec(dir);
    assert(src != dist);
    if dir.is_swap_spec() || b[dist] is None {
        let arriving = Some(MovableRatio { moved: true, ratio: b[src]->0.ratio });
        lemma_measure_update(b, src, b[dist]);
        lemma_measure_update(b.update(src, b[dist]), dist, arriving);
        assert(b.update(src, b[dist])[dist] == b[dist]);
    } else {
        let dc = b[dist]->0;
        let merged = Some(
            MovableRatio { moved: false, ratio: combined_ratio(dir, dc.ratio, b[src]->0.ratio) },
        );
        lemma_measure_update(b, src, None);
        lemma_measure_update(b.update(src, None), dist, merged);
        assert(b.update(src, None)[dist] == b[dist]);
    }
}

/// The mutable puzzle board with its undo and redo history.
#[derive(Debug)]
pub struct Stage {
    ratios: Vec<Option<MovableRatio>>,
    cache_undo: Vec<Vec<Option<MovableRatio>>>,
    cache_redo: Vec<Vec<Option<MovableRatio>>>,
    calculator: SmallSizeCalculator,
}

/// Copies a board slot for slot.
fn copy_board(b: &Vec<Option<MovableRatio>>) -> (r: Vec<Option<MovableRatio>>)
    ensures
        r@ == b@,
{
    let mut r: Vec<Option<MovableRatio>> = Vec::new();
    let mut i: usize = 0;
    while i < b.len()
        invariant
            i <= b.len(),
            r@ == b@.take(i as int),
        decreases b.len() - i,
    {
        r.push(b[i]);
        proof {
            assert(r@ =~= b@.take(i + 1 as int));
        }
        i = i + 1;
    }
    proof {
        assert(b@.take(b@.len() as int) =~= b@);
    }
    r
}

impl Stage {
    /// The live board.
    pub closed spec fn board(self) -> Board {
        self.ratios@
    }

    /// The stack of boards that [`Stage::undo`] restores, newest last.
    pub closed spec fn undo_stack(self) -> Seq<Board> {
        self.cache_undo@.map_values(|v: Vec<Option<MovableRatio>>| v@)
    }

    /// The stack of boards that [`Stage::redo`] restores, newest last.
    pub closed spec fn redo_stack(self) -> Seq<Board> {
        self.cache_redo@.map_values(|v: Vec<Option<MovableRatio>>| v@)
    }

    /// The whole stage as one spec value.
    pub open spec fn state(self) -> StageState {
        StageState { board: self.board(), undo: self.undo_stack(), redo: self.redo_stack() }
    }

    /// Every held board is well formed and has the live board's size.
    pub open spec fn wf(self) -> bool {
        &&& board_wf(self.board())
        &&& forall|i: int|
            0 <= i < self.undo_stack().len() ==> board_wf(#[trigger] self.undo_stack()[i])
                && self.undo_stack()[i].len() == self.board().len()
        &&& forall|i: int|
            0 <= i < self.redo_stack().len() ==> board_wf(#[trigger] self.redo_stack()[i])
                && self.redo_stack()[i].len() == self.board().len()
    }

    /// A fresh stage over the given values: every slot occupied and
    /// unmoved, both histories empty.
    pub fn new(calculator: SmallSizeCalculator, ratios: Vec<Ratio>) -> (s: Stage)
        requires
            forall|i: int| 0 <= i < ratios@.len() ==> (#[trigger] ratios@[i]).wf(),
        ensures
            s.wf(),
            s.board() == initial_board(ratios@),
            s.undo_stack() == Seq::<Board>::empty(),
            s.redo_stack() == Seq::<Board>::empty(),
    {
        let mut cells: Vec<Option<MovableRatio>> = Vec::new();
        let mut i: usize = 0;
        while i < ratios.len()
            invariant
                i <= ratios.len(),
                forall|k: int| 0 <= k < ratios@.len() ==> (#[trigger] ratios@[k]).wf(),
                cells@ == initial_board(ratios@.take(i as int)),
            decreases ratios.len() - i,
        {
            cells.push(Some(MovableRatio { moved: false, ratio: ratios[i] }));
            proof {
                assert(cells@ =~= initial_board(ratios@.take(i + 1 as int)));
            }
            i = i + 1;
        }
        proof {
            assert(ratios@.take(ratios@.len() as int) =~= ratios@);
        }
        let s = Stage {
            ratios: cells,
            cache_undo: Vec::new(),
            cache_redo: Vec::new(),
            calculator,
        };
        proof {
            assert(s.undo_stack() =~= Seq::<Board>::empty());
            assert(s.redo_stack() =~= Seq::<Board>::empty());
        }
        s
    }

    /// A fresh stage over integer values with the diamond topology.
    pub fn from_integers(values: Vec<i64>) -> (s: Stage)
        requires
            forall|i: int| 0 <= i < values@.len() ==> #[trigger] values@[i] > i64::MIN,
        ensures
            s.wf(),
            s.board() == initial_board(
                values@.map_values(|v: i64| Ratio { numer: v, denom: 1 }),
            ),
            s.undo_stack() == Seq::<Board>::empty(),
            s.redo_stack() == Seq::<Board>::empty(),
    {
        let mut rs: Vec<Ratio> = Vec::new();
        let mut i: usize = 0;
        while i < values.len()
            invariant
                i <= values.len(),
                forall|k: int| 0 <= k < values@.len() ==> #[trigger] values@[k] > i64::MIN,
                rs@ == values@.take(i as int).map_values(|v: i64| Ratio { numer: v, denom: 1 }),
                forall|k: int| 0 <= k < rs@.len() ==> (#[trigger] rs@[k]).wf(),
        decreases values.len() - i,
    {
            rs.push(Ratio::from_int(values[i]));
            proof {
                assert(rs@ =~= values@.take(i + 1 as int).map_values(
                    |v: i64| Ratio { numer: v, denom: 1 },
                ));
            }
            i = i + 1;
        }
        proof {
            assert(values@.take(values@.len() as int) =~= values@);
        }
        Stage::new(SmallSizeCalculator, rs)
    }

    /// The legality oracle for the current board.
    pub fn can_move(&self, src: usize, dir: MoveDir) -> (r: bool)
        requires
            self.wf(),
        ensures
            r == SmallSizeCalculator::can_move_spec(self.board(), src as int, dir),
    {
        self.calculator.can_move(&self.ratios, src, dir)
    }

    /// Exchanges two slots, flagging the cell that arrives at `dist`.
    fn swap_cells(&mut self, src: usize, dist: usize)
        requires
            src < old(self).board().len(),
            dist < old(self).board().len(),
        ensures
            final(self).board() == swapped_board(old(self).board(), src as int, dist as int),
            final(self).undo_stack() == old(self).undo_stack(),
            final(self).redo_stack() == old(self).redo_stack(),
    {
        let a = self.ratios[src];
        let b = self.ratios[dist];
        self.ratios.set(src, b);
        let arriving = match a {
            Some(c) => Some(MovableRatio { moved: true, ratio: c.ratio }),
            None => None,
        };
        self.ratios.set(dist, arriving);
    }

    /// Applies a legal move and records the prior board for undo; an
    /// illegal move leaves the stage untouched.
    pub fn move_cell(&mut self, src_no: usize, dir: MoveDir)
        requires
            old(self).wf(),
        ensures
            final(self).wf(),
            final(self).state() == spec_move_cell(old(self).state(), src_no as int, dir),
    {
        if !self.can_move(src_no, dir) {
            return;
        }
        let ghost old_board = self.board();
        let snapshot = copy_board(&self.ratios);
        self.cache_undo.push(snapshot);
        self.cache_redo.clear();
        proof {
            assert(self.undo_stack() =~= old(self).undo_stack().push(old_board));
            assert(self.redo_stack() =~= Seq::<Board>::empty());
        }
        let dist_no = SmallSizeCalculator::dist_no(src_no, &dir, self.ratios.len()).unwrap();
        let src_ratio = self.ratios[src_no].unwrap().ratio;
        if dir.is_swap() {
            self.swap_cells(src_no, dist_no);
        } else {
            match self.ratios[dist_no] {
                None => self.swap_cells(src_no, dist_no),
                Some(dc) => {
                    let newr = match dir {
                        MoveDir::LeftUp => dc.ratio.checked_div(src_ratio).unwrap(),
                        MoveDir::RightUp => dc.ratio.checked_mul(src_ratio).unwrap(),
                        MoveDir::LeftDown => dc.ratio.checked_sub(src_ratio).unwrap(),
                        _ => dc.ratio.checked_add(src_ratio).unwrap(),
                    };
                    self.ratios.set(dist_no, Some(MovableRatio { moved: false, ratio: newr }));
                    self.ratios.set(src_no, None);
                },
            }
        }
        proof {
            assert(final(self).board() =~= moved_board(old_board, src_no as int, dir));
            assert(final(self).state() =~~= spec_move_cell(old(self).state(), src_no as int, dir));
        }
    }

    /// The single surviving value, when exactly one slot is occupied and
    /// no slot is flagged moved: the win-detection predicate.
    pub fn last_ratio(&self) -> (r: Option<Ratio>)
        ensures
            (r matches Some(v) ==> is_last_ratio(self.board(), v)),
            (r is None ==> !(occupied_count(self.board()) == 1 && !any_moved(self.board()))),
    {
        let mut count: usize = 0;
        let mut found: Option<Ratio> = None;
        let mut i: usize = 0;
        while i < self.ratios.len()
            invariant
                i <= self.ratios.len(),
                count <= i,
                count == occupied_count(self.board().take(i as int)),
                forall|j: int| 0 <= j < i ==> !(#[trigger] self.board()[j] is Some
                    && self.board()[j]->0.moved),
                count >= 1 ==> found is Some && exists|j: int|
                    0 <= j < i && self.board()[j] == Some(
                        MovableRatio { moved: false, ratio: found->0 },
                    ),
                count == 0 ==> found is None,
            decreases self.ratios.len() - i,
        {
            proof {
                lemma_occupied_take_step(self.board(), i as int);
            }
            match self.ratios[i] {
                Some(c) => {
                    if c.moved {
                        return None;
                    }
                    count = count + 1;
                    found = Some(c.ratio);
                },
                None => {},
            }
            i = i + 1;
        }
        proof {
            assert(self.board().take(self.board().len() as int) =~= self.board());
        }
        if count == 1 {
            found
        } else {
            None
        }
    }

    /// The indices of every occupied, unmoved slot, in ascending order.
    pub fn movable_indices(&self) -> (r: Vec<usize>)
        ensures
            forall|k1: int, k2: int| 0 <= k1 < k2 < r@.len() ==> r@[k1] < r@[k2],
            forall|k: int| 0 <= k < r@.len() ==> cell_movable(self.board(), #[trigger] r@[k] as int),
            forall|i: int|
                #[trigger] cell_movable(self.board(), i) ==> r@.contains(i as usize),
    {
        let mut r: Vec<usize> = Vec::new();
        let mut i: usize = 0;
        while i < self.ratios.len()
            invariant
                i <= self.ratios.len(),
                forall|k1: int, k2: int| 0 <= k1 < k2 < r@.len() ==> r@[k1] < r@[k2],
                forall|k: int| 0 <= k < r@.len() ==> cell_movable(
                    self.board(),
                    #[trigger] r@[k] as int,
                ) && r@[k] < i,
                forall|j: int|
                    0 <= j < i && #[trigger] cell_movable(self.board(), j) ==> r@.contains(
                        j as usize,
                    ),
            decreases self.ratios.len() - i,
        {
            let ghost old_r = r@;
            match self.ratios[i] {
                Some(c) => {
                    if !c.moved {
                        r.push(i);
                    }
                },
                None => {},
            }
            proof {
                assert forall|j: int|
                    0 <= j < i + 1 && #[trigger] cell_movable(self.board(), j) implies r@.contains(
                    j as usize,
                ) by {
                    if j < i {
                        let k = choose|k: int| 0 <= k < old_r.len() && old_r[k] == j as usize;
                        assert(r@[k] == j as usize);
                    } else {
                        assert(r@[r@.len() - 1] == i as usize);
                    }
                }
            }
            i = i + 1;
        }
        r
    }

    /// Whether no legal move source remains: every slot is empty or moved.
    pub fn failed(&self) -> (r: bool)
        ensures
            r == (forall|i: int| !(#[trigger] cell_movable(self.board(), i))),
    {
        let mut i: usize = 0;
        while i < self.ratios.len()
            invariant
                i <= self.ratios.len(),
                forall|j: int| 0 <= j < i ==> !(#[trigger] cell_movable(self.board(), j)),
            decreases self.ratios.len() - i,
        {
            match self.ratios[i] {
                Some(c) => {
                    if !c.moved {
                        assert(cell_movable(self.board(), i as int));
                        return false;
                    }
                },
                None => {},
            }
            i = i + 1;
        }
        true
    }

    /// The legal directions from `src`, in the fixed canonical order.
    pub fn movable_dirs(&self, src: usize) -> (r: Vec<MoveDir>)
        requires
            self.wf(),
        ensures
            r@ == movable_dirs_spec(self.board(), src as int),
    {
        let mut r: Vec<MoveDir> = Vec::new();
        if self.can_move(src, MoveDir::LeftUp) {
            r.push(MoveDir::LeftUp);
        }
        if self.can_move(src, MoveDir::Up) {
            r.push(MoveDir::Up);
        }
        if self.can_move(src, MoveDir::RightUp) {
            r.push(MoveDir::RightUp);
        }
        if self.can_move(src, MoveDir::Left) {
            r.push(MoveDir::Left);
        }
        if self.can_move(src, MoveDir::Right) {
            r.push(MoveDir::Right);
        }
        if self.can_move(src, MoveDir::LeftDown) {
            r.push(MoveDir::LeftDown);
        }
        if self.can_move(src, MoveDir::Down) {
            r.push(MoveDir::Down);
        }
        if self.can_move(src, MoveDir::RightDown) {
            r.push(MoveDir::RightDown);
        }
        proof {
            assert(r@ =~= movable_dirs_spec(self.board(), src as int));
        }
        r
    }

    /// The index the direction reaches from `src_no`, if on the board.
    pub fn move_dist_no(&self, src_no: usize, dir: &MoveDir) -> (r: Option<usize>)
        ensures
            r is Some <==> 0 <= src_no + SmallSizeCalculator::offset_spec(*dir)
                < self.board().len(),
            (r matches Some(d) ==> d == src_no + SmallSizeCalculator::offset_spec(*dir)),
    {
        SmallSizeCalculator::dist_no(src_no, dir, self.ratios.len())
    }

    /// The content of the slot the direction reaches from `src`, if on the
    /// board.
    pub fn move_dist(&self, src: usize, dir: MoveDir) -> (r: Option<Option<MovableRatio>>)
        ensures
            r is Some <==> 0 <= src + SmallSizeCalculator::offset_spec(dir) < self.board().len(),
            (r matches Some(c) ==> c == self.board()[src + SmallSizeCalculator::offset_spec(dir)]),
    {
        match SmallSizeCalculator::dist_no(src, &dir, self.ratios.len()) {
            Some(d) => Some(self.ratios[d]),
            None => None,
        }
    }

    /// The value the destination would hold after moving `src_no` in
    /// direction `dir`, ignoring the legality table; `None` when the source
    /// cannot move or the operation fails.
    pub fn preview_move_dist(&self, src_no: usize, dir: MoveDir) -> (r: Option<Ratio>)
        requires
            self.wf(),
        ensures
            r == preview_spec(self.board(), src_no as int, dir),
    {
        if src_no >= self.ratios.len() {
            return None;
        }
        let src_ratio = match self.ratios[src_no] {
            None => {
                return None;
            },
            Some(c) => {
                if c.moved {
                    return None;
                }
                c.ratio
            },
        };
        let dc = match SmallSizeCalculator::dist_no(src_no, &dir, self.ratios.len()) {
            None => {
                return Some(src_ratio);
            },
            Some(d) => match self.ratios[d] {
                None => {
                    return Some(src_ratio);
                },
                Some(dc) => dc,
            },
        };
        match dir {
            MoveDir::LeftUp => dc.ratio.checked_div(src_ratio),
            MoveDir::RightUp => dc.ratio.checked_mul(src_ratio),
            MoveDir::LeftDown => dc.ratio.checked_sub(src_ratio),
            MoveDir::RightDown => dc.ratio.checked_add(src_ratio),
            _ => Some(src_ratio),
        }
    }

    /// A view of the whole board.
    pub fn movable_ratios(&self) -> (r: &Vec<Option<MovableRatio>>)
        ensures
            r@ == self.board(),
    {
        &self.ratios
    }

    /// The values alone, with the moved flags stripped.
    pub fn ratios(&self) -> (r: Vec<Option<Ratio>>)
        ensures
            r@ == self.board().map_values(
                |c: Option<MovableRatio>|
                    match c {
                        Some(m) => Some(m.ratio),
                        None => None,
                    },
            ),
    {
        let mut r: Vec<Option<Ratio>> = Vec::new();
        let mut i: usize = 0;
        while i < self.ratios.len()
            invariant
                i <= self.ratios.len(),
                r@ == self.board().take(i as int).map_values(
                    |c: Option<MovableRatio>|
                        match c {
                            Some(m) => Some(m.ratio),
                            None => None,
                        },
                ),
            decreases self.ratios.len() - i,
        {
            match self.ratios[i] {
                Some(m) => r.push(Some(m.ratio)),
                None => r.push(None),
            }
            proof {
                assert(r@ =~= self.board().take(i + 1 as int).map_values(
                    |c: Option<MovableRatio>|
                        match c {
                            Some(m) => Some(m.ratio),
                            None => None,
                        },
                ));
            }
            i = i + 1;
        }
        proof {
            assert(self.board().take(self.board().len() as int) =~= self.board());
        }
        r
    }

    /// Restores the newest undo snapshot, saving the current board for
    /// redo; does nothing when there is nothing to undo.
    pub fn undo(&mut self)
        requires
            old(self).wf(),
        ensures
            final(self).wf(),
            final(self).state() == spec_undo(old(self).state()),
    {
        let n = self.cache_undo.len();
        if n == 0 {
            return;
        }
        let cache = self.cache_undo.pop().unwrap();
        let current = copy_board(&self.ratios);
        self.cache_redo.push(current);
        self.ratios = cache;
        proof {
            assert(final(self).undo_stack() =~= old(self).undo_stack().drop_last());
            assert(final(self).redo_stack() =~= old(self).redo_stack().push(old(self).board()));
            assert(final(self).state() =~~= spec_undo(old(self).state()));
        }
    }

    /// Restores the newest redo snapshot, saving the current board for
    /// undo; does nothing when there is nothing to redo.
    pub fn redo(&mut self)
        requires
            old(self).wf(),
        ensures
            final(self).wf(),
            final(self).state() == spec_redo(old(self).state()),
    {
        let n = self.cache_redo.len();
        if n == 0 {
            return;
        }
        let cache = self.cache_redo.pop().unwrap();
        let current = copy_board(&self.ratios);
        self.cache_undo.push(current);
        self.ratios = cache;
        proof {
            assert(final(self).redo_stack() =~= old(self).redo_stack().drop_last());
            assert(final(self).undo_stack() =~= old(self).undo_stack().push(old(self).board()));
            assert(final(self).state() =~~= spec_redo(old(self).state()));
        }
    }
}

} // verus!
