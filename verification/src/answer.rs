//! The randomized answer generator: searches for a solvable random walk
//! and records the move sequence that replays it.

pub mod steps;

use crate::answer::steps::Steps;
use crate::arith::lemma_gcd_one;
use crate::calculator::small_size::SmallSizeCalculator;
use crate::movable_ratio::MovableRatio;
use crate::move_dir::MoveDir;
use crate::ratio::{lemma_reduce_int, nat_abs, Ratio};
use crate::stage::{
    board_measure, initial_board, is_last_ratio, lemma_move_decreases_measure,
    lemma_movable_dirs_sound, lemma_occupied_count4, moved_board, movable_dirs_spec,
    occupied_count, Board, Stage,
};
use vstd::prelude::*;

verus! {

/// How many random walks are tried before the deterministic fallback
/// script settles the board.
const RETRY_LIMIT: usize = 10000;

/// A generated puzzle answer: the surviving target value and the steps
/// that reach it from the initial board.
pub struct AnswerInfo {
    /// The single value left on the solved board.
    pub ratio: Ratio,
    /// The move sequence that reaches it.
    pub steps: Steps,
}

/// The board after replaying `steps` through `move_cell` semantics; an
/// illegal step leaves the board as it stands.
pub open spec fn replayed_board(b: Board, steps: Seq<(usize, MoveDir)>) -> Board
    decreases steps.len(),
{
    if steps.len() == 0 {
        b
    } else {
        replayed_board(moved_board(b, steps[0].0 as int, steps[0].1), steps.drop_first())
    }
}

/// Replaying one more recorded step is one more move.
pub proof fn lemma_replay_snoc(b: Board, steps: Seq<(usize, MoveDir)>, s: (usize, MoveDir))
    ensures
        replayed_board(b, steps.push(s)) == moved_board(
            replayed_board(b, steps),
            s.0 as int,
            s.1,
        ),
    decreases steps.len(),
{
    if steps.len() == 0 {
        assert(steps.push(s).drop_first() =~= Seq::<(usize, MoveDir)>::empty());
        assert(steps.push(s)[0] == s);
        assert(replayed_board(b, steps.push(s)) == replayed_board(
            moved_board(b, s.0 as int, s.1),
            steps.push(s).drop_first(),
        ));
        assert(replayed_board(moved_board(b, s.0 as int, s.1), Seq::<(usize, MoveDir)>::empty())
            == moved_board(b, s.0 as int, s.1));
        assert(replayed_board(b, steps) == b);
    } else {
        assert(steps.push(s).drop_first() =~= steps.drop_first().push(s));
        assert(steps.push(s)[0] == steps[0]);
        assert(replayed_board(b, steps.push(s)) == replayed_board(
            moved_board(b, steps[0].0 as int, steps[0].1),
            steps.drop_first().push(s),
        ));
        lemma_replay_snoc(moved_board(b, steps[0].0 as int, steps[0].1), steps.drop_first(), s);
        assert(replayed_board(b, steps) == replayed_board(
            moved_board(b, steps[0].0 as int, steps[0].1),
            steps.drop_first(),
        ));
    }
}

#[verifier::external_type_specification]
#[verifier::external_body]
pub struct ExThreadRng(rand::rngs::ThreadRng);

/// Relies on rand::thread_rng: a handle to the thread-local generator.
#[verifier::external_body]
fn new_rng() -> rand::rngs::ThreadRng {
    rand::thread_rng()
}

/// Relies on rand's SliceRandom::shuffle: the slice afterwards holds the
/// same elements, reordered in place.
#[verifier::external_body]
fn shuffle<T>(v: &mut Vec<T>, rng: &mut rand::rngs::ThreadRng)
    ensures
        final(v)@.to_multiset() == old(v)@.to_multiset(),
{
    rand::seq::SliceRandom::shuffle(v.as_mut_slice(), rng);
}

/// Copies a value vector slot for slot.
fn copy_values(v: &Vec<Ratio>) -> (r: Vec<Ratio>)
    ensures
        r@ == v@,
{
    let mut r: Vec<Ratio> = Vec::new();
    let mut i: usize = 0;
    while i < v.len()
        invariant
            i <= v.len(),
            r@ == v@.take(i as int),
        decreases v.len() - i,
    {
        r.push(v[i]);
        proof {
            assert(r@ =~= v@.take(i + 1 as int));
        }
        i = i + 1;
    }
    proof {
        assert(v@.take(v@.len() as int) =~= v@);
    }
    r
}

/// One random walk over a fresh stage: repeatedly picks a random movable
/// cell and a random legal direction, until a single unmoved value
/// survives (success) or no move remains (the attempt is discarded).
fn try_generate(stage: &mut Stage, rng: &mut rand::rngs::ThreadRng) -> (r: Option<AnswerInfo>)
    requires
        old(stage).wf(),
    ensures
        final(stage).wf(),
        (r matches Some(info) ==> {
            let replayed = replayed_board(old(stage).board(), info.steps@);
            &&& is_last_ratio(replayed, info.ratio)
            &&& replayed == final(stage).board()
        }),
{
    let ghost b0 = stage.board();
    let mut steps = Steps::new();
    loop
        invariant
            stage.wf(),
            b0 == old(stage).board(),
            replayed_board(b0, steps@) == stage.board(),
        decreases board_measure(stage.board()),
    {
        let mut indices = stage.movable_indices();
        shuffle(&mut indices, rng);
        let cell_no = match indices.pop() {
            None => {
                return None;
            },
            Some(i) => i,
        };
        let mut dirs = stage.movable_dirs(cell_no);
        let ghost dirs_spec = movable_dirs_spec(stage.board(), cell_no as int);
        shuffle(&mut dirs, rng);
        let ghost shuffled = dirs@;
        let dir = match dirs.pop() {
            None => {
                return None;
            },
            Some(d) => d,
        };
        proof {
            shuffled.to_multiset_ensures();
            dirs_spec.to_multiset_ensures();
            assert(shuffled[shuffled.len() - 1] == dir);
            assert(shuffled.contains(dir));
            assert(dirs_spec.to_multiset().count(dir) > 0);
            lemma_movable_dirs_sound(stage.board(), cell_no as int, dir);
        }
        let ghost pre_steps = steps@;
        let ghost pre_board = stage.board();
        steps.push(cell_no, dir);
        stage.move_cell(cell_no, dir);
        proof {
            lemma_replay_snoc(b0, pre_steps, (cell_no, dir));
            lemma_move_decreases_measure(pre_board, cell_no as int, dir);
        }
        match stage.last_ratio() {
            Some(target) => {
                proof {
                    assert(replayed_board(b0, steps@) == stage.board());
                    assert(is_last_ratio(stage.board(), target));
                }
                return Some(AnswerInfo { ratio: target, steps });
            },
            None => {},
        }
    }
}

impl AnswerInfo {
    /// Generates a puzzle answer for a fresh board of small positive
    /// integers: random walks are tried first, and a fixed always-legal
    /// script settles the board if every walk stalls. The returned steps,
    /// replayed on a fresh stage over the same values, leave exactly the
    /// returned target value.
    pub fn generate(ratios: Vec<Ratio>) -> (r: AnswerInfo)
        requires
            ratios@.len() == 4,
            forall|i: int|
                0 <= i < 4 ==> (#[trigger] ratios@[i]).denom == 1 && 1 <= ratios@[i].numer <= 10,
        ensures
            is_last_ratio(replayed_board(initial_board(ratios@), r.steps@), r.ratio),
    {
        proof {
            assert forall|i: int| 0 <= i < ratios@.len() implies (#[trigger] ratios@[i]).wf() by {
                lemma_gcd_one(nat_abs(ratios@[i].numer as int));
            }
        }
        let mut rng = new_rng();
        let mut attempts: usize = 0;
        while attempts < RETRY_LIMIT
            invariant
                ratios@.len() == 4,
                forall|i: int|
                    0 <= i < 4 ==> (#[trigger] ratios@[i]).denom == 1 && 1 <= ratios@[i].numer
                        <= 10,
                forall|i: int| 0 <= i < ratios@.len() ==> (#[trigger] ratios@[i]).wf(),
            decreases RETRY_LIMIT - attempts,
        {
            let mut stage = Stage::new(SmallSizeCalculator, copy_values(&ratios));
            match try_generate(&mut stage, &mut rng) {
                Some(info) => {
                    return info;
                },
                None => {},
            }
            attempts = attempts + 1;
        }
        fixed_script(ratios)
    }
}

/// Draws four distinct integers from one to ten, shuffled, each as a
/// unit-denominator ratio.
pub fn generate_random_ratios() -> (r: Vec<Ratio>)
    ensures
        r@.len() == 4,
        forall|i: int|
            0 <= i < 4 ==> (#[trigger] r@[i]).denom == 1 && 1 <= r@[i].numer <= 10 && r@[i].wf(),
        forall|i: int, j: int| 0 <= i < j < 4 ==> r@[i].numer != r@[j].numer,
{
    let mut rng = new_rng();
    let mut nums: Vec<i64> = Vec::new();
    let mut k: i64 = 1;
    while k <= 10
        invariant
            1 <= k <= 11,
            nums@.len() == k - 1,
            forall|i: int| 0 <= i < nums@.len() ==> #[trigger] nums@[i] == i + 1,
        decreases 11 - k,
    {
        nums.push(k);
        k = k + 1;
    }
    let ghost pool = nums@;
    shuffle(&mut nums, &mut rng);
    let ghost s = nums@;
    proof {
        assert(pool.no_duplicates());
        pool.lemma_multiset_has_no_duplicates();
        s.to_multiset_ensures();
        pool.to_multiset_ensures();
        s.lemma_multiset_has_no_duplicates_conv();
        assert forall|i: int| 0 <= i < s.len() implies 1 <= #[trigger] s[i] <= 10 by {
            assert(s.contains(s[i]));
            assert(pool.to_multiset().count(s[i]) > 0);
            assert(pool.contains(s[i]));
            let w = choose|w: int| 0 <= w < pool.len() && pool[w] == s[i];
            assert(pool[w] == w + 1);
        }
    }
    let mut r: Vec<Ratio> = Vec::new();
    let mut n: usize = 0;
    while n < 4
        invariant
            n <= 4,
            s.len() == 10,
            forall|i: int| 0 <= i < s.len() ==> 1 <= #[trigger] s[i] <= 10,
            forall|i: int, j: int| 0 <= i < j < s.len() ==> s[i] != s[j],
            nums@ == s.subrange(0, 10 - n),
            r@.len() == n,
            forall|i: int| 0 <= i < r@.len() ==> #[trigger] r@[i] == (Ratio {
                numer: s[9 - i] as i64,
                denom: 1,
            }),
        decreases 4 - n,
    {
        let v = nums.pop().unwrap();
        r.push(Ratio::from_int(v));
        proof {
            assert(nums@ =~= s.subrange(0, 10 - (n + 1)));
        }
        n = n + 1;
    }
    proof {
        assert forall|i: int| 0 <= i < 4 implies (#[trigger] r@[i]).denom == 1 && 1 <= r@[i].numer
            <= 10 && r@[i].wf() by {
            assert(r@[i] == Ratio { numer: s[9 - i] as i64, denom: 1 });
            lemma_gcd_one(nat_abs(r@[i].numer as int));
        }
    }
    r
}

/// The deterministic fallback: add the cell at index 0 into index 2, add
/// index 1 into index 3, then multiply index 2 into index 3. On a fresh
/// board of integers from one to ten every step is legal and leaves no
/// moved flag, so a single unmoved value survives.
fn fixed_script(ratios: Vec<Ratio>) -> (r: AnswerInfo)
    requires
        ratios@.len() == 4,
        forall|i: int|
            0 <= i < 4 ==> (#[trigger] ratios@[i]).denom == 1 && 1 <= ratios@[i].numer <= 10,
    ensures
        is_last_ratio(replayed_board(initial_board(ratios@), r.steps@), r.ratio),
{
    proof {
        assert forall|i: int| 0 <= i < ratios@.len() implies (#[trigger] ratios@[i]).wf() by {
            lemma_gcd_one(nat_abs(ratios@[i].numer as int));
        }
    }
    let ghost c0 = ratios@[0];
    let ghost c1 = ratios@[1];
    let ghost c2 = ratios@[2];
    let ghost c3 = ratios@[3];
    let mut stage = Stage::new(SmallSizeCalculator, ratios);
    let ghost b0 = stage.board();
    let mut steps = Steps::new();

    proof {
        assert(b0[0] == Some(MovableRatio { moved: false, ratio: c0 }));
        assert(b0[2] == Some(MovableRatio { moved: false, ratio: c2 }));
        lemma_reduce_int(c2.numer + c0.numer);
        assert(SmallSizeCalculator::can_move_spec(b0, 0, MoveDir::RightDown));
    }
    steps.push(0, MoveDir::RightDown);
    stage.move_cell(0, MoveDir::RightDown);
    let ghost sum1 = Ratio { numer: (c2.numer + c0.numer) as i64, denom: 1 };
    let ghost b1 = b0.update(0, None).update(2, Some(MovableRatio { moved: false, ratio: sum1 }));
    proof {
        lemma_replay_snoc(b0, Seq::<(usize, MoveDir)>::empty(), (0usize, MoveDir::RightDown));
        assert(steps@ =~= Seq::<(usize, MoveDir)>::empty().push((0usize, MoveDir::RightDown)));
        assert(stage.board() == moved_board(b0, 0, MoveDir::RightDown));
        assert(stage.board() =~= b1);
    }

    proof {
        assert(b1[1] == Some(MovableRatio { moved: false, ratio: c1 }));
        assert(b1[3] == Some(MovableRatio { moved: false, ratio: c3 }));
        lemma_reduce_int(c3.numer + c1.numer);
        assert(SmallSizeCalculator::can_move_spec(b1, 1, MoveDir::RightDown));
    }
    let ghost s1 = steps@;
    steps.push(1, MoveDir::RightDown);
    stage.move_cell(1, MoveDir::RightDown);
    let ghost sum2 = Ratio { numer: (c3.numer + c1.numer) as i64, denom: 1 };
    let ghost b2 = b1.update(1, None).update(3, Some(MovableRatio { moved: false, ratio: sum2 }));
    proof {
        lemma_replay_snoc(b0, s1, (1usize, MoveDir::RightDown));
        assert(stage.board() =~= b2);
    }

    proof {
        assert(b2[2] == Some(MovableRatio { moved: false, ratio: sum1 }));
        assert(b2[3] == Some(MovableRatio { moved: false, ratio: sum2 }));
        assert(4 <= sum2.numer * sum1.numer <= 400) by (nonlinear_arith)
            requires
                2 <= sum1.numer <= 20,
                2 <= sum2.numer <= 20,
        ;
        assert(sum2.denom * sum1.denom == 1) by (nonlinear_arith)
            requires
                sum2.denom == 1,
                sum1.denom == 1,
        ;
        lemma_reduce_int(sum2.numer * sum1.numer);
        assert(SmallSizeCalculator::can_move_spec(b2, 2, MoveDir::RightUp));
    }
    let ghost s2 = steps@;
    steps.push(2, MoveDir::RightUp);
    stage.move_cell(2, MoveDir::RightUp);
    let ghost prod = Ratio { numer: (sum2.numer * sum1.numer) as i64, denom: 1 };
    let ghost b3 = b2.update(2, None).update(3, Some(MovableRatio { moved: false, ratio: prod }));
    proof {
        lemma_replay_snoc(b0, s2, (2usize, MoveDir::RightUp));
        assert(stage.board() =~= b3);
    }

    proof {
        lemma_occupied_count4(stage.board());
        assert(occupied_count(stage.board()) == 1);
        assert forall|i: int|
            0 <= i < stage.board().len() implies !(#[trigger] stage.board()[i] is Some
            && stage.board()[i]->0.moved) by {
            assert(stage.board() == b3);
        }
    }
    let target = stage.last_ratio().unwrap();
    AnswerInfo { ratio: target, steps }
}

} // verus!
