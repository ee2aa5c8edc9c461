//! Plain session state and decision rules shared with a user interface.
//!
//! The types here carry the puzzle-facing data an interface keeps per
//! cell and per session; the functions hold the decisions those screens
//! make, so the interface layer is left with drawing and input alone.

use crate::answer::steps::Steps;
use crate::decimal::{push_two_digits, two_digit};
use crate::movable_ratio::MovableRatio;
use crate::ratio::Ratio;
use vstd::prelude::*;
use vstd::string::StringExecFns;

verus! {

/// Consecutive correct answers that end a run as a full game clear.
pub const GAME_CLEAR_COUNT: u64 = 5;

/// Number of the board cell an interface element stands for.
#[derive(Copy, Clone, Eq, PartialEq, Structural, Debug)]
pub struct CellNo(pub usize);

/// The value a cell shows, if its slot is occupied.
#[derive(Copy, Clone, Eq, PartialEq, Debug)]
pub struct CellRatio(pub Option<Ratio>);

/// Whether the cell is flagged as just moved.
#[derive(Copy, Clone, Eq, PartialEq, Structural, Debug)]
pub struct Moved(pub bool);

/// The initial values the current stage was built from.
#[derive(Clone, Eq, PartialEq, Debug)]
pub struct StageRatios(pub Vec<Ratio>);

/// The target value of the current stage.
#[derive(Copy, Clone, Eq, PartialEq, Structural, Debug)]
pub struct Answer(pub Ratio);

/// The recorded solution of the current stage.
#[derive(Clone, Eq, PartialEq, Debug)]
pub struct AnswerSteps(pub Steps);

/// How many stages in a row have been solved.
#[derive(Copy, Clone, Eq, PartialEq, Structural, Debug)]
pub struct CorrectAnswerNum(pub u64);

/// Marks a session that is replaying the recorded answer.
#[derive(Copy, Clone, Eq, PartialEq, Structural, Debug)]
pub struct PlayAnswerMode;

/// Announces that a single cell holding the target value remains.
#[derive(Copy, Clone, Eq, PartialEq, Structural, Debug)]
pub struct LastOne;

/// Marks a session in which the board accepts moves.
#[derive(Copy, Clone, Eq, PartialEq, Structural, Debug)]
pub struct InOperation;

/// What follows once an answer replay has finished.
#[derive(Copy, Clone, Eq, PartialEq, Structural, Debug)]
pub enum AnswerModeNextStatus {
    /// Replay the same answer again.
    Replay,
    /// Build the next stage.
    NextStage,
}

/// The display status of the slot at `no`: its value, and its moved flag
/// (an empty slot shows no value and counts as unmoved).
pub fn cell_status(board: &Vec<Option<MovableRatio>>, no: usize) -> (r: (CellRatio, Moved))
    requires
        no < board@.len(),
    ensures
        r.0.0 == match board@[no as int] {
            Some(c) => Some(c.ratio),
            None => None::<Ratio>,
        },
        r.1.0 == match board@[no as int] {
            Some(c) => c.moved,
            None => false,
        },
{
    match board[no] {
        Some(c) => (CellRatio(Some(c.ratio)), Moved(c.moved)),
        None => (CellRatio(None), Moved(false)),
    }
}

/// Number of cells that show a value.
pub open spec fn shown_count(cells: Seq<CellRatio>) -> nat
    decreases cells.len(),
{
    if cells.len() == 0 {
        0
    } else {
        shown_count(cells.drop_last()) + (if cells.last().0 is Some {
            1nat
        } else {
            0nat
        })
    }
}

/// A slot showing a value contributes to the count.
proof fn lemma_shown_one(cells: Seq<CellRatio>, j: int)
    requires
        0 <= j < cells.len(),
        cells[j].0 is Some,
    ensures
        shown_count(cells) >= 1,
    decreases cells.len(),
{
    if j < cells.len() - 1 {
        lemma_shown_one(cells.drop_last(), j);
    }
}

/// Two distinct slots showing values put the count at two or more.
proof fn lemma_shown_two(cells: Seq<CellRatio>, j1: int, j2: int)
    requires
        0 <= j1 < j2 < cells.len(),
        cells[j1].0 is Some,
        cells[j2].0 is Some,
    ensures
        shown_count(cells) >= 2,
    decreases cells.len(),
{
    if j2 == cells.len() - 1 {
        lemma_shown_one(cells.drop_last(), j1);
    } else {
        lemma_shown_two(cells.drop_last(), j1, j2);
    }
}

/// Whether the board shown by `cells` has come down to a single value
/// equal to the target: the condition on which [`LastOne`] is announced.
pub fn should_send_last_one(cells: &Vec<CellRatio>, answer: &Answer) -> (r: bool)
    ensures
        r == (shown_count(cells@) == 1 && exists|i: int|
            0 <= i < cells@.len() && cells@[i].0 == Some(answer.0)),
{
    let mut count: usize = 0;
    let mut found: Option<Ratio> = None;
    let mut i: usize = 0;
    while i < cells.len()
        invariant
            i <= cells.len(),
            count <= i,
            count == shown_count(cells@.take(i as int)),
            count >= 1 ==> found is Some && exists|j: int|
                0 <= j < i && cells@[j].0 == Some(found->0),
            count == 0 ==> found is None,
        decreases cells.len() - i,
    {
        proof {
            assert(cells@.take(i + 1).drop_last() =~= cells@.take(i as int));
            assert(cells@.take(i + 1).last() == cells@[i as int]);
        }
        match cells[i].0 {
            Some(v) => {
                count = count + 1;
                found = Some(v);
            },
            None => {},
        }
        i = i + 1;
    }
    proof {
        assert(cells@.take(cells@.len() as int) =~= cells@);
    }
    if count != 1 {
        return false;
    }
    let v = match found {
        Some(v) => v,
        None => {
            return false;
        },
    };
    let eq = v == answer.0;
    proof {
        if !eq && exists|i: int| 0 <= i < cells@.len() && cells@[i].0 == Some(answer.0) {
            let w1 = choose|j: int| 0 <= j < cells@.len() && cells@[j].0 == Some(v);
            let w2 = choose|i: int| 0 <= i < cells@.len() && cells@[i].0 == Some(answer.0);
            if w1 < w2 {
                lemma_shown_two(cells@, w1, w2);
            } else {
                lemma_shown_two(cells@, w2, w1);
            }
        }
    }
    eq
}

/// Advances the answer count on a cleared stage and picks the jingle: in
/// [`PlayAnswerMode`] the count stays where it was; a solved stage
/// counts, and reaching [`GAME_CLEAR_COUNT`] in a row selects the
/// game-clear jingle.
pub fn update_answers(num: &mut CorrectAnswerNum, play_answer_mode: Option<PlayAnswerMode>) -> (r:
    &'static str)
    requires
        old(num).0 < u64::MAX,
    ensures
        play_answer_mode is Some ==> final(num).0 == old(num).0,
        play_answer_mode is None ==> final(num).0 == old(num).0 + 1,
        r@ == (if play_answer_mode is None && old(num).0 + 1 == GAME_CLEAR_COUNT {
            "audio/game_clear.ogg"@
        } else {
            "audio/stage_clear.ogg"@
        }),
{
    match play_answer_mode {
        Some(_) => "audio/stage_clear.ogg",
        None => {
            num.0 = num.0 + 1;
            if num.0 == GAME_CLEAR_COUNT {
                "audio/game_clear.ogg"
            } else {
                "audio/stage_clear.ogg"
            }
        },
    }
}

/// Wraps the answer count after a full game clear, leaving a shorter run
/// untouched.
pub fn reset_answer_num_if_game_cleared(num: &mut CorrectAnswerNum)
    ensures
        final(num).0 == old(num).0 % GAME_CLEAR_COUNT,
{
    num.0 = num.0 % GAME_CLEAR_COUNT;
}

/// Which step follows a finished answer replay, from the key chosen.
pub fn next_status(replay_chosen: bool) -> (r: AnswerModeNextStatus)
    ensures
        r == (if replay_chosen {
            AnswerModeNextStatus::Replay
        } else {
            AnswerModeNextStatus::NextStage
        }),
{
    if replay_chosen {
        AnswerModeNextStatus::Replay
    } else {
        AnswerModeNextStatus::NextStage
    }
}

/// Play time of the hidden stopwatch, in whole seconds.
#[derive(Copy, Clone, Eq, PartialEq, Structural, Debug)]
pub struct SecretStopWatch(pub u64);

impl SecretStopWatch {
    /// The elapsed time as a clock reading `hours:minutes:seconds`, each
    /// part zero-padded to two digits.
    pub fn as_format_text(&self) -> (r: String)
        ensures
            r@ == two_digit((self.0 / 3600) as nat) + seq![':'] + two_digit(
                ((self.0 / 60) % 60) as nat,
            ) + seq![':'] + two_digit((self.0 % 60) as nat),
    {
        let mut out = String::new();
        push_two_digits(self.0 / 3600, &mut out);
        proof {
            reveal_strlit(":");
        }
        out.append(":");
        push_two_digits((self.0 / 60) % 60, &mut out);
        out.append(":");
        push_two_digits(self.0 % 60, &mut out);
        proof {
            assert(out@ =~= two_digit((self.0 / 3600) as nat) + seq![':'] + two_digit(
                ((self.0 / 60) % 60) as nat,
            ) + seq![':'] + two_digit((self.0 % 60) as nat));
        }
        out
    }
}

} // verus!
