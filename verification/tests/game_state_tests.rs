use puzzle_core::game_state::{
    cell_status, next_status, reset_answer_num_if_game_cleared, should_send_last_one,
    update_answers, Answer, AnswerModeNextStatus, CellRatio, CorrectAnswerNum, PlayAnswerMode, SecretStopWatch,
    GAME_CLEAR_COUNT,
};
use puzzle_core::move_dir::MoveDir;
use puzzle_core::ratio::Ratio;
use puzzle_core::stage::Stage;

#[test]
fn stopwatch_formats_as_clock() {
    assert_eq!(SecretStopWatch(0).as_format_text(), "00:00:00");
    assert_eq!(SecretStopWatch(5).as_format_text(), "00:00:05");
    assert_eq!(SecretStopWatch(65).as_format_text(), "00:01:05");
    assert_eq!(SecretStopWatch(3725).as_format_text(), "01:02:05");
    assert_eq!(SecretStopWatch(360000).as_format_text(), "100:00:00");
}

#[test]
fn ratio_display_strings() {
    assert_eq!(Ratio { numer: 5, denom: 1 }.to_display_string(), "5");
    assert_eq!(Ratio { numer: 11, denom: 12 }.to_display_string(), "11/12");
    assert_eq!(Ratio { numer: -1, denom: 4 }.to_display_string(), "-1/4");
    assert_eq!(Ratio { numer: 0, denom: 1 }.to_display_string(), "0");
    assert_eq!(Ratio { numer: -30, denom: 1 }.to_display_string(), "-30");
}

#[test]
fn cell_status_mirrors_board() {
    let mut stage = Stage::from_integers(vec![1, 2, 3, 4]);
    stage.move_cell(3, MoveDir::Left);
    let board = stage.movable_ratios();
    let (value, moved) = cell_status(board, 0);
    assert_eq!(value.0, Some(Ratio::from_int(4)));
    assert!(moved.0);
    let (value, moved) = cell_status(board, 3);
    assert_eq!(value.0, Some(Ratio::from_int(1)));
    assert!(!moved.0);
}

#[test]
fn last_one_needs_single_matching_value() {
    let target = Answer(Ratio::from_int(24));
    let one_right = vec![CellRatio(None), CellRatio(Some(Ratio::from_int(24)))];
    assert!(should_send_last_one(&one_right, &target));
    let one_wrong = vec![CellRatio(None), CellRatio(Some(Ratio::from_int(23)))];
    assert!(!should_send_last_one(&one_wrong, &target));
    let two = vec![
        CellRatio(Some(Ratio::from_int(24))),
        CellRatio(Some(Ratio::from_int(24))),
    ];
    assert!(!should_send_last_one(&two, &target));
    let none: Vec<CellRatio> = vec![CellRatio(None), CellRatio(None)];
    assert!(!should_send_last_one(&none, &target));
}

#[test]
fn answer_count_rules() {
    let mut num = CorrectAnswerNum(0);
    assert_eq!(update_answers(&mut num, None), "audio/stage_clear.ogg");
    assert_eq!(num.0, 1);
    assert_eq!(update_answers(&mut num, Some(PlayAnswerMode)), "audio/stage_clear.ogg");
    assert_eq!(num.0, 1);
    num.0 = GAME_CLEAR_COUNT - 1;
    assert_eq!(update_answers(&mut num, None), "audio/game_clear.ogg");
    assert_eq!(num.0, GAME_CLEAR_COUNT);
    reset_answer_num_if_game_cleared(&mut num);
    assert_eq!(num.0, 0);
    num.0 = 3;
    reset_answer_num_if_game_cleared(&mut num);
    assert_eq!(num.0, 3);
}

#[test]
fn next_status_follows_choice() {
    assert_eq!(next_status(true), AnswerModeNextStatus::Replay);
    assert_eq!(next_status(false), AnswerModeNextStatus::NextStage);
}

#[test]
fn move_dir_properties() {
    assert!(MoveDir::Up.is_swap());
    assert!(MoveDir::Left.is_swap());
    assert!(!MoveDir::LeftUp.is_swap());
    assert!(!MoveDir::RightDown.is_swap());
    assert_eq!(MoveDir::LeftUp.reverse(), MoveDir::RightDown);
    assert_eq!(MoveDir::Down.reverse(), MoveDir::Up);
    assert_eq!(MoveDir::RightUp.reverse(), MoveDir::LeftDown);
    assert_eq!(MoveDir::LeftUp.asset_path(), "div.png");
    assert_eq!(MoveDir::RightUp.asset_path(), "mul.png");
    assert_eq!(MoveDir::LeftDown.asset_path(), "sub.png");
    assert_eq!(MoveDir::RightDown.asset_path(), "add.png");
    assert_eq!(MoveDir::Up.asset_path(), "swap.png");
}
