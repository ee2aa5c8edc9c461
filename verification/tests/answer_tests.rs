use puzzle_core::answer::steps::Steps;
use puzzle_core::answer::{generate_random_ratios, AnswerInfo};
use puzzle_core::move_dir::MoveDir;
use puzzle_core::ratio::Ratio;
use puzzle_core::stage::Stage;

#[test]
fn generate_answer_replays_to_target() {
    let ratios: Vec<Ratio> = vec![1, 2, 3, 4].into_iter().map(Ratio::from_int).collect();
    let mut answer = AnswerInfo::generate(ratios);

    let mut stage = Stage::from_integers(vec![1, 2, 3, 4]);
    while let Some((no, dir)) = answer.steps.pop_front() {
        stage.move_cell(no, dir);
    }
    assert_eq!(stage.last_ratio(), Some(answer.ratio));
    assert!(answer.steps.is_empty());
}

#[test]
fn generate_answer_other_values() {
    let ratios: Vec<Ratio> = vec![7, 10, 2, 5].into_iter().map(Ratio::from_int).collect();
    let mut answer = AnswerInfo::generate(ratios);

    let mut stage = Stage::from_integers(vec![7, 10, 2, 5]);
    while let Some((no, dir)) = answer.steps.pop_front() {
        stage.move_cell(no, dir);
    }
    assert_eq!(stage.last_ratio(), Some(answer.ratio));
}

#[test]
fn random_ratios_are_four_distinct_small_integers() {
    for _ in 0..20 {
        let ratios = generate_random_ratios();
        assert_eq!(ratios.len(), 4);
        for r in &ratios {
            assert_eq!(r.denom, 1);
            assert!((1..=10).contains(&r.numer));
        }
        for i in 0..4 {
            for j in (i + 1)..4 {
                assert_ne!(ratios[i].numer, ratios[j].numer);
            }
        }
    }
}

#[test]
fn steps_queue_is_first_in_first_out() {
    let mut steps = Steps::new();
    assert!(steps.is_empty());
    assert_eq!(steps.pop_front(), None);
    steps.push(0, MoveDir::Right);
    steps.push(2, MoveDir::LeftUp);
    assert!(!steps.is_empty());
    assert_eq!(steps.pop_front(), Some((0, MoveDir::Right)));
    assert_eq!(steps.pop_front(), Some((2, MoveDir::LeftUp)));
    assert_eq!(steps.pop_front(), None);
}
