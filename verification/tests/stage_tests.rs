use puzzle_core::movable_ratio::MovableRatio;
use puzzle_core::move_dir::MoveDir;
use puzzle_core::ratio::Ratio;
use puzzle_core::stage::Stage;

fn stage() -> Stage {
    Stage::from_integers(vec![1, 2, 3, 4])
}

#[test]
fn swap_left() {
    let mut stage = stage();
    stage.move_cell(3, MoveDir::Left);
    assert_eq!(stage.movable_ratios()[3], Some(MovableRatio::from_int(1)));
    assert_eq!(
        stage.movable_ratios()[0],
        Some(MovableRatio::new_moved(Ratio::from_int(4)))
    );
}

#[test]
fn swap_up() {
    let mut stage = stage();
    stage.move_cell(2, MoveDir::Up);
    assert_eq!(stage.movable_ratios()[2], Some(MovableRatio::from_int(2)));
    assert_eq!(
        stage.movable_ratios()[1],
        Some(MovableRatio::new_moved(Ratio::from_int(3)))
    );
}

#[test]
fn swap_right() {
    let mut stage = stage();
    stage.move_cell(0, MoveDir::Right);
    assert_eq!(stage.movable_ratios()[0], Some(MovableRatio::from_int(4)));
    assert_eq!(
        stage.movable_ratios()[3],
        Some(MovableRatio::new_moved(Ratio::from_int(1)))
    );
}

#[test]
fn swap_down() {
    let mut stage = stage();
    stage.move_cell(1, MoveDir::Down);
    assert_eq!(stage.movable_ratios()[1], Some(MovableRatio::from_int(3)));
    assert_eq!(
        stage.movable_ratios()[2],
        Some(MovableRatio::new_moved(Ratio::from_int(2)))
    );
}

#[test]
fn stage_add() {
    let mut stage = stage();
    println!("{:?}", stage.movable_ratios());
    stage.move_cell(0, MoveDir::RightDown);
    println!("{:?}", stage.movable_ratios());
    assert_eq!(stage.movable_ratios()[0], None);
    assert_eq!(
        stage.movable_ratios()[2],
        Some(MovableRatio::from(Ratio::from_int(4)))
    );
}

#[test]
fn stage_sub() {
    let mut stage = stage();
    stage.move_cell(1, MoveDir::LeftDown);
    assert_eq!(stage.movable_ratios()[1], None);
    assert_eq!(
        stage.movable_ratios()[0],
        Some(MovableRatio::from(Ratio::from_int(-1)))
    );
}

#[test]
fn stage_mul() {
    let mut stage = stage();
    stage.move_cell(2, MoveDir::RightUp);
    assert_eq!(stage.movable_ratios()[2], None);
    assert_eq!(
        stage.movable_ratios()[3],
        Some(MovableRatio::from(Ratio::from_int(12)))
    );
}

#[test]
fn stage_div() {
    let mut stage = stage();
    stage.move_cell(2, MoveDir::LeftUp);
    assert_eq!(stage.movable_ratios()[2], None);
    assert_eq!(
        stage.movable_ratios()[0],
        Some(MovableRatio::from(Ratio::new(1, 3)))
    );
}

#[test]
fn preview_move_dist() {
    let stage = stage();
    assert_eq!(stage.preview_move_dist(2, MoveDir::LeftUp), Some(Ratio::new(1, 3)));
    assert_eq!(stage.preview_move_dist(3, MoveDir::LeftDown), Some(Ratio::new(-1, 1)));
}

#[test]
fn preview_move_dist2() {
    let stage = stage();
    assert_eq!(stage.preview_move_dist(2, MoveDir::LeftUp), Some(Ratio::new(1, 3)));
    assert_eq!(stage.preview_move_dist(3, MoveDir::LeftDown), Some(Ratio::new(-1, 1)));
}

#[test]
fn can_move_obeys_topology_and_content() {
    let stage = stage();
    // Directions outside the table are rejected whatever the board holds.
    assert!(!stage.can_move(0, MoveDir::Up));
    assert!(!stage.can_move(0, MoveDir::Left));
    assert!(!stage.can_move(1, MoveDir::Up));
    assert!(!stage.can_move(3, MoveDir::Right));
    // Directions in the table from the right sources are accepted.
    assert!(stage.can_move(0, MoveDir::Right));
    assert!(stage.can_move(2, MoveDir::Up));
    assert!(stage.can_move(1, MoveDir::RightDown));
    // An emptied source is rejected.
    let mut s2 = stage;
    s2.move_cell(0, MoveDir::RightDown);
    assert!(!s2.can_move(0, MoveDir::Right));
    // A moved source is rejected.
    let mut s3 = Stage::from_integers(vec![1, 2, 3, 4]);
    s3.move_cell(3, MoveDir::Left);
    assert!(!s3.can_move(0, MoveDir::Right));
}

#[test]
fn divide_by_zero_value_is_rejected() {
    // Index 2 would divide into index 0, but its own value is the divisor
    // when index 0 divides into index 2's place via LeftUp from 2.
    let stage = Stage::from_integers(vec![4, 2, 0, 3]);
    // LeftUp from 2 divides cell 0's value by cell 2's value 0: rejected.
    assert!(!stage.can_move(2, MoveDir::LeftUp));
    // The same cell may still move in a swap direction.
    assert!(stage.can_move(2, MoveDir::Up));
}

#[test]
fn movable_dirs_canonical_order() {
    let stage = stage();
    assert_eq!(
        stage.movable_dirs(0),
        vec![MoveDir::RightUp, MoveDir::Right, MoveDir::RightDown]
    );
    assert_eq!(
        stage.movable_dirs(3),
        vec![MoveDir::LeftUp, MoveDir::Left, MoveDir::LeftDown]
    );
    assert_eq!(stage.movable_dirs(4), Vec::<MoveDir>::new());
}

#[test]
fn movable_indices_and_failed() {
    let mut stage = stage();
    assert_eq!(stage.movable_indices(), vec![0, 1, 2, 3]);
    assert!(!stage.failed());
    stage.move_cell(3, MoveDir::Left);
    // Cell 0 now holds a moved value; 3 holds the swapped-in source.
    assert_eq!(stage.movable_indices(), vec![1, 2, 3]);
    assert!(!stage.failed());
}

#[test]
fn last_ratio_only_on_single_unmoved_survivor() {
    let mut stage = stage();
    assert_eq!(stage.last_ratio(), None);
    // 1 + 3 -> index 2; 2 + 4 -> index 3; (1+3) * (2+4) -> index 3.
    stage.move_cell(0, MoveDir::RightDown);
    assert_eq!(stage.last_ratio(), None);
    stage.move_cell(1, MoveDir::RightDown);
    assert_eq!(stage.last_ratio(), None);
    stage.move_cell(2, MoveDir::RightUp);
    assert_eq!(stage.last_ratio(), Some(Ratio::from_int(24)));
    // A swap flags a cell as moved, so a lone moved cell does not count.
    let mut swapped = Stage::from_integers(vec![1, 2, 3, 4]);
    swapped.move_cell(3, MoveDir::Left);
    assert_eq!(swapped.last_ratio(), None);
}

#[test]
fn undo_redo_round_trip() {
    let mut stage = stage();
    let before = stage.movable_ratios().clone();
    stage.move_cell(0, MoveDir::RightDown);
    let after = stage.movable_ratios().clone();
    assert_ne!(before, after);

    stage.undo();
    assert_eq!(stage.movable_ratios(), &before);
    stage.redo();
    assert_eq!(stage.movable_ratios(), &after);

    // A new move after an undo clears the redo stack.
    stage.undo();
    assert_eq!(stage.movable_ratios(), &before);
    stage.move_cell(1, MoveDir::RightDown);
    let after2 = stage.movable_ratios().clone();
    stage.redo();
    assert_eq!(stage.movable_ratios(), &after2);

    // Undo and redo on empty stacks change nothing.
    let mut fresh = Stage::from_integers(vec![1, 2, 3, 4]);
    let snapshot = fresh.movable_ratios().clone();
    fresh.undo();
    assert_eq!(fresh.movable_ratios(), &snapshot);
    fresh.redo();
    assert_eq!(fresh.movable_ratios(), &snapshot);
}

#[test]
fn failed_after_exhausting_swaps() {
    let mut stage = stage();
    for (no, dir) in [
        (0, MoveDir::Right),
        (1, MoveDir::Down),
        (0, MoveDir::Right),
        (1, MoveDir::Down),
    ] {
        assert!(!stage.failed());
        assert!(stage.can_move(no, dir));
        stage.move_cell(no, dir);
    }
    // Every cell is now flagged as moved: a dead end, but not a win.
    assert!(stage.failed());
    assert_eq!(stage.movable_indices(), Vec::<usize>::new());
    assert_eq!(stage.movable_dirs(0), Vec::<MoveDir>::new());
    assert_eq!(stage.last_ratio(), None);
}

#[test]
fn move_cell_ignores_illegal_moves() {
    let mut stage = stage();
    let before = stage.movable_ratios().clone();
    stage.move_cell(0, MoveDir::Up);
    assert_eq!(stage.movable_ratios(), &before);
    stage.move_cell(9, MoveDir::Right);
    assert_eq!(stage.movable_ratios(), &before);
    // An ignored move leaves nothing to undo.
    stage.undo();
    assert_eq!(stage.movable_ratios(), &before);
}

#[test]
fn move_dist_reports_destination() {
    let stage = stage();
    assert_eq!(stage.move_dist_no(0, &MoveDir::Right), Some(3));
    assert_eq!(stage.move_dist_no(0, &MoveDir::Left), None);
    assert_eq!(stage.move_dist_no(3, &MoveDir::Right), None);
    assert_eq!(stage.move_dist(0, MoveDir::Right), Some(Some(MovableRatio::from_int(4))));
    assert_eq!(stage.move_dist(0, MoveDir::Left), None);
}

#[test]
fn ratios_strips_flags() {
    let mut stage = stage();
    stage.move_cell(0, MoveDir::RightDown);
    let values = stage.ratios();
    assert_eq!(
        values,
        vec![
            None,
            Some(Ratio::from_int(2)),
            Some(Ratio::from_int(4)),
            Some(Ratio::from_int(4)),
        ]
    );
}
