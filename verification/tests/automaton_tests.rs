use cavegen::BorderPolicy;
use cavegen::CellState;
use cavegen::Field;
use cavegen::iterate;
use cavegen::should_be_wall;
use cavegen::step;

fn snapshot(f: &Field) -> Vec<CellState> {
    let mut cells = Vec::new();
    for y in 0..f.height() {
        for x in 0..f.width() {
            cells.push(f.get(x, y).unwrap());
        }
    }
    cells
}

#[test]
fn isolated_wall_reverts_to_floor() {
    // 5x5 all floor but the single interior wall (2, 2); with threshold 5
    // and borders treated as interior, one pass clears the whole grid: the
    // lone wall has zero wall neighbors and no cell has five.
    let mut f = Field::create(5, 5, CellState::Floor).unwrap();
    f.set(2, 2, CellState::Wall).unwrap();
    let next = step(&f, 5, BorderPolicy::TreatAsInterior);
    for y in 0..5 {
        for x in 0..5 {
            assert_eq!(next.get(x, y), Ok(CellState::Floor));
        }
    }
}

#[test]
fn full_wall_grid_keeps_its_center() {
    // 3x3 all wall, threshold 4, borders treated as interior: the center
    // has 8 wall neighbors and stays a wall.
    let f = Field::create(3, 3, CellState::Wall).unwrap();
    let next = step(&f, 4, BorderPolicy::TreatAsInterior);
    assert_eq!(next.get(1, 1), Ok(CellState::Wall));
    // A corner sees only 3 in-bounds neighbors and falls below 4.
    assert_eq!(next.get(0, 0), Ok(CellState::Floor));
    // An edge midpoint sees 5 and stays.
    assert_eq!(next.get(1, 0), Ok(CellState::Wall));
}

#[test]
fn step_is_pure() {
    let mut f = Field::create(6, 4, CellState::Floor).unwrap();
    f.set(2, 1, CellState::Wall).unwrap();
    f.set(3, 1, CellState::Wall).unwrap();
    f.set(2, 2, CellState::Wall).unwrap();
    let before = snapshot(&f);
    let first = step(&f, 2, BorderPolicy::AlwaysFloor);
    // The input field is not mutated by a pass.
    assert_eq!(snapshot(&f), before);
    // A second pass over the same input gives the same output.
    let second = step(&f, 2, BorderPolicy::AlwaysFloor);
    assert_eq!(snapshot(&first), snapshot(&second));
}

#[test]
fn always_wall_border_after_iterations() {
    let f = Field::create(6, 5, CellState::Floor).unwrap();
    let done = iterate(f, 3, 5, BorderPolicy::AlwaysWall);
    for y in 0..5 {
        for x in 0..6 {
            if x == 0 || x == 5 || y == 0 || y == 4 {
                assert_eq!(done.get(x, y), Ok(CellState::Wall));
            }
        }
    }
}

#[test]
fn always_floor_border_after_step() {
    let f = Field::create(4, 4, CellState::Wall).unwrap();
    let next = step(&f, 1, BorderPolicy::AlwaysFloor);
    for y in 0..4 {
        for x in 0..4 {
            if x == 0 || x == 3 || y == 0 || y == 3 {
                assert_eq!(next.get(x, y), Ok(CellState::Floor));
            }
        }
    }
}

#[test]
fn iterate_zero_steps_is_identity() {
    let mut f = Field::create(4, 4, CellState::Floor).unwrap();
    f.set(1, 1, CellState::Wall).unwrap();
    let before = snapshot(&f);
    let done = iterate(f, 0, 5, BorderPolicy::AlwaysWall);
    assert_eq!(snapshot(&done), before);
}

#[test]
fn should_be_wall_thresholds() {
    let f = Field::create(3, 3, CellState::Wall).unwrap();
    // The center has exactly 8 wall neighbors.
    assert!(should_be_wall(&f, 1, 1, 8, BorderPolicy::TreatAsInterior));
    assert!(!should_be_wall(&f, 1, 1, 9, BorderPolicy::TreatAsInterior));
    // A corner has exactly 3 in-bounds neighbors.
    assert!(should_be_wall(&f, 0, 0, 3, BorderPolicy::TreatAsInterior));
    assert!(!should_be_wall(&f, 0, 0, 4, BorderPolicy::TreatAsInterior));
    // Fixed border policies ignore the tally.
    assert!(should_be_wall(&f, 0, 0, 9, BorderPolicy::AlwaysWall));
    assert!(!should_be_wall(&f, 0, 0, 0, BorderPolicy::AlwaysFloor));
}

#[test]
fn threshold_zero_fills_interior() {
    let f = Field::create(4, 4, CellState::Floor).unwrap();
    let next = step(&f, 0, BorderPolicy::AlwaysFloor);
    for y in 1..3 {
        for x in 1..3 {
            assert_eq!(next.get(x, y), Ok(CellState::Wall));
        }
    }
}
