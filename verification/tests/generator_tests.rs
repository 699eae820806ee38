use cavegen::CellState;
use cavegen::Field;
use cavegen::GenError;
use cavegen::generate;

fn snapshot(f: &Field) -> Vec<CellState> {
    let mut cells = Vec::new();
    for y in 0..f.height() {
        for x in 0..f.width() {
            cells.push(f.get(x, y).unwrap());
        }
    }
    cells
}

#[test]
fn generate_is_deterministic() {
    let a = generate(16, 12, 55, 0xC0FFEE).unwrap();
    let b = generate(16, 12, 55, 0xC0FFEE).unwrap();
    assert_eq!(a.width(), b.width());
    assert_eq!(a.height(), b.height());
    assert_eq!(snapshot(&a), snapshot(&b));
}

#[test]
fn generate_probability_one_hundred_is_all_walls() {
    let f = generate(9, 7, 100, 42).unwrap();
    for y in 0..7 {
        for x in 0..9 {
            assert_eq!(f.get(x, y), Ok(CellState::Wall));
        }
    }
}

#[test]
fn generate_probability_zero_is_all_floor() {
    let f = generate(9, 7, 0, 42).unwrap();
    for y in 0..7 {
        for x in 0..9 {
            assert_eq!(f.get(x, y), Ok(CellState::Floor));
        }
    }
}

#[test]
fn generate_middle_probability_mixes() {
    // Not a statistical claim, only that a 16x16 run at 55% is neither
    // empty nor full: the draws actually reach the cells.
    let f = generate(16, 16, 55, 7).unwrap();
    let cells = snapshot(&f);
    assert!(cells.iter().any(|&c| c == CellState::Wall));
    assert!(cells.iter().any(|&c| c == CellState::Floor));
}

#[test]
fn generate_rejects_bad_probability() {
    assert!(matches!(generate(8, 8, 101, 1), Err(GenError::InvalidConfiguration)));
}

#[test]
fn generate_rejects_zero_dimension() {
    assert!(matches!(generate(0, 8, 50, 1), Err(GenError::InvalidConfiguration)));
    assert!(matches!(generate(8, 0, 50, 1), Err(GenError::InvalidConfiguration)));
}
