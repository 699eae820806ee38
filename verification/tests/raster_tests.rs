use cavegen::CellState;
use cavegen::Field;
use cavegen::GenError;
use cavegen::Rgb;
use cavegen::format_header;
use cavegen::new_state;
use cavegen::rasterize;

#[test]
fn rasterize_round_trip_single_color() {
    // Every cell is category 1 (floor) and palette[1] is (255, 0, 0): the
    // buffer is that triple repeated, three bytes per cell.
    let f = Field::create(3, 2, CellState::Floor).unwrap();
    let palette = vec![Rgb { r: 0, g: 0, b: 0 }, Rgb { r: 255, g: 0, b: 0 }];
    let buf = rasterize(&f, &palette).unwrap();
    assert_eq!(buf.len(), 18);
    for triple in buf.chunks(3) {
        assert_eq!(triple, &[255, 0, 0]);
    }
}

#[test]
fn rasterize_places_colors_row_major() {
    let mut f = Field::create(2, 1, CellState::Floor).unwrap();
    f.set(0, 0, CellState::Wall).unwrap();
    let palette = vec![Rgb { r: 0, g: 0, b: 0 }, Rgb { r: 255, g: 255, b: 255 }];
    let buf = rasterize(&f, &palette).unwrap();
    assert_eq!(buf, vec![0, 0, 0, 255, 255, 255]);
}

#[test]
fn rasterize_missing_palette_entry_fails() {
    // Floor is category 1; a one-entry palette cannot color it.
    let f = Field::create(2, 2, CellState::Floor).unwrap();
    let palette = vec![Rgb { r: 0, g: 0, b: 0 }];
    assert!(matches!(rasterize(&f, &palette), Err(GenError::PaletteIndexOutOfRange)));
}

#[test]
fn rasterize_short_palette_suffices_for_walls_only() {
    // All cells are category 0, so a one-entry palette covers them.
    let f = Field::create(2, 2, CellState::Wall).unwrap();
    let palette = vec![Rgb { r: 9, g: 8, b: 7 }];
    let buf = rasterize(&f, &palette).unwrap();
    assert_eq!(buf, vec![9, 8, 7, 9, 8, 7, 9, 8, 7, 9, 8, 7]);
}

#[test]
fn header_format_exact() {
    let h = format_header(4, 2);
    assert_eq!(h.as_str(), "P6 4 2 255\n");
    assert_eq!(h.len(), 11);
}

#[test]
fn header_format_multidigit() {
    assert_eq!(format_header(100, 100).as_str(), "P6 100 100 255\n");
    assert_eq!(format_header(1920, 1080).as_str(), "P6 1920 1080 255\n");
    assert_eq!(format_header(10, 1).as_str(), "P6 10 1 255\n");
}

#[test]
fn new_state_builds_floor_grid_with_header() {
    let st = new_state(4, 2, 7).unwrap();
    assert_eq!(st.header.as_str(), "P6 4 2 255\n");
    assert_eq!(st.iter_c, 7);
    assert_eq!(st.field.width(), 4);
    assert_eq!(st.field.height(), 2);
    for y in 0..2 {
        for x in 0..4 {
            assert_eq!(st.field.get(x, y), Ok(CellState::Floor));
        }
    }
}

#[test]
fn new_state_rejects_zero_dimension() {
    assert!(matches!(new_state(0, 2, 7), Err(GenError::InvalidConfiguration)));
}
