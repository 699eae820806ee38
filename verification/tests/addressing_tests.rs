use cavegen::GenError;
use cavegen::field_offset;
use cavegen::pixel_offset;

#[test]
fn field_offset_values() {
    assert_eq!(field_offset(0, 0, 5, 5), Ok(0));
    assert_eq!(field_offset(2, 3, 5, 5), Ok(17));
    assert_eq!(field_offset(4, 4, 5, 5), Ok(24));
    assert_eq!(field_offset(3, 0, 4, 2), Ok(3));
    assert_eq!(field_offset(0, 1, 4, 2), Ok(4));
}

#[test]
fn field_offset_out_of_bounds() {
    assert_eq!(field_offset(5, 0, 5, 5), Err(GenError::AddressingOverflow));
    assert_eq!(field_offset(0, 5, 5, 5), Err(GenError::AddressingOverflow));
    assert_eq!(field_offset(7, 9, 5, 5), Err(GenError::AddressingOverflow));
    assert_eq!(field_offset(0, 0, 0, 5), Err(GenError::AddressingOverflow));
}

#[test]
fn pixel_offset_values() {
    assert_eq!(pixel_offset(0, 0, 5, 5), Ok(0));
    assert_eq!(pixel_offset(2, 3, 5, 5), Ok(51));
    assert_eq!(pixel_offset(4, 4, 5, 5), Ok(72));
}

#[test]
fn pixel_offset_out_of_bounds() {
    assert_eq!(pixel_offset(5, 0, 5, 5), Err(GenError::AddressingOverflow));
    assert_eq!(pixel_offset(0, 9, 5, 5), Err(GenError::AddressingOverflow));
}

#[test]
fn field_offset_image_is_exactly_the_buffer() {
    // Over a 4-by-3 grid the 12 offsets are pairwise distinct and cover
    // exactly 0..=11.
    let mut seen = vec![false; 12];
    for y in 0..3 {
        for x in 0..4 {
            let off = field_offset(x, y, 4, 3).unwrap();
            assert!(off < 12);
            assert!(!seen[off], "offset {off} produced twice");
            seen[off] = true;
        }
    }
    assert!(seen.iter().all(|&s| s));
}

#[test]
fn pixel_offset_image_is_triple_aligned() {
    let mut seen = vec![false; 12];
    for y in 0..3 {
        for x in 0..4 {
            let off = pixel_offset(x, y, 4, 3).unwrap();
            assert_eq!(off % 3, 0);
            assert!(off <= 33);
            assert!(!seen[off / 3]);
            seen[off / 3] = true;
        }
    }
    assert!(seen.iter().all(|&s| s));
}
