use coral::fix::{apply, FixError};

#[test]
fn apply_splices_replacement_over_byte_range() {
    let content = b"abcdefgh".to_vec();
    let out = apply(&content, 2, 5, b"XYZ").expect("range lies inside the content");
    assert_eq!(out, b"abXYZfgh".to_vec());
}

#[test]
fn apply_with_end_past_length_reports_range_out_of_bounds() {
    let content = b"abcdefgh".to_vec();
    let before = content.clone();
    let res = apply(&content, 2, 9, b"XYZ");
    assert_eq!(res, Err(FixError::RangeOutOfBounds));
    assert_eq!(content, before);
}

#[test]
fn apply_with_start_after_end_reports_range_out_of_bounds() {
    let content = b"abcdefgh".to_vec();
    let res = apply(&content, 5, 2, b"XYZ");
    assert_eq!(res, Err(FixError::RangeOutOfBounds));
}

#[test]
fn apply_at_the_edges_keeps_every_byte() {
    let content = b"abc".to_vec();
    assert_eq!(apply(&content, 0, 0, b"XY").unwrap(), b"XYabc".to_vec());
    assert_eq!(apply(&content, 3, 3, b"XY").unwrap(), b"abcXY".to_vec());
    assert_eq!(apply(&content, 0, 3, b"").unwrap(), Vec::<u8>::new());
}
