use rusty_raytracer::ppm::{assemble_image, ppm_header, push_decimal};

#[test]
fn header_bytes() {
    assert_eq!(ppm_header(400, 225), b"P6\n400 225\n255\n".to_vec());
    assert_eq!(ppm_header(0, 7), b"P6\n0 7\n255\n".to_vec());
    assert_eq!(ppm_header(10, 1), b"P6\n10 1\n255\n".to_vec());
}

#[test]
fn decimal_digits() {
    let mut out = b"x".to_vec();
    push_decimal(&mut out, 0);
    push_decimal(&mut out, 9);
    push_decimal(&mut out, 1090);
    assert_eq!(out, b"x091090".to_vec());
    let mut big = Vec::new();
    push_decimal(&mut big, u64::MAX);
    assert_eq!(big, u64::MAX.to_string().into_bytes());
}

#[test]
fn rows_follow_header_in_order() {
    let rows = vec![vec![1u8, 2, 3], vec![], vec![4u8, 5, 6, 7, 8, 9]];
    let mut expected = b"P6\n2 3\n255\n".to_vec();
    expected.extend_from_slice(&[1, 2, 3, 4, 5, 6, 7, 8, 9]);
    assert_eq!(assemble_image(2, 3, &rows), expected);
}

#[test]
fn image_without_rows_is_header() {
    assert_eq!(assemble_image(5, 0, &vec![]), b"P6\n5 0\n255\n".to_vec());
}
