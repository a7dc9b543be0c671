use raymond::ppm::ppm_header;

#[test]
fn header_of_small_image() {
    assert_eq!(ppm_header(640, 480), b"P6\n640 480\n255 ".to_vec());
}

#[test]
fn header_with_zero_and_single_digits() {
    assert_eq!(ppm_header(0, 7), b"P6\n0 7\n255 ".to_vec());
    assert_eq!(ppm_header(10, 1024), b"P6\n10 1024\n255 ".to_vec());
}
