use raytracer::ppm::{encode_ppm, ppm_header, push_decimal, push_pixel};

#[test]
fn header_of_the_default_image() {
    assert_eq!(ppm_header(1200, 800), b"P3\n1200\n800\n255\n".to_vec());
}

#[test]
fn decimal_without_leading_zeros() {
    let mut out = Vec::new();
    push_decimal(&mut out, 0);
    out.push(b',');
    push_decimal(&mut out, 9);
    out.push(b',');
    push_decimal(&mut out, 10);
    out.push(b',');
    push_decimal(&mut out, 18446744073709551615);
    assert_eq!(out, b"0,9,10,18446744073709551615".to_vec());
}

#[test]
fn pixel_line() {
    let mut out = b"x".to_vec();
    push_pixel(&mut out, 255, 7, 0);
    assert_eq!(out, b"x255 7 0\n".to_vec());
}

#[test]
fn whole_image() {
    let pixels = vec![(1, 2, 3), (40, 50, 60)];
    assert_eq!(
        encode_ppm(2, 1, &pixels),
        Some(b"P3\n2\n1\n255\n1 2 3\n40 50 60\n".to_vec())
    );
}

#[test]
fn empty_image() {
    assert_eq!(encode_ppm(0, 5, &Vec::new()), Some(b"P3\n0\n5\n255\n".to_vec()));
}

#[test]
fn pixel_count_must_match_size() {
    let pixels = vec![(1, 2, 3), (4, 5, 6), (7, 8, 9)];
    assert_eq!(encode_ppm(2, 2, &pixels), None);
    assert_eq!(encode_ppm(u64::MAX, u64::MAX, &pixels), None);
}
