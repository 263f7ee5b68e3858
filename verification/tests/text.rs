use paradox_typed_db::text::{format_i32, parse_id_list};

#[test]
fn parse_plain_list() {
    assert_eq!(parse_id_list(b"1,2,3"), vec![1, 2, 3]);
    assert_eq!(parse_id_list(b"7"), vec![7]);
    assert_eq!(parse_id_list(b""), Vec::<i32>::new());
}

#[test]
fn parse_trims_whitespace() {
    assert_eq!(parse_id_list(b" 1 , 2 ,\t3 "), vec![1, 2, 3]);
    assert_eq!(parse_id_list(b"  42  "), vec![42]);
}

#[test]
fn parse_skips_bad_segments() {
    assert_eq!(parse_id_list(b"1,abc,3"), vec![1, 3]);
    assert_eq!(parse_id_list(b"1,,3"), vec![1, 3]);
    assert_eq!(parse_id_list(b"1, 2x, 3"), vec![1, 3]);
    assert_eq!(parse_id_list(b",,"), Vec::<i32>::new());
}

#[test]
fn parse_signs_and_range() {
    assert_eq!(parse_id_list(b"-5,+6"), vec![-5, 6]);
    assert_eq!(parse_id_list(b"2147483647"), vec![2147483647]);
    assert_eq!(parse_id_list(b"-2147483648"), vec![-2147483648]);
    // Out of the 32-bit range: the segment is skipped.
    assert_eq!(parse_id_list(b"2147483648"), Vec::<i32>::new());
    assert_eq!(parse_id_list(b"-2147483649,1"), vec![1]);
    assert_eq!(parse_id_list(b"99999999999999999999,4"), vec![4]);
    // A bare sign is not a number.
    assert_eq!(parse_id_list(b"-,4"), vec![4]);
}

#[test]
fn format_decimal() {
    assert_eq!(format_i32(0), b"0".to_vec());
    assert_eq!(format_i32(7), b"7".to_vec());
    assert_eq!(format_i32(1999), b"1999".to_vec());
    assert_eq!(format_i32(-17), b"-17".to_vec());
    assert_eq!(format_i32(i32::MAX), b"2147483647".to_vec());
    assert_eq!(format_i32(i32::MIN), b"-2147483648".to_vec());
}
