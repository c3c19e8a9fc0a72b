use plugind::number::{decimal_text, parse_number, parse_u64, parse_u8};

#[test]
fn numbers_are_parsed_as_by_the_standard_library() {
    let samples = [
        "", "+", "-", "0", "+0", "-0", "7", "007", "255", "256", "+255", "99", "100", "1000", "1 ",
        " 1", "1a", "a", "++1", "18446744073709551615", "18446744073709551616",
        "00018446744073709551615", "\u{661}",
    ];
    for s in samples.iter() {
        assert_eq!(parse_u8(s), s.parse::<u8>().ok());
        assert_eq!(parse_u64(s), s.parse::<u64>().ok());
    }
}

#[test]
fn numbers_stay_within_their_bound() {
    assert_eq!(parse_number("30", 30), Some(30));
    assert_eq!(parse_number("31", 30), None);
    assert_eq!(parse_number("0", 0), Some(0));
    assert_eq!(parse_number("1", 0), None);
}

#[test]
fn numbers_are_read_back_from_their_notation() {
    let samples = [0u64, 1, 9, 10, 11, 99, 100, 255, 1234567890, u64::MAX];
    for n in samples.iter() {
        assert_eq!(decimal_text(*n), n.to_string());
        assert_eq!(parse_u64(&decimal_text(*n)), Some(*n));
    }
}
