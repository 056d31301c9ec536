use rust_daq::text::{
    chars_of, decimal_text, first_position, joined, parse_number, signed_decimal_text,
};

fn parse(s: &str) -> Option<usize> {
    let chars = chars_of(s);
    let n = chars.len();
    parse_number(&chars, 0, n)
}

#[test]
fn decimals_are_written_as_std_writes_them() {
    for n in [0u64, 7, 10, 99, 100, 8333333, u64::MAX] {
        assert_eq!(decimal_text(n), n.to_string());
    }
}

#[test]
fn signed_decimals_are_written_as_std_writes_them() {
    for i in [0i64, 5, -1, -2188, -3111, i64::MAX, i64::MIN] {
        assert_eq!(signed_decimal_text(i), i.to_string());
    }
}

#[test]
fn numbers_are_read_as_std_reads_them() {
    for s in [
        "", "+", "-", "0", "007", "+12", "-1", "-0", "1 ", " 1", "1x", "++1", "+-1", "42",
        "18446744073709551615", "18446744073709551616", "99999999999999999999999", "\u{663}",
    ] {
        assert_eq!(parse(s), s.parse::<usize>().ok(), "{}", s);
    }
}

#[test]
fn written_numbers_read_back() {
    for n in [0usize, 1, 9, 10, 12345, usize::MAX] {
        assert_eq!(parse(&decimal_text(n as u64)), Some(n));
    }
}

#[test]
fn part_of_the_characters_is_read() {
    let chars = chars_of("run17_0.h5");
    assert_eq!(first_position(&chars, 3, '_'), 5);
    assert_eq!(first_position(&chars, 6, '_'), 10);
    assert_eq!(parse_number(&chars, 3, 5), Some(17));
}

#[test]
fn texts_are_joined_in_order() {
    assert_eq!(joined("/ch/", "3", "/par/ChEnable"), "/ch/3/par/ChEnable");
}
