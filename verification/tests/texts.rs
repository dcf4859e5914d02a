use libp2p_webrtc::text::{
    decimal_text, parse_counter, split_text, text_begins_with, text_contains,
};

#[test]
fn decimal_numbers() {
    assert_eq!(decimal_text(0), "0");
    assert_eq!(decimal_text(9), "9");
    assert_eq!(decimal_text(10), "10");
    assert_eq!(decimal_text(1234567890), "1234567890");
    assert_eq!(decimal_text(u64::MAX), "18446744073709551615");
    for n in 0..2000u64 {
        assert_eq!(decimal_text(n), n.to_string());
    }
}

#[test]
fn counters_are_read_as_numbers_are() {
    for text in [
        "", "+", "-", "+0", "-0", "0", "007", "1_000", " 1", "1 ", "++1", "+-1", "12a", "\u{664}",
        "18446744073709551615", "18446744073709551616", "+18446744073709551615",
        "00000000000000000000000000001", "99999999999999999999999", "42",
    ] {
        assert_eq!(parse_counter(text), text.parse::<usize>().ok());
    }
}

#[test]
fn counters_are_read_back() {
    for n in [0usize, 1, 9, 10, 99, 100, 65536, usize::MAX - 1, usize::MAX] {
        assert_eq!(parse_counter(&decimal_text(n as u64)), Some(n));
    }
}

#[test]
fn pieces_of_a_path() {
    for text in ["", "/", "a", "/a", "/a/7", "a/b", "//", "/a//b/", "\u{e9}/\u{4e16}"] {
        let wanted: Vec<String> = text.split('/').map(|s| s.to_string()).collect();
        assert_eq!(split_text(text, '/'), wanted);
    }
}

#[test]
fn beginnings_and_contents() {
    assert!(text_begins_with("Listening on x", "Listening on"));
    assert!(text_begins_with("x", ""));
    assert!(!text_begins_with("Listen", "Listening on"));
    assert!(!text_begins_with("listening on x", "Listening on"));
    assert!(text_contains("a:b", ':'));
    assert!(!text_contains("ab", ':'));
    assert!(!text_contains("", ':'));
}
