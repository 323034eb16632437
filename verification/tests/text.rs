use pojde_rs::text::{chars_of, decimal, equal, parse_number, starts_with_at};

#[test]
fn chars_are_the_characters_in_order() {
    assert_eq!(chars_of("a/é"), vec!['a', '/', 'é']);
    assert_eq!(chars_of(""), Vec::<char>::new());
}

#[test]
fn equal_compares_whole_texts() {
    assert!(equal("tcp", "tcp"));
    assert!(equal("", ""));
    assert!(!equal("tcp", "udp"));
    assert!(!equal("tcp", "tcp "));
    assert!(!equal("tcp", "TCP"));
    assert!(equal("日本", "日本"));
    assert!(!equal("日本", "日本語"));
}

#[test]
fn starts_with_at_looks_at_the_given_place() {
    let hay = chars_of("/pojde-web");
    let needle = chars_of("pojde-");
    assert!(starts_with_at(&hay, 1, &needle));
    assert!(!starts_with_at(&hay, 0, &needle));
    assert!(!starts_with_at(&hay, 5, &needle));
    assert!(!starts_with_at(&hay, 11, &needle));
    assert!(starts_with_at(&hay, 10, &Vec::new()));
    assert!(!starts_with_at(&hay, usize::MAX, &needle));
}

#[test]
fn decimal_writes_without_leading_zeros() {
    assert_eq!(decimal(0), "0");
    assert_eq!(decimal(7), "7");
    assert_eq!(decimal(10), "10");
    assert_eq!(decimal(8080), "8080");
    assert_eq!(decimal(65535), "65535");
    assert_eq!(decimal(u64::MAX), "18446744073709551615");
}

#[test]
fn number_is_read_from_decimal_digits() {
    assert_eq!(parse_number("0"), Some(0));
    assert_eq!(parse_number("007"), Some(7));
    assert_eq!(parse_number("18446744073709551615"), Some(u64::MAX));
    assert_eq!(parse_number("18446744073709551616"), None);
    assert_eq!(parse_number("184467440737095516150"), None);
    assert_eq!(parse_number(""), None);
    assert_eq!(parse_number("1 "), None);
    assert_eq!(parse_number("0x10"), None);
}

#[test]
fn written_numbers_read_back() {
    for n in [0u64, 1, 9, 10, 99, 100, 8080, 65535, 65536, u64::MAX] {
        assert_eq!(parse_number(&decimal(n)), Some(n));
    }
}
