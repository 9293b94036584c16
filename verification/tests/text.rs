use qubes_meminfo_writer_ng::text::{is_whitespace, parse_u64, same_text, to_decimal};

#[test]
fn test_whitespace_is_the_unicode_property() {
    for c in '\0'..=char::MAX {
        assert_eq!(is_whitespace(c), c.is_whitespace(), "{:x}", c as u32);
    }
}

#[test]
fn test_numbers_agree_with_std() {
    let samples = [
        "", "0", "7", "+7", "+", "-", "-7", "-0", "++7", "007", "12a", "a12", " 12", "12 ", "1_000",
        "18446744073709551615", "18446744073709551616", "99999999999999999999999",
        "+18446744073709551615", "00000000000000000000000000001", "\u{661}", "1e3", "99999999999999999999x",
    ];
    for s in samples {
        assert_eq!(parse_u64(s), s.parse::<u64>().ok(), "{s}");
    }
}

#[test]
fn test_decimal_reads_back() {
    for n in [0u64, 1, 9, 10, 99, 100, 30_000, 1_234_567_890, u64::MAX - 1, u64::MAX] {
        assert_eq!(to_decimal(n), n.to_string());
        assert_eq!(parse_u64(&to_decimal(n)), Some(n));
    }
}

#[test]
fn test_same_text() {
    assert!(same_text("", ""));
    assert!(same_text("--once", "--once"));
    assert!(!same_text("--once", "--onc"));
    assert!(!same_text("--once", "--Once"));
}
