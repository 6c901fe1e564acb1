//! Text and number formatting.

use paloma::models::measure::{format_duration, format_size};
use paloma::text::{
    after_prefix, decimal_string, has_text, parse_i64, same_text, signed_decimal_string, trimmed,
    trimmed_start, two_digit_string, white_space,
};

#[test]
fn white_space_is_that_of_std() {
    for n in 0..=0x10ffffu32 {
        if let Some(c) = char::from_u32(n) {
            assert_eq!(white_space(c), c.is_whitespace(), "{n:x}");
        }
    }
}

#[test]
fn trimming_is_that_of_std() {
    for s in ["", " ", "a", " a ", "\t a b \u{a0}\n", "\u{2003}x\u{3000}", "\u{200b}x"] {
        assert_eq!(trimmed(s), s.trim());
        assert_eq!(trimmed_start(s), s.trim_start());
    }
}

#[test]
fn numerals_are_those_of_std() {
    for n in [0u64, 1, 9, 10, 99, 100, 12345, u64::MAX] {
        assert_eq!(decimal_string(n), n.to_string());
        assert_eq!(two_digit_string(n), format!("{n:02}"));
    }
    for n in [0i64, -1, 7, i64::MIN, i64::MAX] {
        assert_eq!(signed_decimal_string(n), n.to_string());
    }
}

#[test]
fn parsing_is_that_of_std() {
    for s in [
        "", "0", "-0", "+0", "007", "+", "-", "--1", "1 ", " 1", "1a", "２", "2147483647",
        "2147483648", "-2147483648", "-2147483649", "9223372036854775807", "9223372036854775808",
        "-9223372036854775808", "99999999999999999999999999",
    ] {
        assert_eq!(parse_i64(s, i64::MIN, i64::MAX), s.parse::<i64>().ok(), "{s}");
        assert_eq!(
            parse_i64(s, i32::MIN as i64, i32::MAX as i64),
            s.parse::<i32>().ok().map(i64::from),
            "{s}"
        );
    }
}

#[test]
fn written_numbers_are_read_back() {
    for n in [0i64, 1, -1, 42, i64::MIN, i64::MAX] {
        assert_eq!(parse_i64(&signed_decimal_string(n), i64::MIN, i64::MAX), Some(n));
    }
}

#[test]
fn searching_and_prefixes() {
    assert!(has_text("abcabd", "abd"));
    assert!(!has_text("abcab", "abd"));
    assert!(has_text("abc", ""));
    assert!(has_text("", ""));
    assert!(!has_text("", "a"));
    assert_eq!(after_prefix("photo-12", "photo-"), Some("12".to_string()));
    assert_eq!(after_prefix("photo", "photo-"), None);
    assert!(same_text("❤️", "❤️"));
    assert!(!same_text("a", "ab"));
}

#[test]
fn sizes_have_exact_texts() {
    assert_eq!(format_size(0), "0 B");
    assert_eq!(format_size(-5), "-5 B");
    assert_eq!(format_size(1023), "1023 B");
    assert_eq!(format_size(1024), "1 KB");
    assert_eq!(format_size(1536), "2 KB");
    assert_eq!(format_size(2560), "2 KB");
    assert_eq!(format_size(2_411_725), "2.3 MB");
    assert_eq!(format_size(1 << 30), "1.0 GB");
}

/// The size of a file as the usual floating-point computation writes it.
fn float_size(bytes: i64) -> String {
    let kb: f64 = 1024.0;
    let mb: f64 = kb * 1024.0;
    let gb: f64 = mb * 1024.0;
    let b = bytes as f64;
    if b >= gb {
        format!("{:.1} GB", b / gb)
    } else if b >= mb {
        format!("{:.1} MB", b / mb)
    } else if b >= kb {
        format!("{:.0} KB", b / kb)
    } else {
        format!("{bytes} B")
    }
}

#[test]
fn sizes_agree_with_floating_point() {
    let mut n: i64 = 1;
    while n > 0 {
        for d in [-2i64, -1, 0, 1, 2] {
            for m in [1i64, 3, 5, 7] {
                let b = n.wrapping_mul(m).wrapping_add(d);
                assert_eq!(format_size(b), float_size(b), "{b}");
            }
        }
        n = n.wrapping_mul(2);
    }
    for tenth in 1..400i64 {
        for unit in [1i64 << 20, 1 << 30] {
            for d in [-1i64, 0, 1] {
                let b = unit * tenth / 20 + d;
                assert_eq!(format_size(b), float_size(b), "{b}");
            }
        }
    }
    for b in [i64::MIN, i64::MAX, i64::MAX - 1, (1 << 53) + 1, (1 << 54) + 3, (1 << 62) + 12345] {
        assert_eq!(format_size(b), float_size(b), "{b}");
    }
    let mut x: u64 = 0x9e37_79b9_7f4a_7c15;
    for _ in 0..4000 {
        x ^= x << 13;
        x ^= x >> 7;
        x ^= x << 17;
        let b = (x >> (x % 60)) as i64;
        assert_eq!(format_size(b), float_size(b), "{b}");
    }
}

#[test]
fn durations_have_exact_texts() {
    assert_eq!(format_duration(0), "0:00");
    assert_eq!(format_duration(5), "0:05");
    assert_eq!(format_duration(65), "1:05");
    assert_eq!(format_duration(3600), "60:00");
    assert_eq!(format_duration(-3), "0:00");
    assert_eq!(format_duration(i32::MAX), "35791394:07");
}
