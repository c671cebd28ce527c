use qrich::calendar::{civil_from_days, days_from_civil};
use qrich::digits::{read_i64, read_u64, read_usize, show, show_signed, show_two};
use qrich::order::{arrange, Key};
use qrich::reals::Real;
use qrich::text::{
    contains, head, join, lines, precedes, remove_char, same, space, split, split_once,
    split_whitespace, starts_with, trim, trim_end,
};
use qrich::wrap::{low_signed_word, low_word};

#[test]
fn white_space_is_that_of_unicode() {
    for c in '\0'..=char::MAX {
        assert_eq!(space(c), c.is_whitespace(), "{:?}", c);
    }
}

#[test]
fn texts_are_trimmed() {
    for s in ["", " ", " a b ", "\u{3000}x\u{2003}", "\tab\n", "x", "  \n "] {
        assert_eq!(trim(s), s.trim());
        assert_eq!(trim_end(s), s.trim_end());
    }
}

#[test]
fn texts_are_split() {
    for s in ["", ":", "a:b", "a::b:", ":a", "abc"] {
        let parts: Vec<String> = s.split(':').map(|x| x.to_string()).collect();
        assert_eq!(split(s, ':'), parts);
        let once = s.split_once(':').map(|(a, b)| (a.to_string(), b.to_string()));
        assert_eq!(split_once(s, ':'), once);
        assert_eq!(head(s, ':'), s.split(':').next().unwrap());
    }
    for s in ["", "  ", " a  b\tc ", "a", "a\u{2003}b"] {
        let words: Vec<String> = s.split_whitespace().map(|x| x.to_string()).collect();
        assert_eq!(split_whitespace(s), words);
    }
    for s in ["", "\n", "a\nb", "a\r\nb\r", "a\n\nb\n", "\r\n\r", "x\r\r\n"] {
        let parts: Vec<String> = s.lines().map(|x| x.to_string()).collect();
        assert_eq!(lines(s), parts, "{:?}", s);
    }
}

#[test]
fn texts_are_searched_and_compared() {
    assert!(starts_with("Resv ID: 5", "Resv ID:"));
    assert!(!starts_with("Res", "Resv"));
    assert!(contains("job-exclusive,offline", "offline"));
    assert!(!contains("free", "down"));
    assert!(contains("free", ""));
    assert!(same("ab", "ab"));
    assert!(!same("ab", "abc"));
    assert_eq!(remove_char("1,234,567", ','), "1234567");
    let list = vec!["a".to_string(), "".to_string(), "b".to_string()];
    assert_eq!(join(&list, ", "), "a, , b");
    assert_eq!(join(&Vec::new(), ","), "");
    for (a, b) in [("", "a"), ("a", "b"), ("10", "9"), ("a", "ab"), ("z", "é"), ("\u{ffff}", "😀")] {
        assert!(precedes(a, b) && a < b);
        assert!(!precedes(b, a));
        assert!(!precedes(a, a));
    }
}

#[test]
fn numbers_are_written() {
    assert_eq!(show(0), "0");
    assert_eq!(show(u64::MAX), "18446744073709551615");
    assert_eq!(show_two(5), "05");
    assert_eq!(show_two(42), "42");
    assert_eq!(show_two(142), "142");
    assert_eq!(show_signed(i64::MIN), "-9223372036854775808");
    assert_eq!(show_signed(271), "271");
}

#[test]
fn numbers_are_read_as_the_standard_library_reads_them() {
    for s in [
        "",
        "+",
        "-",
        "0",
        "007",
        "+5",
        "-5",
        "--5",
        "5 ",
        " 5",
        "18446744073709551615",
        "18446744073709551616",
        "9223372036854775807",
        "9223372036854775808",
        "-9223372036854775808",
        "-9223372036854775809",
        "00000000000000000000000000012",
        "1_000",
        "٣",
        "-0",
        "+-1",
    ] {
        assert_eq!(read_u64(s), s.parse::<u64>().ok(), "{:?}", s);
        assert_eq!(read_i64(s), s.parse::<i64>().ok(), "{:?}", s);
        assert_eq!(read_usize(s), s.parse::<usize>().ok(), "{:?}", s);
    }
}

#[test]
fn written_numbers_are_read_back() {
    for n in [0u64, 9, 10, 99, 100, 12345678901234567890, u64::MAX] {
        assert_eq!(read_u64(&show(n)), Some(n));
    }
    for n in [0i64, -1, 1, i64::MIN, i64::MAX] {
        assert_eq!(read_i64(&show_signed(n)), Some(n));
    }
}

#[test]
fn words_wrap() {
    assert_eq!(low_word(u64::MAX as u128 + 6), 5);
    assert_eq!(low_word(77), 77);
    assert_eq!(low_signed_word(i64::MAX as i128 + 1), i64::MIN);
    assert_eq!(low_signed_word(i64::MIN as i128 - 1), i64::MAX);
    assert_eq!(low_signed_word(-3), -3);
}

#[test]
fn days_and_dates_correspond() {
    assert_eq!(days_from_civil(1970, 1, 1), 0);
    assert_eq!(days_from_civil(2000, 3, 1), 11017);
    assert_eq!(days_from_civil(1600, 2, 29), -135081);
    assert_eq!(civil_from_days(11016), (2000, 2, 29));
    assert_eq!(civil_from_days(-1), (1969, 12, 31));
    assert_eq!(civil_from_days(-719468), (0, 3, 1));
    for n in -1000..1000i64 {
        let d = civil_from_days(n * 997);
        assert_eq!(days_from_civil(d.0, d.1, d.2), (n * 997) as i128);
    }
}

#[test]
fn numbers_compare_by_their_bits() {
    let values = [
        0.0,
        -0.0,
        1.0,
        -1.0,
        0.7,
        0.9,
        0.1 + 0.2,
        0.3,
        1e300,
        -1e300,
        5e-324,
        f64::INFINITY,
        f64::NEG_INFINITY,
        f64::NAN,
    ];
    for a in values {
        for b in values {
            let x = Real { bits: f64::to_bits(a) };
            let y = Real { bits: f64::to_bits(b) };
            assert_eq!(x.gt(&y), a > b);
            assert_eq!(x.ge(&y), a >= b);
        }
    }
}

#[test]
fn the_known_numbers_have_their_bits() {
    assert_eq!(qrich::reals::BITS_ZERO, 0.0f64.to_bits());
    assert_eq!(qrich::reals::BITS_SEVEN_TENTHS, 0.7f64.to_bits());
    assert_eq!(qrich::reals::BITS_NINE_TENTHS, 0.9f64.to_bits());
    assert_eq!(qrich::reals::BITS_ONE, 1.0f64.to_bits());
    assert_eq!(qrich::reals::BITS_TWO, 2.0f64.to_bits());
    assert_eq!(qrich::reals::BITS_FIVE, 5.0f64.to_bits());
    assert_eq!(qrich::reals::BITS_TEN, 10.0f64.to_bits());
    assert_eq!(qrich::reals::BITS_MINUS_ONE, (-1.0f64).to_bits());
}

fn key(rank: u8, weight: i64, name: &str) -> Key {
    Key { rank, weight, name: name.to_string() }
}

#[test]
fn keys_are_arranged() {
    let keys = vec![
        key(2, 0, "b"),
        key(0, 5, "z"),
        key(0, 9, "y"),
        key(2, 0, "a"),
        key(0, 5, "z"),
        key(0, 5, "m"),
    ];
    assert_eq!(arrange(&keys), vec![2, 5, 1, 4, 3, 0]);
    assert_eq!(arrange(&Vec::new()), Vec::<usize>::new());
}
