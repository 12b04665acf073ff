//! Text and number helpers, held against those of std.

use agentiso::number::{
    decimal_of, i64_or_zero, parse_problem_of, parse_unsigned, signed_of, u64_or_zero,
};
use agentiso::text::{
    byte_len, contains, cut_to, joined, replaced, split_at_most, split_lines, split_on,
    split_words, starts_with, trimmed, without_repeated_prefix,
};

const SAMPLES: [&str; 10] = [
    "",
    " ",
    "a",
    "a,b,,c",
    "\n",
    "a\nb\r\nc\r",
    "\u{2003}x\u{85}",
    "\u{e9}t\u{e9} \u{1f600}",
    ",a,",
    "##a#b",
];

#[test]
fn splitting_is_that_of_std() {
    for s in SAMPLES {
        assert_eq!(split_on(s, ','), s.split(',').collect::<Vec<_>>());
        assert_eq!(split_lines(s), s.lines().collect::<Vec<_>>());
        assert_eq!(split_words(s), s.split_whitespace().collect::<Vec<_>>());
        assert_eq!(trimmed(s), s.trim());
        assert_eq!(split_at_most(s, 2, ','), s.splitn(2, ',').collect::<Vec<_>>());
        assert_eq!(without_repeated_prefix(s, "#"), s.trim_start_matches('#'));
        assert_eq!(byte_len(s), s.len());
        assert_eq!(joined(&split_on(s, ','), ","), s);
    }
}

#[test]
fn searching_is_that_of_std() {
    for s in SAMPLES {
        for p in ["a", ",", ",,", "\u{e9}", "\n"] {
            assert_eq!(contains(s, p), s.contains(p));
            assert_eq!(starts_with(s, p), s.starts_with(p));
            let (new, n) = replaced(s, p, "<>");
            assert_eq!(new, s.replace(p, "<>"));
            assert_eq!(n, s.matches(p).count());
        }
    }
}

#[test]
fn cuts_keep_characters_whole() {
    assert_eq!(cut_to("\u{e9}a", 1), "");
    assert_eq!(cut_to("\u{e9}a", 2), "\u{e9}");
    assert_eq!(cut_to("\u{1f600}", 3), "");
    assert_eq!(cut_to("abc", 9), "abc");
}

#[test]
fn numbers_are_those_of_std() {
    for n in [0, 7, 10, 99, u64::MAX] {
        assert_eq!(decimal_of(n), n.to_string());
        assert_eq!(parse_unsigned(&n.to_string(), 10, u64::MAX), Some(n));
    }
    for n in [0, -1, i32::MIN, i32::MAX] {
        assert_eq!(signed_of(n), n.to_string());
    }
    for s in ["", "+", "-", "12", "+12", "-12", "1a", "99999999999999999999", "-9223372036854775808"] {
        assert_eq!(i64_or_zero(s), s.parse::<i64>().unwrap_or(0));
        assert_eq!(u64_or_zero(s), s.parse::<u64>().unwrap_or(0));
        assert_eq!(
            parse_unsigned(s, 8, u32::MAX as u64),
            u32::from_str_radix(s, 8).ok().map(|n| n as u64)
        );
        if let Err(e) = s.parse::<u64>() {
            assert_eq!(parse_problem_of(s, u64::MAX), e.to_string());
        }
    }
}
