//! Tests of the contest solver and its text utilities.

use walk_the_dog::solver::{input, solve, Separation};
use walk_the_dog::text::{i64_to_string, parse_i64, str_eq, u64_to_string};

#[test]
fn case_all() {
    let cases: Vec<(&str, &str)> = vec![
        ("8\nABABCABC\n", "3\n"),
        ("3\nACB\n", "-1\n"),
        ("20\nBBAAABBACAACABCBABAB\n", "13\n"),
    ];
    for (question, answer) in cases {
        let got = solve(question.as_bytes().to_vec());
        assert_eq!(got.trim(), answer.trim());
    }
}

#[test]
fn solve_finds_abc_at_start() {
    assert_eq!(solve(b"3\nABC\n".to_vec()), "1\n");
}

#[test]
fn solve_finds_overlapping_start() {
    assert_eq!(solve(b"4\nAABC\n".to_vec()), "2\n");
}

#[test]
fn solve_without_trailing_newline() {
    assert_eq!(solve(b"3\nABC".to_vec()), "1\n");
}

#[test]
fn solve_reports_absence() {
    assert_eq!(solve(b"6\nABABAB\n".to_vec()), "-1\n");
}

#[test]
fn solve_empty_subject_line() {
    assert_eq!(solve(b"0\n\n".to_vec()), "-1\n");
    assert_eq!(solve(b"0\n".to_vec()), "-1\n");
}

#[test]
fn next_str_by_line() {
    let mut inp = input(b"one\ntwo\nthree".to_vec(), Separation::LINE);
    assert_eq!(inp.next_str(), Some("one".to_string()));
    assert_eq!(inp.next_str(), Some("two".to_string()));
    assert_eq!(inp.next_str(), Some("three".to_string()));
    assert_eq!(inp.next_str(), None);
}

#[test]
fn next_str_by_word() {
    let mut inp = input(b"a bc  d".to_vec(), Separation::WORD);
    assert_eq!(inp.next_str(), Some("a".to_string()));
    assert_eq!(inp.next_str(), Some("bc".to_string()));
    assert_eq!(inp.next_str(), Some("".to_string()));
    assert_eq!(inp.next_str(), Some("d".to_string()));
    assert_eq!(inp.next_str(), None);
}

#[test]
fn next_str_by_char() {
    let mut inp = input(b"ab".to_vec(), Separation::CHAR);
    assert_eq!(inp.next_str(), Some("a".to_string()));
    assert_eq!(inp.next_str(), Some("b".to_string()));
    assert_eq!(inp.next_str(), None);
}

#[test]
fn next_i64_reads_numbers() {
    let mut inp = input(b"12\n-34\n".to_vec(), Separation::LINE);
    assert_eq!(inp.next_i64(), Some(12));
    assert_eq!(inp.next_i64(), Some(-34));
    assert_eq!(inp.next_i64(), None);
}

#[test]
fn parse_i64_accepts_signed_decimals() {
    assert_eq!(parse_i64("42"), Some(42));
    assert_eq!(parse_i64("+5"), Some(5));
    assert_eq!(parse_i64("-7"), Some(-7));
    assert_eq!(parse_i64("0"), Some(0));
    assert_eq!(parse_i64("9223372036854775807"), Some(i64::MAX));
    assert_eq!(parse_i64("-9223372036854775808"), Some(i64::MIN));
}

#[test]
fn parse_i64_rejects_junk_and_overflow() {
    assert_eq!(parse_i64(""), None);
    assert_eq!(parse_i64("-"), None);
    assert_eq!(parse_i64("+"), None);
    assert_eq!(parse_i64("abc"), None);
    assert_eq!(parse_i64("12x"), None);
    assert_eq!(parse_i64("9223372036854775808"), None);
    assert_eq!(parse_i64("-9223372036854775809"), None);
    assert_eq!(parse_i64("99999999999999999999999"), None);
}

#[test]
fn integers_render_in_decimal() {
    assert_eq!(u64_to_string(0), "0");
    assert_eq!(u64_to_string(13), "13");
    assert_eq!(u64_to_string(1000000), "1000000");
    assert_eq!(i64_to_string(-1), "-1");
    assert_eq!(i64_to_string(475), "475");
    assert_eq!(i64_to_string(i64::MIN), "-9223372036854775808");
}

#[test]
fn str_eq_compares_contents() {
    assert!(str_eq("ArrowRight", "ArrowRight"));
    assert!(!str_eq("ArrowRight", "ArrowLeft"));
    assert!(!str_eq("a", "ab"));
    assert!(str_eq("", ""));
}
