use std::ops::Range;
use web_framework_markdown::range::{get_substr_range, offset_range};

fn check_range(s: &str, range: Range<usize>) {
    assert_eq!(get_substr_range(s, &s[range.clone()]).unwrap(), range)
}

#[test]
fn get_substring_range_valid() {
    let s = "<abc>";
    check_range(s, 0..1);
    check_range(s, 0..5);
    check_range(s, 4..5);
    assert_eq!(get_substr_range(s, s).unwrap(), 0..5);
}

#[test]
fn get_substring_range_invalid() {
    let s = "<adc>";
    let s2 = "<abc>";
    assert_eq!(get_substr_range(s, s2), None);
    assert_eq!(get_substr_range(s2, s), None);
    assert_eq!(get_substr_range(s, &s2[0..1]), None);
}

#[test]
fn get_substring_range_empty() {
    let s = "<adc>";
    check_range(s, 1..1);
}

#[test]
fn offset_range_shifts_both_ends() {
    assert_eq!(offset_range(3..7, 10), 13..17);
    assert_eq!(offset_range(0..0, 0), 0..0);
}
