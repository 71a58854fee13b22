use rarerankd::args::arg_value;
use rarerankd::args::has_flag;
use rarerankd::args::i32_or;
use rarerankd::args::parse_i32;
use rarerankd::args::parse_u64;
use rarerankd::args::string_or;
use rarerankd::args::u64_or;
use rarerankd::args::usize_or;

fn args(texts: &[&str]) -> Vec<String> {
    texts.iter().map(|t| t.to_string()).collect()
}

#[test]
fn the_first_key_counts() {
    let a = args(&["prog", "--start", "5", "--start", "6"]);
    assert_eq!(arg_value(&a, "--start"), Some("5".to_string()));
    assert_eq!(arg_value(&a, "--end"), None);
}

#[test]
fn a_key_at_the_end_has_no_value() {
    assert_eq!(arg_value(&args(&["prog", "--start"]), "--start"), None);
    assert_eq!(arg_value(&args(&[]), "--start"), None);
    assert_eq!(
        arg_value(&args(&["--start", "--start", "7"]), "--start"),
        Some("--start".to_string())
    );
}

#[test]
fn flags_are_found_anywhere() {
    let a = args(&["prog", "--first-only", "-h"]);
    assert!(has_flag(&a, "-h"));
    assert!(has_flag(&a, "--first-only"));
    assert!(!has_flag(&a, "--help"));
    assert!(!has_flag(&args(&[]), "-h"));
}

#[test]
fn numbers_are_parsed() {
    assert_eq!(parse_u64("42", "--max-hits").unwrap(), 42);
    assert_eq!(parse_i32("-7", "--start").unwrap(), -7);
}

#[test]
fn what_is_no_number_is_told() {
    let e = parse_u64("-1", "--max-hits").unwrap_err();
    assert_eq!((e.what.as_str(), e.text.as_str()), ("--max-hits", "-1"));
    assert_eq!(e.message(), "invalid --max-hits: -1");
    let e = parse_i32("2147483648", "--start").unwrap_err();
    assert_eq!(e.message(), "invalid --start: 2147483648");
}

#[test]
fn what_is_not_given_is_stood_in_for() {
    let some = |t: &str| Some(t.to_string());
    assert_eq!(string_or(some("x"), "y"), "x");
    assert_eq!(string_or(None, "y"), "y");
    assert_eq!(string_or(some(""), "y"), "");
    assert_eq!(u64_or(some("3"), 5), 3);
    assert_eq!(u64_or(some("three"), 5), 5);
    assert_eq!(u64_or(None, 5), 5);
    assert_eq!(usize_or(some("3"), 20), 3);
    assert_eq!(usize_or(some("-3"), 20), 20);
    assert_eq!(usize_or(None, 20), 20);
    assert_eq!(i32_or(some("-3"), 0), -3);
    assert_eq!(i32_or(some("3000000000"), 0), 0);
    assert_eq!(i32_or(None, 1), 1);
}
