use workpool::text::{eq_ignore_case, parse_usize, push_dec, split_commas_exec, starts_with_chars, trim_spaces};

#[test]
fn trim_strips_both_ends() {
    assert_eq!(trim_spaces(" a "), "a");
    assert_eq!(trim_spaces("\t\r\n x"), "x");
    assert_eq!(trim_spaces("abc"), "abc");
    assert_eq!(trim_spaces("   "), "");
    assert_eq!(trim_spaces(""), "");
    assert_eq!(trim_spaces(" a b "), "a b");
}

#[test]
fn parse_usize_accepts_plain_decimals() {
    assert_eq!(parse_usize("42"), Some(42));
    assert_eq!(parse_usize("0"), Some(0));
    assert_eq!(parse_usize("+7"), Some(7));
    assert_eq!(parse_usize("016"), Some(16));
}

#[test]
fn parse_usize_rejects_everything_else() {
    assert_eq!(parse_usize(""), None);
    assert_eq!(parse_usize("+"), None);
    assert_eq!(parse_usize("12a"), None);
    assert_eq!(parse_usize(" 3"), None);
    assert_eq!(parse_usize("-3"), None);
    assert_eq!(parse_usize("99999999999999999999999999"), None);
}

#[test]
fn case_insensitive_comparison_folds_ascii_letters() {
    assert!(eq_ignore_case("ADD", "add"));
    assert!(eq_ignore_case("Add", "aDD"));
    assert!(eq_ignore_case("a-b", "A-B"));
    assert!(!eq_ignore_case("add", "sub"));
    assert!(!eq_ignore_case("ad", "add"));
    assert!(eq_ignore_case("", ""));
}

#[test]
fn starts_with_compares_a_prefix() {
    assert!(starts_with_chars("POST / HTTP/1.1\r\nrest", "POST / HTTP/1.1"));
    assert!(!starts_with_chars("GET / HTTP/1.1", "POST"));
    assert!(starts_with_chars("abc", ""));
    assert!(!starts_with_chars("ab", "abc"));
}

#[test]
fn split_commas_keeps_every_field() {
    assert_eq!(split_commas_exec("a,b"), vec!["a", "b"]);
    assert_eq!(split_commas_exec(""), vec![""]);
    assert_eq!(split_commas_exec("a,"), vec!["a", ""]);
    assert_eq!(split_commas_exec(",x,"), vec!["", "x", ""]);
    assert_eq!(split_commas_exec("1, 2 ,3"), vec!["1", " 2 ", "3"]);
}

#[test]
fn push_dec_writes_decimal_numerals() {
    let mut s = String::from("n=");
    push_dec(&mut s, 0);
    assert_eq!(s, "n=0");
    let mut t = String::new();
    push_dec(&mut t, 98765);
    assert_eq!(t, "98765");
    let mut u = String::new();
    push_dec(&mut u, 10);
    assert_eq!(u, "10");
}
