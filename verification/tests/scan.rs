use watchbind::scan::{ends_with_char, parse_steps, split_on, str_eq, tokenize, trim};

#[test]
fn tokenize_splits_on_runs_of_whitespace() {
    assert_eq!(tokenize("down 3"), vec!["down", "3"]);
    assert_eq!(tokenize("  down \t 3 \n"), vec!["down", "3"]);
    assert_eq!(tokenize("one"), vec!["one"]);
    assert_eq!(tokenize(""), Vec::<&str>::new());
    assert_eq!(tokenize("   "), Vec::<&str>::new());
    // whitespace is the Unicode white-space set, as str::split_whitespace has it
    assert_eq!(tokenize("down\u{00A0}3"), vec!["down", "3"]);
    assert_eq!(tokenize("up\u{2003}2"), vec!["up", "2"]);
}

#[test]
fn trim_removes_leading_and_trailing_whitespace_only() {
    assert_eq!(trim("  select-toggle "), "select-toggle");
    assert_eq!(trim("echo a b"), "echo a b");
    assert_eq!(trim("\t\n"), "");
    assert_eq!(trim(""), "");
    assert_eq!(trim("\u{3000}x\u{3000}"), "x");
}

#[test]
fn split_on_keeps_empty_segments() {
    assert_eq!(split_on("a+b+c", '+'), vec!["a", "b", "c"]);
    assert_eq!(split_on("a++b", '+'), vec!["a", "", "b"]);
    assert_eq!(split_on("a+", '+'), vec!["a", ""]);
    assert_eq!(split_on("", '+'), vec![""]);
    assert_eq!(split_on("plain", '+'), vec!["plain"]);
}

#[test]
fn parse_steps_reads_non_negative_decimals() {
    assert_eq!(parse_steps("0"), Some(0));
    assert_eq!(parse_steps("17"), Some(17));
    assert_eq!(parse_steps("+17"), Some(17));
    assert_eq!(parse_steps("0012"), Some(12));
    assert_eq!(parse_steps(""), None);
    assert_eq!(parse_steps("+"), None);
    assert_eq!(parse_steps("-3"), None);
    assert_eq!(parse_steps("1.5"), None);
    assert_eq!(parse_steps("ten"), None);
    assert_eq!(parse_steps("184467440737095516150"), None);
}

#[test]
fn str_eq_agrees_with_std() {
    assert!(str_eq("select", "select"));
    assert!(!str_eq("select", "select-all"));
    assert!(!str_eq("a", "b"));
    assert!(str_eq("", ""));
}

#[test]
fn ends_with_char_ignores_trailing_whitespace() {
    assert!(ends_with_char("make build &", '&'));
    assert!(ends_with_char("make build & ", '&'));
    assert!(ends_with_char("make build &\t\n", '&'));
    assert!(!ends_with_char("a& b", '&'));
    assert!(!ends_with_char("make build", '&'));
    assert!(!ends_with_char("", '&'));
    assert!(!ends_with_char("   ", '&'));
}
