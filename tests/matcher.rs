use minigrep::{line_contains, next_line, search, search_case_insensitive};

#[test]
fn case_sensitive() {
    let query = "duct";
    let contents = "\
Rust:
safe, fast, productive.
Pick three.
Duct tape";

    assert_eq!(vec!["safe, fast, productive."], search(query, contents));
}

#[test]
fn case_insensitive() {
    let query = "rUsT";
    let contents = "\
Rust:
safe, fast, productive.
Pick three.
Trust me.";

    assert_eq!(
        vec!["Rust:", "Trust me."],
        search_case_insensitive(query, contents)
    );
}

#[test]
fn empty_query_returns_every_line() {
    let contents = "one\n\ntwo\nthree";
    assert_eq!(vec!["one", "", "two", "three"], search("", contents));
}

#[test]
fn empty_text_has_no_lines() {
    let empty: Vec<&str> = Vec::new();
    assert_eq!(empty, search("", ""));
    assert_eq!(empty, search_case_insensitive("a", ""));
}

#[test]
fn trailing_newline_opens_no_line() {
    assert_eq!(vec!["a", "b"], search("", "a\nb\n"));
    assert_eq!(vec![""], search("", "\n"));
}

#[test]
fn carriage_return_before_newline_is_dropped() {
    assert_eq!(vec!["one", "two"], search("", "one\r\ntwo\r\n"));
    assert_eq!(vec!["one", "two\r"], search("", "one\r\ntwo\r"));
    assert_eq!(vec!["a\rb"], search("", "a\rb"));
}

#[test]
fn query_longer_than_line_never_matches() {
    let empty: Vec<&str> = Vec::new();
    assert_eq!(empty, search("longer", "long\nlon"));
}

#[test]
fn lines_keep_order_and_duplicates() {
    let contents = "x1\ny\nx1\nz x";
    assert_eq!(vec!["x1", "x1", "z x"], search("x", contents));
}

#[test]
fn search_is_repeatable() {
    let contents = "alpha\nbeta\ngamma alpha";
    assert_eq!(search("alpha", contents), search("alpha", contents));
}

#[test]
fn search_keeps_every_line_holding_a_substring_of_it() {
    let contents = "first line\nsecond line\nthird";
    let lines = search("cond l", contents);
    assert!(lines.contains(&"second line"));
    assert_eq!(vec!["second line"], lines);
}

#[test]
fn ignoring_case_keeps_exact_matches() {
    let contents = "Rust:\nrust\nRUST\nrusty";
    let exact = search("rust", contents);
    let folded = search_case_insensitive("rust", contents);
    assert_eq!(vec!["rust", "rusty"], exact);
    assert_eq!(vec!["Rust:", "rust", "RUST", "rusty"], folded);
    for line in &exact {
        assert!(folded.contains(line));
    }
}

#[test]
fn ignoring_case_folds_non_ascii_letters() {
    assert_eq!(vec!["ÄPFEL"], search_case_insensitive("äpf", "ÄPFEL\nBirne"));
    let empty: Vec<&str> = Vec::new();
    assert_eq!(empty, search("äpf", "ÄPFEL\nBirne"));
}

#[test]
fn line_contains_tests_substrings() {
    assert!(line_contains("productive", "duct"));
    assert!(line_contains("abc", ""));
    assert!(line_contains("abc", "abc"));
    assert!(!line_contains("abc", "abcd"));
    assert!(!line_contains("Duct tape", "duct"));
    assert!(line_contains("naïve café", "é"));
}

#[test]
fn next_line_splits_at_first_newline() {
    assert_eq!(None, next_line(""));
    assert_eq!(Some(("one", "two\nthree")), next_line("one\r\ntwo\nthree"));
    assert_eq!(Some(("last", "")), next_line("last"));
    assert_eq!(Some(("", "x")), next_line("\nx"));
}
