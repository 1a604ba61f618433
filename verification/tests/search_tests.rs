use minigrep::search;
use minigrep::search_literal;
use minigrep::try_search;
use minigrep::CaseMode;
use minigrep::lines::split_lines;

#[test]
fn case_sensitive() {
    let query = "duct";

    let content = "\
Rust:
safe, fast and productive.
pick three.
    ";

    assert_eq!(
        vec![(2, "safe, fast and productive.")],
        search(query, content)
    )
}

#[test]
fn one_result() {
    let query = "(?i)RusT";

    let content = "\
    Rust:
    safe, fast and productive.
    pick three.
        ";

    assert_eq!(vec![(1, "Rust:")], search(query, content))
}

#[test]
fn case_insensitive() {
    let query = "(?i)Arnold";

    let contents = "\
Hello There,
I am Arnold,
A software engineer.
My username is arnold.
        ";

    assert_eq!(
        vec![(2, "I am Arnold,"), (4, "My username is arnold.")],
        search(query, contents)
    )
}

#[test]
fn literal_insensitive_finds_differently_cased_line() {
    let contents = "Rust:\nsafe, fast and productive.\npick three.\n";
    assert_eq!(
        vec![(1, "Rust:")],
        search_literal("RusT", CaseMode::Insensitive, contents)
    );
    assert_eq!(
        Vec::<(usize, &str)>::new(),
        search_literal("RusT", CaseMode::Sensitive, contents)
    );
}

#[test]
fn inline_flag_agrees_with_literal_insensitive() {
    let contents = "Hello There,\nI am Arnold,\nA software engineer.\nMy username is arnold.\n";
    assert_eq!(
        search("(?i)Arnold", contents),
        search_literal("Arnold", CaseMode::Insensitive, contents)
    );
    let contents2 = "Rust:\nsafe, fast and productive.\npick three.\n";
    assert_eq!(
        search("(?i)RusT", contents2),
        search_literal("RusT", CaseMode::Insensitive, contents2)
    );
    assert_eq!(
        search("duct", contents2),
        search_literal("duct", CaseMode::Sensitive, contents2)
    );
}

#[test]
fn example_duct_case_sensitive() {
    let contents = "Rust:\nsafe, fast and productive.\npick three.\n";
    assert_eq!(
        vec![(2, "safe, fast and productive.")],
        search("duct", contents)
    );
    assert_eq!(
        vec![(2, "safe, fast and productive.")],
        search_literal("duct", CaseMode::Sensitive, contents)
    );
}

#[test]
fn empty_query_matches_every_line() {
    let contents = "one\ntwo\nthree";
    assert_eq!(
        vec![(1, "one"), (2, "two"), (3, "three")],
        search_literal("", CaseMode::Sensitive, contents)
    );
    assert_eq!(
        vec![(1, "one"), (2, "two"), (3, "three")],
        search("", contents)
    );
}

#[test]
fn empty_contents_give_empty_results() {
    assert_eq!(Vec::<(usize, &str)>::new(), search("duct", ""));
    assert_eq!(
        Vec::<(usize, &str)>::new(),
        search_literal("duct", CaseMode::Insensitive, "")
    );
    assert_eq!(Vec::<&str>::new(), split_lines(""));
}

#[test]
fn try_search_rejects_invalid_pattern() {
    assert!(try_search("foo(bar", "anything").is_none());
    let found = try_search("fo+", "foo\nbar\nfo").expect("a valid pattern");
    assert_eq!(vec![(1, "foo"), (3, "fo")], found);
}

#[test]
fn round_trip_reassembles_matched_lines() {
    let contents = "alpha\nbeta\ngamma\n";
    let results = search("", contents);
    let texts: Vec<&str> = results.iter().map(|p| p.1).collect();
    assert_eq!("alpha\nbeta\ngamma", texts.join("\n"));
    let original_lines: Vec<&str> = contents.lines().collect();
    assert_eq!(original_lines, texts);
}

#[test]
fn split_lines_handles_terminators() {
    assert_eq!(vec!["a", "b"], split_lines("a\r\nb"));
    assert_eq!(vec!["a\rb"], split_lines("a\rb"));
    assert_eq!(vec!["a", "b"], split_lines("a\nb\n"));
    assert_eq!(vec!["", "x"], split_lines("\nx"));
    assert_eq!(vec!["a", "", "b"], split_lines("a\n\nb"));
}

#[test]
fn search_strips_crlf_terminators() {
    assert_eq!(
        vec![(1, "alpha"), (2, "beta")],
        search("a", "alpha\r\nbeta\r\n")
    );
}

#[test]
fn literal_search_folds_beyond_ascii() {
    let contents = "grün\nGRÜN\nblau";
    assert_eq!(
        vec![(1, "grün"), (2, "GRÜN")],
        search_literal("grün", CaseMode::Insensitive, contents)
    );
    assert_eq!(
        vec![(1, "grün")],
        search_literal("grün", CaseMode::Sensitive, contents)
    );
}

#[test]
fn line_numbers_are_original_positions() {
    let contents = "x\nmatch\nx\nmatch";
    assert_eq!(
        vec![(2, "match"), (4, "match")],
        search("match", contents)
    );
}
