use minigrep::format::{format_line, format_literal_match, highlight_line, render_results};
use minigrep::matcher::find_spans;
use minigrep::CaseMode;

#[test]
fn find_spans_left_to_right() {
    assert_eq!(
        vec![(0, 2), (3, 5)],
        find_spans("abxab", "ab", CaseMode::Sensitive)
    );
}

#[test]
fn find_spans_do_not_overlap() {
    assert_eq!(
        vec![(0, 2), (2, 4)],
        find_spans("aaaa", "aa", CaseMode::Sensitive)
    );
}

#[test]
fn find_spans_empty_query_zero_width_at_offset_zero() {
    let spans = find_spans("abc", "", CaseMode::Sensitive);
    assert_eq!(vec![(0, 0), (1, 1), (2, 2), (3, 3)], spans);
    assert_eq!((0, 0), spans[0]);
}

#[test]
fn find_spans_fold_case() {
    assert_eq!(
        vec![(0, 4)],
        find_spans("RuSt is fun", "rUsT", CaseMode::Insensitive)
    );
    assert_eq!(
        Vec::<(usize, usize)>::new(),
        find_spans("RuSt is fun", "rUsT", CaseMode::Sensitive)
    );
}

#[test]
fn highlight_wraps_each_span() {
    let spans = vec![(1, 3)];
    assert_eq!("a<bc>d", highlight_line("abcd", &spans, "<", ">"));
    let two = vec![(0, 2), (3, 5)];
    assert_eq!("[ab]x[ab]", highlight_line("abxab", &two, "[", "]"));
}

#[test]
fn highlight_with_empty_markers_is_plain_text() {
    let spans = vec![(1, 3)];
    assert_eq!("abcd", highlight_line("abcd", &spans, "", ""));
}

#[test]
fn format_line_shape() {
    assert_eq!("[12]: xy", format_line(12, "xy"));
    assert_eq!("[1]: Rust:", format_line(1, "Rust:"));
    assert_eq!("[0]: ", format_line(0, ""));
    assert_eq!("[907]: z", format_line(907, "z"));
}

#[test]
fn format_literal_match_wraps_spans() {
    assert_eq!(
        "[2]: safe, fast and pro<duct>ive.",
        format_literal_match(2, "safe, fast and productive.", "duct", CaseMode::Sensitive, "<", ">")
    );
    assert_eq!(
        "[1]: <rust> and <rust>",
        format_literal_match(1, "RuSt and RUST", "rust", CaseMode::Insensitive, "<", ">")
    );
}

#[test]
fn render_results_highlights_matches() {
    let contents = "Rust:\nsafe, fast and productive.\npick three.\n";
    let rendered = render_results("duct", contents, "<<", ">>").expect("a valid pattern");
    assert_eq!(vec!["[2]: safe, fast and pro<<duct>>ive.".to_string()], rendered);
}

#[test]
fn render_results_keeps_unmatched_text() {
    let rendered = render_results("a+", "baab ca\nnone", "<", ">").expect("a valid pattern");
    assert_eq!(vec!["[1]: b<aa>b c<a>".to_string()], rendered);
}

#[test]
fn render_results_rejects_invalid_pattern() {
    assert!(render_results("foo(bar", "anything", "", "").is_none());
}
