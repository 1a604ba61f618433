use minigrep::matcher::contains;
use minigrep::CaseMode;

#[test]
fn contains_finds_substring() {
    assert!(contains("safe, fast and productive.", "duct"));
    assert!(!contains("pick three.", "duct"));
    assert!(contains("abc", ""));
    assert!(contains("", ""));
    assert!(!contains("", "a"));
    assert!(!contains("ab", "abc"));
}

#[test]
fn matches_folds_case_when_asked() {
    assert!(minigrep::matcher::matches("Rust:", "RusT", CaseMode::Insensitive));
    assert!(!minigrep::matcher::matches("Rust:", "RusT", CaseMode::Sensitive));
    assert!(minigrep::matcher::matches("Rust:", "Rust", CaseMode::Sensitive));
}

#[test]
fn matches_folds_case_beyond_ascii() {
    assert!(minigrep::matcher::matches("die ÄPFEL sind reif", "äpfel", CaseMode::Insensitive));
    assert!(!minigrep::matcher::matches("die ÄPFEL sind reif", "äpfel", CaseMode::Sensitive));
}
