use minigrep::{parse_args, ArgError, ArgEvent, Args, Config, ConfigBuilder, ParsedArgs};

fn value(s: &str) -> ArgEvent {
    ArgEvent::Value(s.to_string())
}

fn run_of(r: Result<ParsedArgs, ArgError>) -> Args {
    match r {
        Ok(ParsedArgs::Run(a)) => a,
        _ => panic!("expected a run"),
    }
}

#[test]
fn parse_two_values() {
    let events = vec![value("needle"), value("hay.txt")];
    let args = run_of(parse_args(&events));
    assert_eq!("needle", args.query);
    assert_eq!("hay.txt", args.file_path);
    assert!(!args.case_insensitive);
}

#[test]
fn parse_case_insensitive_flag_anywhere() {
    let events = vec![ArgEvent::CaseInsensitive, value("q"), value("f")];
    assert!(run_of(parse_args(&events)).case_insensitive);
    let events = vec![value("q"), value("f"), ArgEvent::CaseInsensitive];
    assert!(run_of(parse_args(&events)).case_insensitive);
}

#[test]
fn parse_missing_query() {
    let events: Vec<ArgEvent> = vec![];
    assert!(matches!(parse_args(&events), Err(ArgError::MissingQuery)));
    let events = vec![ArgEvent::CaseInsensitive];
    assert!(matches!(parse_args(&events), Err(ArgError::MissingQuery)));
}

#[test]
fn parse_missing_file_path() {
    let events = vec![value("q")];
    assert!(matches!(parse_args(&events), Err(ArgError::MissingFilePath)));
}

#[test]
fn parse_help_wins_at_once() {
    let events = vec![value("q"), ArgEvent::Help, ArgEvent::Other("-z".to_string())];
    assert!(matches!(parse_args(&events), Ok(ParsedArgs::Help)));
}

#[test]
fn parse_rejects_extra_value() {
    let events = vec![value("a"), value("b"), value("c")];
    match parse_args(&events) {
        Err(ArgError::Unexpected(s)) => assert_eq!("c", s),
        _ => panic!("expected a rejection"),
    }
}

#[test]
fn parse_rejects_unknown_option() {
    let events = vec![ArgEvent::Other("--verbose".to_string()), value("a"), value("b")];
    match parse_args(&events) {
        Err(ArgError::Unexpected(s)) => assert_eq!("--verbose", s),
        _ => panic!("expected a rejection"),
    }
}

#[test]
fn config_new_validates_pattern() {
    let built = Config::new("fo+".to_string(), "hay.txt".to_string());
    let builder = built.ok().expect("a valid pattern");
    assert_eq!("fo+", builder.pattern);
    assert_eq!("hay.txt", builder.file_path);
    assert!(builder.case_insensitive.is_none());
}

#[test]
fn config_new_rejects_invalid_pattern() {
    let built = Config::new("foo(bar".to_string(), "hay.txt".to_string());
    match built {
        Err(msg) => assert_eq!("invalid regex pattern: foo(bar", msg),
        Ok(_) => panic!("expected a rejection"),
    }
}

#[test]
fn builder_prepends_inline_flag_once() {
    let mut builder = ConfigBuilder {
        pattern: "rust".to_string(),
        file_path: "hay.txt".to_string(),
        case_insensitive: None,
    };
    builder.case_insensitive(true);
    assert_eq!("(?i)rust", builder.pattern);
    builder.case_insensitive(true);
    assert_eq!("(?i)rust", builder.pattern);
}

#[test]
fn builder_keeps_pattern_when_not_asked() {
    let mut builder = ConfigBuilder {
        pattern: "rust".to_string(),
        file_path: "hay.txt".to_string(),
        case_insensitive: None,
    };
    builder.case_insensitive(false);
    assert_eq!("rust", builder.pattern);
}

#[test]
fn builder_build_copies_fields() {
    let builder = ConfigBuilder {
        pattern: "(?i)rust".to_string(),
        file_path: "hay.txt".to_string(),
        case_insensitive: None,
    };
    let config = builder.build();
    assert_eq!("(?i)rust", config.pattern);
    assert_eq!("hay.txt", config.file_path);
}
