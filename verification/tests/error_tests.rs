use wallee::error::Backtrace;
use wallee::error::BacktraceStatus;
use wallee::error::Error;
use wallee::error::ErrorValue;
use wallee::error::Location;

fn leaf(type_id: u64, display: &str, debug: &str) -> ErrorValue {
    ErrorValue {
        type_id,
        display_text: String::from(display),
        debug_text: String::from(debug),
        cause: None,
    }
}

fn with_cause(type_id: u64, display: &str, debug: &str, cause: ErrorValue) -> ErrorValue {
    ErrorValue {
        type_id,
        display_text: String::from(display),
        debug_text: String::from(debug),
        cause: Some(Box::new(cause)),
    }
}

fn here() -> Location {
    Location { file: String::from("src/main.rs"), line: 3, column: 7 }
}

fn no_backtrace() -> Backtrace {
    Backtrace { status: BacktraceStatus::Disabled, text: String::new() }
}

fn three_deep() -> ErrorValue {
    with_cause(1, "outer", "Outer", with_cause(2, "inner", "Inner", leaf(3, "root", "Root")))
}

#[test]
fn chain_counts_the_value_and_its_causes() {
    let e = Error::construct(three_deep(), here(), no_backtrace());
    assert_eq!(e.chain().count(), 3);

    let single = Error::construct(leaf(1, "only", "Only"), here(), no_backtrace());
    assert_eq!(single.chain().count(), 1);
}

#[test]
fn chain_yields_outermost_first() {
    let e = Error::construct(three_deep(), here(), no_backtrace());
    let mut chain = e.chain();
    let mut seen = Vec::new();
    while let Some(v) = chain.next() {
        seen.push(v.display_text);
    }
    assert_eq!(seen, vec!["outer", "inner", "root"]);
}

#[test]
fn two_fresh_chains_yield_identical_sequences() {
    let e = Error::construct(three_deep(), here(), no_backtrace());
    let mut first = Vec::new();
    let mut chain = e.chain();
    while let Some(v) = chain.next() {
        first.push((v.type_id, v.display_text));
    }
    let mut second = Vec::new();
    let mut chain = e.chain();
    while let Some(v) = chain.next() {
        second.push((v.type_id, v.display_text));
    }
    assert_eq!(first, second);
}

#[test]
fn exhausted_chain_stays_empty() {
    let e = Error::construct(leaf(1, "only", "Only"), here(), no_backtrace());
    let mut chain = e.chain();
    assert!(chain.next().is_some());
    assert!(chain.next().is_none());
    assert!(chain.next().is_none());
}

#[test]
fn display_default_is_the_top_message_alone() {
    let e = Error::construct(three_deep(), here(), no_backtrace());
    assert_eq!(e.display(false), "outer");
}

#[test]
fn display_alternate_joins_every_cause() {
    let e = Error::construct(three_deep(), here(), no_backtrace());
    assert_eq!(e.display(true), "outer: inner: root");

    let single = Error::construct(leaf(1, "only", "Only"), here(), no_backtrace());
    assert_eq!(single.display(true), "only");
}

#[test]
fn debug_default_without_causes() {
    let e = Error::construct(leaf(1, "boom", "Boom"), here(), no_backtrace());
    let out = e.debug(false);
    assert_eq!(out, "src/main.rs(3:7): boom");
    assert!(!out.contains("Caused by:"));
}

#[test]
fn debug_default_with_one_cause_is_unnumbered() {
    let value = with_cause(1, "outer", "Outer", leaf(2, "inner", "Inner"));
    let e = Error::construct(value, here(), no_backtrace());
    assert_eq!(e.debug(false), "src/main.rs(3:7): outer\n\nCaused by:\n    inner");
}

#[test]
fn debug_default_with_two_causes_numbers_the_blocks() {
    let e = Error::construct(three_deep(), here(), no_backtrace());
    assert_eq!(
        e.debug(false),
        "src/main.rs(3:7): outer\n\nCaused by:\n    0: inner\n    1: root"
    );
}

#[test]
fn debug_indents_a_multi_line_cause() {
    let inner = with_cause(2, "first line\nsecond line", "Inner", leaf(3, "root", "Root"));
    let value = with_cause(1, "outer", "Outer", inner);
    let e = Error::construct(value, here(), no_backtrace());
    assert_eq!(
        e.debug(false),
        "src/main.rs(3:7): outer\n\nCaused by:\n    0: first line\n       second line\n    1: root"
    );
}

#[test]
fn debug_alternate_is_a_structured_record() {
    let e = Error::construct(leaf(1, "boom", "Boom"), here(), no_backtrace());
    assert_eq!(
        e.debug(true),
        "Wallee {\n    location: \"src/main.rs(3:7)\",\n    error: Boom,\n}"
    );
}

#[test]
fn captured_backtrace_header_is_capitalized() {
    let bt = Backtrace {
        status: BacktraceStatus::Captured,
        text: String::from("stack backtrace:\n   0: frame\n"),
    };
    let e = Error::construct(leaf(1, "boom", "Boom"), here(), bt);
    assert_eq!(e.debug(false), "src/main.rs(3:7): boom\n\nStack backtrace:\n   0: frame");
}

#[test]
fn captured_backtrace_without_header_gets_one() {
    let bt = Backtrace {
        status: BacktraceStatus::Captured,
        text: String::from("   0: frame\n   1: main  \n"),
    };
    let e = Error::construct(leaf(1, "boom", "Boom"), here(), bt);
    assert_eq!(
        e.debug(false),
        "src/main.rs(3:7): boom\n\nStack backtrace:\n   0: frame\n   1: main"
    );
}

#[test]
fn unicode_trailing_whitespace_is_trimmed() {
    let bt = Backtrace {
        status: BacktraceStatus::Captured,
        text: String::from("stack backtrace:\n   0: frame\u{000C}\u{00A0}\u{2028}\n"),
    };
    let e = Error::construct(leaf(1, "boom", "Boom"), here(), bt);
    assert_eq!(e.debug(false), "src/main.rs(3:7): boom\n\nStack backtrace:\n   0: frame");
}

#[test]
fn uncaptured_backtrace_is_omitted() {
    let bt = Backtrace { status: BacktraceStatus::Unsupported, text: String::from("ignored") };
    let e = Error::construct(leaf(1, "boom", "Boom"), here(), bt);
    assert_eq!(e.debug(false), "src/main.rs(3:7): boom");
}

#[test]
fn downcast_to_the_constructed_type_returns_the_value() {
    let e = Error::construct(leaf(7, "boom", "Boom"), here(), no_backtrace());
    let v = e.downcast(7).ok().expect("matching tag must succeed");
    assert_eq!(v.type_id, 7);
    assert_eq!(v.display_text, "boom");
    assert_eq!(v.debug_text, "Boom");
    assert!(v.cause.is_none());
}

#[test]
fn failed_downcast_returns_the_error_unchanged() {
    let e = Error::construct(leaf(7, "boom", "Boom"), here(), no_backtrace());
    let back = match e.downcast(8) {
        Ok(_) => panic!("mismatched tag must fail"),
        Err(back) => back,
    };
    assert_eq!(back.value.type_id, 7);
    assert_eq!(back.value.display_text, "boom");
    assert_eq!(back.location.file, "src/main.rs");
    assert_eq!(back.location.line, 3);
    assert_eq!(back.location.column, 7);
    assert_eq!(back.display(false), "boom");
}

#[test]
fn accessors_expose_location_and_backtrace() {
    let e = Error::construct(leaf(1, "boom", "Boom"), here(), no_backtrace());
    assert_eq!(e.location().file, "src/main.rs");
    assert_eq!(e.location().line, 3);
    assert_eq!(e.location().column, 7);
    assert_eq!(e.backtrace().status, BacktraceStatus::Disabled);
    assert_eq!(e.as_error_ref().display_text, "boom");
}
