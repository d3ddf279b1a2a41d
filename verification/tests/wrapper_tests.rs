use wallee::error::ErrorValue;
use wallee::wrapper::BoxedError;
use wallee::wrapper::DisplayError;
use wallee::wrapper::Message;
use wallee::wrapper::MessageError;

#[test]
fn message_error_keeps_both_renderings() {
    let adapter = MessageError(Message {
        display_text: String::from("shown"),
        debug_text: String::from("Shown"),
    });
    assert_eq!(adapter.fmt_display(), "shown");
    assert_eq!(adapter.fmt_debug(), "Shown");

    let value = adapter.erase(11);
    assert_eq!(value.type_id, 11);
    assert_eq!(value.display_text, "shown");
    assert_eq!(value.debug_text, "Shown");
    assert!(value.cause.is_none());
}

#[test]
fn display_error_debugs_through_display() {
    let adapter = DisplayError(String::from("plain"));
    assert_eq!(adapter.fmt_display(), "plain");
    assert_eq!(adapter.fmt_debug(), "plain");

    let value = adapter.erase(12);
    assert_eq!(value.type_id, 12);
    assert_eq!(value.display_text, "plain");
    assert_eq!(value.debug_text, "plain");
    assert!(value.cause.is_none());
}

#[test]
fn boxed_error_forwards_renderings_and_cause() {
    let inner = ErrorValue {
        type_id: 2,
        display_text: String::from("inner"),
        debug_text: String::from("Inner"),
        cause: None,
    };
    let outer = ErrorValue {
        type_id: 1,
        display_text: String::from("outer"),
        debug_text: String::from("Outer"),
        cause: Some(Box::new(inner)),
    };
    let adapter = BoxedError(Box::new(outer));
    assert_eq!(adapter.fmt_display(), "outer");
    assert_eq!(adapter.fmt_debug(), "Outer");
    let cause = adapter.source().expect("the wrapped value has a cause");
    assert_eq!(cause.display_text, "inner");
    assert!(cause.cause.is_none());
}

#[test]
fn boxed_error_without_cause_has_no_source() {
    let value = ErrorValue {
        type_id: 1,
        display_text: String::from("only"),
        debug_text: String::from("Only"),
        cause: None,
    };
    let adapter = BoxedError(Box::new(value));
    assert!(adapter.source().is_none());
}

#[test]
fn boxed_error_erase_retags_and_keeps_the_chain() {
    let inner = ErrorValue {
        type_id: 2,
        display_text: String::from("inner"),
        debug_text: String::from("Inner"),
        cause: None,
    };
    let outer = ErrorValue {
        type_id: 1,
        display_text: String::from("outer"),
        debug_text: String::from("Outer"),
        cause: Some(Box::new(inner)),
    };
    let value = BoxedError(Box::new(outer)).erase(9);
    assert_eq!(value.type_id, 9);
    assert_eq!(value.display_text, "outer");
    assert_eq!(value.debug_text, "Outer");
    let cause = value.cause.as_deref().expect("the chain is kept");
    assert_eq!(cause.display_text, "inner");
    assert_eq!(cause.type_id, 2);
}
