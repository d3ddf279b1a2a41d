use wallee::fmt::Indented;

#[test]
fn one_digit() {
    let input = "verify\nthis";
    let expected = "    2: verify\n       this";

    let mut writer = Indented { inner: String::new(), number: Some(2), started: false };
    writer.write_str(input);

    assert_eq!(expected, writer.inner);
}

#[test]
fn two_digits() {
    let input = "verify\nthis";
    let expected = "   12: verify\n       this";

    let mut writer = Indented { inner: String::new(), number: Some(12), started: false };
    writer.write_str(input);

    assert_eq!(expected, writer.inner);
}

#[test]
fn no_digits() {
    let input = "verify\nthis";
    let expected = "    verify\n    this";

    let mut writer = Indented { inner: String::new(), number: None, started: false };
    writer.write_str(input);

    assert_eq!(expected, writer.inner);
}

#[test]
fn wide_label_is_not_padded() {
    let mut writer = Indented { inner: String::new(), number: Some(123456), started: false };
    writer.write_str("verify\nthis");

    assert_eq!("123456: verify\n       this", writer.inner);
}

#[test]
fn five_digit_label_fills_the_field() {
    let mut writer = Indented { inner: String::new(), number: Some(10234), started: false };
    writer.write_str("verify");

    assert_eq!("10234: verify", writer.inner);
}

#[test]
fn two_writes_form_one_block() {
    let mut writer = Indented { inner: String::new(), number: Some(3), started: false };
    writer.write_str("verify");
    writer.write_str(" more\nthis");

    assert_eq!("    3: verify more\n       this", writer.inner);
}

#[test]
fn empty_write_emits_the_prefix() {
    let mut writer = Indented { inner: String::new(), number: None, started: false };
    writer.write_str("");

    assert_eq!("    ", writer.inner);
    assert!(writer.started);
}

#[test]
fn started_writer_adds_no_prefix() {
    let mut writer = Indented { inner: String::from("head"), number: Some(1), started: true };
    writer.write_str("tail");

    assert_eq!("headtail", writer.inner);
}

#[test]
fn trailing_newline_indents_an_empty_line() {
    let mut writer = Indented { inner: String::new(), number: None, started: false };
    writer.write_str("verify\n");

    assert_eq!("    verify\n    ", writer.inner);
}

#[test]
fn zero_label_is_rendered() {
    let mut writer = Indented { inner: String::new(), number: Some(0), started: false };
    writer.write_str("first");

    assert_eq!("    0: first", writer.inner);
}
