use string_ops::{
    to_lower_inplace, to_upper_inplace, utf8_char_count, utf8_validate, StringOpsError,
    StringOpsExt,
};

#[test]
fn test_case_conversion() {
    let mut text = "Hello World!".to_string().into_bytes();
    to_upper_inplace(&mut text);
    assert_eq!(text, "HELLO WORLD!".as_bytes());

    to_lower_inplace(&mut text);
    assert_eq!(text, "hello world!".as_bytes());
}

#[test]
fn test_utf8_operations() {
    assert!(utf8_validate("Hello World".as_bytes()).is_ok());
    assert!(utf8_validate("Hello ASCII".as_bytes()).is_ok());

    assert_eq!(utf8_char_count("Hello".as_bytes()), 5);
    assert_eq!(utf8_char_count("Hello World".as_bytes()), 11);
}

#[test]
fn test_string_ext_trait() {
    let text = "Hello World";
    assert!(text.validate_utf8().is_ok());
    assert_eq!(text.char_count_utf8(), 11);
}

#[test]
fn ext_trait_on_bytes_reports_invalid_input() {
    let good: &[u8] = &[0x63, 0x61, 0x66, 0xc3, 0xa9];
    assert_eq!(good.validate_utf8(), Ok(()));
    assert_eq!(good.char_count_utf8(), 4);
    let bad: &[u8] = &[0x63, 0x61, 0x66, 0xc3];
    assert_eq!(bad.validate_utf8(), Err(StringOpsError::InvalidUtf8));
    assert_eq!(bad.char_count_utf8(), 3);
}

#[test]
fn ext_trait_on_str_counts_characters() {
    assert_eq!("caf\u{e9}".char_count_utf8(), 4);
    assert_eq!("\u{4e16}\u{754c}".char_count_utf8(), 2);
    assert_eq!("".char_count_utf8(), 0);
    assert!("\u{10ffff}".validate_utf8().is_ok());
}

#[test]
fn error_message_names_the_fault() {
    assert_eq!(StringOpsError::InvalidUtf8.message(), "Invalid UTF-8 sequence");
}

#[test]
fn empty_buffer_is_neutral_for_every_operation() {
    let mut empty: Vec<u8> = Vec::new();
    to_upper_inplace(&mut empty);
    assert!(empty.is_empty());
    to_lower_inplace(&mut empty);
    assert!(empty.is_empty());
    assert_eq!(utf8_validate(&empty), Ok(()));
    assert_eq!(utf8_char_count(&empty), 0);
}
