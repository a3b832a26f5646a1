use crontabcheck::bytes::skip;
use crontabcheck::field::starts_with;
use crontabcheck::render::number_to_string;
use crontabcheck::text::{bytes_eq, str_eq};
use crontabcheck::{CrontabSyntaxError, Diagnostic};

#[test]
fn skip_leaves_what_follows() {
    assert_eq!(skip(b"abc", 0), b"abc");
    assert_eq!(skip(b"abc", 1), b"bc");
    assert_eq!(skip(b"abc", 3), b"");
}

#[test]
fn starts_with_a_tag() {
    assert!(starts_with(b"jan 1", b"jan"));
    assert!(starts_with(b"jan", b"jan"));
    assert!(starts_with(b"jan", b""));
    assert!(!starts_with(b"ja", b"jan"));
    assert!(!starts_with(b"jbn", b"jan"));
    assert!(!starts_with(b"", b"j"));
}

#[test]
fn equal_bytes_and_equal_text() {
    assert!(bytes_eq(b"root", b"root"));
    assert!(bytes_eq(b"", b""));
    assert!(!bytes_eq(b"root", b"roo"));
    assert!(!bytes_eq(b"root", b"rood"));
    assert!(str_eq("root", "root"));
    assert!(str_eq("\u{e9}", "\u{e9}"));
    assert!(!str_eq("root", "toor"));
    assert!(!str_eq("e", "\u{e9}"));
}

#[test]
fn numbers_as_strings() {
    assert_eq!(number_to_string(0), "0");
    assert_eq!(number_to_string(59), "59");
    assert_eq!(number_to_string(-7), "-7");
    assert_eq!(number_to_string(i32::MIN), i32::MIN.to_string());
    assert_eq!(number_to_string(i32::MAX), i32::MAX.to_string());
}

#[test]
fn diagnostics_are_built_with_their_position() {
    let d = Diagnostic::at(CrontabSyntaxError::InvalidUsername, b"x");
    assert_eq!(
        d,
        Diagnostic { error: CrontabSyntaxError::InvalidUsername, position: Some(b"x"), cause: None }
    );
    let outer = Diagnostic::caused_by(CrontabSyntaxError::InvalidEnumField, b"yx", d);
    assert_eq!(outer.error, CrontabSyntaxError::InvalidEnumField);
    assert_eq!(outer.position, Some(&b"yx"[..]));
    assert_eq!(
        outer.cause,
        Some(Box::new(Diagnostic {
            error: CrontabSyntaxError::InvalidUsername,
            position: Some(b"x"),
            cause: None,
        }))
    );
}
