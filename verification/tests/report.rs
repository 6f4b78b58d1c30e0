use ripclip::config::{parse_config, LineError, ParseError};

#[test]
fn line_error_messages() {
    assert_eq!(
        LineError::Malformed.message(),
        "Line must be an option, followed by an equals sign, followed by a value."
    );
    assert_eq!(LineError::UnknownOption("foo".to_string()).message(), "Unknown option `foo`");
    assert_eq!(LineError::UnknownModifier("hyper".to_string()).message(), "Unknown modifier `hyper`");
    assert_eq!(LineError::UnknownKey("f99".to_string()).message(), "Unknown key `f99`");
    assert_eq!(
        LineError::ExpectedBool("yes".to_string()).message(),
        "Expected value to be one of `true` or `false`, got yes"
    );
    assert_eq!(
        LineError::ModifierWithNoKey.message(),
        "It doesn't make sense to have an empty key (None) with any modifiers, or other tokens"
    );
}

#[test]
fn expected_int_message_names_the_bound_and_the_reason() {
    let reason = "abc".parse::<usize>().unwrap_err();
    let expected = format!(
        "Expected value to be a positive integer less than or equal to {}, but failed to parse: {}",
        usize::MAX,
        reason
    );
    assert_eq!(LineError::ExpectedInt(reason).message(), expected);
}

#[test]
fn parse_error_message_counts_lines_from_one() {
    let e = parse_config(b"\n\nfoo = bar").unwrap_err();
    assert_eq!(e.message(), "Error at line 3: Unknown option `foo`");
    let e = ParseError::Line(LineError::Malformed, 9);
    assert_eq!(
        e.message(),
        "Error at line 10: Line must be an option, followed by an equals sign, followed by a value."
    );
    let e = ParseError::Line(LineError::ModifierWithNoKey, usize::MAX);
    assert_eq!(
        e.message(),
        format!(
            "Error at line {}: It doesn't make sense to have an empty key (None) with any modifiers, or other tokens",
            usize::MAX as u128 + 1
        )
    );
}

#[test]
fn io_error_message() {
    let e = ParseError::Io(std::io::Error::new(std::io::ErrorKind::Other, "disk on fire"));
    assert_eq!(e.message(), "I/O Error: disk on fire");
}
