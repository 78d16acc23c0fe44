use tape_machine::Error;

#[test]
fn at_byte_names_offset_zero() {
    let e = Error::at_byte(0);
    assert!(matches!(e, Error::Syntax(_)));
    assert_eq!(e.message(), "Found a ] with no correspoding [ at byte: 0");
}

#[test]
fn at_byte_names_a_single_digit_offset() {
    assert_eq!(Error::at_byte(7).message(), "Found a ] with no correspoding [ at byte: 7");
}

#[test]
fn at_byte_names_offsets_of_several_digits() {
    assert_eq!(Error::at_byte(10).message(), "Found a ] with no correspoding [ at byte: 10");
    assert_eq!(Error::at_byte(909).message(), "Found a ] with no correspoding [ at byte: 909");
    assert_eq!(
        Error::at_byte(1234567890).message(),
        "Found a ] with no correspoding [ at byte: 1234567890"
    );
}

#[test]
fn at_byte_names_the_largest_offset() {
    assert_eq!(
        Error::at_byte(usize::MAX).message(),
        format!("Found a ] with no correspoding [ at byte: {}", usize::MAX)
    );
}

#[test]
fn at_byte_agrees_with_decimal_formatting() {
    for offset in [1usize, 9, 11, 99, 100, 101, 1000, 65535, 30_000] {
        match Error::at_byte(offset) {
            Error::Syntax(text) => {
                assert_eq!(text, format!("Found a ] with no correspoding [ at byte: {}", offset))
            }
            Error::Io(_) => panic!("expected a syntax error"),
        }
    }
}

#[test]
fn string_becomes_a_syntax_error() {
    let e = Error::from(String::from("bad"));
    assert!(matches!(e, Error::Syntax(ref text) if text == "bad"));
    assert_eq!(e.message(), "bad");
}

#[test]
fn io_error_becomes_an_io_error() {
    let io = std::io::Error::new(std::io::ErrorKind::BrokenPipe, "pipe closed");
    let e = Error::from(io);
    assert!(matches!(e, Error::Io(ref inner) if inner.kind() == std::io::ErrorKind::BrokenPipe));
    assert_eq!(e.message(), "pipe closed");
}

#[test]
fn error_has_a_debug_form() {
    let text = format!("{:?}", Error::at_byte(3));
    assert!(text.starts_with("Syntax("));
}
