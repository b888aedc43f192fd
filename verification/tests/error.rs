use xvc_core::error::{ReadError, TransportError, TransportErrorKind};
use xvc_core::wire::NumberError;

#[test]
fn errors_in_words() {
    assert_eq!(
        ReadError::InvalidCommand("gexinfo:".to_string()).message(),
        "Received invalid command gexinfo:"
    );
    assert_eq!(
        ReadError::InvalidCommandPrefix("xx".to_string()).message(),
        "Received invalid command with prefix xx"
    );
    assert_eq!(
        ReadError::UnsupportedVersion("2.0".to_string()).message(),
        "Unsupported version 2.0"
    );
    assert_eq!(
        ReadError::InvalidFormat("Missing '_' separator".to_string()).message(),
        "Missing '_' separator"
    );
    assert_eq!(
        ReadError::TooManyBytes { max: 1024, got: 1025 }.message(),
        "Message too large! Maximum is 1024, but gut 1025"
    );
    assert_eq!(
        ReadError::TooManyBytes { max: 0, got: usize::MAX }.message(),
        format!("Message too large! Maximum is 0, but gut {}", usize::MAX)
    );
    assert_eq!(
        ReadError::IoError(TransportError {
            kind: TransportErrorKind::ConnectionReset,
            message: "connection reset by peer".to_string(),
        })
        .message(),
        "connection reset by peer"
    );
}

#[test]
fn end_of_stream_error() {
    match ReadError::unexpected_eof() {
        ReadError::IoError(failure) => {
            assert_eq!(failure.kind, TransportErrorKind::UnexpectedEof);
            assert_eq!(failure.message, "failed to fill whole buffer");
        }
        other => panic!("expected a transport error, got {:?}", other),
    }
    assert_eq!(
        ReadError::unexpected_eof().message(),
        "failed to fill whole buffer"
    );
}

#[test]
fn number_errors() {
    for (error, text) in [
        (
            NumberError::Empty,
            "Invalid integer: cannot parse integer from empty string",
        ),
        (
            NumberError::InvalidDigit,
            "Invalid integer: invalid digit found in string",
        ),
        (
            NumberError::Overflow,
            "Invalid integer: number too large to fit in target type",
        ),
    ] {
        match ReadError::invalid_number(error) {
            ReadError::InvalidFormat(shown) => assert_eq!(shown, text),
            other => panic!("expected InvalidFormat, got {:?}", other),
        }
    }
}

#[test]
fn number_errors_read_as_those_of_std() {
    let shown = |error: NumberError| ReadError::invalid_number(error).message();
    assert_eq!(
        shown(NumberError::Empty),
        format!("Invalid integer: {}", "".parse::<u32>().unwrap_err())
    );
    assert_eq!(
        shown(NumberError::InvalidDigit),
        format!("Invalid integer: {}", "x".parse::<u32>().unwrap_err())
    );
    assert_eq!(
        shown(NumberError::Overflow),
        format!("Invalid integer: {}", "4294967296".parse::<u32>().unwrap_err())
    );
}
