//! What can go wrong while a message is read.

use crate::wire::{ascii_chars, decimal, lemma_decimal, push_decimal, text_of, NumberError};
use vstd::prelude::*;
use vstd::string::StringExecFns;

verus! {

/// The kinds of transport failure that the protocol engine tells apart.
#[derive(Clone, Copy, Debug, PartialEq, Eq, Structural)]
pub enum TransportErrorKind {
    /// The stream ended before a message was complete.
    UnexpectedEof,
    /// A read or a write took longer than the timeout.
    TimedOut,
    /// The peer reset the connection.
    ConnectionReset,
    /// The connection was aborted.
    ConnectionAborted,
    /// Any other failure of the transport.
    Other,
}

/// A failure of the transport, with the words of whoever reported it.
#[derive(Debug)]
pub struct TransportError {
    pub kind: TransportErrorKind,
    pub message: String,
}

/// Errors that may occur when a message is read from a stream.
#[derive(Debug)]
pub enum ReadError {
    /// The transport failed.
    IoError(TransportError),
    /// The command name or its delimiter is not what the first two bytes
    /// promised. The text shows the header as it was read.
    InvalidCommand(String),
    /// No command begins with these two bytes.
    InvalidCommandPrefix(String),
    /// The server announced a version that is not supported.
    UnsupportedVersion(String),
    /// The info line is not laid out as it should be.
    InvalidFormat(String),
    /// A shift asks for longer vectors than are accepted.
    TooManyBytes { max: usize, got: usize },
}

/// What a [`ReadError`] holds, as mathematical values.
pub enum ReadErrorView {
    IoError { kind: TransportErrorKind, message: Seq<char> },
    InvalidCommand(Seq<char>),
    InvalidCommandPrefix(Seq<char>),
    UnsupportedVersion(Seq<char>),
    InvalidFormat(Seq<char>),
    TooManyBytes { max: usize, got: usize },
}

impl View for ReadError {
    type V = ReadErrorView;

    open spec fn view(&self) -> ReadErrorView {
        match *self {
            ReadError::IoError(error) => ReadErrorView::IoError {
                kind: error.kind,
                message: error.message@,
            },
            ReadError::InvalidCommand(text) => ReadErrorView::InvalidCommand(text@),
            ReadError::InvalidCommandPrefix(text) => ReadErrorView::InvalidCommandPrefix(text@),
            ReadError::UnsupportedVersion(text) => ReadErrorView::UnsupportedVersion(text@),
            ReadError::InvalidFormat(text) => ReadErrorView::InvalidFormat(text@),
            ReadError::TooManyBytes { max, got } => ReadErrorView::TooManyBytes { max, got },
        }
    }
}

/// The error of a stream that ended too early.
pub open spec fn unexpected_eof() -> ReadErrorView {
    ReadErrorView::IoError {
        kind: TransportErrorKind::UnexpectedEof,
        message: "failed to fill whole buffer"@,
    }
}

/// The decimal digits of `n` as text.
pub open spec fn decimal_text(n: nat) -> Seq<char> {
    ascii_chars(decimal(n))
}

/// The error of an info line whose number of bytes is no number.
pub open spec fn invalid_number(error: NumberError) -> ReadErrorView {
    ReadErrorView::InvalidFormat(
        match error {
            NumberError::Empty => "Invalid integer: cannot parse integer from empty string"@,
            NumberError::InvalidDigit => "Invalid integer: invalid digit found in string"@,
            NumberError::Overflow => "Invalid integer: number too large to fit in target type"@,
        },
    )
}

impl ReadErrorView {
    /// The error in words.
    pub open spec fn message(self) -> Seq<char> {
        match self {
            ReadErrorView::IoError { kind, message } => message,
            ReadErrorView::InvalidCommand(text) => "Received invalid command "@ + text,
            ReadErrorView::InvalidCommandPrefix(text) => "Received invalid command with prefix "@
                + text,
            ReadErrorView::UnsupportedVersion(text) => "Unsupported version "@ + text,
            ReadErrorView::InvalidFormat(text) => text,
            ReadErrorView::TooManyBytes { max, got } => "Message too large! Maximum is "@
                + decimal_text(max as nat) + ", but gut "@ + decimal_text(got as nat),
        }
    }
}

/// The decimal digits of `n` as text.
fn decimal_string(n: usize) -> (text: String)
    ensures
        text@ == decimal_text(n as nat),
{
    let mut digits: Vec<u8> = Vec::new();
    push_decimal(&mut digits, n as u64);
    proof {
        lemma_decimal(n as nat);
        assert(digits@ =~= decimal(n as nat));
    }
    text_of(digits.as_slice())
}

impl ReadError {
    /// The error of a stream that ended too early.
    pub fn unexpected_eof() -> (error: ReadError)
        ensures
            error@ == unexpected_eof(),
    {
        ReadError::IoError(
            TransportError {
                kind: TransportErrorKind::UnexpectedEof,
                message: String::from_str("failed to fill whole buffer"),
            },
        )
    }

    /// The error of an info line whose number of bytes is no number.
    pub fn invalid_number(error: NumberError) -> (e: ReadError)
        ensures
            e@ == invalid_number(error),
    {
        ReadError::InvalidFormat(
            match error {
                NumberError::Empty => String::from_str(
                    "Invalid integer: cannot parse integer from empty string",
                ),
                NumberError::InvalidDigit => String::from_str(
                    "Invalid integer: invalid digit found in string",
                ),
                NumberError::Overflow => String::from_str(
                    "Invalid integer: number too large to fit in target type",
                ),
            },
        )
    }

    /// The error in words, as it is shown to an operator.
    pub fn message(&self) -> (text: String)
        ensures
            text@ == self@.message(),
    {
        match self {
            ReadError::IoError(error) => error.message.clone(),
            ReadError::InvalidCommand(command) => {
                let mut text = String::from_str("Received invalid command ");
                text.append(command.as_str());
                text
            },
            ReadError::InvalidCommandPrefix(prefix) => {
                let mut text = String::from_str("Received invalid command with prefix ");
                text.append(prefix.as_str());
                text
            },
            ReadError::UnsupportedVersion(version) => {
                let mut text = String::from_str("Unsupported version ");
                text.append(version.as_str());
                text
            },
            ReadError::InvalidFormat(format) => format.clone(),
            ReadError::TooManyBytes { max, got } => {
                let mut text = String::from_str("Message too large! Maximum is ");
                let max_digits = decimal_string(*max);
                text.append(max_digits.as_str());
                text.append(", but gut ");
                let got_digits = decimal_string(*got);
                text.append(got_digits.as_str());
                text
            },
        }
    }
}

} // verus!
