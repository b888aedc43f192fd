//! The wire format of the requests: how a [`Message`] becomes bytes and how
//! bytes become a [`Message`].
//!
//! A request is the name of its command, a colon, and then what the command
//! carries: nothing for `getinfo`, the period as four little-endian bytes for
//! `settck`, and for `shift` the number of bits as four little-endian bytes,
//! the TMS vector and the TDI vector. Nothing says how long a request is but
//! its first bytes.

use crate::error::{unexpected_eof, ReadError, ReadErrorView};
use crate::protocol::{bytes_for_bits, vector_len, Message, MessageView};
use crate::stream::Cursor;
use crate::wire::{
    begins_with, into_boxed, le_bytes, le_value, lemma_le_round_trip, lossy_text, text_of,
    u32_le_at, u32_to_le_bytes,
};
use vstd::prelude::*;

verus! {

/// The bytes `getinfo:`.
pub open spec fn cmd_get_info() -> Seq<u8> {
    seq![
        'g' as u8,
        'e' as u8,
        't' as u8,
        'i' as u8,
        'n' as u8,
        'f' as u8,
        'o' as u8,
        ':' as u8,
    ]
}

/// The bytes `settck:`.
pub open spec fn cmd_set_tck() -> Seq<u8> {
    seq!['s' as u8, 'e' as u8, 't' as u8, 't' as u8, 'c' as u8, 'k' as u8, ':' as u8]
}

/// The bytes `shift:`.
pub open spec fn cmd_shift() -> Seq<u8> {
    seq!['s' as u8, 'h' as u8, 'i' as u8, 'f' as u8, 't' as u8, ':' as u8]
}

/// The number of bytes of a `getinfo` request.
pub const GET_INFO_LEN: usize = 8;

/// The number of bytes of a `settck` request.
pub const SET_TCK_LEN: usize = 11;

/// The number of bytes of a `shift` request before its vectors.
pub const SHIFT_HEADER_LEN: usize = 10;

/// The number of bytes that a header is shown in when it is wrong.
pub const HEADER_BUFFER_LEN: usize = 16;

/// The bytes that stand for `message` on the wire.
pub open spec fn encode(message: MessageView) -> Seq<u8> {
    match message {
        MessageView::GetInfo => cmd_get_info(),
        MessageView::SetTck { period_ns } => cmd_set_tck() + le_bytes(period_ns),
        MessageView::Shift { num_bits, tms, tdi } => cmd_shift() + le_bytes(num_bits) + tms + tdi,
    }
}

/// The text by which a wrong header is shown: the header in a buffer of 16
/// bytes that is otherwise zero, read as text.
pub open spec fn header_text(header: Seq<u8>) -> Seq<char> {
    lossy_text(Seq::new(16, |i: int| if i < header.len() { header[i] } else { 0u8 }))
}

/// What reading one request makes of a stream.
pub struct Decoded {
    /// The request, or why there is none.
    pub result: Result<MessageView, ReadErrorView>,
    /// The number of bytes that were taken from the stream.
    pub consumed: nat,
}

/// The stream ended before the request did: all of it is taken.
pub open spec fn truncated(bytes: Seq<u8>) -> Decoded {
    Decoded { result: Err(unexpected_eof()), consumed: bytes.len() }
}

/// What reading one request makes of the stream `bytes`, where vectors of up
/// to `max_shift_bytes` bytes are accepted.
///
/// The first two bytes choose the command. Then the rest of its fixed part is
/// read and held against the command's name. For a shift the length of the
/// vectors is held against the limit before either vector is read.
pub open spec fn decode(bytes: Seq<u8>, max_shift_bytes: usize) -> Decoded {
    if bytes.len() < 2 {
        truncated(bytes)
    } else if bytes.take(2) == cmd_get_info().take(2) {
        if bytes.len() < GET_INFO_LEN {
            truncated(bytes)
        } else if bytes.take(8) != cmd_get_info() {
            Decoded {
                result: Err(ReadErrorView::InvalidCommand(header_text(bytes.take(8)))),
                consumed: 8,
            }
        } else {
            Decoded { result: Ok(MessageView::GetInfo), consumed: 8 }
        }
    } else if bytes.take(2) == cmd_set_tck().take(2) {
        if bytes.len() < SET_TCK_LEN {
            truncated(bytes)
        } else if bytes.take(7) != cmd_set_tck() {
            Decoded {
                result: Err(ReadErrorView::InvalidCommand(header_text(bytes.take(11)))),
                consumed: 11,
            }
        } else {
            Decoded {
                result: Ok(MessageView::SetTck { period_ns: le_value(bytes.subrange(7, 11)) }),
                consumed: 11,
            }
        }
    } else if bytes.take(2) == cmd_shift().take(2) {
        if bytes.len() < SHIFT_HEADER_LEN {
            truncated(bytes)
        } else if bytes.take(6) != cmd_shift() {
            Decoded {
                result: Err(ReadErrorView::InvalidCommand(header_text(bytes.take(10)))),
                consumed: 10,
            }
        } else {
            let num_bits = le_value(bytes.subrange(6, 10));
            let len = bytes_for_bits(num_bits as nat) as int;
            if len > max_shift_bytes {
                Decoded {
                    result: Err(
                        ReadErrorView::TooManyBytes { max: max_shift_bytes, got: len as usize },
                    ),
                    consumed: 10,
                }
            } else if bytes.len() < 10 + 2 * len {
                truncated(bytes)
            } else {
                Decoded {
                    result: Ok(
                        MessageView::Shift {
                            num_bits,
                            tms: bytes.subrange(10, 10 + len),
                            tdi: bytes.subrange(10 + len, 10 + 2 * len),
                        },
                    ),
                    consumed: (10 + 2 * len) as nat,
                }
            }
        }
    } else {
        Decoded {
            result: Err(ReadErrorView::InvalidCommandPrefix(lossy_text(bytes.take(2)))),
            consumed: 2,
        }
    }
}

/// The number of bytes that a stream must hold before more can be said of
/// the request it begins with: two bytes at first, then the fixed part of the
/// command, then the vectors of a shift.
pub open spec fn frame_len(bytes: Seq<u8>) -> nat {
    if bytes.len() < 2 {
        2
    } else if bytes.take(2) == cmd_get_info().take(2) {
        8
    } else if bytes.take(2) == cmd_set_tck().take(2) {
        11
    } else if bytes.take(2) == cmd_shift().take(2) {
        if bytes.len() < 10 {
            10
        } else {
            10 + 2 * bytes_for_bits(le_value(bytes.subrange(6, 10)) as nat)
        }
    } else {
        2
    }
}

/// What [`Message::bytes_needed`] answers to the bytes read so far: nothing
/// more where they hold a request, the error where they cannot begin one,
/// and otherwise the number of bytes to read next.
pub open spec fn spec_bytes_needed(bytes: Seq<u8>, max_shift_bytes: usize) -> Result<
    nat,
    ReadErrorView,
> {
    match decode(bytes, max_shift_bytes).result {
        Ok(_) => Ok(0),
        Err(error) => if error == unexpected_eof() {
            Ok((frame_len(bytes) - bytes.len()) as nat)
        } else {
            Err(error)
        },
    }
}

/// What [`Message::bytes_needed`] returned, as mathematical values.
pub open spec fn needed_view(needed: Result<usize, ReadError>) -> Result<nat, ReadErrorView> {
    match needed {
        Ok(count) => Ok(count as nat),
        Err(error) => Err(error@),
    }
}

/// What a read returned, as mathematical values.
pub open spec fn read_view(read: Result<Message, ReadError>) -> Result<
    MessageView,
    ReadErrorView,
> {
    match read {
        Ok(message) => Ok(message@),
        Err(error) => Err(error@),
    }
}

/// The text by which the header `header` is shown when it is wrong.
fn header_string(header: &[u8]) -> (text: String)
    requires
        header@.len() <= 16,
    ensures
        text@ == header_text(header@),
{
    let mut buffer: Vec<u8> = Vec::new();
    let len: usize = header.len();
    let mut i: usize = 0;
    while i < HEADER_BUFFER_LEN
        invariant
            i <= 16,
            len == header@.len() <= 16,
            buffer@.len() == i,
            forall|j: int| 0 <= j < i ==> buffer@[j] == if j < len { header@[j] } else { 0u8 },
        decreases 16 - i,
    {
        if i < len {
            buffer.push(header[i]);
        } else {
            buffer.push(0);
        }
        i += 1;
    }
    assert(buffer@ =~= Seq::new(16, |i: int| if i < header@.len() { header@[i] } else { 0u8 }));
    text_of(buffer.as_slice())
}

/// Reads `len` more bytes of a header of which `header` has been read.
fn read_header(reader: &mut Cursor, header: Vec<u8>, len: usize) -> (read: Result<
    Vec<u8>,
    ReadError,
>)
    ensures
        match read {
            Ok(whole) => {
                &&& len <= old(reader).remaining().len()
                &&& whole@ == header@ + old(reader).remaining().take(len as int)
                &&& final(reader).remaining() == old(reader).remaining().skip(len as int)
            },
            Err(error) => {
                &&& len > old(reader).remaining().len()
                &&& error@ == unexpected_eof()
                &&& final(reader).remaining() == Seq::<u8>::empty()
            },
        },
{
    match reader.read_exact(len) {
        Ok(rest) => {
            let mut whole = header;
            whole.extend_from_slice(rest.as_slice());
            Ok(whole)
        },
        Err(error) => Err(error),
    }
}

impl Message {
    /// Reads one request from `reader`. Vectors of up to `max_shift_bytes`
    /// bytes are accepted in a shift.
    ///
    /// What comes back, and how far the reader has moved, is what
    /// [`decode`] says of the bytes that the reader had left.
    pub fn from_reader(reader: &mut Cursor, max_shift_bytes: usize) -> (read: Result<
        Message,
        ReadError,
    >)
        ensures
            read_view(read) == decode(old(reader).remaining(), max_shift_bytes).result,
            final(reader).remaining() == old(reader).remaining().skip(
                decode(old(reader).remaining(), max_shift_bytes).consumed as int,
            ),
    {
        let ghost bytes = reader.remaining();
        let prefix = match reader.read_exact(2) {
            Ok(prefix) => prefix,
            Err(error) => {
                assert(bytes.skip(bytes.len() as int) =~= Seq::<u8>::empty());
                return Err(error);
            },
        };
        let first: u8 = prefix[0];
        let second: u8 = prefix[1];
        proof {
            assert(bytes[0] == first && bytes[1] == second);
            lemma_prefix_bytes(bytes);
        }
        if first == 'g' as u8 && second == 'e' as u8 {
            let header = match read_header(reader, prefix, GET_INFO_LEN - 2) {
                Ok(header) => header,
                Err(error) => {
                    assert(bytes.skip(bytes.len() as int) =~= Seq::<u8>::empty());
                    return Err(error);
                },
            };
            assert(header@ =~= bytes.take(8));
            assert(reader.remaining() =~= bytes.skip(8));
            let name: [u8; 8] = [
                'g' as u8,
                'e' as u8,
                't' as u8,
                'i' as u8,
                'n' as u8,
                'f' as u8,
                'o' as u8,
                ':' as u8,
            ];
            assert(name@ =~= cmd_get_info());
            assert(header@.take(8) =~= header@);
            if !begins_with(header.as_slice(), name.as_slice(), 8) {
                return Err(ReadError::InvalidCommand(header_string(header.as_slice())));
            }
            Ok(Message::GetInfo)
        } else if first == 's' as u8 && second == 'e' as u8 {
            let header = match read_header(reader, prefix, SET_TCK_LEN - 2) {
                Ok(header) => header,
                Err(error) => {
                    assert(bytes.skip(bytes.len() as int) =~= Seq::<u8>::empty());
                    return Err(error);
                },
            };
            assert(header@ =~= bytes.take(11));
            assert(reader.remaining() =~= bytes.skip(11));
            let name: [u8; 7] = [
                's' as u8,
                'e' as u8,
                't' as u8,
                't' as u8,
                'c' as u8,
                'k' as u8,
                ':' as u8,
            ];
            assert(name@ =~= cmd_set_tck());
            assert(header@.take(7) =~= bytes.take(7));
            if !begins_with(header.as_slice(), name.as_slice(), 7) {
                return Err(ReadError::InvalidCommand(header_string(header.as_slice())));
            }
            assert(header@.subrange(7, 11) =~= bytes.subrange(7, 11));
            Ok(Message::SetTck { period_ns: u32_le_at(header.as_slice(), 7) })
        } else if first == 's' as u8 && second == 'h' as u8 {
            let header = match read_header(reader, prefix, SHIFT_HEADER_LEN - 2) {
                Ok(header) => header,
                Err(error) => {
                    assert(bytes.skip(bytes.len() as int) =~= Seq::<u8>::empty());
                    return Err(error);
                },
            };
            assert(header@ =~= bytes.take(10));
            assert(reader.remaining() =~= bytes.skip(10));
            let name: [u8; 6] = ['s' as u8, 'h' as u8, 'i' as u8, 'f' as u8, 't' as u8, ':' as u8];
            assert(name@ =~= cmd_shift());
            assert(header@.take(6) =~= bytes.take(6));
            if !begins_with(header.as_slice(), name.as_slice(), 6) {
                return Err(ReadError::InvalidCommand(header_string(header.as_slice())));
            }
            assert(header@.subrange(6, 10) =~= bytes.subrange(6, 10));
            let num_bits: u32 = u32_le_at(header.as_slice(), 6);
            let len: usize = vector_len(num_bits);
            if len > max_shift_bytes {
                return Err(ReadError::TooManyBytes { max: max_shift_bytes, got: len });
            }
            let tms = match reader.read_exact(len) {
                Ok(tms) => tms,
                Err(error) => {
                    assert(bytes.skip(bytes.len() as int) =~= Seq::<u8>::empty());
                    return Err(error);
                },
            };
            assert(tms@ =~= bytes.subrange(10, 10 + len));
            assert(reader.remaining() =~= bytes.skip(10 + len));
            let tdi = match reader.read_exact(len) {
                Ok(tdi) => tdi,
                Err(error) => {
                    assert(bytes.skip(bytes.len() as int) =~= Seq::<u8>::empty());
                    return Err(error);
                },
            };
            assert(tdi@ =~= bytes.subrange(10 + len, 10 + 2 * len));
            assert(reader.remaining() =~= bytes.skip(10 + 2 * len));
            Ok(Message::Shift { num_bits, tms: into_boxed(tms), tdi: into_boxed(tdi) })
        } else {
            assert(reader.remaining() =~= bytes.skip(2));
            assert(prefix@ =~= bytes.take(2));
            Err(ReadError::InvalidCommandPrefix(text_of(prefix.as_slice())))
        }
    }

    /// Says how a transport goes on that has read `bytes` of a request so
    /// far: with the number of bytes to read next, with 0 where the request
    /// is complete, or with the error that [`Message::from_reader`] would
    /// return. A shift that asks for longer vectors than `max_shift_bytes`
    /// is refused before a byte of them is asked for.
    pub fn bytes_needed(bytes: &[u8], max_shift_bytes: usize) -> (needed: Result<
        usize,
        ReadError,
    >)
        ensures
            needed_view(needed) == spec_bytes_needed(bytes@, max_shift_bytes),
    {
        let len: usize = bytes.len();
        if len < 2 {
            return Ok(2 - len);
        }
        let first: u8 = bytes[0];
        let second: u8 = bytes[1];
        proof {
            lemma_prefix_bytes(bytes@);
        }
        if first == 'g' as u8 && second == 'e' as u8 {
            if len < GET_INFO_LEN {
                return Ok(GET_INFO_LEN - len);
            }
            let name: [u8; 8] = [
                'g' as u8,
                'e' as u8,
                't' as u8,
                'i' as u8,
                'n' as u8,
                'f' as u8,
                'o' as u8,
                ':' as u8,
            ];
            assert(name@ =~= cmd_get_info());
            if !begins_with(bytes, name.as_slice(), 8) {
                let header = vstd::slice::slice_subrange(bytes, 0, 8);
                assert(header@ =~= bytes@.take(8));
                return Err(ReadError::InvalidCommand(header_string(header)));
            }
            Ok(0)
        } else if first == 's' as u8 && second == 'e' as u8 {
            if len < SET_TCK_LEN {
                return Ok(SET_TCK_LEN - len);
            }
            let name: [u8; 7] = [
                's' as u8,
                'e' as u8,
                't' as u8,
                't' as u8,
                'c' as u8,
                'k' as u8,
                ':' as u8,
            ];
            assert(name@ =~= cmd_set_tck());
            if !begins_with(bytes, name.as_slice(), 7) {
                let header = vstd::slice::slice_subrange(bytes, 0, 11);
                assert(header@ =~= bytes@.take(11));
                return Err(ReadError::InvalidCommand(header_string(header)));
            }
            Ok(0)
        } else if first == 's' as u8 && second == 'h' as u8 {
            if len < SHIFT_HEADER_LEN {
                return Ok(SHIFT_HEADER_LEN - len);
            }
            let name: [u8; 6] = ['s' as u8, 'h' as u8, 'i' as u8, 'f' as u8, 't' as u8, ':' as u8];
            assert(name@ =~= cmd_shift());
            if !begins_with(bytes, name.as_slice(), 6) {
                let header = vstd::slice::slice_subrange(bytes, 0, 10);
                assert(header@ =~= bytes@.take(10));
                return Err(ReadError::InvalidCommand(header_string(header)));
            }
            let num_bits: u32 = u32_le_at(bytes, 6);
            let vector: usize = vector_len(num_bits);
            if vector > max_shift_bytes {
                return Err(ReadError::TooManyBytes { max: max_shift_bytes, got: vector });
            }
            let whole: usize = SHIFT_HEADER_LEN + 2 * vector;
            if len < whole {
                Ok(whole - len)
            } else {
                Ok(0)
            }
        } else {
            let prefix = vstd::slice::slice_subrange(bytes, 0, 2);
            assert(prefix@ =~= bytes@.take(2));
            Err(ReadError::InvalidCommandPrefix(text_of(prefix)))
        }
    }

    /// Appends the bytes that stand for the request on the wire to `writer`.
    pub fn write_to(&self, writer: &mut Vec<u8>)
        ensures
            final(writer)@ == old(writer)@ + encode(self@),
    {
        match self {
            Message::GetInfo => {
                let name: [u8; 8] = [
                    'g' as u8,
                    'e' as u8,
                    't' as u8,
                    'i' as u8,
                    'n' as u8,
                    'f' as u8,
                    'o' as u8,
                    ':' as u8,
                ];
                assert(name@ =~= cmd_get_info());
                writer.extend_from_slice(name.as_slice());
            },
            Message::SetTck { period_ns } => {
                let name: [u8; 7] = [
                    's' as u8,
                    'e' as u8,
                    't' as u8,
                    't' as u8,
                    'c' as u8,
                    'k' as u8,
                    ':' as u8,
                ];
                assert(name@ =~= cmd_set_tck());
                writer.extend_from_slice(name.as_slice());
                let period = u32_to_le_bytes(*period_ns);
                writer.extend_from_slice(period.as_slice());
                assert(writer@ =~= old(writer)@ + encode(self@));
            },
            Message::Shift { num_bits, tms, tdi } => {
                let name: [u8; 6] = [
                    's' as u8,
                    'h' as u8,
                    'i' as u8,
                    'f' as u8,
                    't' as u8,
                    ':' as u8,
                ];
                assert(name@ =~= cmd_shift());
                writer.extend_from_slice(name.as_slice());
                let bits = u32_to_le_bytes(*num_bits);
                writer.extend_from_slice(bits.as_slice());
                writer.extend_from_slice(tms);
                writer.extend_from_slice(tdi);
                assert(writer@ =~= old(writer)@ + encode(self@));
            },
        }
    }
}

/// The first two bytes of a stream choose a command exactly where they are
/// the two letters that the command begins with.
proof fn lemma_prefix_bytes(bytes: Seq<u8>)
    requires
        bytes.len() >= 2,
    ensures
        (bytes.take(2) == cmd_get_info().take(2)) <==> (bytes[0] == 'g' as u8 && bytes[1]
            == 'e' as u8),
        (bytes.take(2) == cmd_set_tck().take(2)) <==> (bytes[0] == 's' as u8 && bytes[1]
            == 'e' as u8),
        (bytes.take(2) == cmd_shift().take(2)) <==> (bytes[0] == 's' as u8 && bytes[1]
            == 'h' as u8),
{
    let prefix = bytes.take(2);
    assert(prefix[0] == bytes[0] && prefix[1] == bytes[1]);
    assert(cmd_get_info().take(2)[0] == 'g' as u8 && cmd_get_info().take(2)[1] == 'e' as u8);
    assert(cmd_set_tck().take(2)[0] == 's' as u8 && cmd_set_tck().take(2)[1] == 'e' as u8);
    assert(cmd_shift().take(2)[0] == 's' as u8 && cmd_shift().take(2)[1] == 'h' as u8);
    if bytes[0] == 'g' as u8 && bytes[1] == 'e' as u8 {
        assert(prefix =~= cmd_get_info().take(2));
    }
    if bytes[0] == 's' as u8 && bytes[1] == 'e' as u8 {
        assert(prefix =~= cmd_set_tck().take(2));
    }
    if bytes[0] == 's' as u8 && bytes[1] == 'h' as u8 {
        assert(prefix =~= cmd_shift().take(2));
    }
}

/// The first two bytes of the three commands differ from each other, and
/// the first two bytes of a stream that begins with a command are those of
/// the command.
proof fn lemma_prefixes(bytes: Seq<u8>)
    ensures
        cmd_get_info().take(2) != cmd_set_tck().take(2),
        cmd_get_info().take(2) != cmd_shift().take(2),
        cmd_set_tck().take(2) != cmd_shift().take(2),
        bytes.len() >= 8 && bytes.take(8) == cmd_get_info() ==> bytes.take(2)
            == cmd_get_info().take(2),
        bytes.len() >= 7 && bytes.take(7) == cmd_set_tck() ==> bytes.take(2) == cmd_set_tck().take(
            2,
        ),
        bytes.len() >= 6 && bytes.take(6) == cmd_shift() ==> bytes.take(2) == cmd_shift().take(2),
{
    assert(cmd_get_info().take(2)[0] != cmd_set_tck().take(2)[0]);
    assert(cmd_get_info().take(2)[0] != cmd_shift().take(2)[0]);
    assert(cmd_set_tck().take(2)[1] != cmd_shift().take(2)[1]);
    if bytes.len() >= 8 && bytes.take(8) == cmd_get_info() {
        assert(bytes.take(2) =~= bytes.take(8).take(2));
    }
    if bytes.len() >= 7 && bytes.take(7) == cmd_set_tck() {
        assert(bytes.take(2) =~= bytes.take(7).take(2));
    }
    if bytes.len() >= 6 && bytes.take(6) == cmd_shift() {
        assert(bytes.take(2) =~= bytes.take(6).take(2));
    }
}

/// A request with well-formed vectors is as long on the wire as its command
/// says: 8 bytes for `getinfo`, 11 for `settck`, and 10 and both vectors for
/// `shift`.
pub proof fn lemma_encode_len(message: MessageView)
    ensures
        encode(message).len() == match message {
            MessageView::GetInfo => 8,
            MessageView::SetTck { .. } => 11,
            MessageView::Shift { tms, tdi, .. } => 10 + tms.len() + tdi.len(),
        },
{
}

/// Reading what was written gives the request back: a stream that begins with
/// the bytes of a well-formed request, whose vectors are no longer than the
/// limit, decodes to that request, and exactly its bytes are taken.
pub proof fn lemma_decode_encode(message: MessageView, rest: Seq<u8>, max_shift_bytes: usize)
    requires
        message.well_formed(),
        message matches MessageView::Shift { tms, .. } ==> tms.len() <= max_shift_bytes,
    ensures
        decode(encode(message) + rest, max_shift_bytes) == (Decoded {
            result: Ok(message),
            consumed: encode(message).len(),
        }),
{
    let bytes = encode(message) + rest;
    lemma_prefixes(bytes);
    lemma_encode_len(message);
    match message {
        MessageView::GetInfo => {
            assert(bytes.take(8) =~= cmd_get_info());
        },
        MessageView::SetTck { period_ns } => {
            assert(bytes.take(7) =~= cmd_set_tck());
            assert(bytes.subrange(7, 11) =~= le_bytes(period_ns));
            lemma_le_round_trip(period_ns, le_bytes(period_ns));
        },
        MessageView::Shift { num_bits, tms, tdi } => {
            assert(bytes.take(6) =~= cmd_shift());
            assert(bytes.subrange(6, 10) =~= le_bytes(num_bits));
            lemma_le_round_trip(num_bits, le_bytes(num_bits));
            let len = bytes_for_bits(num_bits as nat) as int;
            assert(bytes.subrange(10, 10 + len) =~= tms);
            assert(bytes.subrange(10 + len, 10 + 2 * len) =~= tdi);
        },
    }
}

/// A stream that ends before a request is complete fails with the error of
/// the transport: every proper prefix of the bytes of a well-formed request,
/// whose vectors are no longer than the limit, decodes to that error.
pub proof fn lemma_decode_truncated(message: MessageView, max_shift_bytes: usize, k: int)
    requires
        message.well_formed(),
        message matches MessageView::Shift { tms, .. } ==> tms.len() <= max_shift_bytes,
        0 <= k < encode(message).len(),
    ensures
        decode(encode(message).take(k), max_shift_bytes) == truncated(encode(message).take(k)),
{
    let whole = encode(message);
    let bytes = whole.take(k);
    lemma_prefixes(whole);
    lemma_encode_len(message);
    if k >= 2 {
        assert(bytes.take(2) =~= whole.take(2));
        match message {
            MessageView::GetInfo => {
                assert(whole.take(8) =~= cmd_get_info());
            },
            MessageView::SetTck { period_ns } => {
                assert(whole.take(7) =~= cmd_set_tck());
            },
            MessageView::Shift { num_bits, tms, tdi } => {
                assert(whole.take(6) =~= cmd_shift());
                if k >= 10 {
                    assert(bytes.take(6) =~= cmd_shift());
                    assert(bytes.subrange(6, 10) =~= le_bytes(num_bits));
                    lemma_le_round_trip(num_bits, le_bytes(num_bits));
                }
            },
        }
    }
}

/// A shift that asks for longer vectors than the limit is refused on its
/// header alone, whatever follows it, and the error holds the limit and the
/// length that was asked for.
pub proof fn lemma_decode_too_many_bytes(bytes: Seq<u8>, max_shift_bytes: usize)
    requires
        bytes.len() >= 10,
        bytes.take(6) == cmd_shift(),
        bytes_for_bits(le_value(bytes.subrange(6, 10)) as nat) > max_shift_bytes,
    ensures
        decode(bytes, max_shift_bytes) == (Decoded {
            result: Err(
                ReadErrorView::TooManyBytes {
                    max: max_shift_bytes,
                    got: bytes_for_bits(le_value(bytes.subrange(6, 10)) as nat) as usize,
                },
            ),
            consumed: 10,
        }),
        decode(bytes, max_shift_bytes) == decode(bytes.take(10), max_shift_bytes),
{
    lemma_prefixes(bytes);
    let header = bytes.take(10);
    lemma_prefixes(header);
    assert(header.take(6) =~= bytes.take(6));
    assert(header.subrange(6, 10) =~= bytes.subrange(6, 10));
}

/// A transport that reads what [`Message::bytes_needed`] asks for comes to
/// an end. When it has read the bytes that were missing, the stream holds
/// exactly what was known to be needed, and either the request is complete,
/// or an error shows, or more of the request is known than before: first
/// two bytes, then the fixed part of the command, then the vectors.
pub proof fn lemma_bytes_needed_progress(bytes: Seq<u8>, more: Seq<u8>, max_shift_bytes: usize)
    requires
        more.len() > 0,
        spec_bytes_needed(bytes, max_shift_bytes) == Ok::<nat, ReadErrorView>(more.len()),
    ensures
        bytes.len() + more.len() == frame_len(bytes),
        spec_bytes_needed(bytes + more, max_shift_bytes) is Err || spec_bytes_needed(
            bytes + more,
            max_shift_bytes,
        ) == Ok::<nat, ReadErrorView>(0) || frame_len(bytes + more) > frame_len(bytes),
{
    let longer = bytes + more;
    if bytes.len() >= 2 {
        assert(longer.take(2) =~= bytes.take(2));
        if bytes.take(2) == cmd_shift().take(2) && bytes.len() >= 10 {
            assert(longer.take(6) =~= bytes.take(6));
            assert(longer.subrange(6, 10) =~= bytes.subrange(6, 10));
        }
    }
}

/// Where [`Message::bytes_needed`] asks for nothing more, the stream begins
/// with a whole request.
pub proof fn lemma_bytes_needed_complete(bytes: Seq<u8>, max_shift_bytes: usize)
    requires
        spec_bytes_needed(bytes, max_shift_bytes) == Ok::<nat, ReadErrorView>(0),
    ensures
        decode(bytes, max_shift_bytes).result is Ok,
        decode(bytes, max_shift_bytes).consumed <= bytes.len(),
        decode(bytes, max_shift_bytes).consumed == frame_len(bytes),
{
}

} // verus!
