//! The client's side of an exchange: what to send, how much to read back,
//! and what the reply says.

use crate::codec::encode;
use crate::device::XvcServer;
use crate::error::ReadErrorView;
use crate::info::{decode_info, encode_info, info_name, lemma_decode_encode_info};
use crate::protocol::{bytes_for_bits, vector_len, Message, MessageView, XvcInfo};
use crate::server::Server;
use crate::stream::{first_line, line_len};
use crate::version::{lemma_version_parts, Version};
use crate::wire::{
    all_digits, boxed_copy, decimal, le_bytes, le_value, lemma_decimal, lemma_le_round_trip,
    u32_from_le_bytes,
};
use vstd::prelude::*;

verus! {

/// How much of the stream is the reply to a request.
#[derive(Clone, Copy, Debug, PartialEq, Eq, Structural)]
pub enum ReplyLen {
    /// The reply is one line: it ends with the next line feed.
    Line,
    /// The reply is exactly this many bytes.
    Exact(usize),
}

/// What [`reply_len`] returns: a line for `getinfo`, four bytes for `settck`,
/// and for `shift` as many bytes as each vector of the request should hold.
pub open spec fn spec_reply_len(message: MessageView) -> ReplyLen {
    match message {
        MessageView::GetInfo => ReplyLen::Line,
        MessageView::SetTck { .. } => ReplyLen::Exact(4),
        MessageView::Shift { num_bits, .. } => ReplyLen::Exact(
            bytes_for_bits(num_bits as nat) as usize,
        ),
    }
}

/// How much a client reads back after it has sent `message`.
pub fn reply_len(message: &Message) -> (len: ReplyLen)
    ensures
        len == spec_reply_len(message@),
{
    match message {
        Message::GetInfo => ReplyLen::Line,
        Message::SetTck { .. } => ReplyLen::Exact(4),
        Message::Shift { num_bits, .. } => ReplyLen::Exact(vector_len(*num_bits)),
    }
}

/// The request for a shift of `num_bits` bits of the given vectors.
pub fn shift_request(num_bits: u32, tms: &[u8], tdi: &[u8]) -> (message: Message)
    ensures
        message@ == (MessageView::Shift { num_bits, tms: tms@, tdi: tdi@ }),
{
    Message::Shift { num_bits, tms: boxed_copy(tms), tdi: boxed_copy(tdi) }
}

/// The period that the reply to `settck` tells of.
pub fn tck_of_reply(reply: [u8; 4]) -> (period_ns: u32)
    ensures
        period_ns == le_value(reply@),
{
    u32_from_le_bytes(reply)
}

/// The decimal digits of a number hold no line feed.
proof fn lemma_decimal_one_line(n: nat)
    ensures
        line_len(decimal(n) + seq!['\n' as u8]) == decimal(n).len() + 1,
{
    lemma_decimal(n);
    lemma_digits_one_line(decimal(n));
}

/// Digits that are followed by a line feed are one line with it.
proof fn lemma_digits_one_line(digits: Seq<u8>)
    requires
        all_digits(digits),
    ensures
        line_len(digits + seq!['\n' as u8]) == digits.len() + 1,
    decreases digits.len(),
{
    let line = digits + seq!['\n' as u8];
    if digits.len() == 0 {
        assert(line[0] == '\n' as u8);
    } else {
        assert(line[0] == digits[0]);
        assert(line.skip(1) =~= digits.skip(1) + seq!['\n' as u8]);
        assert forall|i: int| 0 <= i < digits.skip(1).len() implies crate::wire::is_digit(
            #[trigger] digits.skip(1)[i],
        ) by {
            assert(digits.skip(1)[i] == digits[i + 1]);
        }
        lemma_digits_one_line(digits.skip(1));
    }
}

/// Bytes that hold no line feed and are followed by a line that does not
/// begin before them are one line with it.
proof fn lemma_line_after(head: Seq<u8>, tail: Seq<u8>)
    requires
        forall|i: int| 0 <= i < head.len() ==> head[i] != '\n' as u8,
    ensures
        line_len(head + tail) == head.len() + line_len(tail),
    decreases head.len(),
{
    if head.len() == 0 {
        assert(head + tail =~= tail);
    } else {
        assert((head + tail)[0] == head[0]);
        assert((head + tail).skip(1) =~= head.skip(1) + tail);
        assert forall|i: int| 0 <= i < head.skip(1).len() implies head.skip(1)[i] != '\n' as u8 by {
            assert(head.skip(1)[i] == head[i + 1]);
        }
        lemma_line_after(head.skip(1), tail);
    }
}

/// What a client reads from the reply of a server to `getinfo` is what the
/// server tells of itself: version 1.0 and the longest vector of its
/// configuration. The reply is one line.
pub proof fn lemma_get_info_exchange<T: XvcServer>(server: Server<T>, reply: Seq<u8>)
    requires
        server.replies(MessageView::GetInfo, reply),
    ensures
        first_line(reply) == reply,
        decode_info(first_line(reply)) == Ok::<XvcInfo, ReadErrorView>(server.spec_info()),
{
    broadcast use lemma_version_parts, crate::protocol::lemma_info_parts;

    let info = server.spec_info();
    lemma_decode_encode_info(info);
    let max = decimal(info.spec_max_vector_len() as nat);
    assert(decimal(1) =~= seq!['1' as u8]);
    assert(decimal(0) =~= seq!['0' as u8]);
    let head = info_name() + seq!['_' as u8, 'v' as u8] + seq!['1' as u8] + seq!['.' as u8]
        + seq!['0' as u8] + seq![':' as u8];
    let tail = max + seq!['\n' as u8];
    assert(reply =~= head + tail);
    lemma_decimal_one_line(info.spec_max_vector_len() as nat);
    lemma_line_after(head, tail);
    assert(reply.take(reply.len() as int) =~= reply);
}

/// What a client reads from the reply of a server to `settck` is a period
/// that the backend may answer to the period that was asked for. The reply
/// is four bytes.
pub proof fn lemma_set_tck_exchange<T: XvcServer>(server: Server<T>, period_ns: u32, reply: Seq<u8>)
    requires
        server.replies(MessageView::SetTck { period_ns }, reply),
    ensures
        reply.len() == 4,
        server.spec_backend().may_set_tck(period_ns, le_value(reply)),
{
    let actual = choose|actual: u32|
        #![trigger le_bytes(actual)]
        server.spec_backend().may_set_tck(period_ns, actual) && reply == le_bytes(actual);
    lemma_le_round_trip(actual, reply);
}

/// The reply of a server to a well-formed `shift` is as long as the client
/// expects, or empty: a client tells a shift that failed by the length of
/// what it reads, and by nothing else.
pub proof fn lemma_shift_exchange<T: XvcServer>(
    server: Server<T>,
    num_bits: u32,
    tms: Seq<u8>,
    tdi: Seq<u8>,
    reply: Seq<u8>,
)
    requires
        (MessageView::Shift { num_bits, tms, tdi }).well_formed(),
        server.replies(MessageView::Shift { num_bits, tms, tdi }, reply),
    ensures
        reply.len() == 0 || spec_reply_len(MessageView::Shift { num_bits, tms, tdi })
            == ReplyLen::Exact(reply.len() as usize),
        server.spec_backend().may_shift(num_bits, tms, tdi, reply),
{
}

} // verus!
