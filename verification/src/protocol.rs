//! The messages of the protocol and the capabilities a server advertises.

use crate::version::Version;
use crate::wire::boxed_copy;
use vstd::prelude::*;

verus! {

/// The number of bytes that hold `num_bits` bits: the bit count divided by
/// eight, rounded up.
pub open spec fn bytes_for_bits(num_bits: nat) -> nat {
    (num_bits + 7) / 8
}

/// The length in bytes of each vector of a shift of `num_bits` bits.
pub fn vector_len(num_bits: u32) -> (len: usize)
    ensures
        len == bytes_for_bits(num_bits as nat),
{
    let whole: u32 = num_bits / 8;
    if num_bits % 8 == 0 {
        whole as usize
    } else {
        (whole + 1) as usize
    }
}

/// A request that a client sends to a server. The client waits for the reply
/// to one request before it sends the next.
#[derive(Debug, Eq, PartialEq)]
pub enum Message {
    /// Asks the server for its capabilities.
    GetInfo,
    /// Asks for a TCK period, in nanoseconds.
    SetTck { period_ns: u32 },
    /// Shifts `num_bits` bits of TMS and TDI into the chain.
    Shift {
        /// The number of TCK cycles.
        num_bits: u32,
        /// The TMS bits, eight to a byte, the last byte filled up.
        tms: Box<[u8]>,
        /// The TDI bits, laid out as the TMS bits are.
        tdi: Box<[u8]>,
    },
}

/// What a [`Message`] holds, as mathematical values.
pub enum MessageView {
    GetInfo,
    SetTck { period_ns: u32 },
    Shift { num_bits: u32, tms: Seq<u8>, tdi: Seq<u8> },
}

impl MessageView {
    /// Both vectors of a shift hold exactly the bytes that its bit count
    /// calls for. The other requests are always well formed.
    pub open spec fn well_formed(self) -> bool {
        match self {
            MessageView::Shift { num_bits, tms, tdi } => {
                &&& tms.len() == bytes_for_bits(num_bits as nat)
                &&& tdi.len() == bytes_for_bits(num_bits as nat)
            },
            _ => true,
        }
    }
}

impl View for Message {
    type V = MessageView;

    open spec fn view(&self) -> MessageView {
        match *self {
            Message::GetInfo => MessageView::GetInfo,
            Message::SetTck { period_ns } => MessageView::SetTck { period_ns },
            Message::Shift { num_bits, tms, tdi } => MessageView::Shift {
                num_bits,
                tms: tms@,
                tdi: tdi@,
            },
        }
    }
}

impl Clone for Message {
    /// A message that holds the same values.
    fn clone(&self) -> (copy: Message)
        ensures
            copy@ == self@,
    {
        match self {
            Message::GetInfo => Message::GetInfo,
            Message::SetTck { period_ns } => Message::SetTck { period_ns: *period_ns },
            Message::Shift { num_bits, tms, tdi } => Message::Shift {
                num_bits: *num_bits,
                tms: boxed_copy(tms),
                tdi: boxed_copy(tdi),
            },
        }
    }
}

/// What a server tells a client about itself at the start of a session.
#[derive(Debug, Eq, PartialEq, Structural)]
pub struct XvcInfo {
    version: Version,
    max_vector_len: u32,
}

impl XvcInfo {
    /// The version, for contracts.
    pub closed spec fn spec_version(&self) -> Version {
        self.version
    }

    /// The longest vector accepted, for contracts.
    pub closed spec fn spec_max_vector_len(&self) -> u32 {
        self.max_vector_len
    }

    /// An info object made of the two given values, for contracts.
    pub closed spec fn spec_new(version: Version, max_vector_len: u32) -> XvcInfo {
        XvcInfo { version, max_vector_len }
    }

    /// An info object made of a version and the longest vector, in bytes, that
    /// the server accepts in one shift.
    #[verifier::when_used_as_spec(spec_new)]
    pub fn new(version: Version, max_vector_len: u32) -> (info: XvcInfo)
        ensures
            info == XvcInfo::spec_new(version, max_vector_len),
    {
        XvcInfo { version, max_vector_len }
    }

    /// The version of the protocol that the server speaks.
    #[verifier::when_used_as_spec(spec_version)]
    pub fn version(&self) -> (v: Version)
        ensures
            v == self.spec_version(),
    {
        self.version
    }

    /// The longest vector, in bytes, that the server accepts in one shift.
    #[verifier::when_used_as_spec(spec_max_vector_len)]
    pub fn max_vector_len(&self) -> (len: u32)
        ensures
            len == self.spec_max_vector_len(),
    {
        self.max_vector_len
    }
}

/// An info object is its two values and nothing else.
pub broadcast proof fn lemma_info_parts(version: Version, max_vector_len: u32)
    ensures
        (#[trigger] XvcInfo::spec_new(version, max_vector_len)).spec_version() == version,
        XvcInfo::spec_new(version, max_vector_len).spec_max_vector_len() == max_vector_len,
{
}

/// Two info objects with the same values are the same.
pub proof fn lemma_info_by_parts(a: XvcInfo, b: XvcInfo)
    requires
        a.spec_version() == b.spec_version(),
        a.spec_max_vector_len() == b.spec_max_vector_len(),
    ensures
        a == b,
{
}

impl Clone for XvcInfo {
    /// An info object that holds the same values.
    fn clone(&self) -> (copy: XvcInfo)
        ensures
            copy == *self,
    {
        XvcInfo { version: self.version, max_vector_len: self.max_vector_len }
    }
}

impl Default for XvcInfo {
    /// Version 1.0 and vectors of up to 10 MiB, which are 10485760 bytes.
    fn default() -> (info: XvcInfo)
        ensures
            info == XvcInfo::spec_new(Version::spec_new(1, 0), 10485760),
    {
        XvcInfo { version: Version::v1_0(), max_vector_len: 10 * 1024 * 1024 }
    }
}

} // verus!
