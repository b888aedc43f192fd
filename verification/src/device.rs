//! The capability that a debug bridge backend offers to the server, and the
//! rules that every backend shares.

use crate::protocol::{bytes_for_bits, vector_len};
use crate::wire::into_boxed;
use vstd::prelude::*;
use vstd::string::StringExecFns;

verus! {

/// What a backend must be able to do. The server knows a backend through
/// these two operations only.
pub trait XvcServer {
    /// Whether the backend may answer `actual` when it is asked for the
    /// period `period_ns`. A backend that says nothing of itself may answer
    /// anything.
    open spec fn may_set_tck(&self, period_ns: u32, actual: u32) -> bool {
        true
    }

    /// Whether the backend may answer `tdo` when it is asked for the given
    /// shift. A backend that says nothing of itself may answer anything.
    open spec fn may_shift(&self, num_bits: u32, tms: Seq<u8>, tdi: Seq<u8>, tdo: Seq<u8>) -> bool {
        true
    }

    /// Asks for a TCK period, in nanoseconds, and returns the period that the
    /// hardware will use. The two may differ. A backend that cannot reach its
    /// hardware still returns a value, usually the one asked for: the protocol
    /// has no way to report the failure.
    fn set_tck(&self, period_ns: u32) -> (actual: u32)
        ensures
            self.may_set_tck(period_ns, actual),
    ;

    /// Shifts `num_bits` bits of `tms` and `tdi` into the chain and returns
    /// the TDO bits that came out. The result is as long as `tms`, or empty
    /// where the shift failed: the protocol has no way to report the failure.
    fn shift(&self, num_bits: u32, tms: Box<[u8]>, tdi: Box<[u8]>) -> (tdo: Box<[u8]>)
        ensures
            self.may_shift(num_bits, tms@, tdi@, tdo@),
            tdo@.len() == 0 || tdo@.len() == tms@.len(),
    ;
}

/// Why a backend could not carry out a shift.
#[derive(Clone, Copy, Debug, PartialEq, Eq, Structural)]
pub enum ShiftError {
    /// The TMS vector has not the length that the bit count calls for.
    TmsSize { expected: usize, got: usize },
    /// The TDI vector has not the length that the bit count calls for.
    TdiSize { expected: usize, got: usize },
    /// The debug bridge did not become idle in time.
    TimedOut,
}

impl ShiftError {
    /// The failure in words.
    pub open spec fn spec_message(self) -> Seq<char> {
        match self {
            ShiftError::TmsSize { .. } => "TMS has incorrect size"@,
            ShiftError::TdiSize { .. } => "TDI has incorrect size"@,
            ShiftError::TimedOut => "Timed out while waiting for JTAG response"@,
        }
    }

    /// The failure in words, as it is shown to an operator.
    pub fn message(&self) -> (text: String)
        ensures
            text@ == self.spec_message(),
    {
        match self {
            ShiftError::TmsSize { .. } => String::from_str("TMS has incorrect size"),
            ShiftError::TdiSize { .. } => String::from_str("TDI has incorrect size"),
            ShiftError::TimedOut => String::from_str("Timed out while waiting for JTAG response"),
        }
    }
}

/// What [`check_vector_sizes`] returns: the TMS vector is looked at first.
pub open spec fn spec_check_vector_sizes(num_bits: u32, tms_len: usize, tdi_len: usize) -> Result<
    usize,
    ShiftError,
> {
    let expected = bytes_for_bits(num_bits as nat) as usize;
    if tms_len != expected {
        Err(ShiftError::TmsSize { expected, got: tms_len })
    } else if tdi_len != expected {
        Err(ShiftError::TdiSize { expected, got: tdi_len })
    } else {
        Ok(expected)
    }
}

/// Checks, before any hardware is touched, that both vectors of a shift have
/// the length that the bit count calls for, and returns that length.
pub fn check_vector_sizes(num_bits: u32, tms_len: usize, tdi_len: usize) -> (checked: Result<
    usize,
    ShiftError,
>)
    ensures
        checked == spec_check_vector_sizes(num_bits, tms_len, tdi_len),
{
    let expected = vector_len(num_bits);
    if tms_len != expected {
        Err(ShiftError::TmsSize { expected, got: tms_len })
    } else if tdi_len != expected {
        Err(ShiftError::TdiSize { expected, got: tdi_len })
    } else {
        Ok(expected)
    }
}

/// The bytes that a backend hands to the server for the outcome of a shift:
/// the TDO bytes of a shift that succeeded, and no bytes at all for one that
/// failed.
pub open spec fn spec_tdo_or_empty<E>(outcome: Result<Box<[u8]>, E>) -> Seq<u8> {
    match outcome {
        Ok(tdo) => tdo@,
        Err(_) => Seq::empty(),
    }
}

/// Turns the outcome of a shift into the bytes that go to the client. A
/// failure of any kind becomes an empty answer, which the client can tell
/// from a success by its length alone.
pub fn tdo_or_empty<E>(outcome: Result<Box<[u8]>, E>) -> (tdo: Box<[u8]>)
    ensures
        tdo@ == spec_tdo_or_empty(outcome),
{
    match outcome {
        Ok(tdo) => tdo,
        Err(_) => into_boxed(Vec::new()),
    }
}

} // verus!
