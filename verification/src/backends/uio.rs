//! The debug bridge behind a memory-mapped register file.
//!
//! The bridge moves at most 32 bits per transaction, so a shift of any length
//! is cut into chunks. This module decides what goes into each chunk, how
//! long to wait for it, and what becomes of the answer. Whoever owns the
//! mapped registers carries the decisions out: it writes a [`Chunk`] to the
//! registers, polls as [`UioDriverBackend::poll`] says, and hands the outcome
//! back to [`ChunkedShift::advance`].

use crate::device::{check_vector_sizes, spec_check_vector_sizes, ShiftError};
use crate::protocol::{bytes_for_bits, vector_len};
use crate::wire::into_boxed;
use vstd::prelude::*;

verus! {

/// Byte offset of the register that takes the number of bits of a chunk.
pub const LENGTH_OFFSET: usize = 0;

/// Byte offset of the register that takes the TMS bits of a chunk.
pub const TMS_REG_OFFSET: usize = 4;

/// Byte offset of the register that takes the TDI bits of a chunk.
pub const TDI_REG_OFFSET: usize = 8;

/// Byte offset of the register that holds the TDO bits of a finished chunk.
pub const TDO_REG_OFFSET: usize = 12;

/// Byte offset of the control and status register.
pub const CONTROL_REG_OFFSET: usize = 16;

/// The number of bytes of the register file that are mapped.
pub const MAP_SIZE: usize = 0x10000;

/// Written to the control register, this value starts a transaction.
pub const CONTROL_START: u32 = 1;

/// The control register reads as this value once the bridge is idle.
pub const CONTROL_IDLE: u32 = 0;

/// The most bits that one transaction moves.
pub const CHUNK_BITS: u32 = 32;

/// The four bytes of a data register that is loaded with `bytes`: the bytes
/// in their order, then zeros.
pub open spec fn zero_padded(bytes: Seq<u8>) -> Seq<u8> {
    Seq::new(4, |i: int| if i < bytes.len() { bytes[i] } else { 0u8 })
}

/// How far a chunked shift has come, as mathematical values.
pub struct ShiftProgress {
    /// The TMS bytes of the whole shift.
    pub tms: Seq<u8>,
    /// The TDI bytes of the whole shift.
    pub tdi: Seq<u8>,
    /// The bits that no chunk has moved yet.
    pub bits_left: nat,
    /// The TDO bytes gathered so far. As many input bytes have been used.
    pub tdo: Seq<u8>,
}

impl ShiftProgress {
    /// The state of a shift of `num_bits` bits before its first chunk.
    pub open spec fn start(num_bits: nat, tms: Seq<u8>, tdi: Seq<u8>) -> ShiftProgress {
        ShiftProgress { tms, tdi, bits_left: num_bits, tdo: Seq::empty() }
    }

    /// The two vectors are equally long, and the bytes not yet used are
    /// exactly those that hold the bits not yet moved.
    pub open spec fn well_formed(self) -> bool {
        &&& self.tms.len() == self.tdi.len()
        &&& self.tdo.len() + bytes_for_bits(self.bits_left) == self.tms.len()
    }

    /// No input is left.
    pub open spec fn finished(self) -> bool {
        self.tdo.len() >= self.tms.len()
    }

    /// The input bytes that no chunk has used yet.
    pub open spec fn bytes_left(self) -> nat {
        (self.tms.len() - self.tdo.len()) as nat
    }

    /// The number of bits of the next chunk: all the bits that are left where
    /// at most four bytes are left, and 32 otherwise.
    pub open spec fn chunk_bits(self) -> nat {
        if self.bytes_left() <= 4 {
            self.bits_left
        } else {
            32
        }
    }

    /// The number of bytes that the next chunk takes from each vector, and
    /// adds to the result.
    pub open spec fn chunk_bytes(self) -> nat {
        bytes_for_bits(self.chunk_bits())
    }

    /// The content of the TMS register for the next chunk.
    pub open spec fn chunk_tms(self) -> Seq<u8> {
        let used = self.tdo.len() as int;
        zero_padded(self.tms.subrange(used, used + self.chunk_bytes()))
    }

    /// The content of the TDI register for the next chunk.
    pub open spec fn chunk_tdi(self) -> Seq<u8> {
        let used = self.tdo.len() as int;
        zero_padded(self.tdi.subrange(used, used + self.chunk_bytes()))
    }

    /// The state after the next chunk has come back with `word` in the TDO
    /// register: the first bytes of the register, as many as the chunk took,
    /// are added to the result.
    pub open spec fn record(self, word: Seq<u8>) -> ShiftProgress {
        ShiftProgress {
            tms: self.tms,
            tdi: self.tdi,
            bits_left: (self.bits_left - self.chunk_bits()) as nat,
            tdo: self.tdo + word.take(self.chunk_bytes() as int),
        }
    }

    /// The state after the chunks have come back with `words`, one after the
    /// other. Words that come after the last chunk change nothing.
    pub open spec fn run(self, words: Seq<Seq<u8>>) -> ShiftProgress
        decreases words.len(),
    {
        if words.len() == 0 || self.finished() {
            self
        } else {
            self.record(words[0]).run(words.skip(1))
        }
    }
}

/// The number of chunks that a shift of `num_bits` bits takes.
pub open spec fn chunk_count(num_bits: nat) -> nat {
    (num_bits + 31) / 32
}

/// One transaction of the debug bridge.
#[derive(Clone, Copy, Debug, PartialEq, Eq)]
pub struct Chunk {
    /// The value for the length register: the number of bits to move.
    pub num_bits: u32,
    /// The content of the TMS register, byte by byte as it lies in memory.
    pub tms: [u8; 4],
    /// The content of the TDI register, byte by byte as it lies in memory.
    pub tdi: [u8; 4],
}

/// How a transaction ended.
#[derive(Clone, Copy, Debug, PartialEq, Eq)]
pub enum ChunkOutcome {
    /// The bridge became idle. The TDO register held these bytes, byte by
    /// byte as they lie in memory.
    Tdo([u8; 4]),
    /// The bridge did not become idle in time.
    TimedOut,
}

/// A chunked shift with a chunk under way.
pub struct ChunkedShift {
    tms: Vec<u8>,
    tdi: Vec<u8>,
    bits_left: u32,
    tdo: Vec<u8>,
}

impl View for ChunkedShift {
    type V = ShiftProgress;

    closed spec fn view(&self) -> ShiftProgress {
        ShiftProgress {
            tms: self.tms@,
            tdi: self.tdi@,
            bits_left: self.bits_left as nat,
            tdo: self.tdo@,
        }
    }
}

/// What the owner of the registers does next.
pub enum ShiftStep {
    /// Carry out `chunk`, then call [`ChunkedShift::advance`] on `state` with
    /// the outcome.
    Transfer { state: ChunkedShift, chunk: Chunk },
    /// The shift is over: here are its TDO bytes, or the reason why it failed.
    Finished(Result<Box<[u8]>, ShiftError>),
}

impl ShiftStep {
    /// The step asks for the chunk that is due in `progress`, and its state
    /// is `progress`.
    pub open spec fn continues(self, progress: ShiftProgress) -> bool {
        &&& self matches ShiftStep::Transfer { state, chunk }
        &&& state@ == progress
        &&& chunk.num_bits == progress.chunk_bits()
        &&& chunk.tms@ == progress.chunk_tms()
        &&& chunk.tdi@ == progress.chunk_tdi()
    }

    /// The step ends the shift with the bytes `tdo`.
    pub open spec fn delivers(self, tdo: Seq<u8>) -> bool {
        self matches ShiftStep::Finished(Ok(bytes)) && bytes@ == tdo
    }

    /// The step ends the shift with the failure `error`.
    pub open spec fn fails(self, error: ShiftError) -> bool {
        self matches ShiftStep::Finished(Err(e)) && e == error
    }

    /// The step is the one that `progress` calls for: its result where no
    /// input is left, and its next chunk otherwise.
    pub open spec fn follows(self, progress: ShiftProgress) -> bool {
        if progress.finished() {
            self.delivers(progress.tdo)
        } else {
            self.continues(progress)
        }
    }
}

/// The bytes of `bytes` from `from` on, `len` of them, as the content of a
/// data register.
fn register_image(bytes: &Vec<u8>, from: usize, len: usize) -> (image: [u8; 4])
    requires
        len <= 4,
        from + len <= bytes@.len(),
    ensures
        image@ == zero_padded(bytes@.subrange(from as int, from + len)),
{
    let mut image: [u8; 4] = [0u8; 4];
    let total: usize = bytes.len();
    let mut i: usize = 0;
    while i < len
        invariant
            i <= len <= 4,
            from + len <= total == bytes@.len(),
            image@.len() == 4,
            forall|j: int| 0 <= j < i ==> image@[j] == bytes@[from + j],
            forall|j: int| i <= j < 4 ==> image@[j] == 0u8,
        decreases len - i,
    {
        image[i] = bytes[from + i];
        i += 1;
    }
    assert(image@ =~= zero_padded(bytes@.subrange(from as int, from + len)));
    image
}

impl ChunkedShift {
    #[verifier::type_invariant]
    spec fn chunk_under_way(self) -> bool {
        self@.well_formed() && !self@.finished()
    }

    /// The number of bits of the chunk that is under way.
    fn chunk_bits(&self) -> (num_bits: u32)
        ensures
            num_bits == self@.chunk_bits(),
            1 <= num_bits <= 32,
            num_bits <= self@.bits_left,
            bytes_for_bits(num_bits as nat) <= self@.bytes_left(),
    {
        proof {
            use_type_invariant(self);
        }
        if self.tms.len() - self.tdo.len() <= 4 {
            self.bits_left
        } else {
            CHUNK_BITS
        }
    }

    /// The chunk that is under way.
    fn chunk(&self) -> (chunk: Chunk)
        ensures
            chunk.num_bits == self@.chunk_bits(),
            chunk.tms@ == self@.chunk_tms(),
            chunk.tdi@ == self@.chunk_tdi(),
    {
        proof {
            use_type_invariant(self);
        }
        let used: usize = self.tdo.len();
        let num_bits: u32 = self.chunk_bits();
        let len: usize = vector_len(num_bits);
        Chunk {
            num_bits,
            tms: register_image(&self.tms, used, len),
            tdi: register_image(&self.tdi, used, len),
        }
    }

    /// Takes the outcome of the chunk under way and says what to do next.
    ///
    /// A chunk that timed out ends the shift with [`ShiftError::TimedOut`].
    /// Of a chunk that came back, the first bytes of the TDO register join
    /// the result, as many as the chunk took from each vector. Then the next
    /// chunk is due, or, where no input is left, the shift ends with the
    /// result.
    pub fn advance(self, outcome: ChunkOutcome) -> (step: ShiftStep)
        ensures
            self@.well_formed(),
            !self@.finished(),
            match outcome {
                ChunkOutcome::TimedOut => step.fails(ShiftError::TimedOut),
                ChunkOutcome::Tdo(word) => {
                    &&& step.follows(self@.record(word@))
                    &&& self@.record(word@).well_formed()
                },
            },
    {
        proof {
            use_type_invariant(&self);
        }
        match outcome {
            ChunkOutcome::TimedOut => ShiftStep::Finished(Err(ShiftError::TimedOut)),
            ChunkOutcome::Tdo(word) => {
                let ghost before = self@;
                let num_bits: u32 = self.chunk_bits();
                let len: usize = vector_len(num_bits);
                let ChunkedShift { tms, tdi, bits_left, mut tdo } = self;
                let mut i: usize = 0;
                while i < len
                    invariant
                        i <= len <= 4,
                        tdo@ == before.tdo + word@.take(i as int),
                    decreases len - i,
                {
                    tdo.push(word[i]);
                    i += 1;
                    assert(tdo@ =~= before.tdo + word@.take(i as int));
                }
                if tdo.len() >= tms.len() {
                    ShiftStep::Finished(Ok(into_boxed(tdo)))
                } else {
                    let state = ChunkedShift { tms, tdi, bits_left: bits_left - num_bits, tdo };
                    let chunk = state.chunk();
                    ShiftStep::Transfer { state, chunk }
                }
            },
        }
    }
}

/// What the owner of the registers has seen while it waits for a chunk.
#[derive(Clone, Copy, Debug, PartialEq, Eq, Structural)]
pub enum PollEvent {
    /// The registers of a chunk were written and the transaction was started.
    Started,
    /// So many nanoseconds have passed since the transaction was started.
    Elapsed(u128),
    /// The control register was read and held this value.
    Status(u32),
}

/// What the owner of the registers does next while it waits for a chunk.
#[derive(Clone, Copy, Debug, PartialEq, Eq, Structural)]
pub enum PollAction {
    /// Look at the clock and report [`PollEvent::Elapsed`].
    ReadClock,
    /// Read the control register and report [`PollEvent::Status`].
    ReadStatus,
    /// The bridge is idle: read the TDO register and report
    /// [`ChunkOutcome::Tdo`].
    ReadTdo,
    /// Give the chunk up and report [`ChunkOutcome::TimedOut`].
    TimedOut,
}

/// A debug bridge that is reached through the UIO subsystem.
///
/// The bridge raises no interrupt, so its control register is polled. The
/// poll timeout says for how long.
#[derive(Clone, Copy, Debug)]
pub struct UioDriverBackend {
    poll_timeout_ns: u128,
}

impl UioDriverBackend {
    /// The poll timeout in nanoseconds, for contracts.
    pub closed spec fn spec_poll_timeout(&self) -> u128 {
        self.poll_timeout_ns
    }

    /// A backend that waits up to `poll_timeout_ns` nanoseconds for each
    /// chunk.
    pub fn new(poll_timeout_ns: u128) -> (backend: UioDriverBackend)
        ensures
            backend.spec_poll_timeout() == poll_timeout_ns,
    {
        UioDriverBackend { poll_timeout_ns }
    }

    /// The poll timeout in nanoseconds.
    #[verifier::when_used_as_spec(spec_poll_timeout)]
    pub fn poll_timeout(&self) -> (ns: u128)
        ensures
            ns == self.spec_poll_timeout(),
    {
        self.poll_timeout_ns
    }

    /// Answers a request for a TCK period. The bridge has no clock to set, so
    /// the period that was asked for is returned as it is.
    pub fn set_tck(&self, period_ns: u32) -> (actual: u32)
        ensures
            actual == period_ns,
    {
        period_ns
    }

    /// What [`UioDriverBackend::poll`] answers to `event` under a poll
    /// timeout of `timeout_ns` nanoseconds.
    pub open spec fn spec_poll(timeout_ns: u128, event: PollEvent) -> PollAction {
        match event {
            PollEvent::Started => PollAction::ReadClock,
            PollEvent::Elapsed(ns) => if ns < timeout_ns {
                PollAction::ReadStatus
            } else {
                PollAction::TimedOut
            },
            PollEvent::Status(value) => if value == CONTROL_IDLE {
                PollAction::ReadTdo
            } else {
                PollAction::ReadClock
            },
        }
    }

    /// Decides how the wait for a chunk goes on.
    ///
    /// The clock is looked at before every read of the control register. The
    /// register is read only while less time than the poll timeout has
    /// passed; after that the chunk has timed out. A control register that
    /// reads as idle ends the wait; any other value leads back to the clock.
    pub fn poll(&self, event: PollEvent) -> (action: PollAction)
        ensures
            action == Self::spec_poll(self.spec_poll_timeout(), event),
    {
        match event {
            PollEvent::Started => PollAction::ReadClock,
            PollEvent::Elapsed(ns) => if ns < self.poll_timeout_ns {
                PollAction::ReadStatus
            } else {
                PollAction::TimedOut
            },
            PollEvent::Status(value) => if value == CONTROL_IDLE {
                PollAction::ReadTdo
            } else {
                PollAction::ReadClock
            },
        }
    }

    /// Begins a shift of `num_bits` bits.
    ///
    /// Vectors of the wrong length end the shift at once, before anything is
    /// written to the bridge, and so does a shift of no bits, which has an
    /// empty result. Otherwise the first chunk is due.
    pub fn begin_shift(&self, num_bits: u32, tms: &[u8], tdi: &[u8]) -> (step: ShiftStep)
        ensures
            match spec_check_vector_sizes(num_bits, tms@.len() as usize, tdi@.len() as usize) {
                Err(error) => step.fails(error),
                Ok(_) => {
                    &&& step.follows(ShiftProgress::start(num_bits as nat, tms@, tdi@))
                    &&& ShiftProgress::start(num_bits as nat, tms@, tdi@).well_formed()
                },
            },
    {
        match check_vector_sizes(num_bits, tms.len(), tdi.len()) {
            Err(error) => ShiftStep::Finished(Err(error)),
            Ok(len) => {
                if len == 0 {
                    ShiftStep::Finished(Ok(into_boxed(Vec::new())))
                } else {
                    let mut tms_bytes: Vec<u8> = Vec::new();
                    tms_bytes.extend_from_slice(tms);
                    let mut tdi_bytes: Vec<u8> = Vec::new();
                    tdi_bytes.extend_from_slice(tdi);
                    assert(tms_bytes@ =~= tms@ && tdi_bytes@ =~= tdi@);
                    let state = ChunkedShift {
                        tms: tms_bytes,
                        tdi: tdi_bytes,
                        bits_left: num_bits,
                        tdo: Vec::new(),
                    };
                    let chunk = state.chunk();
                    ShiftStep::Transfer { state, chunk }
                }
            },
        }
    }
}

/// The wait for a chunk ends well only when the control register was seen
/// idle, and it ends with a timeout exactly when the clock is looked at after
/// the poll timeout has passed. A control register that never reads as idle
/// therefore never lets a chunk end well.
pub proof fn lemma_poll_ends(timeout_ns: u128, event: PollEvent)
    ensures
        UioDriverBackend::spec_poll(timeout_ns, event) == PollAction::ReadTdo <==> event
            == PollEvent::Status(CONTROL_IDLE),
        UioDriverBackend::spec_poll(timeout_ns, event) == PollAction::TimedOut <==> (event matches PollEvent::Elapsed(
            ns,
        ) && ns >= timeout_ns),
{
}

/// The next chunk of a shift that is not over moves between 1 and 32 bits,
/// never more than are left, and takes between 1 and 4 bytes, never more
/// than are left. It is the last chunk exactly where at most 32 bits are
/// left. When it has come back, the state is well formed again and the
/// result has grown by the bytes that the chunk took.
pub proof fn lemma_chunk_fits(progress: ShiftProgress, word: Seq<u8>)
    requires
        progress.well_formed(),
        !progress.finished(),
        word.len() == 4,
    ensures
        1 <= progress.chunk_bits() <= 32,
        progress.chunk_bits() <= progress.bits_left,
        progress.chunk_bits() == if progress.bits_left <= 32 {
            progress.bits_left
        } else {
            32
        },
        1 <= progress.chunk_bytes() <= 4,
        progress.chunk_bytes() <= progress.bytes_left(),
        progress.record(word).well_formed(),
        progress.record(word).tdo.len() == progress.tdo.len() + progress.chunk_bytes(),
        progress.record(word).bits_left == progress.bits_left - progress.chunk_bits(),
        progress.record(word).finished() <==> progress.bits_left <= 32,
{
}

/// After `words.len()` chunks of a shift, none of them superfluous, 32 bits
/// fewer are left for each chunk, or none at all, and the result holds the
/// bytes of the bits that were moved.
pub proof fn lemma_run(progress: ShiftProgress, words: Seq<Seq<u8>>)
    requires
        progress.well_formed(),
        forall|i: int| 0 <= i < words.len() ==> (#[trigger] words[i]).len() == 4,
        words.len() <= chunk_count(progress.bits_left),
    ensures
        progress.run(words).well_formed(),
        progress.run(words).tms == progress.tms,
        progress.run(words).tdi == progress.tdi,
        progress.run(words).bits_left == if progress.bits_left <= 32 * words.len() {
            0
        } else {
            progress.bits_left - 32 * words.len()
        },
        progress.run(words).finished() <==> words.len() == chunk_count(progress.bits_left),
    decreases words.len(),
{
    if words.len() == 0 || progress.finished() {
    } else {
        lemma_chunk_fits(progress, words[0]);
        lemma_run(progress.record(words[0]), words.skip(1));
    }
}

/// A shift of `num_bits` bits takes `chunk_count(num_bits)` chunks and no
/// fewer. Each chunk but the last moves 32 bits. The last one moves what is
/// left: `num_bits` modulo 32, or 32 where that is zero. After the last chunk
/// the result holds as many bytes as each of the two vectors.
pub proof fn lemma_chunks_of_a_shift(
    num_bits: nat,
    tms: Seq<u8>,
    tdi: Seq<u8>,
    words: Seq<Seq<u8>>,
    k: int,
)
    requires
        tms.len() == bytes_for_bits(num_bits),
        tdi.len() == bytes_for_bits(num_bits),
        words.len() == chunk_count(num_bits),
        forall|i: int| 0 <= i < words.len() ==> (#[trigger] words[i]).len() == 4,
        0 <= k < words.len(),
    ensures
        !ShiftProgress::start(num_bits, tms, tdi).run(words.take(k)).finished(),
        ShiftProgress::start(num_bits, tms, tdi).run(words.take(k)).chunk_bits() == if k + 1
            < words.len() {
            32
        } else if num_bits % 32 == 0 {
            32
        } else {
            num_bits % 32
        },
        ShiftProgress::start(num_bits, tms, tdi).run(words).finished(),
        ShiftProgress::start(num_bits, tms, tdi).run(words).tdo.len() == bytes_for_bits(num_bits),
{
    let first = ShiftProgress::start(num_bits, tms, tdi);
    lemma_run(first, words.take(k));
    lemma_run(first, words);
    lemma_chunk_fits(first.run(words.take(k)), words[k]);
}

} // verus!
