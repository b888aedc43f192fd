//! A stream of bytes that lies in memory.

use crate::error::{unexpected_eof, ReadError};
use vstd::prelude::*;

verus! {

/// The number of bytes of the first line of `bytes`: up to the first line
/// feed and with it, or all of them where there is none.
pub open spec fn line_len(bytes: Seq<u8>) -> nat
    decreases bytes.len(),
{
    if bytes.len() == 0 {
        0
    } else if bytes[0] == '\n' as u8 {
        1
    } else {
        1 + line_len(bytes.skip(1))
    }
}

/// The first line of `bytes`, with its line feed if it has one.
pub open spec fn first_line(bytes: Seq<u8>) -> Seq<u8> {
    bytes.take(line_len(bytes) as int)
}

/// A line is no longer than the bytes it is taken from. It holds no line
/// feed but at its end, and it ends in one unless the bytes ran out.
pub proof fn lemma_line_len(bytes: Seq<u8>)
    ensures
        line_len(bytes) <= bytes.len(),
        forall|i: int| 0 <= i < line_len(bytes) - 1 ==> bytes[i] != '\n' as u8,
        line_len(bytes) < bytes.len() ==> bytes[line_len(bytes) - 1] == '\n' as u8,
        line_len(bytes) > 0 && bytes[line_len(bytes) - 1] != '\n' as u8 ==> line_len(bytes)
            == bytes.len(),
    decreases bytes.len(),
{
    if bytes.len() == 0 {
    } else if bytes[0] == '\n' as u8 {
    } else {
        let rest = bytes.skip(1);
        lemma_line_len(rest);
        assert forall|i: int| 0 <= i < line_len(bytes) - 1 implies bytes[i] != '\n' as u8 by {
            if i > 0 {
                assert(bytes[i] == rest[i - 1]);
            }
        }
        if line_len(bytes) < bytes.len() {
            assert(rest[line_len(rest) - 1] == bytes[line_len(bytes) - 1]);
        }
        if line_len(bytes) > 0 {
            assert(bytes[line_len(bytes) - 1] == if line_len(rest) == 0 {
                bytes[0]
            } else {
                rest[line_len(rest) - 1]
            });
        }
    }
}

/// Bytes in memory that are read from the front, once.
pub struct Cursor {
    data: Vec<u8>,
    position: usize,
}

impl Cursor {
    #[verifier::type_invariant]
    spec fn within(self) -> bool {
        self.position <= self.data@.len()
    }

    /// The bytes that have not been read yet.
    pub closed spec fn remaining(&self) -> Seq<u8> {
        self.data@.skip(self.position as int)
    }

    /// The number of bytes that have been read, for contracts.
    pub closed spec fn spec_position(&self) -> usize {
        self.position
    }

    /// A cursor at the front of `data`.
    pub fn new(data: Vec<u8>) -> (cursor: Cursor)
        ensures
            cursor.remaining() == data@,
            cursor.spec_position() == 0,
    {
        assert(data@.skip(0) =~= data@);
        Cursor { data, position: 0 }
    }

    /// The number of bytes that have been read.
    #[verifier::when_used_as_spec(spec_position)]
    pub fn position(&self) -> (position: usize)
        ensures
            position == self.spec_position(),
    {
        self.position
    }

    /// Reads exactly `len` bytes. Where fewer are left, the read fails as one
    /// on a stream that has ended, and nothing is left to read after it.
    pub fn read_exact(&mut self, len: usize) -> (read: Result<Vec<u8>, ReadError>)
        ensures
            match read {
                Ok(bytes) => {
                    &&& len <= old(self).remaining().len()
                    &&& bytes@ == old(self).remaining().take(len as int)
                    &&& final(self).remaining() == old(self).remaining().skip(len as int)
                    &&& final(self).spec_position() == old(self).spec_position() + len
                },
                Err(error) => {
                    &&& len > old(self).remaining().len()
                    &&& error@ == unexpected_eof()
                    &&& final(self).remaining() == Seq::<u8>::empty()
                    &&& final(self).spec_position() == old(self).spec_position() + old(
                        self,
                    ).remaining().len()
                },
            },
    {
        proof {
            use_type_invariant(&*self);
        }
        let total: usize = self.data.len();
        let start: usize = self.position;
        if len > total - start {
            self.position = total;
            assert(self.data@.skip(total as int) =~= Seq::<u8>::empty());
            return Err(ReadError::unexpected_eof());
        }
        let mut bytes: Vec<u8> = Vec::new();
        let mut i: usize = 0;
        while i < len
            invariant
                i <= len,
                start + len <= total == self.data@.len(),
                bytes@ == self.data@.subrange(start as int, start + i),
                self.data@ == old(self).data@,
                self.position == start,
            decreases len - i,
        {
            bytes.push(self.data[start + i]);
            i += 1;
            assert(bytes@ =~= self.data@.subrange(start as int, start + i));
        }
        self.position = start + len;
        assert(bytes@ =~= old(self).remaining().take(len as int));
        assert(self.remaining() =~= old(self).remaining().skip(len as int));
        Ok(bytes)
    }

    /// Reads the first line of what is left: up to the first line feed and
    /// with it, or all that is left where there is none.
    pub fn read_line(&mut self) -> (line: Vec<u8>)
        ensures
            line@ == first_line(old(self).remaining()),
            final(self).remaining() == old(self).remaining().skip(line@.len() as int),
            final(self).spec_position() == old(self).spec_position() + line@.len(),
    {
        proof {
            use_type_invariant(&*self);
        }
        let total: usize = self.data.len();
        let start: usize = self.position;
        let ghost rest = self.remaining();
        let mut line: Vec<u8> = Vec::new();
        let mut i: usize = start;
        let mut done: bool = false;
        while i < total && !done
            invariant
                start <= i <= total == self.data@.len(),
                self.data@ == old(self).data@,
                self.position == start,
                rest == self.data@.skip(start as int),
                line@ == self.data@.subrange(start as int, i as int),
                done ==> line_len(rest) == i - start,
                !done ==> line_len(rest) == (i - start) + line_len(self.data@.skip(i as int)),
            decreases total - i, if done { 0int } else { 1int },
        {
            let byte: u8 = self.data[i];
            let ghost tail = self.data@.skip(i as int);
            proof {
                assert(tail[0] == byte);
                assert(tail.skip(1) =~= self.data@.skip(i + 1));
            }
            line.push(byte);
            i += 1;
            assert(line@ =~= self.data@.subrange(start as int, i as int));
            if byte == '\n' as u8 {
                done = true;
            }
        }
        self.position = i;
        assert(line@ =~= first_line(rest));
        assert(self.remaining() =~= rest.skip(line@.len() as int));
        line
    }
}

} // verus!
