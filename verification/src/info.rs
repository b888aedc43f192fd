//! The info line: how a server's capabilities become a line of text and how
//! such a line is read.
//!
//! The line is `xvcServer_v`, the version as `major.minor`, a colon, the
//! longest vector in bytes as a decimal number, and a line feed.

use crate::error::{invalid_number, ReadError, ReadErrorView};
use crate::protocol::{lemma_info_by_parts, lemma_info_parts, XvcInfo};
use crate::stream::{first_line, lemma_line_len, line_len, Cursor};
use crate::version::{lemma_version_parts, Version};
use crate::wire::{
    begins_with, decimal, lemma_decimal, lemma_parse_decimal, lossy_text, parse_u32, push_decimal,
    spec_parse_u32, text_of,
};
use vstd::prelude::*;
use vstd::slice::slice_subrange;
use vstd::string::StringExecFns;

verus! {

/// The bytes `xvcServer`.
pub open spec fn info_name() -> Seq<u8> {
    seq![
        'x' as u8,
        'v' as u8,
        'c' as u8,
        'S' as u8,
        'e' as u8,
        'r' as u8,
        'v' as u8,
        'e' as u8,
        'r' as u8,
    ]
}

/// The bytes `1.0`, the one version that is read.
pub open spec fn version_1_0() -> Seq<u8> {
    seq!['1' as u8, '.' as u8, '0' as u8]
}

/// The line that tells a client of `info`.
pub open spec fn encode_info(info: XvcInfo) -> Seq<u8> {
    info_name() + seq!['_' as u8, 'v' as u8] + decimal(info.spec_version().spec_major() as nat)
        + seq!['.' as u8] + decimal(info.spec_version().spec_minor() as nat) + seq![':' as u8]
        + decimal(info.spec_max_vector_len() as nat) + seq!['\n' as u8]
}

/// The byte is a space, a tab, a line feed, a form feed or a carriage return.
pub open spec fn is_ascii_whitespace(byte: u8) -> bool {
    byte == ' ' as u8 || byte == '\t' as u8 || byte == '\n' as u8 || byte == 12 || byte
        == '\r' as u8
}

/// The bytes without the whitespace at their end.
pub open spec fn trim_end(bytes: Seq<u8>) -> Seq<u8>
    decreases bytes.len(),
{
    if bytes.len() > 0 && is_ascii_whitespace(bytes.last()) {
        trim_end(bytes.drop_last())
    } else {
        bytes
    }
}

/// The number of bytes of `bytes` before its first colon, or the number of
/// all of them where there is none.
pub open spec fn before_colon(bytes: Seq<u8>) -> nat
    decreases bytes.len(),
{
    if bytes.len() == 0 || bytes[0] == ':' as u8 {
        0
    } else {
        1 + before_colon(bytes.skip(1))
    }
}

/// The error of an info line that is not laid out as it should be.
pub open spec fn invalid_format(text: Seq<char>) -> Result<XvcInfo, ReadErrorView> {
    Err(ReadErrorView::InvalidFormat(text))
}

/// What reading an info line makes of `line`.
///
/// Whitespace at the end of the line is dropped. The line must begin with
/// `xvcServer`, then `_`, then `v`. What stands before the next colon is the
/// version, and only `1.0` is read. What stands after the colon is the
/// longest vector in bytes, a decimal number of 32 bits.
pub open spec fn decode_info(line: Seq<u8>) -> Result<XvcInfo, ReadErrorView> {
    let trimmed = trim_end(line);
    if trimmed.len() < 9 || trimmed.take(9) != info_name() {
        invalid_format("Invalid prefix in info message"@)
    } else if trimmed.len() < 10 || trimmed[9] != '_' as u8 {
        invalid_format("Missing '_' separator"@)
    } else if trimmed.len() < 11 || trimmed[10] != 'v' as u8 {
        invalid_format("Version must start with 'v"@)
    } else {
        let rest = trimmed.skip(11);
        let colon = before_colon(rest) as int;
        if colon == rest.len() {
            invalid_format("Missing ':' separator in info message"@)
        } else if rest.take(colon) != version_1_0() {
            Err(ReadErrorView::UnsupportedVersion(lossy_text(rest.take(colon))))
        } else {
            match spec_parse_u32(rest.skip(colon + 1)) {
                Ok(max_vector_len) => Ok(
                    XvcInfo::spec_new(Version::spec_new(1, 0), max_vector_len),
                ),
                Err(error) => Err(invalid_number(error)),
            }
        }
    }
}

/// What a read of an info line returned, as mathematical values.
pub open spec fn info_view(read: Result<XvcInfo, ReadError>) -> Result<XvcInfo, ReadErrorView> {
    match read {
        Ok(info) => Ok(info),
        Err(error) => Err(error@),
    }
}

/// The number of bytes of `bytes` that are left when the whitespace at its
/// end is dropped.
fn trimmed_len(bytes: &[u8]) -> (len: usize)
    ensures
        len <= bytes@.len(),
        bytes@.take(len as int) == trim_end(bytes@),
{
    let mut len: usize = bytes.len();
    assert(bytes@.take(len as int) =~= bytes@);
    while len > 0 && (bytes[len - 1] == ' ' as u8 || bytes[len - 1] == '\t' as u8 || bytes[len
        - 1] == '\n' as u8 || bytes[len - 1] == 12 || bytes[len - 1] == '\r' as u8)
        invariant
            len <= bytes@.len(),
            trim_end(bytes@) == trim_end(bytes@.take(len as int)),
        decreases len,
    {
        assert(bytes@.take(len as int).drop_last() =~= bytes@.take(len - 1));
        len -= 1;
    }
    len
}

/// The error of an info line that is not laid out as it should be.
fn format_error(text: &str) -> (error: ReadError)
    ensures
        error@ == ReadErrorView::InvalidFormat(text@),
{
    ReadError::InvalidFormat(String::from_str(text))
}

impl XvcInfo {
    /// Appends the info line to `writer`.
    pub fn write_to(&self, writer: &mut Vec<u8>)
        ensures
            final(writer)@ == old(writer)@ + encode_info(*self),
    {
        let name: [u8; 11] = [
            'x' as u8,
            'v' as u8,
            'c' as u8,
            'S' as u8,
            'e' as u8,
            'r' as u8,
            'v' as u8,
            'e' as u8,
            'r' as u8,
            '_' as u8,
            'v' as u8,
        ];
        assert(name@ =~= info_name() + seq!['_' as u8, 'v' as u8]);
        writer.extend_from_slice(name.as_slice());
        push_decimal(writer, self.version().major() as u64);
        writer.push('.' as u8);
        push_decimal(writer, self.version().minor() as u64);
        writer.push(':' as u8);
        push_decimal(writer, self.max_vector_len() as u64);
        writer.push('\n' as u8);
        assert(writer@ =~= old(writer)@ + encode_info(*self));
    }

    /// Reads an info line from `reader`: the bytes up to the next line feed,
    /// or all that is left where there is none.
    ///
    /// What comes back is what [`decode_info`] says of that line.
    pub fn from_reader(reader: &mut Cursor) -> (read: Result<XvcInfo, ReadError>)
        ensures
            info_view(read) == decode_info(first_line(old(reader).remaining())),
            final(reader).remaining() == old(reader).remaining().skip(
                line_len(old(reader).remaining()) as int,
            ),
    {
        let line = reader.read_line();
        proof {
            lemma_line_len(old(reader).remaining());
        }
        let bytes: &[u8] = line.as_slice();
        let end: usize = trimmed_len(bytes);
        let ghost trimmed = trim_end(bytes@);
        let name: [u8; 9] = [
            'x' as u8,
            'v' as u8,
            'c' as u8,
            'S' as u8,
            'e' as u8,
            'r' as u8,
            'v' as u8,
            'e' as u8,
            'r' as u8,
        ];
        assert(name@ =~= info_name());
        if end < 9 {
            return Err(format_error("Invalid prefix in info message"));
        }
        assert(bytes@.take(9) =~= trimmed.take(9));
        if !begins_with(bytes, name.as_slice(), 9) {
            return Err(format_error("Invalid prefix in info message"));
        }
        if end < 10 || bytes[9] != '_' as u8 {
            return Err(format_error("Missing '_' separator"));
        }
        if end < 11 || bytes[10] != 'v' as u8 {
            return Err(format_error("Version must start with 'v"));
        }
        let ghost rest = trimmed.skip(11);
        let mut colon: usize = 11;
        assert(rest.skip(0) =~= rest);
        while colon < end && bytes[colon] != ':' as u8
            invariant
                11 <= colon <= end <= bytes@.len(),
                trimmed == bytes@.take(end as int),
                rest == trimmed.skip(11),
                before_colon(rest) == (colon - 11) + before_colon(rest.skip(colon - 11)),
            decreases end - colon,
        {
            assert(rest.skip(colon - 11).skip(1) =~= rest.skip(colon - 11 + 1));
            colon += 1;
        }
        assert(before_colon(rest) == colon - 11);
        if colon == end {
            return Err(format_error("Missing ':' separator in info message"));
        }
        let version = slice_subrange(bytes, 11, colon);
        assert(version@ =~= rest.take(colon - 11));
        if !(colon - 11 == 3 && bytes[11] == '1' as u8 && bytes[12] == '.' as u8 && bytes[13]
            == '0' as u8) {
            assert(version@ != version_1_0()) by {
                if version@.len() == 3 {
                    assert(version@[0] == bytes@[11] && version@[1] == bytes@[12] && version@[2]
                        == bytes@[13]);
                }
            }
            return Err(ReadError::UnsupportedVersion(text_of(version)));
        }
        assert(version@ =~= version_1_0());
        let number = slice_subrange(bytes, colon + 1, end);
        assert(number@ =~= rest.skip(colon - 11 + 1));
        match parse_u32(number) {
            Ok(max_vector_len) => Ok(XvcInfo::new(Version::v1_0(), max_vector_len)),
            Err(error) => Err(ReadError::invalid_number(error)),
        }
    }
}

/// Reading the info line of a server of version 1.0 gives its capabilities
/// back.
pub proof fn lemma_decode_encode_info(info: XvcInfo)
    requires
        info.spec_version() == Version::spec_new(1, 0),
    ensures
        decode_info(encode_info(info)) == Ok::<XvcInfo, ReadErrorView>(info),
{
    broadcast use lemma_version_parts, lemma_info_parts;

    let max = info.spec_max_vector_len();
    let digits = decimal(max as nat);
    lemma_decimal(max as nat);
    lemma_parse_decimal(max);
    let line = encode_info(info);
    let rest = version_1_0() + seq![':' as u8] + digits;
    let body = info_name() + seq!['_' as u8, 'v' as u8] + rest;
    assert(decimal(1) =~= seq!['1' as u8]);
    assert(decimal(0) =~= seq!['0' as u8]);
    assert(line =~= body.push('\n' as u8));
    assert(line.drop_last() =~= body);
    assert(body.last() == digits.last());
    assert(!is_ascii_whitespace(body.last()));
    assert(trim_end(body) == body);
    assert(line.last() == '\n' as u8);
    assert(trim_end(line) == body);
    assert(body.take(9) =~= info_name());
    assert(body.skip(11) =~= rest);
    let after_1 = rest.skip(1);
    let after_2 = after_1.skip(1);
    let after_3 = after_2.skip(1);
    assert(after_3[0] == ':' as u8);
    assert(before_colon(after_3) == 0);
    assert(after_2[0] == '0' as u8);
    assert(before_colon(after_2) == 1);
    assert(after_1[0] == '.' as u8);
    assert(before_colon(after_1) == 2);
    assert(rest[0] == '1' as u8);
    assert(before_colon(rest) == 3);
    assert(rest.take(3) =~= version_1_0());
    assert(rest.skip(4) =~= digits);
    lemma_info_by_parts(info, XvcInfo::spec_new(Version::spec_new(1, 0), max));
}

} // verus!
