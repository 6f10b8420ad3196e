//! The wire grammar, as mathematics.
//!
//! A frame is one value in bytes. Five kinds exist, told apart by their first
//! byte:
//!
//! | kind          | frame                                      |
//! |---------------|--------------------------------------------|
//! | simple string | `+<text>\r\n`                              |
//! | simple error  | `-<text>\r\n`                              |
//! | integer       | `:<decimal>\r\n`                           |
//! | bulk string   | `$<len>\r\n<len bytes>\r\n`, null `$-1\r\n` |
//! | array         | `*<count>\r\n<frame>...`, null `*-1\r\n`    |
//!
//! [`encode_spec`] says which bytes a value becomes and [`decode_spec`] which
//! value, or which error, a buffer yields. The executable codec is proved
//! against both.

use crate::decimal::{int_to_decimal, nat_to_digits, parse_i64_spec, IntErrorKind};
use vstd::prelude::*;
use vstd::utf8::{decode_utf8, encode_utf8, valid_utf8};

verus! {

/// Carriage return.
pub const CR: u8 = 0x0d;

/// Line feed.
pub const LF: u8 = 0x0a;

/// `*`, the first byte of an array.
pub const STAR: u8 = 0x2a;

/// `$`, the first byte of a bulk string.
pub const DOLLAR: u8 = 0x24;

/// `+`, the first byte of a simple string.
pub const PLUS: u8 = 0x2b;

/// `-`, the first byte of a simple error.
pub const MINUS: u8 = 0x2d;

/// `:`, the first byte of an integer.
pub const COLON: u8 = 0x3a;

/// What a value is, apart from how memory holds it.
pub enum ValueView {
    /// A line of text.
    SimpleString(Seq<char>),
    /// A line of text that reports an error.
    SimpleError(Seq<char>),
    /// A signed 64-bit integer.
    Integer(i64),
    /// A binary string; `None` is the null string, which differs from the
    /// empty one.
    BulkString(Option<Seq<u8>>),
    /// A sequence of values; `None` is the null array, which differs from
    /// the empty one.
    Array(Option<Seq<ValueView>>),
}

/// Why a buffer does not start with a frame.
#[derive(Clone, Copy, Debug, PartialEq, Eq, Structural)]
pub enum DecodeError {
    /// The buffer is empty.
    EmptyBytes,
    /// A line is not closed by CR LF.
    InvalidFormat,
    /// A bulk string announces `given_len` bytes, and CR LF does not follow
    /// them: `actual_len` bytes come before the first CR LF.
    LenMismatch { given_len: usize, actual_len: usize },
    /// The first byte names no kind of value.
    UnknownType { first_byte: u8 },
    /// An integer, a length or a count is not a numeral of a signed 64-bit
    /// integer.
    ParseInt(IntErrorKind),
    /// A line that must be text is not UTF-8.
    FromUtf8,
}

/// The line terminator.
pub open spec fn crlf() -> Seq<u8> {
    seq![CR, LF]
}

/// Whether a CR LF pair ends at index `i` of `s`.
pub open spec fn is_crlf_at(s: Seq<u8>, i: int) -> bool {
    1 <= i < s.len() && s[i - 1] == CR && s[i] == LF
}

/// Whether the first CR LF pair of `s` ends at index `i`.
pub open spec fn is_first_crlf_at(s: Seq<u8>, i: int) -> bool {
    is_crlf_at(s, i) && forall|j: int| 1 <= j < i ==> !is_crlf_at(s, j)
}

/// Whether `s` holds a CR LF pair.
pub open spec fn has_crlf(s: Seq<u8>) -> bool {
    exists|i: int| is_crlf_at(s, i)
}

/// The index at which the first CR LF pair of `s` ends, if `s` has one.
pub open spec fn first_crlf(s: Seq<u8>) -> Option<int> {
    if exists|i: int| is_first_crlf_at(s, i) {
        Some(choose|i: int| is_first_crlf_at(s, i))
    } else {
        None
    }
}

/// A length as the machine holds it: itself, or the largest `usize` where it
/// does not fit.
pub open spec fn len_as_usize(n: int) -> usize {
    if n <= usize::MAX {
        n as usize
    } else {
        usize::MAX
    }
}

/// The bytes of the value `v`.
pub open spec fn encode_spec(v: ValueView) -> Seq<u8>
    decreases v,
{
    match v {
        ValueView::SimpleString(text) => seq![PLUS] + encode_utf8(text) + crlf(),
        ValueView::SimpleError(text) => seq![MINUS] + encode_utf8(text) + crlf(),
        ValueView::Integer(i) => seq![COLON] + int_to_decimal(i as int) + crlf(),
        ValueView::BulkString(None) => seq![DOLLAR] + int_to_decimal(-1) + crlf(),
        ValueView::BulkString(Some(bytes)) => seq![DOLLAR] + nat_to_digits(bytes.len()) + crlf()
            + bytes + crlf(),
        ValueView::Array(None) => seq![STAR] + int_to_decimal(-1) + crlf(),
        ValueView::Array(Some(values)) => seq![STAR] + nat_to_digits(values.len()) + crlf()
            + encode_all_spec(values),
    }
}

/// The bytes of the values `vs`, one frame after the other.
pub open spec fn encode_all_spec(vs: Seq<ValueView>) -> Seq<u8>
    decreases vs,
{
    if vs.len() == 0 {
        Seq::empty()
    } else {
        encode_all_spec(vs.drop_last()) + encode_spec(vs.last())
    }
}

/// The text of the line that `s` starts with, after its first byte, and the
/// bytes that the line takes with its terminator.
pub open spec fn text_spec(s: Seq<u8>) -> Result<(Seq<char>, int), DecodeError> {
    match first_crlf(s) {
        None => Err(DecodeError::InvalidFormat),
        Some(i) => {
            let body = s.subrange(1, i - 1);
            if valid_utf8(body) {
                Ok((decode_utf8(body), i + 1))
            } else {
                Err(DecodeError::FromUtf8)
            }
        },
    }
}

/// The integer on the line that `s` starts with, after its first byte, and
/// the bytes that the line takes with its terminator.
pub open spec fn number_spec(s: Seq<u8>) -> Result<(i64, int), DecodeError> {
    match first_crlf(s) {
        None => Err(DecodeError::InvalidFormat),
        Some(i) => {
            let body = s.subrange(1, i - 1);
            if !valid_utf8(body) {
                Err(DecodeError::FromUtf8)
            } else {
                match parse_i64_spec(body) {
                    Ok(v) => Ok((v, i + 1)),
                    Err(kind) => Err(DecodeError::ParseInt(kind)),
                }
            }
        },
    }
}

/// The data of a bulk string of `len` bytes at the start of `rest`, and the
/// bytes that the data takes with its terminator. The data is the first `len`
/// bytes, whatever they are, and CR LF must follow them. Where it does not,
/// the string is not as long as announced: the error names the number of
/// bytes before the first CR LF, or is an invalid format where there is no
/// CR LF at all.
pub open spec fn bulk_data_spec(rest: Seq<u8>, len: int) -> Result<(Seq<u8>, int), DecodeError> {
    if rest.len() >= len + 2 && rest[len] == CR && rest[len + 1] == LF {
        Ok((rest.subrange(0, len), len + 2))
    } else {
        match first_crlf(rest) {
            None => Err(DecodeError::InvalidFormat),
            Some(j) => Err(
                DecodeError::LenMismatch {
                    given_len: len_as_usize(len),
                    actual_len: (j - 1) as usize,
                },
            ),
        }
    }
}

/// The bulk string that `s` starts with: the line of its length, then as
/// many bytes of data, then CR LF. A negative length stands for the null
/// string, which has no data and no second terminator.
pub open spec fn bulk_spec(s: Seq<u8>) -> Result<(Option<Seq<u8>>, int), DecodeError> {
    match number_spec(s) {
        Err(e) => Err(e),
        Ok((len, used)) => {
            if len < 0 {
                Ok((None, used))
            } else {
                match bulk_data_spec(s.skip(used), len as int) {
                    Ok((data, taken)) => Ok((Some(data), used + taken)),
                    Err(e) => Err(e),
                }
            }
        },
    }
}

/// The value that `s` starts with and the number of bytes that its frame
/// takes, or the reason why `s` starts with no frame.
pub open spec fn decode_spec(s: Seq<u8>) -> Result<(ValueView, int), DecodeError>
    decreases s.len(), 0nat,
{
    if s.len() == 0 {
        Err(DecodeError::EmptyBytes)
    } else if s[0] == PLUS {
        match text_spec(s) {
            Ok((text, used)) => Ok((ValueView::SimpleString(text), used)),
            Err(e) => Err(e),
        }
    } else if s[0] == MINUS {
        match text_spec(s) {
            Ok((text, used)) => Ok((ValueView::SimpleError(text), used)),
            Err(e) => Err(e),
        }
    } else if s[0] == COLON {
        match number_spec(s) {
            Ok((i, used)) => Ok((ValueView::Integer(i), used)),
            Err(e) => Err(e),
        }
    } else if s[0] == DOLLAR {
        match bulk_spec(s) {
            Ok((bytes, used)) => Ok((ValueView::BulkString(bytes), used)),
            Err(e) => Err(e),
        }
    } else if s[0] == STAR {
        match number_spec(s) {
            Err(e) => Err(e),
            Ok((count, used)) => {
                if count < 0 {
                    Ok((ValueView::Array(None), used))
                } else if 0 < used <= s.len() {
                    match elements_spec(s.skip(used), count as nat) {
                        Ok((values, more)) => Ok((ValueView::Array(Some(values)), used + more)),
                        Err(e) => Err(e),
                    }
                } else {
                    Err(DecodeError::InvalidFormat)
                }
            },
        }
    } else {
        Err(DecodeError::UnknownType { first_byte: s[0] })
    }
}

/// The `count` values that `s` starts with, frame after frame, and the number
/// of bytes that they take together. The first frame that fails decides the
/// error; an element that is missing fails as an empty buffer does.
pub open spec fn elements_spec(s: Seq<u8>, count: nat) -> Result<(Seq<ValueView>, int), DecodeError>
    decreases s.len(), count + 1,
{
    if count == 0 {
        Ok((Seq::empty(), 0))
    } else {
        match decode_spec(s) {
            Err(e) => Err(e),
            Ok((first, used)) => {
                if 0 < used <= s.len() {
                    match elements_spec(s.skip(used), (count - 1) as nat) {
                        Ok((rest, more)) => Ok((seq![first] + rest, used + more)),
                        Err(e) => Err(e),
                    }
                } else {
                    Err(DecodeError::InvalidFormat)
                }
            },
        }
    }
}

/// Whether `s` is the beginning of a frame of which more is to come: the
/// frame that `s` starts is not yet whole, and nothing in `s` has shown it to
/// be wrong. An empty buffer is the beginning of any frame. A line is not
/// whole before its CR LF. A bulk string is not whole before its data and the
/// two bytes after the data are there. An array is not whole before each of
/// its elements is.
pub open spec fn incomplete_spec(s: Seq<u8>) -> bool
    decreases s.len(), 0nat,
{
    if s.len() == 0 {
        true
    } else if s[0] == PLUS || s[0] == MINUS || s[0] == COLON {
        first_crlf(s) is None
    } else if s[0] == DOLLAR {
        if first_crlf(s) is None {
            true
        } else {
            match number_spec(s) {
                Ok((len, used)) => len >= 0 && s.len() - used < len + 2,
                Err(_) => false,
            }
        }
    } else if s[0] == STAR {
        if first_crlf(s) is None {
            true
        } else {
            match number_spec(s) {
                Ok((count, used)) => count >= 0 && 0 < used <= s.len()
                    && elements_incomplete_spec(s.skip(used), count as nat),
                Err(_) => false,
            }
        }
    } else {
        false
    }
}

/// Whether `s` is the beginning of `count` frames of which more is to come:
/// some of them are whole, and the next one is not yet.
pub open spec fn elements_incomplete_spec(s: Seq<u8>, count: nat) -> bool
    decreases s.len(), count + 1,
{
    if count == 0 {
        false
    } else if incomplete_spec(s) {
        true
    } else {
        match decode_spec(s) {
            Ok((_, used)) => 0 < used <= s.len() && elements_incomplete_spec(
                s.skip(used),
                (count - 1) as nat,
            ),
            Err(_) => false,
        }
    }
}

/// The first CR LF pair is where no earlier one is.
pub proof fn lemma_first_crlf_is(s: Seq<u8>, i: int)
    requires
        is_first_crlf_at(s, i),
    ensures
        first_crlf(s) == Some(i),
{
    let k = choose|k: int| is_first_crlf_at(s, k);
    assert(is_first_crlf_at(s, k));
    if k < i {
        assert(!is_crlf_at(s, k));
    } else if i < k {
        assert(!is_crlf_at(s, i));
    }
}

/// A buffer without a CR LF pair has no first one.
pub proof fn lemma_first_crlf_none(s: Seq<u8>)
    requires
        !has_crlf(s),
    ensures
        first_crlf(s) is None,
{
    if exists|i: int| is_first_crlf_at(s, i) {
        let k = choose|k: int| is_first_crlf_at(s, k);
        assert(is_crlf_at(s, k));
    }
}

} // verus!
