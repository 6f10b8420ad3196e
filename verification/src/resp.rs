//! The codec with another face: values with an explicit null flag, an
//! encoder and a decoder as types of their own, and errors that name the
//! kind of frame that failed.
//!
//! The bytes are those of [`crate::redis::wire`]. The decoder accepts what
//! the decoder of [`crate::redis::resp`] accepts and yields the same value;
//! the two differ in how they report a failure.

use crate::decimal::{push_decimal, push_digits, IntErrorKind};
use crate::redis::resp::{decode_to_i64, decode_to_string, read_bulk_data};
use crate::redis::wire::{
    bulk_spec, decode_spec, elements_spec, encode_all_spec, encode_spec, number_spec, text_spec, ValueView, COLON, CR, DOLLAR, LF,
    MINUS, PLUS, STAR,
};
use crate::text::push_bytes;
use vstd::prelude::*;
use vstd::slice::{slice_subrange, slice_to_vec};
use vstd::std_specs::convert::FromSpecImpl;

verus! {

/// A line of text.
#[derive(Debug)]
pub struct SimpleString {
    s: String,
}

impl View for SimpleString {
    type V = Seq<char>;

    closed spec fn view(&self) -> Seq<char> {
        self.s@
    }
}

impl Clone for SimpleString {
    fn clone(&self) -> (r: Self)
        ensures
            r@ == self@,
    {
        SimpleString { s: self.s.clone() }
    }
}

impl From<String> for SimpleString {
    fn from(value: String) -> (r: Self)
        ensures
            r@ == value@,
    {
        SimpleString { s: value }
    }
}

impl FromSpecImpl<String> for SimpleString {
    open spec fn obeys_from_spec() -> bool {
        true
    }

    closed spec fn from_spec(value: String) -> Self {
        SimpleString { s: value }
    }
}

impl SimpleString {
    /// The text.
    pub fn s(&self) -> (r: &str)
        ensures
            r@ == self@,
    {
        self.s.as_str()
    }

    /// The text, as a string of its own.
    pub fn to_string(&self) -> (r: String)
        ensures
            r@ == self@,
    {
        self.s.clone()
    }

    /// The frame `+<text>\r\n`.
    fn serialize(&self) -> (r: Vec<u8>)
        ensures
            r@ == encode_spec(ValueView::SimpleString(self@)),
    {
        let mut buf: Vec<u8> = Vec::new();
        buf.push(PLUS);
        push_bytes(&mut buf, self.s.as_str().as_bytes());
        buf.push(CR);
        buf.push(LF);
        assert(buf@ =~= encode_spec(ValueView::SimpleString(self@)));
        buf
    }
}

/// A line of text that reports an error.
#[derive(Debug)]
pub struct SimpleError {
    s: String,
}

impl View for SimpleError {
    type V = Seq<char>;

    closed spec fn view(&self) -> Seq<char> {
        self.s@
    }
}

impl Clone for SimpleError {
    fn clone(&self) -> (r: Self)
        ensures
            r@ == self@,
    {
        SimpleError { s: self.s.clone() }
    }
}

impl From<String> for SimpleError {
    fn from(value: String) -> (r: Self)
        ensures
            r@ == value@,
    {
        SimpleError { s: value }
    }
}

impl FromSpecImpl<String> for SimpleError {
    open spec fn obeys_from_spec() -> bool {
        true
    }

    closed spec fn from_spec(value: String) -> Self {
        SimpleError { s: value }
    }
}

impl SimpleError {
    /// The text.
    pub fn s(&self) -> (r: &str)
        ensures
            r@ == self@,
    {
        self.s.as_str()
    }

    /// The text, as a string of its own.
    pub fn to_string(&self) -> (r: String)
        ensures
            r@ == self@,
    {
        self.s.clone()
    }

    /// The frame `-<text>\r\n`.
    fn serialize(&self) -> (r: Vec<u8>)
        ensures
            r@ == encode_spec(ValueView::SimpleError(self@)),
    {
        let mut buf: Vec<u8> = Vec::new();
        buf.push(MINUS);
        push_bytes(&mut buf, self.s.as_str().as_bytes());
        buf.push(CR);
        buf.push(LF);
        assert(buf@ =~= encode_spec(ValueView::SimpleError(self@)));
        buf
    }
}

/// A signed 64-bit integer.
#[derive(Debug, Clone, Copy)]
pub struct Integer {
    i: i64,
}

impl View for Integer {
    type V = i64;

    closed spec fn view(&self) -> i64 {
        self.i
    }
}

impl From<i64> for Integer {
    fn from(value: i64) -> (r: Self)
        ensures
            r@ == value,
    {
        Integer { i: value }
    }
}

impl FromSpecImpl<i64> for Integer {
    open spec fn obeys_from_spec() -> bool {
        true
    }

    closed spec fn from_spec(value: i64) -> Self {
        Integer { i: value }
    }
}

impl Integer {
    /// The integer.
    pub fn i(&self) -> (r: i64)
        ensures
            r == self@,
    {
        self.i
    }

    /// The frame `:<decimal>\r\n`.
    fn serialize(&self) -> (r: Vec<u8>)
        ensures
            r@ == encode_spec(ValueView::Integer(self@)),
    {
        let mut buf: Vec<u8> = Vec::new();
        buf.push(COLON);
        push_decimal(&mut buf, self.i);
        buf.push(CR);
        buf.push(LF);
        assert(buf@ =~= encode_spec(ValueView::Integer(self@)));
        buf
    }
}

/// A binary string, or the null string.
#[derive(Debug)]
pub struct BulkString {
    is_null: bool,
    bytes: Vec<u8>,
}

impl View for BulkString {
    type V = Option<Seq<u8>>;

    closed spec fn view(&self) -> Option<Seq<u8>> {
        if self.is_null {
            None
        } else {
            Some(self.bytes@)
        }
    }
}

impl Clone for BulkString {
    fn clone(&self) -> (r: Self)
        ensures
            r@ == self@,
            r.bytes_spec() == self.bytes_spec(),
    {
        BulkString { is_null: self.is_null, bytes: self.bytes.clone() }
    }
}

impl From<Vec<u8>> for BulkString {
    fn from(bytes: Vec<u8>) -> (r: Self)
        ensures
            r@ == Some(bytes@),
    {
        BulkString { is_null: false, bytes }
    }
}

impl FromSpecImpl<Vec<u8>> for BulkString {
    open spec fn obeys_from_spec() -> bool {
        true
    }

    closed spec fn from_spec(bytes: Vec<u8>) -> Self {
        BulkString { is_null: false, bytes }
    }
}

impl BulkString {
    /// The bytes that the string holds; none for the null string.
    pub closed spec fn bytes_spec(&self) -> Seq<u8> {
        self.bytes@
    }

    /// The null string.
    pub fn null() -> (r: Self)
        ensures
            r@ is None,
            r.bytes_spec() == Seq::<u8>::empty(),
    {
        Self { is_null: true, bytes: Vec::new() }
    }

    /// Tells whether this is the null string.
    pub fn is_null(&self) -> (r: bool)
        ensures
            r == (self@ is None),
    {
        self.is_null
    }

    /// The bytes. The null string has none.
    pub fn bytes(&self) -> (r: &[u8])
        ensures
            r@ == self.bytes_spec(),
            self@ matches Some(b) ==> r@ == b,
    {
        self.bytes.as_slice()
    }

    /// The frame `$<len>\r\n<bytes>\r\n`, or `$-1\r\n` for the null string.
    fn serialize(&self) -> (r: Vec<u8>)
        ensures
            r@ == encode_spec(ValueView::BulkString(self@)),
    {
        let mut buf: Vec<u8> = Vec::new();
        buf.push(DOLLAR);
        if self.is_null {
            push_decimal(&mut buf, -1);
            buf.push(CR);
            buf.push(LF);
        } else {
            push_digits(&mut buf, self.bytes.len() as u128);
            buf.push(CR);
            buf.push(LF);
            push_bytes(&mut buf, self.bytes.as_slice());
            buf.push(CR);
            buf.push(LF);
        }
        assert(buf@ =~= encode_spec(ValueView::BulkString(self@)));
        buf
    }
}

/// A sequence of values, or the null array.
#[derive(Debug)]
pub struct Array {
    is_null: bool,
    values: Vec<Value>,
}

/// A value of the protocol.
#[derive(Debug)]
pub enum Value {
    SimpleString(SimpleString),
    SimpleError(SimpleError),
    Integer(Integer),
    BulkString(BulkString),
    Array(Array),
}

/// The views of the values `vs`, in order.
pub open spec fn views(vs: Seq<Value>) -> Seq<ValueView>
    decreases vs,
{
    Seq::new(
        vs.len(),
        |i: int|
            if 0 <= i < vs.len() {
                vs[i]@
            } else {
                ValueView::Array(None)
            },
    )
}

impl View for Array {
    type V = Option<Seq<ValueView>>;

    closed spec fn view(&self) -> Option<Seq<ValueView>>
        decreases self,
    {
        if self.is_null {
            None
        } else {
            Some(views(self.values@))
        }
    }
}

impl View for Value {
    type V = ValueView;

    open spec fn view(&self) -> ValueView
        decreases self,
    {
        match self {
            Value::SimpleString(s) => ValueView::SimpleString(s@),
            Value::SimpleError(s) => ValueView::SimpleError(s@),
            Value::Integer(i) => ValueView::Integer(i@),
            Value::BulkString(b) => ValueView::BulkString(b@),
            Value::Array(a) => ValueView::Array(a@),
        }
    }
}

/// Copies the values of `vs`.
fn clone_values(vs: &Vec<Value>) -> (r: Vec<Value>)
    ensures
        views(r@) == views(vs@),
    decreases vs,
{
    let mut out: Vec<Value> = Vec::new();
    let mut i: usize = 0;
    while i < vs.len()
        invariant
            i <= vs@.len(),
            out@.len() == i,
            forall|j: int| 0 <= j < i ==> out@[j]@ == vs@[j]@,
        decreases vs@.len() - i,
    {
        let v = vs[i].clone();
        out.push(v);
        i = i + 1;
    }
    proof {
        assert(views(out@) =~= views(vs@));
    }
    out
}

impl Clone for Array {
    fn clone(&self) -> (r: Self)
        ensures
            r@ == self@,
        decreases self,
    {
        Array { is_null: self.is_null, values: clone_values(&self.values) }
    }
}

impl Clone for Value {
    fn clone(&self) -> (r: Self)
        ensures
            r@ == self@,
        decreases self,
    {
        match self {
            Value::SimpleString(s) => Value::SimpleString(s.clone()),
            Value::SimpleError(s) => Value::SimpleError(s.clone()),
            Value::Integer(i) => Value::Integer(*i),
            Value::BulkString(b) => Value::BulkString(b.clone()),
            Value::Array(a) => Value::Array(a.clone()),
        }
    }
}

impl From<Vec<Value>> for Array {
    fn from(values: Vec<Value>) -> (r: Self)
        ensures
            r@ == Some(views(values@)),
    {
        Array { is_null: false, values }
    }
}

impl FromSpecImpl<Vec<Value>> for Array {
    open spec fn obeys_from_spec() -> bool {
        true
    }

    closed spec fn from_spec(values: Vec<Value>) -> Self {
        Array { is_null: false, values }
    }
}

/// The frames of `values`, one after the other.
fn serialize_values(values: &Vec<Value>) -> (r: Vec<u8>)
    ensures
        r@ == encode_all_spec(views(values@)),
    decreases values,
{
    let mut buf: Vec<u8> = Vec::new();
    let mut i: usize = 0;
    proof {
        assert(views(values@).take(0) =~= Seq::<ValueView>::empty());
        assert(buf@ =~= encode_all_spec(views(values@).take(0)));
    }
    while i < values.len()
        invariant
            i <= values@.len(),
            buf@ == encode_all_spec(views(values@).take(i as int)),
        decreases values@.len() - i,
    {
        let frame = values[i].serialize();
        push_bytes(&mut buf, frame.as_slice());
        proof {
            let all = views(values@);
            assert(all.take(i + 1).drop_last() =~= all.take(i as int));
            assert(all.take(i + 1).last() == values@[i as int]@);
        }
        i = i + 1;
    }
    proof {
        let all = views(values@);
        assert(all.take(values@.len() as int) =~= all);
    }
    buf
}

impl Array {
    /// The values that the array holds; none for the null array.
    pub closed spec fn values_spec(&self) -> Seq<ValueView> {
        views(self.values@)
    }

    /// The null array.
    pub fn null() -> (r: Self)
        ensures
            r@ is None,
            r.values_spec() == Seq::<ValueView>::empty(),
    {
        let r = Self { is_null: true, values: Vec::new() };
        assert(r.values_spec() =~= Seq::<ValueView>::empty());
        r
    }

    /// Tells whether this is the null array.
    pub fn is_null(&self) -> (r: bool)
        ensures
            r == (self@ is None),
    {
        self.is_null
    }

    /// The values. The null array has none.
    pub fn values(&self) -> (r: &[Value])
        ensures
            views(r@) == self.values_spec(),
            self@ matches Some(vs) ==> views(r@) == vs,
    {
        self.values.as_slice()
    }

    /// The frame `*<count>\r\n` and the frames of the values, or `*-1\r\n`
    /// for the null array.
    fn serialize(&self) -> (r: Vec<u8>)
        ensures
            r@ == encode_spec(ValueView::Array(self@)),
        decreases self,
    {
        let mut buf: Vec<u8> = Vec::new();
        buf.push(STAR);
        if self.is_null {
            push_decimal(&mut buf, -1);
            buf.push(CR);
            buf.push(LF);
        } else {
            push_digits(&mut buf, self.values.len() as u128);
            buf.push(CR);
            buf.push(LF);
            let frames = serialize_values(&self.values);
            push_bytes(&mut buf, frames.as_slice());
        }
        assert(buf@ =~= encode_spec(ValueView::Array(self@)));
        buf
    }
}

impl Value {
    /// The simple string that the value is, if it is one.
    pub fn simple_string(&self) -> (r: Option<&SimpleString>)
        ensures
            match self {
                Value::SimpleString(s) => r == Some(s),
                _ => r is None,
            },
    {
        match self {
            Self::SimpleString(s) => Some(s),
            _ => None,
        }
    }

    /// The simple error that the value is, if it is one.
    pub fn simple_error(&self) -> (r: Option<&SimpleError>)
        ensures
            match self {
                Value::SimpleError(s) => r == Some(s),
                _ => r is None,
            },
    {
        match self {
            Self::SimpleError(s) => Some(s),
            _ => None,
        }
    }

    /// The integer that the value is, if it is one.
    pub fn integer(&self) -> (r: Option<&Integer>)
        ensures
            match self {
                Value::Integer(i) => r == Some(i),
                _ => r is None,
            },
    {
        match self {
            Self::Integer(i) => Some(i),
            _ => None,
        }
    }

    /// The bulk string that the value is, if it is one.
    pub fn bulk_string(&self) -> (r: Option<&BulkString>)
        ensures
            match self {
                Value::BulkString(b) => r == Some(b),
                _ => r is None,
            },
    {
        match self {
            Self::BulkString(bs) => Some(bs),
            _ => None,
        }
    }

    /// The array that the value is, if it is one.
    pub fn array(&self) -> (r: Option<&Array>)
        ensures
            match self {
                Value::Array(a) => r == Some(a),
                _ => r is None,
            },
    {
        match self {
            Self::Array(arr) => Some(arr),
            _ => None,
        }
    }

    /// The frame of the value.
    fn serialize(&self) -> (r: Vec<u8>)
        ensures
            r@ == encode_spec(self@),
        decreases self,
    {
        match self {
            Self::SimpleString(x) => x.serialize(),
            Self::SimpleError(x) => x.serialize(),
            Self::Integer(x) => x.serialize(),
            Self::BulkString(x) => x.serialize(),
            Self::Array(x) => x.serialize(),
        }
    }
}

/// The encoder.
pub struct Encoder {}

impl Encoder {
    /// The frame of the value `v`.
    pub fn encode(v: Value) -> (r: Vec<u8>)
        ensures
            r@ == encode_spec(v@),
    {
        v.serialize()
    }

    /// The frame of the simple string with the text `s`.
    pub fn encode_simple_string(s: String) -> (r: Vec<u8>)
        ensures
            r@ == encode_spec(ValueView::SimpleString(s@)),
    {
        SimpleString::from(s).serialize()
    }

    /// The frame of the simple error with the text `s`.
    pub fn encode_simple_error(s: String) -> (r: Vec<u8>)
        ensures
            r@ == encode_spec(ValueView::SimpleError(s@)),
    {
        SimpleError::from(s).serialize()
    }

    /// The frame of the integer `i`.
    pub fn encode_integer(i: i64) -> (r: Vec<u8>)
        ensures
            r@ == encode_spec(ValueView::Integer(i)),
    {
        Integer::from(i).serialize()
    }

    /// The frame of the bulk string that holds `b`.
    pub fn encode_bulk_string(b: &[u8]) -> (r: Vec<u8>)
        ensures
            r@ == encode_spec(ValueView::BulkString(Some(b@))),
    {
        BulkString::from(slice_to_vec(b)).serialize()
    }

    /// The frame of the array that holds `arr`.
    pub fn encode_array(arr: Vec<Value>) -> (r: Vec<u8>)
        ensures
            r@ == encode_spec(ValueView::Array(Some(views(arr@)))),
    {
        Array::from(arr).serialize()
    }
}

/// Why a buffer does not start with a frame.
#[derive(Debug, Clone, Copy, PartialEq, Eq, Structural)]
pub enum DecodeError {
    /// The buffer is empty.
    EmptyBytes,
    /// A line of text is not closed by CR LF, or is not UTF-8.
    InvalidSimpleFormat,
    /// The line of an integer is not closed by CR LF, or is not UTF-8.
    InvalidIntegerFormat,
    /// The length of a bulk string cannot be read, or no CR LF comes after
    /// its length line.
    InvalidBulkFormat,
    /// A bulk string announces `given_len` bytes, and CR LF does not follow
    /// them: `data_len` bytes come before the first CR LF.
    BulkLenMismatch { given_len: usize, data_len: usize },
    /// The count of an array cannot be read.
    InvalidArrayFormat,
    /// An array announces `given_size` values and holds `arr_size`. The
    /// decoder does not return this: an element that is missing fails as an
    /// empty buffer does.
    ArraySizeMismatch { given_size: usize, arr_size: usize },
    /// The first byte names no kind of value.
    UnknownType { first_byte: u8 },
    /// An integer is not a numeral of a signed 64-bit integer.
    ParseInt(IntErrorKind),
    /// A line is not UTF-8. The decoder does not return this: it reports
    /// such a line as an invalid format of its kind.
    FromUTF8,
}

/// The text of a simple string or simple error. Every failure is an invalid
/// simple format.
pub open spec fn simple_spec(s: Seq<u8>) -> Result<(Seq<char>, int), DecodeError> {
    match text_spec(s) {
        Ok(r) => Ok(r),
        Err(_) => Err(DecodeError::InvalidSimpleFormat),
    }
}

/// The integer on the first line. A numeral that cannot be read keeps its
/// reason; every other failure is an invalid integer format.
pub open spec fn integer_spec(s: Seq<u8>) -> Result<(i64, int), DecodeError> {
    match number_spec(s) {
        Ok(r) => Ok(r),
        Err(crate::redis::wire::DecodeError::ParseInt(kind)) => Err(DecodeError::ParseInt(kind)),
        Err(_) => Err(DecodeError::InvalidIntegerFormat),
    }
}

/// The bulk string that `s` starts with. A length that does not match keeps
/// its numbers; every other failure is an invalid bulk format.
pub open spec fn bulk_string_spec(s: Seq<u8>) -> Result<(Option<Seq<u8>>, int), DecodeError> {
    match bulk_spec(s) {
        Ok(r) => Ok(r),
        Err(crate::redis::wire::DecodeError::LenMismatch { given_len, actual_len }) => Err(
            DecodeError::BulkLenMismatch { given_len, data_len: actual_len },
        ),
        Err(_) => Err(DecodeError::InvalidBulkFormat),
    }
}

/// The value that `s` starts with and the number of bytes that its frame
/// takes, or the reason why `s` starts with no frame. A count that cannot be
/// read is an invalid array format; the failure of an element is the
/// failure of the array.
pub open spec fn decode_value_spec(s: Seq<u8>) -> Result<(ValueView, int), DecodeError>
    decreases s.len(), 0nat,
{
    if s.len() == 0 {
        Err(DecodeError::EmptyBytes)
    } else if s[0] == PLUS {
        match simple_spec(s) {
            Ok((text, used)) => Ok((ValueView::SimpleString(text), used)),
            Err(e) => Err(e),
        }
    } else if s[0] == MINUS {
        match simple_spec(s) {
            Ok((text, used)) => Ok((ValueView::SimpleError(text), used)),
            Err(e) => Err(e),
        }
    } else if s[0] == COLON {
        match integer_spec(s) {
            Ok((i, used)) => Ok((ValueView::Integer(i), used)),
            Err(e) => Err(e),
        }
    } else if s[0] == DOLLAR {
        match bulk_string_spec(s) {
            Ok((bytes, used)) => Ok((ValueView::BulkString(bytes), used)),
            Err(e) => Err(e),
        }
    } else if s[0] == STAR {
        match number_spec(s) {
            Err(_) => Err(DecodeError::InvalidArrayFormat),
            Ok((count, used)) => {
                if count < 0 {
                    Ok((ValueView::Array(None), used))
                } else if 0 < used <= s.len() {
                    match decode_values_spec(s.skip(used), count as nat) {
                        Ok((values, more)) => Ok((ValueView::Array(Some(values)), used + more)),
                        Err(e) => Err(e),
                    }
                } else {
                    Err(DecodeError::InvalidArrayFormat)
                }
            },
        }
    } else {
        Err(DecodeError::UnknownType { first_byte: s[0] })
    }
}

/// The `count` values that `s` starts with, frame after frame.
pub open spec fn decode_values_spec(s: Seq<u8>, count: nat) -> Result<
    (Seq<ValueView>, int),
    DecodeError,
>
    decreases s.len(), count + 1,
{
    if count == 0 {
        Ok((Seq::empty(), 0))
    } else {
        match decode_value_spec(s) {
            Err(e) => Err(e),
            Ok((first, used)) => {
                if 0 < used <= s.len() {
                    match decode_values_spec(s.skip(used), (count - 1) as nat) {
                        Ok((rest, more)) => Ok((seq![first] + rest, used + more)),
                        Err(e) => Err(e),
                    }
                } else {
                    Err(DecodeError::InvalidArrayFormat)
                }
            },
        }
    }
}

/// The decoder.
pub struct Decoder {}

impl Decoder {
    /// Reads the value that `bytes` starts with. Bytes after its frame are
    /// left unread.
    pub fn decode(bytes: &[u8]) -> (r: Result<Value, DecodeError>)
        ensures
            match decode_value_spec(bytes@) {
                Ok((v, _)) => r matches Ok(value) && value@ == v,
                Err(e) => r matches Err(x) && x == e,
            },
    {
        match Self::decode_with_len(bytes) {
            Ok((value, _)) => Ok(value),
            Err(e) => Err(e),
        }
    }

    /// Reads the value that `bytes` starts with, and tells how many bytes
    /// its frame takes.
    pub fn decode_with_len(bytes: &[u8]) -> (r: Result<(Value, usize), DecodeError>)
        ensures
            match decode_value_spec(bytes@) {
                Ok((v, used)) => r matches Ok((value, n)) && value@ == v && n == used && 0 < used
                    <= bytes@.len(),
                Err(e) => r matches Err(x) && x == e,
            },
        decreases bytes@.len(), 1nat,
    {
        if bytes.len() == 0 {
            return Err(DecodeError::EmptyBytes);
        }
        let first_byte = bytes[0];
        if first_byte == PLUS {
            match Self::decode_simple_string(bytes) {
                Ok((s, size)) => Ok((Value::SimpleString(s), size)),
                Err(e) => Err(e),
            }
        } else if first_byte == MINUS {
            match Self::decode_simple_error(bytes) {
                Ok((s, size)) => Ok((Value::SimpleError(s), size)),
                Err(e) => Err(e),
            }
        } else if first_byte == COLON {
            match Self::decode_integer(bytes) {
                Ok((i, size)) => Ok((Value::Integer(i), size)),
                Err(e) => Err(e),
            }
        } else if first_byte == DOLLAR {
            match Self::decode_bulk_string(bytes) {
                Ok((bs, size)) => Ok((Value::BulkString(bs), size)),
                Err(e) => Err(e),
            }
        } else if first_byte == STAR {
            match Self::decode_array(bytes) {
                Ok((arr, size)) => Ok((Value::Array(arr), size)),
                Err(e) => Err(e),
            }
        } else {
            Err(DecodeError::UnknownType { first_byte })
        }
    }

    /// Reads a frame of the form `+<text>\r\n`.
    fn decode_simple_string(bytes: &[u8]) -> (r: Result<(SimpleString, usize), DecodeError>)
        requires
            bytes@.len() > 0,
            bytes@[0] != CR,
        ensures
            match simple_spec(bytes@) {
                Ok((text, used)) => r matches Ok((s, n)) && s@ == text && n == used && 0 < used
                    <= bytes@.len(),
                Err(e) => r matches Err(x) && x == e,
            },
    {
        match decode_to_string(bytes) {
            Ok((s, size)) => Ok((SimpleString::from(s), size)),
            Err(_) => Err(DecodeError::InvalidSimpleFormat),
        }
    }

    /// Reads a frame of the form `-<text>\r\n`.
    fn decode_simple_error(bytes: &[u8]) -> (r: Result<(SimpleError, usize), DecodeError>)
        requires
            bytes@.len() > 0,
            bytes@[0] != CR,
        ensures
            match simple_spec(bytes@) {
                Ok((text, used)) => r matches Ok((s, n)) && s@ == text && n == used && 0 < used
                    <= bytes@.len(),
                Err(e) => r matches Err(x) && x == e,
            },
    {
        match decode_to_string(bytes) {
            Ok((s, size)) => Ok((SimpleError::from(s), size)),
            Err(_) => Err(DecodeError::InvalidSimpleFormat),
        }
    }

    /// Reads a frame of the form `:<decimal>\r\n`.
    fn decode_integer(bytes: &[u8]) -> (r: Result<(Integer, usize), DecodeError>)
        requires
            bytes@.len() > 0,
            bytes@[0] != CR,
        ensures
            match integer_spec(bytes@) {
                Ok((v, used)) => r matches Ok((i, n)) && i@ == v && n == used && 0 < used
                    <= bytes@.len(),
                Err(e) => r matches Err(x) && x == e,
            },
    {
        match decode_to_i64(bytes) {
            Ok((i, size)) => Ok((Integer::from(i), size)),
            Err(crate::redis::wire::DecodeError::ParseInt(kind)) => Err(
                DecodeError::ParseInt(kind),
            ),
            Err(_) => Err(DecodeError::InvalidIntegerFormat),
        }
    }

    /// Reads a frame of the form `$<len>\r\n<data>\r\n`.
    fn decode_bulk_string(bytes: &[u8]) -> (r: Result<(BulkString, usize), DecodeError>)
        requires
            bytes@.len() > 0,
            bytes@[0] != CR,
        ensures
            match bulk_string_spec(bytes@) {
                Ok((data, used)) => r matches Ok((b, n)) && b@ == data && n == used && 0 < used
                    <= bytes@.len(),
                Err(e) => r matches Err(x) && x == e,
            },
    {
        let (len, consumed) = match decode_to_i64(bytes) {
            Ok(pair) => pair,
            Err(_) => {
                return Err(DecodeError::InvalidBulkFormat);
            },
        };
        if len < 0 {
            return Ok((BulkString::null(), consumed));
        }
        let rest = slice_subrange(bytes, consumed, bytes.len());
        assert(rest@ =~= bytes@.skip(consumed as int));
        match read_bulk_data(rest, len) {
            Ok((data, taken)) => Ok((BulkString::from(slice_to_vec(data)), consumed + taken)),
            Err(crate::redis::wire::DecodeError::LenMismatch { given_len, actual_len }) => Err(
                DecodeError::BulkLenMismatch { given_len, data_len: actual_len },
            ),
            Err(_) => Err(DecodeError::InvalidBulkFormat),
        }
    }

    /// Reads a frame of the form `*<count>\r\n<frame>...`.
    fn decode_array(bytes: &[u8]) -> (r: Result<(Array, usize), DecodeError>)
        requires
            bytes@.len() > 0,
            bytes@[0] == STAR,
        ensures
            match decode_value_spec(bytes@) {
                Ok((v, used)) => r matches Ok((a, n)) && ValueView::Array(a@) == v && n == used
                    && 0 < used <= bytes@.len(),
                Err(e) => r matches Err(x) && x == e,
            },
        decreases bytes@.len(), 0nat,
    {
        let (count, header) = match decode_to_i64(bytes) {
            Ok(pair) => pair,
            Err(_) => {
                return Err(DecodeError::InvalidArrayFormat);
            },
        };
        if count < 0 {
            return Ok((Array::null(), header));
        }
        let mut values: Vec<Value> = Vec::new();
        let mut consumed: usize = header;
        let mut k: i64 = 0;
        proof {
            assert(views(values@) =~= Seq::<ValueView>::empty());
            match decode_values_spec(bytes@.skip(header as int), count as nat) {
                Ok((rest, more)) => {
                    assert(views(values@) + rest =~= rest);
                },
                Err(_) => {},
            }
        }
        while k < count
            invariant
                0 <= k <= count,
                0 < header <= consumed <= bytes@.len(),
                bytes@[0] == STAR,
                number_spec(bytes@) == Ok::<(i64, int), crate::redis::wire::DecodeError>(
                    (count, header as int),
                ),
                match decode_values_spec(bytes@.skip(consumed as int), (count - k) as nat) {
                    Ok((rest, more)) => decode_values_spec(
                        bytes@.skip(header as int),
                        count as nat,
                    ) == Ok::<(Seq<ValueView>, int), DecodeError>(
                        (views(values@) + rest, consumed - header + more),
                    ),
                    Err(e) => decode_values_spec(bytes@.skip(header as int), count as nat) == Err::<
                        (Seq<ValueView>, int),
                        DecodeError,
                    >(e),
                },
            decreases count - k,
        {
            let rest = slice_subrange(bytes, consumed, bytes.len());
            assert(rest@ =~= bytes@.skip(consumed as int));
            let (value, used) = match Self::decode_with_len(rest) {
                Ok(pair) => pair,
                Err(e) => {
                    return Err(e);
                },
            };
            proof {
                let ghost before = views(values@);
                assert(rest@.skip(used as int) =~= bytes@.skip(consumed + used));
                match decode_values_spec(bytes@.skip(consumed + used), (count - k - 1) as nat) {
                    Ok((tail, more)) => {
                        assert(views(values@.push(value)) + tail =~= before + (seq![value@]
                            + tail));
                    },
                    Err(_) => {},
                }
            }
            values.push(value);
            consumed = consumed + used;
            k = k + 1;
        }
        proof {
            assert(views(values@) + Seq::<ValueView>::empty() =~= views(values@));
        }
        Ok((Array::from(values), consumed))
    }
}

/// What the decoder of [`crate::redis::resp`] reads, this decoder reads
/// too, as the same value of the same length.
pub proof fn lemma_decodes_what_the_codec_decodes(s: Seq<u8>)
    ensures
        decode_spec(s) matches Ok(r) ==> decode_value_spec(s) == Ok::<(ValueView, int), DecodeError>(
            r,
        ),
    decreases s.len(), 0nat,
{
    if s.len() > 0 && s[0] == STAR {
        match number_spec(s) {
            Ok((count, used)) => {
                if count >= 0 && 0 < used <= s.len() {
                    lemma_elements_agree(s.skip(used), count as nat);
                }
            },
            Err(_) => {},
        }
    }
}

/// What the decoder of [`crate::redis::resp`] reads as elements, this
/// decoder reads too.
proof fn lemma_elements_agree(s: Seq<u8>, count: nat)
    ensures
        elements_spec(s, count) matches Ok(r) ==> decode_values_spec(s, count) == Ok::<
            (Seq<ValueView>, int),
            DecodeError,
        >(r),
    decreases s.len(), count + 1,
{
    if count > 0 {
        lemma_decodes_what_the_codec_decodes(s);
        match decode_spec(s) {
            Ok((first, used)) => {
                if 0 < used <= s.len() {
                    lemma_elements_agree(s.skip(used), (count - 1) as nat);
                }
            },
            Err(_) => {},
        }
    }
}

/// Decoding undoes encoding: the bytes of a well-formed value decode to that
/// value, and to all of those bytes.
pub proof fn lemma_decode_encode(v: ValueView)
    requires
        crate::redis::roundtrip::well_formed(v),
    ensures
        decode_value_spec(encode_spec(v)) == Ok::<(ValueView, int), DecodeError>(
            (v, encode_spec(v).len() as int),
        ),
{
    crate::redis::roundtrip::lemma_decode_encode(v);
    lemma_decodes_what_the_codec_decodes(encode_spec(v));
}

} // verus!
