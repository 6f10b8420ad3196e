//! Values as the program holds them, and their codec.
//!
//! Each type has a view: what the value is as mathematics. Contracts speak of
//! views only. [`Value::encode`] and [`Value::decode`] are proved against the
//! grammar of [`crate::redis::wire`].

use crate::decimal::{parse_i64, push_decimal, push_digits};
pub use crate::redis::wire::DecodeError;
use crate::redis::wire::{
    bulk_data_spec, bulk_spec, decode_spec, elements_spec, encode_all_spec, encode_spec,
    elements_incomplete_spec, first_crlf, incomplete_spec, is_crlf_at, is_first_crlf_at, lemma_first_crlf_is, lemma_first_crlf_none,
    number_spec, text_spec, ValueView, COLON, CR, DOLLAR, LF, MINUS, PLUS, STAR,
};
use crate::text::{push_bytes, utf8_to_string};
use vstd::prelude::*;
use vstd::slice::slice_subrange;
use vstd::std_specs::cmp::PartialEqSpecImpl;
use vstd::std_specs::convert::FromSpecImpl;
use vstd::string::StrSliceExecFns;
use vstd::utf8::{decode_utf8, encode_utf8, valid_utf8};

verus! {

/// The first byte of a frame, which names the kind of value.
#[derive(Debug, Clone, Copy, PartialEq, Eq, Structural)]
pub enum Token {
    /// `*`: an array.
    Star,
    /// `$`: a bulk string.
    Dollar,
    /// `+`: a simple string.
    Plus,
    /// `-`: a simple error.
    Minus,
    /// `:`: an integer.
    Colon,
}

impl Token {
    /// The byte that stands for the token on the wire.
    pub open spec fn byte_spec(self) -> u8 {
        match self {
            Token::Star => STAR,
            Token::Dollar => DOLLAR,
            Token::Plus => PLUS,
            Token::Minus => MINUS,
            Token::Colon => COLON,
        }
    }

    /// The token that the byte `b` stands for, if any.
    pub open spec fn of_byte_spec(b: u8) -> Option<Token> {
        if b == STAR {
            Some(Token::Star)
        } else if b == DOLLAR {
            Some(Token::Dollar)
        } else if b == PLUS {
            Some(Token::Plus)
        } else if b == MINUS {
            Some(Token::Minus)
        } else if b == COLON {
            Some(Token::Colon)
        } else {
            None
        }
    }

    /// The token that the character `c` stands for, if any.
    pub open spec fn of_char_spec(c: char) -> Option<Token> {
        if c == '*' {
            Some(Token::Star)
        } else if c == '$' {
            Some(Token::Dollar)
        } else if c == '+' {
            Some(Token::Plus)
        } else if c == '-' {
            Some(Token::Minus)
        } else if c == ':' {
            Some(Token::Colon)
        } else {
            None
        }
    }

    /// The token that the character `c` stands for, if any.
    pub fn from(c: char) -> (r: Option<Self>)
        ensures
            r == Self::of_char_spec(c),
    {
        if c == '*' {
            Some(Token::Star)
        } else if c == '$' {
            Some(Token::Dollar)
        } else if c == '+' {
            Some(Token::Plus)
        } else if c == '-' {
            Some(Token::Minus)
        } else if c == ':' {
            Some(Token::Colon)
        } else {
            None
        }
    }

    /// The token that the byte `b` stands for, if any.
    pub fn from_byte(b: u8) -> (r: Option<Self>)
        ensures
            r == Self::of_byte_spec(b),
    {
        if b == STAR {
            Some(Token::Star)
        } else if b == DOLLAR {
            Some(Token::Dollar)
        } else if b == PLUS {
            Some(Token::Plus)
        } else if b == MINUS {
            Some(Token::Minus)
        } else if b == COLON {
            Some(Token::Colon)
        } else {
            None
        }
    }

    /// The character that stands for the token on the wire.
    pub fn as_char(&self) -> (r: char)
        ensures
            Self::of_char_spec(r) == Some(*self),
    {
        match self {
            Token::Star => '*',
            Token::Dollar => '$',
            Token::Plus => '+',
            Token::Minus => '-',
            Token::Colon => ':',
        }
    }

    /// The byte that stands for the token on the wire.
    pub fn as_byte(&self) -> (r: u8)
        ensures
            r == self.byte_spec(),
            Self::of_byte_spec(r) == Some(*self),
    {
        match self {
            Token::Star => STAR,
            Token::Dollar => DOLLAR,
            Token::Plus => PLUS,
            Token::Minus => MINUS,
            Token::Colon => COLON,
        }
    }
}

/// A line of text.
#[derive(Debug)]
pub struct SimpleString {
    s: String,
}

impl View for SimpleString {
    type V = Seq<char>;

    closed spec fn view(&self) -> Seq<char> {
        self.s@
    }
}

impl Clone for SimpleString {
    fn clone(&self) -> (r: Self)
        ensures
            r@ == self@,
    {
        SimpleString { s: self.s.clone() }
    }
}

impl PartialEq for SimpleString {
    fn eq(&self, other: &Self) -> (r: bool) {
        self.s == other.s
    }
}

impl Eq for SimpleString {

}

impl PartialEqSpecImpl for SimpleString {
    open spec fn obeys_eq_spec() -> bool {
        true
    }

    open spec fn eq_spec(&self, other: &Self) -> bool {
        self@ == other@
    }
}

impl From<String> for SimpleString {
    fn from(value: String) -> (r: Self)
        ensures
            r@ == value@,
    {
        SimpleString { s: value }
    }
}

impl FromSpecImpl<String> for SimpleString {
    open spec fn obeys_from_spec() -> bool {
        true
    }

    closed spec fn from_spec(value: String) -> Self {
        SimpleString { s: value }
    }
}

impl From<&str> for SimpleString {
    fn from(value: &str) -> (r: Self)
        ensures
            r@ == value@,
    {
        Self::new(value.to_owned())
    }
}

/// The string that this conversion allocates is fixed by its characters only,
/// so the promise stands in `ensures` and not here.
impl FromSpecImpl<&str> for SimpleString {
    open spec fn obeys_from_spec() -> bool {
        false
    }

    open spec fn from_spec(value: &str) -> Self {
        arbitrary()
    }
}

impl SimpleString {
    /// A simple string with the text `s`.
    pub fn new(s: String) -> (r: Self)
        ensures
            r@ == s@,
    {
        Self { s }
    }

    /// The text.
    pub fn as_str(&self) -> (r: &str)
        ensures
            r@ == self@,
    {
        self.s.as_str()
    }
}

/// A line of text that reports an error.
#[derive(Debug)]
pub struct SimpleError {
    s: String,
}

impl View for SimpleError {
    type V = Seq<char>;

    closed spec fn view(&self) -> Seq<char> {
        self.s@
    }
}

impl Clone for SimpleError {
    fn clone(&self) -> (r: Self)
        ensures
            r@ == self@,
    {
        SimpleError { s: self.s.clone() }
    }
}

impl PartialEq for SimpleError {
    fn eq(&self, other: &Self) -> (r: bool) {
        self.s == other.s
    }
}

impl Eq for SimpleError {

}

impl PartialEqSpecImpl for SimpleError {
    open spec fn obeys_eq_spec() -> bool {
        true
    }

    open spec fn eq_spec(&self, other: &Self) -> bool {
        self@ == other@
    }
}

impl From<String> for SimpleError {
    fn from(value: String) -> (r: Self)
        ensures
            r@ == value@,
    {
        SimpleError { s: value }
    }
}

impl FromSpecImpl<String> for SimpleError {
    open spec fn obeys_from_spec() -> bool {
        true
    }

    closed spec fn from_spec(value: String) -> Self {
        SimpleError { s: value }
    }
}

impl From<&str> for SimpleError {
    fn from(value: &str) -> (r: Self)
        ensures
            r@ == value@,
    {
        Self::new(value.to_owned())
    }
}

/// The string that this conversion allocates is fixed by its characters only,
/// so the promise stands in `ensures` and not here.
impl FromSpecImpl<&str> for SimpleError {
    open spec fn obeys_from_spec() -> bool {
        false
    }

    open spec fn from_spec(value: &str) -> Self {
        arbitrary()
    }
}

impl SimpleError {
    /// A simple error with the text `s`.
    pub fn new(s: String) -> (r: Self)
        ensures
            r@ == s@,
    {
        Self { s }
    }

    /// The text.
    pub fn as_str(&self) -> (r: &str)
        ensures
            r@ == self@,
    {
        self.s.as_str()
    }
}

/// A signed 64-bit integer.
#[derive(Debug, Clone, Copy, PartialEq, Eq, Structural)]
pub struct Integer {
    i: i64,
}

impl View for Integer {
    type V = i64;

    closed spec fn view(&self) -> i64 {
        self.i
    }
}

impl From<i64> for Integer {
    fn from(value: i64) -> (r: Self)
        ensures
            r@ == value,
    {
        Integer { i: value }
    }
}

impl FromSpecImpl<i64> for Integer {
    open spec fn obeys_from_spec() -> bool {
        true
    }

    closed spec fn from_spec(value: i64) -> Self {
        Integer { i: value }
    }
}

impl Integer {
    /// The integer `i` as a value.
    pub fn new(i: i64) -> (r: Self)
        ensures
            r@ == i,
    {
        Self { i }
    }

    /// The integer.
    pub fn as_int(&self) -> (r: i64)
        ensures
            r == self@,
    {
        self.i
    }
}

/// A binary string, or the null string.
#[derive(Debug)]
pub struct BulkString {
    bytes: Option<Vec<u8>>,
}

impl View for BulkString {
    type V = Option<Seq<u8>>;

    closed spec fn view(&self) -> Option<Seq<u8>> {
        match self.bytes {
            Some(b) => Some(b@),
            None => None,
        }
    }
}

impl Clone for BulkString {
    fn clone(&self) -> (r: Self)
        ensures
            r@ == self@,
    {
        match &self.bytes {
            Some(b) => BulkString { bytes: Some(b.clone()) },
            None => BulkString { bytes: None },
        }
    }
}

impl PartialEq for BulkString {
    fn eq(&self, other: &Self) -> (r: bool) {
        match (&self.bytes, &other.bytes) {
            (Some(a), Some(b)) => {
                let same = a == b;
                proof {
                    assert(same == (a@ =~= b@));
                }
                same
            },
            (None, None) => true,
            _ => false,
        }
    }
}

impl Eq for BulkString {

}

impl PartialEqSpecImpl for BulkString {
    open spec fn obeys_eq_spec() -> bool {
        true
    }

    open spec fn eq_spec(&self, other: &Self) -> bool {
        self@ == other@
    }
}

impl From<Vec<u8>> for BulkString {
    fn from(bytes: Vec<u8>) -> (r: Self)
        ensures
            r@ == Some(bytes@),
    {
        BulkString { bytes: Some(bytes) }
    }
}

impl FromSpecImpl<Vec<u8>> for BulkString {
    open spec fn obeys_from_spec() -> bool {
        true
    }

    closed spec fn from_spec(bytes: Vec<u8>) -> Self {
        BulkString { bytes: Some(bytes) }
    }
}

impl From<&str> for BulkString {
    fn from(s: &str) -> (r: Self)
        ensures
            r@ == Some(encode_utf8(s@)),
    {
        Self::new(s.as_bytes_vec())
    }
}

/// The vector that this conversion allocates is fixed by its contents only,
/// so the promise stands in `ensures` and not here.
impl FromSpecImpl<&str> for BulkString {
    open spec fn obeys_from_spec() -> bool {
        false
    }

    open spec fn from_spec(s: &str) -> Self {
        arbitrary()
    }
}

impl From<String> for BulkString {
    fn from(s: String) -> (r: Self)
        ensures
            r@ == Some(encode_utf8(s@)),
    {
        Self::new(s.as_str().as_bytes_vec())
    }
}

/// The vector that this conversion allocates is fixed by its contents only,
/// so the promise stands in `ensures` and not here.
impl FromSpecImpl<String> for BulkString {
    open spec fn obeys_from_spec() -> bool {
        false
    }

    open spec fn from_spec(s: String) -> Self {
        arbitrary()
    }
}

impl BulkString {
    /// The string that holds `bytes`.
    pub fn new(bytes: Vec<u8>) -> (r: Self)
        ensures
            r@ == Some(bytes@),
    {
        Self { bytes: Some(bytes) }
    }

    /// The null string.
    pub fn null() -> (r: Self)
        ensures
            r@ is None,
    {
        Self { bytes: None }
    }

    /// The bytes, or `None` for the null string.
    pub fn as_bytes(&self) -> (r: Option<&[u8]>)
        ensures
            match self@ {
                Some(b) => r matches Some(slice) && slice@ == b,
                None => r is None,
            },
    {
        match &self.bytes {
            Some(b) => Some(b.as_slice()),
            None => None,
        }
    }

    /// The bytes as text, where they are UTF-8. `None` for the null string
    /// and for bytes that are no text.
    pub fn as_str(&self) -> (r: Option<String>)
        ensures
            match self@ {
                Some(b) => (r is Some <==> valid_utf8(b)) && (r matches Some(s) ==> s@
                    == decode_utf8(b)),
                None => r is None,
            },
    {
        match &self.bytes {
            Some(b) => utf8_to_string(b.as_slice()),
            None => None,
        }
    }
}

/// A sequence of values, or the null array.
#[derive(Debug)]
pub struct Array {
    values: Option<Vec<Value>>,
}

/// A value of the protocol.
#[derive(Debug)]
pub enum Value {
    SimpleString(SimpleString),
    SimpleError(SimpleError),
    Integer(Integer),
    BulkString(BulkString),
    Array(Array),
}

/// The views of the values `vs`, in order.
pub open spec fn views(vs: Seq<Value>) -> Seq<ValueView>
    decreases vs,
{
    Seq::new(
        vs.len(),
        |i: int|
            if 0 <= i < vs.len() {
                vs[i]@
            } else {
                ValueView::Array(None)
            },
    )
}

impl View for Array {
    type V = Option<Seq<ValueView>>;

    closed spec fn view(&self) -> Option<Seq<ValueView>>
        decreases self,
    {
        match self.values {
            Some(v) => Some(views(v@)),
            None => None,
        }
    }
}

impl View for Value {
    type V = ValueView;

    open spec fn view(&self) -> ValueView
        decreases self,
    {
        match self {
            Value::SimpleString(s) => ValueView::SimpleString(s@),
            Value::SimpleError(s) => ValueView::SimpleError(s@),
            Value::Integer(i) => ValueView::Integer(i@),
            Value::BulkString(b) => ValueView::BulkString(b@),
            Value::Array(a) => ValueView::Array(a@),
        }
    }
}

/// Copies the values of `vs`.
fn clone_values(vs: &Vec<Value>) -> (r: Vec<Value>)
    ensures
        views(r@) == views(vs@),
    decreases vs,
{
    let mut out: Vec<Value> = Vec::new();
    let mut i: usize = 0;
    while i < vs.len()
        invariant
            i <= vs@.len(),
            out@.len() == i,
            forall|j: int| 0 <= j < i ==> out@[j]@ == vs@[j]@,
        decreases vs@.len() - i,
    {
        let v = vs[i].clone();
        out.push(v);
        i = i + 1;
    }
    proof {
        assert(views(out@) =~= views(vs@));
    }
    out
}

impl Clone for Array {
    fn clone(&self) -> (r: Self)
        ensures
            r@ == self@,
        decreases self,
    {
        match &self.values {
            Some(v) => Array { values: Some(clone_values(v)) },
            None => Array { values: None },
        }
    }
}

impl Clone for Value {
    fn clone(&self) -> (r: Self)
        ensures
            r@ == self@,
        decreases self,
    {
        match self {
            Value::SimpleString(s) => Value::SimpleString(s.clone()),
            Value::SimpleError(s) => Value::SimpleError(s.clone()),
            Value::Integer(i) => Value::Integer(*i),
            Value::BulkString(b) => Value::BulkString(b.clone()),
            Value::Array(a) => Value::Array(a.clone()),
        }
    }
}

/// Tells whether `a` and `b` hold the same values in the same order.
fn same_values(a: &Vec<Value>, b: &Vec<Value>) -> (r: bool)
    ensures
        r == (views(a@) == views(b@)),
    decreases a,
{
    if a.len() != b.len() {
        proof {
            assert(views(a@).len() != views(b@).len());
        }
        return false;
    }
    let mut i: usize = 0;
    while i < a.len()
        invariant
            i <= a@.len(),
            a@.len() == b@.len(),
            forall|j: int| 0 <= j < i ==> a@[j]@ == b@[j]@,
        decreases a@.len() - i,
    {
        if !a[i].same(&b[i]) {
            proof {
                assert(views(a@)[i as int] == a@[i as int]@);
                assert(views(b@)[i as int] == b@[i as int]@);
            }
            return false;
        }
        i = i + 1;
    }
    proof {
        assert(views(a@) =~= views(b@));
    }
    true
}

impl Array {
    /// The array that holds `values`.
    pub fn new(values: Vec<Value>) -> (r: Self)
        ensures
            r@ == Some(views(values@)),
    {
        Self { values: Some(values) }
    }

    /// The null array.
    pub fn null() -> (r: Self)
        ensures
            r@ is None,
    {
        Self { values: None }
    }

    /// The values, or `None` for the null array.
    pub fn values(&self) -> (r: Option<&[Value]>)
        ensures
            match self@ {
                Some(vs) => r matches Some(slice) && views(slice@) == vs,
                None => r is None,
            },
    {
        match &self.values {
            Some(values) => Some(values.as_slice()),
            None => None,
        }
    }

    /// Tells whether `self` and `other` are the same array.
    fn same(&self, other: &Array) -> (r: bool)
        ensures
            r == (self@ == other@),
        decreases self,
    {
        match (&self.values, &other.values) {
            (Some(a), Some(b)) => same_values(a, b),
            (None, None) => true,
            _ => false,
        }
    }
}

impl PartialEq for Array {
    fn eq(&self, other: &Self) -> (r: bool) {
        self.same(other)
    }
}

impl Eq for Array {

}

impl PartialEqSpecImpl for Array {
    open spec fn obeys_eq_spec() -> bool {
        true
    }

    open spec fn eq_spec(&self, other: &Self) -> bool {
        self@ == other@
    }
}

impl From<Vec<Value>> for Array {
    fn from(values: Vec<Value>) -> (r: Self)
        ensures
            r@ == Some(views(values@)),
    {
        Array { values: Some(values) }
    }
}

impl FromSpecImpl<Vec<Value>> for Array {
    open spec fn obeys_from_spec() -> bool {
        true
    }

    closed spec fn from_spec(values: Vec<Value>) -> Self {
        Array { values: Some(values) }
    }
}

impl PartialEq for Value {
    fn eq(&self, other: &Self) -> (r: bool) {
        self.same(other)
    }
}

impl Eq for Value {

}

impl PartialEqSpecImpl for Value {
    open spec fn obeys_eq_spec() -> bool {
        true
    }

    open spec fn eq_spec(&self, other: &Self) -> bool {
        self@ == other@
    }
}

impl Value {
    /// Tells whether `self` and `other` are the same value.
    fn same(&self, other: &Value) -> (r: bool)
        ensures
            r == (self@ == other@),
        decreases self,
    {
        match (self, other) {
            (Value::SimpleString(a), Value::SimpleString(b)) => a == b,
            (Value::SimpleError(a), Value::SimpleError(b)) => a == b,
            (Value::Integer(a), Value::Integer(b)) => a.as_int() == b.as_int(),
            (Value::BulkString(a), Value::BulkString(b)) => a == b,
            (Value::Array(a), Value::Array(b)) => a.same(b),
            _ => false,
        }
    }

    /// The simple string that the value is, if it is one.
    pub fn simple_string(&self) -> (r: Option<&SimpleString>)
        ensures
            match self {
                Value::SimpleString(s) => r == Some(s),
                _ => r is None,
            },
    {
        match self {
            Self::SimpleString(s) => Some(s),
            _ => None,
        }
    }

    /// The simple error that the value is, if it is one.
    pub fn simple_error(&self) -> (r: Option<&SimpleError>)
        ensures
            match self {
                Value::SimpleError(s) => r == Some(s),
                _ => r is None,
            },
    {
        match self {
            Self::SimpleError(s) => Some(s),
            _ => None,
        }
    }

    /// The integer that the value is, if it is one.
    pub fn integer(&self) -> (r: Option<&Integer>)
        ensures
            match self {
                Value::Integer(i) => r == Some(i),
                _ => r is None,
            },
    {
        match self {
            Self::Integer(i) => Some(i),
            _ => None,
        }
    }

    /// The bulk string that the value is, if it is one.
    pub fn bulk_string(&self) -> (r: Option<&BulkString>)
        ensures
            match self {
                Value::BulkString(b) => r == Some(b),
                _ => r is None,
            },
    {
        match self {
            Self::BulkString(bs) => Some(bs),
            _ => None,
        }
    }

    /// The array that the value is, if it is one.
    pub fn array(&self) -> (r: Option<&Array>)
        ensures
            match self {
                Value::Array(a) => r == Some(a),
                _ => r is None,
            },
    {
        match self {
            Self::Array(arr) => Some(arr),
            _ => None,
        }
    }
}

/// Appends the frames of `values`, one after the other.
fn encode_values(values: &Vec<Value>, buf: &mut Vec<u8>)
    ensures
        final(buf)@ == old(buf)@ + encode_all_spec(views(values@)),
    decreases values,
{
    let mut i: usize = 0;
    proof {
        assert(views(values@).take(0) =~= Seq::<ValueView>::empty());
        assert(buf@ =~= old(buf)@ + encode_all_spec(views(values@).take(0)));
    }
    while i < values.len()
        invariant
            i <= values@.len(),
            buf@ == old(buf)@ + encode_all_spec(views(values@).take(i as int)),
        decreases values@.len() - i,
    {
        let ghost before = buf@;
        values[i].encode(buf);
        proof {
            let all = views(values@);
            assert(all.take(i + 1).drop_last() =~= all.take(i as int));
            assert(all.take(i + 1).last() == values@[i as int]@);
            assert(buf@ =~= old(buf)@ + encode_all_spec(all.take(i + 1)));
        }
        i = i + 1;
    }
    proof {
        let all = views(values@);
        assert(all.take(values@.len() as int) =~= all);
    }
}

/// Splits `buffer` at its first CR LF pair: the bytes before the pair, and the
/// number of bytes up to the end of the pair. `None` where there is no pair.
pub fn read_until_crlf(buffer: &[u8]) -> (r: Option<(&[u8], usize)>)
    ensures
        match first_crlf(buffer@) {
            Some(i) => r matches Some((line, used)) && line@ == buffer@.subrange(0, i - 1) && used
                == i + 1,
            None => r is None,
        },
{
    let mut i: usize = 1;
    while i < buffer.len()
        invariant
            1 <= i,
            forall|j: int| 1 <= j < i ==> !is_crlf_at(buffer@, j),
        decreases buffer@.len() - i,
    {
        if buffer[i - 1] == CR && buffer[i] == LF {
            proof {
                lemma_first_crlf_is(buffer@, i as int);
            }
            return Some((slice_subrange(buffer, 0, i - 1), i + 1));
        }
        i = i + 1;
    }
    proof {
        lemma_first_crlf_none(buffer@);
    }
    None
}

/// Reads the line that `bytes` starts with, after its first byte, as text.
pub(crate) fn decode_to_string(bytes: &[u8]) -> (r: Result<(String, usize), DecodeError>)
    requires
        bytes@.len() > 0,
        bytes@[0] != CR,
    ensures
        match text_spec(bytes@) {
            Ok((text, used)) => r matches Ok((s, n)) && s@ == text && n == used && 0 < used
                <= bytes@.len(),
            Err(e) => r matches Err(x) && x == e,
        },
{
    match read_until_crlf(bytes) {
        Some((line, size)) => {
            proof {
                let i = first_crlf(bytes@)->0;
                assert(is_first_crlf_at(bytes@, i));
                assert(i >= 2);
                assert(line@.subrange(1, line@.len() as int) =~= bytes@.subrange(1, i - 1));
            }
            let body = slice_subrange(line, 1, line.len());
            match utf8_to_string(body) {
                Some(s) => Ok((s, size)),
                None => Err(DecodeError::FromUtf8),
            }
        },
        None => Err(DecodeError::InvalidFormat),
    }
}

/// Reads the line that `bytes` starts with, after its first byte, as an
/// integer.
pub(crate) fn decode_to_i64(bytes: &[u8]) -> (r: Result<(i64, usize), DecodeError>)
    requires
        bytes@.len() > 0,
        bytes@[0] != CR,
    ensures
        match number_spec(bytes@) {
            Ok((v, used)) => r matches Ok((x, n)) && x == v && n == used && 0 < used
                <= bytes@.len(),
            Err(e) => r matches Err(x) && x == e,
        },
{
    match read_until_crlf(bytes) {
        Some((line, size)) => {
            proof {
                let i = first_crlf(bytes@)->0;
                assert(is_first_crlf_at(bytes@, i));
                assert(i >= 2);
                assert(line@.subrange(1, line@.len() as int) =~= bytes@.subrange(1, i - 1));
            }
            let body = slice_subrange(line, 1, line.len());
            match utf8_to_string(body) {
                Some(_) => match parse_i64(body) {
                    Ok(v) => Ok((v, size)),
                    Err(kind) => Err(DecodeError::ParseInt(kind)),
                },
                None => Err(DecodeError::FromUtf8),
            }
        },
        None => Err(DecodeError::InvalidFormat),
    }
}

/// Reads the data of a bulk string of `len` bytes at the start of `rest`, and
/// tells how many bytes the data takes with its terminator.
pub(crate) fn read_bulk_data(rest: &[u8], len: i64) -> (r: Result<(&[u8], usize), DecodeError>)
    requires
        len >= 0,
    ensures
        match bulk_data_spec(rest@, len as int) {
            Ok((data, taken)) => r matches Ok((d, n)) && d@ == data && n == taken && 0 < taken
                <= rest@.len(),
            Err(e) => r matches Err(x) && x == e,
        },
{
    let available = rest.len();
    if available >= 2 && len as u64 <= (available - 2) as u64 {
        let n = len as usize;
        if rest[n] == CR && rest[n + 1] == LF {
            return Ok((slice_subrange(rest, 0, n), n + 2));
        }
    }
    let given_len: usize = if len as u64 <= usize::MAX as u64 {
        len as usize
    } else {
        usize::MAX
    };
    match read_until_crlf(rest) {
        Some((data, _)) => Err(DecodeError::LenMismatch { given_len, actual_len: data.len() }),
        None => Err(DecodeError::InvalidFormat),
    }
}

impl SimpleString {
    /// Appends the frame `+<text>\r\n`.
    fn encode(&self, buf: &mut Vec<u8>)
        ensures
            final(buf)@ == old(buf)@ + encode_spec(ValueView::SimpleString(self@)),
    {
        buf.push(PLUS);
        push_bytes(buf, self.s.as_str().as_bytes());
        buf.push(CR);
        buf.push(LF);
        proof {
            assert(final(buf)@ =~= old(buf)@ + encode_spec(ValueView::SimpleString(self@)));
        }
    }
}

impl SimpleError {
    /// Appends the frame `-<text>\r\n`.
    fn encode(&self, buf: &mut Vec<u8>)
        ensures
            final(buf)@ == old(buf)@ + encode_spec(ValueView::SimpleError(self@)),
    {
        buf.push(MINUS);
        push_bytes(buf, self.s.as_str().as_bytes());
        buf.push(CR);
        buf.push(LF);
        proof {
            assert(final(buf)@ =~= old(buf)@ + encode_spec(ValueView::SimpleError(self@)));
        }
    }
}

impl Integer {
    /// Appends the frame `:<decimal>\r\n`.
    fn encode(&self, buf: &mut Vec<u8>)
        ensures
            final(buf)@ == old(buf)@ + encode_spec(ValueView::Integer(self@)),
    {
        buf.push(COLON);
        push_decimal(buf, self.i);
        buf.push(CR);
        buf.push(LF);
        proof {
            assert(final(buf)@ =~= old(buf)@ + encode_spec(ValueView::Integer(self@)));
        }
    }
}

impl BulkString {
    /// Appends the frame `$<len>\r\n<bytes>\r\n`, or `$-1\r\n` for the null
    /// string.
    fn encode(&self, buf: &mut Vec<u8>)
        ensures
            final(buf)@ == old(buf)@ + encode_spec(ValueView::BulkString(self@)),
    {
        buf.push(DOLLAR);
        match &self.bytes {
            None => {
                push_decimal(buf, -1);
                buf.push(CR);
                buf.push(LF);
            },
            Some(bytes) => {
                push_digits(buf, bytes.len() as u128);
                buf.push(CR);
                buf.push(LF);
                push_bytes(buf, bytes.as_slice());
                buf.push(CR);
                buf.push(LF);
            },
        }
        proof {
            assert(final(buf)@ =~= old(buf)@ + encode_spec(ValueView::BulkString(self@)));
        }
    }

    /// Reads the bulk string that `buf` starts with.
    fn decode(buf: &[u8]) -> (r: Result<(Self, usize), DecodeError>)
        requires
            buf@.len() > 0,
            buf@[0] != CR,
        ensures
            match bulk_spec(buf@) {
                Ok((bytes, used)) => r matches Ok((b, n)) && b@ == bytes && n == used && 0 < used
                    <= buf@.len(),
                Err(e) => r matches Err(x) && x == e,
            },
    {
        let (len, consumed) = match decode_to_i64(buf) {
            Ok(pair) => pair,
            Err(e) => {
                return Err(e);
            },
        };
        if len < 0 {
            return Ok((BulkString::null(), consumed));
        }
        let rest = slice_subrange(buf, consumed, buf.len());
        assert(rest@ =~= buf@.skip(consumed as int));
        match read_bulk_data(rest, len) {
            Ok((data, taken)) => Ok(
                (BulkString::new(vstd::slice::slice_to_vec(data)), consumed + taken),
            ),
            Err(e) => Err(e),
        }
    }
}

impl Array {
    /// Appends the frame `*<count>\r\n` and the frames of the values, or
    /// `*-1\r\n` for the null array.
    fn encode(&self, buf: &mut Vec<u8>)
        ensures
            final(buf)@ == old(buf)@ + encode_spec(ValueView::Array(self@)),
        decreases self,
    {
        buf.push(STAR);
        match &self.values {
            None => {
                push_decimal(buf, -1);
                buf.push(CR);
                buf.push(LF);
                proof {
                    assert(buf@ =~= old(buf)@ + encode_spec(ValueView::Array(self@)));
                }
            },
            Some(values) => {
                push_digits(buf, values.len() as u128);
                buf.push(CR);
                buf.push(LF);
                encode_values(values, buf);
                proof {
                    assert(buf@ =~= old(buf)@ + encode_spec(ValueView::Array(self@)));
                }
            },
        }
    }

    /// Reads the array that `buf` starts with.
    fn decode(buf: &[u8]) -> (r: Result<(Self, usize), DecodeError>)
        requires
            buf@.len() > 0,
            buf@[0] == STAR,
        ensures
            match decode_spec(buf@) {
                Ok((v, used)) => r matches Ok((a, n)) && ValueView::Array(a@) == v && n == used
                    && 0 < used <= buf@.len(),
                Err(e) => r matches Err(x) && x == e,
            },
        decreases buf@.len(), 0nat,
    {
        let (count, header) = match decode_to_i64(buf) {
            Ok(pair) => pair,
            Err(e) => {
                return Err(e);
            },
        };
        if count < 0 {
            return Ok((Array::null(), header));
        }
        let mut values: Vec<Value> = Vec::new();
        let mut consumed: usize = header;
        let mut k: i64 = 0;
        proof {
            assert(views(values@) =~= Seq::<ValueView>::empty());
            match elements_spec(buf@.skip(header as int), count as nat) {
                Ok((rest, more)) => {
                    assert(views(values@) + rest =~= rest);
                },
                Err(_) => {},
            }
        }
        while k < count
            invariant
                0 <= k <= count,
                0 < header <= consumed <= buf@.len(),
                buf@[0] == STAR,
                number_spec(buf@) == Ok::<(i64, int), DecodeError>((count, header as int)),
                match elements_spec(buf@.skip(consumed as int), (count - k) as nat) {
                    Ok((rest, more)) => elements_spec(buf@.skip(header as int), count as nat)
                        == Ok::<(Seq<ValueView>, int), DecodeError>(
                        (views(values@) + rest, consumed - header + more),
                    ),
                    Err(e) => elements_spec(buf@.skip(header as int), count as nat) == Err::<
                        (Seq<ValueView>, int),
                        DecodeError,
                    >(e),
                },
            decreases count - k,
        {
            let rest = slice_subrange(buf, consumed, buf.len());
            assert(rest@ =~= buf@.skip(consumed as int));
            let (value, used) = match Value::decode_with_len(rest) {
                Ok(pair) => pair,
                Err(e) => {
                    return Err(e);
                },
            };
            proof {
                let ghost before = views(values@);
                assert(rest@.skip(used as int) =~= buf@.skip(consumed + used));
                match elements_spec(buf@.skip(consumed + used), (count - k - 1) as nat) {
                    Ok((tail, more)) => {
                        assert(views(values@.push(value)) + tail =~= before + (seq![value@]
                            + tail));
                    },
                    Err(_) => {},
                }
            }
            values.push(value);
            consumed = consumed + used;
            k = k + 1;
        }
        proof {
            assert(views(values@) + Seq::<ValueView>::empty() =~= views(values@));
        }
        Ok((Array::new(values), consumed))
    }
}

impl Value {
    /// Appends the frame of the value to `buf`.
    pub fn encode(&self, buf: &mut Vec<u8>)
        ensures
            final(buf)@ == old(buf)@ + encode_spec(self@),
        decreases self,
    {
        match self {
            Value::SimpleString(s) => s.encode(buf),
            Value::SimpleError(s) => s.encode(buf),
            Value::Integer(i) => i.encode(buf),
            Value::BulkString(b) => b.encode(buf),
            Value::Array(a) => a.encode(buf),
        }
    }

    /// Reads the value that `buf` starts with. Bytes after its frame are left
    /// unread.
    pub fn decode(buf: &[u8]) -> (r: Result<Self, DecodeError>)
        ensures
            match decode_spec(buf@) {
                Ok((v, _)) => r matches Ok(value) && value@ == v,
                Err(e) => r matches Err(x) && x == e,
            },
    {
        match Self::decode_with_len(buf) {
            Ok((value, _)) => Ok(value),
            Err(e) => Err(e),
        }
    }

    /// Tells whether `buf` is the beginning of a frame of which more is to
    /// come, so that it is worth waiting for more bytes before decoding.
    pub fn is_incomplete(buf: &[u8]) -> (r: bool)
        ensures
            r == incomplete_spec(buf@),
        decreases buf@.len(), 2nat,
    {
        if buf.len() == 0 {
            return true;
        }
        let first_byte = buf[0];
        if first_byte == PLUS || first_byte == MINUS || first_byte == COLON {
            return read_until_crlf(buf).is_none();
        }
        if first_byte != DOLLAR && first_byte != STAR {
            return false;
        }
        if read_until_crlf(buf).is_none() {
            return true;
        }
        let (number, header) = match decode_to_i64(buf) {
            Ok(pair) => pair,
            Err(_) => {
                return false;
            },
        };
        if number < 0 {
            return false;
        }
        if first_byte == DOLLAR {
            let available: u64 = (buf.len() - header) as u64;
            let wanted: u64 = number as u64;
            return available < 2 || available - 2 < wanted;
        }
        let mut consumed: usize = header;
        let mut k: i64 = 0;
        while k < number
            invariant
                0 <= k <= number,
                0 < header <= consumed <= buf@.len(),
                incomplete_spec(buf@) == elements_incomplete_spec(
                    buf@.skip(header as int),
                    number as nat,
                ),
                elements_incomplete_spec(buf@.skip(header as int), number as nat)
                    == elements_incomplete_spec(
                    buf@.skip(consumed as int),
                    (number - k) as nat,
                ),
            decreases number - k,
        {
            let rest = slice_subrange(buf, consumed, buf.len());
            assert(rest@ =~= buf@.skip(consumed as int));
            if Self::is_incomplete(rest) {
                return true;
            }
            let used = match Self::decode_with_len(rest) {
                Ok((_, used)) => used,
                Err(_) => {
                    return false;
                },
            };
            assert(rest@.skip(used as int) =~= buf@.skip(consumed + used));
            consumed = consumed + used;
            k = k + 1;
        }
        false
    }

    /// Reads the value that `buf` starts with, and tells how many bytes its
    /// frame takes.
    pub fn decode_with_len(buf: &[u8]) -> (r: Result<(Self, usize), DecodeError>)
        ensures
            match decode_spec(buf@) {
                Ok((v, used)) => r matches Ok((value, n)) && value@ == v && n == used && 0 < used
                    <= buf@.len(),
                Err(e) => r matches Err(x) && x == e,
            },
        decreases buf@.len(), 1nat,
    {
        if buf.len() == 0 {
            return Err(DecodeError::EmptyBytes);
        }
        let first_byte = buf[0];
        match Token::from_byte(first_byte) {
            Some(Token::Plus) => {
                match decode_to_string(buf) {
                    Ok((s, size)) => Ok((Value::SimpleString(SimpleString::new(s)), size)),
                    Err(e) => Err(e),
                }
            },
            Some(Token::Minus) => {
                match decode_to_string(buf) {
                    Ok((s, size)) => Ok((Value::SimpleError(SimpleError::new(s)), size)),
                    Err(e) => Err(e),
                }
            },
            Some(Token::Colon) => {
                match decode_to_i64(buf) {
                    Ok((i, size)) => Ok((Value::Integer(Integer::new(i)), size)),
                    Err(e) => Err(e),
                }
            },
            Some(Token::Dollar) => {
                match BulkString::decode(buf) {
                    Ok((bs, size)) => Ok((Value::BulkString(bs), size)),
                    Err(e) => Err(e),
                }
            },
            Some(Token::Star) => {
                match Array::decode(buf) {
                    Ok((arr, size)) => Ok((Value::Array(arr), size)),
                    Err(e) => Err(e),
                }
            },
            None => Err(DecodeError::UnknownType { first_byte }),
        }
    }
}

} // verus!
