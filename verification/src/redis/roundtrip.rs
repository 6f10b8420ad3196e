//! Decoding undoes encoding.

use crate::decimal::{
    int_to_decimal, is_digit, lemma_nat_to_digits_are_digits, lemma_parse_int_to_decimal,
    nat_to_digits,
};
use crate::redis::wire::{
    bulk_data_spec, bulk_spec, crlf, decode_spec, elements_spec, encode_all_spec, encode_spec,
    first_crlf, has_crlf, is_crlf_at, lemma_first_crlf_is, number_spec, text_spec, DecodeError,
    ValueView, COLON, CR, DOLLAR, LF, MINUS, PLUS, STAR,
};
use crate::text::lemma_ascii_is_utf8;
use vstd::prelude::*;
use vstd::utf8::{encode_utf8, valid_utf8};

verus! {

/// The values that the wire can carry: text without a CR LF pair inside (a
/// line ends at the first pair), binary strings of any bytes, and lengths
/// and counts that a signed 64-bit integer holds.
pub open spec fn well_formed(v: ValueView) -> bool
    decreases v,
{
    match v {
        ValueView::SimpleString(text) => !has_crlf(encode_utf8(text)),
        ValueView::SimpleError(text) => !has_crlf(encode_utf8(text)),
        ValueView::Integer(_) => true,
        ValueView::BulkString(None) => true,
        ValueView::BulkString(Some(bytes)) => bytes.len() <= i64::MAX,
        ValueView::Array(None) => true,
        ValueView::Array(Some(values)) => values.len() <= i64::MAX && forall|i: int|
            0 <= i < values.len() ==> well_formed(#[trigger] values[i]),
    }
}

/// A byte other than CR before bytes without a CR LF pair makes no pair.
pub proof fn lemma_no_crlf_cons(first: u8, body: Seq<u8>)
    requires
        first != CR,
        !has_crlf(body),
    ensures
        !has_crlf(seq![first] + body),
{
    let s = seq![first] + body;
    assert forall|i: int| !is_crlf_at(s, i) by {
        if is_crlf_at(s, i) {
            if i == 1 {
                assert(s[0] == first);
            } else {
                assert(is_crlf_at(body, i - 1));
            }
        }
    }
}

/// After bytes without a CR LF pair, the first pair is the terminator.
pub proof fn lemma_first_crlf_after(body: Seq<u8>, rest: Seq<u8>)
    requires
        !has_crlf(body),
    ensures
        first_crlf(body + crlf() + rest) == Some((body.len() + 1) as int),
{
    let s = body + crlf() + rest;
    let i = (body.len() + 1) as int;
    assert(s[i - 1] == CR);
    assert(s[i] == LF);
    assert forall|j: int| 1 <= j < i implies !is_crlf_at(s, j) by {
        if j < body.len() {
            if is_crlf_at(s, j) {
                assert(is_crlf_at(body, j));
            }
        }
    }
    lemma_first_crlf_is(s, i);
}

/// A canonical numeral is made of digits and at most a leading `-`: it is
/// ASCII and holds neither CR nor LF.
pub proof fn lemma_decimal_is_plain(i: int)
    ensures
        forall|k: int|
            0 <= k < int_to_decimal(i).len() ==> {
                let b = #[trigger] int_to_decimal(i)[k];
                b < 128 && b != CR && b != LF
            },
        !has_crlf(int_to_decimal(i)),
        valid_utf8(int_to_decimal(i)),
{
    let d = int_to_decimal(i);
    if i < 0 {
        lemma_nat_to_digits_are_digits((-i) as nat);
        let digits = nat_to_digits((-i) as nat);
        assert forall|k: int| 0 <= k < d.len() implies {
            let b = #[trigger] d[k];
            b < 128 && b != CR && b != LF
        } by {
            if k > 0 {
                assert(d[k] == digits[k - 1]);
                assert(is_digit(digits[k - 1]));
            }
        }
    } else {
        lemma_nat_to_digits_are_digits(i as nat);
        assert forall|k: int| 0 <= k < d.len() implies {
            let b = #[trigger] d[k];
            b < 128 && b != CR && b != LF
        } by {
            assert(is_digit(nat_to_digits(i as nat)[k]));
        }
    }
    assert forall|k: int| !is_crlf_at(d, k) by {
        if is_crlf_at(d, k) {
            assert(d[k] != LF);
        }
    }
    lemma_ascii_is_utf8(d);
}

/// A line that holds the canonical numeral of `i` decodes to `i`.
pub proof fn lemma_number_line(tag: u8, i: i64, rest: Seq<u8>)
    requires
        tag != CR,
    ensures
        number_spec(seq![tag] + int_to_decimal(i as int) + crlf() + rest) == Ok::<
            (i64, int),
            DecodeError,
        >((i, (int_to_decimal(i as int).len() + 3) as int)),
{
    let d = int_to_decimal(i as int);
    let s = seq![tag] + d + crlf() + rest;
    lemma_decimal_is_plain(i as int);
    lemma_no_crlf_cons(tag, d);
    lemma_first_crlf_after(seq![tag] + d, rest);
    assert(s.subrange(1, (d.len() + 1) as int) =~= d);
    lemma_parse_int_to_decimal(i as int, true, i64::MIN as int, i64::MAX as int);
}

/// A line that holds the text `text` decodes to it.
pub proof fn lemma_text_line(tag: u8, text: Seq<char>, rest: Seq<u8>)
    requires
        tag != CR,
        !has_crlf(encode_utf8(text)),
    ensures
        text_spec(seq![tag] + encode_utf8(text) + crlf() + rest) == Ok::<
            (Seq<char>, int),
            DecodeError,
        >((text, (encode_utf8(text).len() + 3) as int)),
{
    broadcast use {vstd::utf8::encode_utf8_valid_utf8, vstd::utf8::encode_utf8_decode_utf8};

    let body = encode_utf8(text);
    let s = seq![tag] + body + crlf() + rest;
    lemma_no_crlf_cons(tag, body);
    lemma_first_crlf_after(seq![tag] + body, rest);
    assert(s.subrange(1, (body.len() + 1) as int) =~= body);
}

/// The frames of a sequence are the first frame and then the frames of the
/// others.
pub proof fn lemma_encode_all_first(vs: Seq<ValueView>)
    requires
        vs.len() > 0,
    ensures
        encode_all_spec(vs) == encode_spec(vs[0]) + encode_all_spec(vs.skip(1)),
    decreases vs.len(),
{
    if vs.len() == 1 {
        assert(vs.drop_last() =~= Seq::<ValueView>::empty());
        assert(vs.skip(1) =~= Seq::<ValueView>::empty());
        assert(encode_all_spec(vs.drop_last()) =~= Seq::<u8>::empty());
        assert(encode_all_spec(vs) =~= encode_spec(vs[0]) + encode_all_spec(vs.skip(1)));
    } else {
        lemma_encode_all_first(vs.drop_last());
        assert(vs.drop_last().skip(1) =~= vs.skip(1).drop_last());
        assert(vs.drop_last()[0] == vs[0]);
        assert(vs.skip(1).last() == vs.last());
        assert(encode_all_spec(vs) =~= encode_spec(vs[0]) + encode_all_spec(vs.skip(1)));
    }
}

/// A simple string followed by `rest` decodes to itself.
proof fn lemma_prefix_simple_string(text: Seq<char>, rest: Seq<u8>)
    requires
        well_formed(ValueView::SimpleString(text)),
    ensures
        decode_spec(encode_spec(ValueView::SimpleString(text)) + rest) == Ok::<
            (ValueView, int),
            DecodeError,
        >((ValueView::SimpleString(text), encode_spec(ValueView::SimpleString(text)).len() as int)),
{
    let s = encode_spec(ValueView::SimpleString(text)) + rest;
    lemma_text_line(PLUS, text, rest);
    assert(s =~= seq![PLUS] + encode_utf8(text) + crlf() + rest);
}

/// A simple error followed by `rest` decodes to itself.
proof fn lemma_prefix_simple_error(text: Seq<char>, rest: Seq<u8>)
    requires
        well_formed(ValueView::SimpleError(text)),
    ensures
        decode_spec(encode_spec(ValueView::SimpleError(text)) + rest) == Ok::<
            (ValueView, int),
            DecodeError,
        >((ValueView::SimpleError(text), encode_spec(ValueView::SimpleError(text)).len() as int)),
{
    let s = encode_spec(ValueView::SimpleError(text)) + rest;
    lemma_text_line(MINUS, text, rest);
    assert(s =~= seq![MINUS] + encode_utf8(text) + crlf() + rest);
}

/// An integer followed by `rest` decodes to itself.
proof fn lemma_prefix_integer(i: i64, rest: Seq<u8>)
    ensures
        decode_spec(encode_spec(ValueView::Integer(i)) + rest) == Ok::<
            (ValueView, int),
            DecodeError,
        >((ValueView::Integer(i), encode_spec(ValueView::Integer(i)).len() as int)),
{
    let s = encode_spec(ValueView::Integer(i)) + rest;
    lemma_number_line(COLON, i, rest);
    assert(s =~= seq![COLON] + int_to_decimal(i as int) + crlf() + rest);
}

/// A null string followed by `rest` decodes to itself.
proof fn lemma_prefix_null_bulk(rest: Seq<u8>)
    ensures
        decode_spec(encode_spec(ValueView::BulkString(None)) + rest) == Ok::<
            (ValueView, int),
            DecodeError,
        >((ValueView::BulkString(None), encode_spec(ValueView::BulkString(None)).len() as int)),
{
    let s = encode_spec(ValueView::BulkString(None)) + rest;
    lemma_number_line(DOLLAR, -1i64, rest);
    assert(s =~= seq![DOLLAR] + int_to_decimal(-1) + crlf() + rest);
}

/// A null array followed by `rest` decodes to itself.
proof fn lemma_prefix_null_array(rest: Seq<u8>)
    ensures
        decode_spec(encode_spec(ValueView::Array(None)) + rest) == Ok::<
            (ValueView, int),
            DecodeError,
        >((ValueView::Array(None), encode_spec(ValueView::Array(None)).len() as int)),
{
    let s = encode_spec(ValueView::Array(None)) + rest;
    lemma_number_line(STAR, -1i64, rest);
    assert(s =~= seq![STAR] + int_to_decimal(-1) + crlf() + rest);
}

/// A bulk string followed by `rest` decodes to itself.
proof fn lemma_prefix_bulk(bytes: Seq<u8>, rest: Seq<u8>)
    requires
        well_formed(ValueView::BulkString(Some(bytes))),
    ensures
        decode_spec(encode_spec(ValueView::BulkString(Some(bytes))) + rest) == Ok::<
            (ValueView, int),
            DecodeError,
        >(
            (
                ValueView::BulkString(Some(bytes)),
                encode_spec(ValueView::BulkString(Some(bytes))).len() as int,
            ),
        ),
{
    let s = encode_spec(ValueView::BulkString(Some(bytes))) + rest;
    let len = bytes.len() as i64;
    let tail = bytes + crlf() + rest;
    let head = seq![DOLLAR] + int_to_decimal(len as int) + crlf();
    lemma_number_line(DOLLAR, len, tail);
    assert(s =~= head + tail);
    assert(head + tail =~= seq![DOLLAR] + int_to_decimal(len as int) + crlf() + tail);
    assert(number_spec(s) == Ok::<(i64, int), DecodeError>((len, head.len() as int)));
    assert(s.skip(head.len() as int) =~= tail);
    assert(tail[bytes.len() as int] == CR);
    assert(tail[(bytes.len() + 1) as int] == LF);
    assert(tail.subrange(0, bytes.len() as int) =~= bytes);
    assert(bulk_data_spec(tail, len as int) == Ok::<(Seq<u8>, int), DecodeError>(
        (bytes, (bytes.len() + 2) as int),
    ));
    assert(bulk_spec(s) == Ok::<(Option<Seq<u8>>, int), DecodeError>(
        (Some(bytes), (head.len() + bytes.len() + 2) as int),
    ));
}

/// Decoding undoes encoding, whatever follows the frame: the bytes of a
/// well-formed value, followed by any bytes `rest`, decode to that value, and
/// the frame is reported to take exactly the bytes that encoding wrote.
pub proof fn lemma_decode_encode_prefix(v: ValueView, rest: Seq<u8>)
    requires
        well_formed(v),
    ensures
        decode_spec(encode_spec(v) + rest) == Ok::<(ValueView, int), DecodeError>(
            (v, encode_spec(v).len() as int),
        ),
    decreases v, 0nat,
{
    match v {
        ValueView::SimpleString(text) => {
            lemma_prefix_simple_string(text, rest);
        },
        ValueView::SimpleError(text) => {
            lemma_prefix_simple_error(text, rest);
        },
        ValueView::Integer(i) => {
            lemma_prefix_integer(i, rest);
        },
        ValueView::BulkString(None) => {
            lemma_prefix_null_bulk(rest);
        },
        ValueView::BulkString(Some(bytes)) => {
            lemma_prefix_bulk(bytes, rest);
        },
        ValueView::Array(None) => {
            lemma_prefix_null_array(rest);
        },
        ValueView::Array(Some(values)) => {
            assert(values.skip(0) =~= values);
            lemma_elements_from(values, 0, rest);
            lemma_prefix_array(values, rest);
        },
    }
}

/// An array followed by `rest` decodes to itself, once its elements do.
proof fn lemma_prefix_array(values: Seq<ValueView>, rest: Seq<u8>)
    requires
        values.len() <= i64::MAX,
        elements_spec(encode_all_spec(values) + rest, values.len()) == Ok::<
            (Seq<ValueView>, int),
            DecodeError,
        >((values, encode_all_spec(values).len() as int)),
    ensures
        decode_spec(encode_spec(ValueView::Array(Some(values))) + rest) == Ok::<
            (ValueView, int),
            DecodeError,
        >(
            (
                ValueView::Array(Some(values)),
                encode_spec(ValueView::Array(Some(values))).len() as int,
            ),
        ),
{
    let s = encode_spec(ValueView::Array(Some(values))) + rest;
    let count = values.len() as i64;
    let tail = encode_all_spec(values) + rest;
    let head = seq![STAR] + int_to_decimal(count as int) + crlf();
    lemma_number_line(STAR, count, tail);
    assert(s =~= head + tail);
    assert(head + tail =~= seq![STAR] + int_to_decimal(count as int) + crlf() + tail);
    assert(number_spec(s) == Ok::<(i64, int), DecodeError>((count, head.len() as int)));
    assert(s.skip(head.len() as int) =~= tail);
}

/// The frames of the values of `vs` from index `k` on, followed by any bytes
/// `rest`, decode to those values.
proof fn lemma_elements_from(vs: Seq<ValueView>, k: int, rest: Seq<u8>)
    requires
        0 <= k <= vs.len(),
        forall|i: int| 0 <= i < vs.len() ==> well_formed(#[trigger] vs[i]),
    ensures
        elements_spec(encode_all_spec(vs.skip(k)) + rest, (vs.len() - k) as nat) == Ok::<
            (Seq<ValueView>, int),
            DecodeError,
        >((vs.skip(k), encode_all_spec(vs.skip(k)).len() as int)),
    decreases vs, vs.len() - k,
{
    let these = vs.skip(k);
    if k == vs.len() {
        assert(these =~= Seq::<ValueView>::empty());
        assert(encode_all_spec(these) =~= Seq::<u8>::empty());
    } else {
        let first = encode_spec(vs[k]);
        let others = encode_all_spec(vs.skip(k + 1));
        let s = encode_all_spec(these) + rest;
        lemma_encode_all_first(these);
        assert(these.skip(1) =~= vs.skip(k + 1));
        assert(these[0] == vs[k]);
        assert(s =~= first + (others + rest));
        lemma_decode_encode_prefix(vs[k], others + rest);
        lemma_frame_not_empty(vs[k]);
        assert(s.skip(first.len() as int) =~= others + rest);
        lemma_elements_from(vs, k + 1, rest);
        assert(seq![vs[k]] + vs.skip(k + 1) =~= these);
    }
}

/// A frame that decodes lies within the buffer and is not empty: the tests
/// for this in `decode_spec` and `elements_spec` never fail.
pub proof fn lemma_decode_within_buffer(s: Seq<u8>)
    ensures
        decode_spec(s) matches Ok((_, used)) ==> 0 < used <= s.len(),
    decreases s.len(), 0nat,
{
    if s.len() > 0 {
        if s[0] == PLUS || s[0] == MINUS || s[0] == COLON || s[0] == DOLLAR {
            lemma_line_within_buffer(s);
        } else if s[0] == STAR {
            lemma_line_within_buffer(s);
            match number_spec(s) {
                Ok((count, used)) => {
                    if count >= 0 && 0 < used <= s.len() {
                        lemma_elements_within_buffer(s.skip(used), count as nat);
                    }
                },
                Err(_) => {},
            }
        }
    }
}

/// The first CR LF pair of a buffer ends within it.
pub proof fn lemma_line_within_buffer(s: Seq<u8>)
    ensures
        first_crlf(s) matches Some(i) ==> 1 <= i < s.len(),
{
    if first_crlf(s) is Some {
        let i = first_crlf(s)->0;
        assert(crate::redis::wire::is_first_crlf_at(s, i));
    }
}

/// Elements that decode lie within the buffer.
proof fn lemma_elements_within_buffer(s: Seq<u8>, count: nat)
    ensures
        elements_spec(s, count) matches Ok((_, used)) ==> 0 <= used <= s.len(),
    decreases s.len(), count + 1,
{
    if count > 0 {
        lemma_decode_within_buffer(s);
        match decode_spec(s) {
            Ok((_, used)) => {
                if 0 < used <= s.len() {
                    lemma_elements_within_buffer(s.skip(used), (count - 1) as nat);
                }
            },
            Err(_) => {},
        }
    }
}

/// A frame has at least three bytes.
pub proof fn lemma_frame_not_empty(v: ValueView)
    ensures
        encode_spec(v).len() >= 3,
{
}

/// Decoding undoes encoding: the bytes of a well-formed value decode to that
/// value, null strings and null arrays included, and to all of those bytes.
pub proof fn lemma_decode_encode(v: ValueView)
    requires
        well_formed(v),
    ensures
        decode_spec(encode_spec(v)) == Ok::<(ValueView, int), DecodeError>(
            (v, encode_spec(v).len() as int),
        ),
{
    lemma_decode_encode_prefix(v, Seq::empty());
    assert(encode_spec(v) + Seq::<u8>::empty() =~= encode_spec(v));
}

} // verus!
