//! Frames that come in pieces: a whole frame is never taken for the
//! beginning of one, and the beginning of a frame is never taken for
//! anything else.

use crate::decimal::int_to_decimal;
use crate::redis::roundtrip::{
    lemma_decimal_is_plain, lemma_decode_encode_prefix, lemma_encode_all_first,
    lemma_first_crlf_after, lemma_frame_not_empty, lemma_line_within_buffer, lemma_no_crlf_cons,
    lemma_number_line, well_formed,
};
use crate::redis::wire::{
    crlf, decode_spec, elements_incomplete_spec, elements_spec, encode_all_spec, encode_spec,
    first_crlf, has_crlf, incomplete_spec, is_crlf_at, is_first_crlf_at, lemma_first_crlf_is,
    lemma_first_crlf_none, number_spec, ValueView, COLON, CR, DOLLAR, LF, MINUS, PLUS, STAR,
};
use vstd::prelude::*;
use vstd::utf8::encode_utf8;

verus! {

/// A buffer that starts with a whole frame is not the beginning of one: it
/// is decoded at once, whatever follows the frame.
pub proof fn lemma_whole_is_not_incomplete(s: Seq<u8>)
    ensures
        decode_spec(s) is Ok ==> !incomplete_spec(s),
    decreases s.len(), 0nat,
{
    if decode_spec(s) is Ok {
        lemma_line_within_buffer(s);
        if s[0] == STAR {
            match number_spec(s) {
                Ok((count, used)) => {
                    if count >= 0 {
                        lemma_elements_whole(s.skip(used), count as nat);
                    }
                },
                Err(_) => {},
            }
        }
    }
}

/// A buffer that starts with `count` whole frames is not the beginning of
/// as many.
proof fn lemma_elements_whole(s: Seq<u8>, count: nat)
    ensures
        elements_spec(s, count) is Ok ==> !elements_incomplete_spec(s, count),
    decreases s.len(), count + 1,
{
    if count > 0 && elements_spec(s, count) is Ok {
        lemma_whole_is_not_incomplete(s);
        match decode_spec(s) {
            Ok((_, used)) => {
                lemma_elements_whole(s.skip(used), (count - 1) as nat);
            },
            Err(_) => {},
        }
    }
}

/// What comes before the end of the first CR LF pair holds no pair.
proof fn lemma_prefix_before_crlf(s: Seq<u8>, i: int, k: int)
    requires
        is_first_crlf_at(s, i),
        0 <= k <= i,
    ensures
        first_crlf(s.take(k)) is None,
{
    let p = s.take(k);
    assert forall|j: int| !is_crlf_at(p, j) by {
        if is_crlf_at(p, j) {
            assert(is_crlf_at(s, j));
        }
    }
    lemma_first_crlf_none(p);
}

/// What reaches beyond the first CR LF pair has the same first line.
proof fn lemma_prefix_after_crlf(s: Seq<u8>, i: int, k: int)
    requires
        is_first_crlf_at(s, i),
        2 <= i < k <= s.len(),
    ensures
        first_crlf(s.take(k)) == Some(i),
        number_spec(s.take(k)) == number_spec(s),
{
    let p = s.take(k);
    assert(is_crlf_at(p, i));
    assert forall|j: int| 1 <= j < i implies !is_crlf_at(p, j) by {
        if is_crlf_at(p, j) {
            assert(is_crlf_at(s, j));
        }
    }
    lemma_first_crlf_is(p, i);
    lemma_first_crlf_is(s, i);
    assert(p.subrange(1, i - 1) =~= s.subrange(1, i - 1));
}

/// A frame's first line ends where its numeral or text ends.
proof fn lemma_first_line(tag: u8, body: Seq<u8>, rest: Seq<u8>)
    requires
        tag != CR,
        !has_crlf(body),
    ensures
        is_first_crlf_at(seq![tag] + body + crlf() + rest, (body.len() + 2) as int),
{
    lemma_no_crlf_cons(tag, body);
    lemma_first_crlf_after(seq![tag] + body, rest);
    let s = seq![tag] + body + crlf() + rest;
    assert(first_crlf(s) == Some((body.len() + 2) as int));
}

/// The beginning of a frame that is one line is the beginning of a frame.
proof fn lemma_line_prefix(tag: u8, body: Seq<u8>, k: int)
    requires
        tag == PLUS || tag == MINUS || tag == COLON || tag == DOLLAR || tag == STAR,
        !has_crlf(body),
        0 <= k < body.len() + 3,
    ensures
        incomplete_spec((seq![tag] + body + crlf()).take(k)),
{
    let s = seq![tag] + body + crlf();
    lemma_first_line(tag, body, Seq::empty());
    assert(s + Seq::<u8>::empty() =~= s);
    lemma_prefix_before_crlf(s, (body.len() + 2) as int, k);
    if k > 0 {
        assert(s.take(k)[0] == tag);
    }
}

/// The beginning of a frame is the beginning of a frame: whatever proper
/// part of the bytes of a well-formed value has arrived, the value is
/// waited for and not refused. So a frame that is split over several reads
/// is put together again.
pub proof fn lemma_prefix_is_incomplete(v: ValueView, k: int)
    requires
        well_formed(v),
        0 <= k < encode_spec(v).len(),
    ensures
        incomplete_spec(encode_spec(v).take(k)),
    decreases v, 0nat,
{
    let s = encode_spec(v);
    match v {
        ValueView::SimpleString(text) => {
            lemma_line_prefix(PLUS, encode_utf8(text), k);
        },
        ValueView::SimpleError(text) => {
            lemma_line_prefix(MINUS, encode_utf8(text), k);
        },
        ValueView::Integer(i) => {
            lemma_decimal_is_plain(i as int);
            lemma_line_prefix(COLON, int_to_decimal(i as int), k);
        },
        ValueView::BulkString(None) => {
            lemma_decimal_is_plain(-1);
            lemma_line_prefix(DOLLAR, int_to_decimal(-1), k);
        },
        ValueView::Array(None) => {
            lemma_decimal_is_plain(-1);
            lemma_line_prefix(STAR, int_to_decimal(-1), k);
        },
        ValueView::BulkString(Some(bytes)) => {
            let len = bytes.len() as i64;
            let d = int_to_decimal(len as int);
            let tail = bytes + crlf();
            lemma_decimal_is_plain(len as int);
            lemma_first_line(DOLLAR, d, tail);
            lemma_number_line(DOLLAR, len, tail);
            let whole = seq![DOLLAR] + d + crlf() + tail;
            assert(s =~= whole);
            let i = (d.len() + 2) as int;
            if k <= i {
                lemma_prefix_before_crlf(s, i, k);
                if k > 0 {
                    assert(s.take(k)[0] == DOLLAR);
                }
            } else {
                lemma_prefix_after_crlf(s, i, k);
                assert(s.take(k)[0] == DOLLAR);
            }
        },
        ValueView::Array(Some(values)) => {
            let count = values.len() as i64;
            let d = int_to_decimal(count as int);
            let tail = encode_all_spec(values);
            lemma_decimal_is_plain(count as int);
            lemma_first_line(STAR, d, tail);
            lemma_number_line(STAR, count, tail);
            let whole = seq![STAR] + d + crlf() + tail;
            assert(s =~= whole);
            let i = (d.len() + 2) as int;
            if k <= i {
                lemma_prefix_before_crlf(s, i, k);
                if k > 0 {
                    assert(s.take(k)[0] == STAR);
                }
            } else {
                lemma_prefix_after_crlf(s, i, k);
                assert(s.take(k)[0] == STAR);
                assert(values.skip(0) =~= values);
                assert(s.take(k).skip(i + 1) =~= tail.take(k - i - 1));
                lemma_elements_prefix(values, 0, k - i - 1);
            }
        },
    }
}

/// The beginning of the frames of the values of `vs` from index `i` on is
/// the beginning of as many frames.
proof fn lemma_elements_prefix(vs: Seq<ValueView>, i: int, m: int)
    requires
        0 <= i <= vs.len(),
        forall|j: int| 0 <= j < vs.len() ==> well_formed(#[trigger] vs[j]),
        0 <= m < encode_all_spec(vs.skip(i)).len(),
    ensures
        elements_incomplete_spec(encode_all_spec(vs.skip(i)).take(m), (vs.len() - i) as nat),
    decreases vs, vs.len() - i,
{
    let these = vs.skip(i);
    if i == vs.len() {
        assert(these =~= Seq::<ValueView>::empty());
        assert(encode_all_spec(these) =~= Seq::<u8>::empty());
    } else {
        let first = encode_spec(vs[i]);
        let others = encode_all_spec(vs.skip(i + 1));
        let all = encode_all_spec(these);
        lemma_encode_all_first(these);
        assert(these.skip(1) =~= vs.skip(i + 1));
        assert(these[0] == vs[i]);
        assert(all == first + others);
        let part = all.take(m);
        if m < first.len() {
            assert(part =~= first.take(m));
            lemma_prefix_is_incomplete(vs[i], m);
        } else {
            let more = m - first.len();
            assert(part =~= first + others.take(more));
            lemma_decode_encode_prefix(vs[i], others.take(more));
            lemma_whole_is_not_incomplete(part);
            lemma_frame_not_empty(vs[i]);
            assert(part.skip(first.len() as int) =~= others.take(more));
            lemma_elements_prefix(vs, i + 1, more);
        }
    }
}

} // verus!
