//! Text on the wire: UTF-8 and ASCII case.

use vstd::prelude::*;
use vstd::utf8::{decode_utf8, encode_utf8, valid_utf8};

verus! {

/// The lower-case form of an ASCII letter; every other byte is itself.
pub open spec fn ascii_lower(b: u8) -> u8 {
    if 0x41 <= b <= 0x5a {
        (b + 0x20) as u8
    } else {
        b
    }
}

/// Whether `a` and `b` are the same bytes once ASCII letters are taken in
/// lower case.
pub open spec fn eq_ignore_ascii_case_spec(a: Seq<u8>, b: Seq<u8>) -> bool {
    a.len() == b.len() && forall|i: int| 0 <= i < a.len() ==> ascii_lower(a[i]) == ascii_lower(b[i])
}

/// The bytes of a text whose characters are all ASCII.
pub open spec fn ascii_bytes(text: Seq<char>) -> Seq<u8> {
    Seq::new(text.len(), |i: int| text[i] as u8)
}

/// Whether the bytes `name` spell the ASCII word `word` in any mix of upper
/// and lower case.
pub open spec fn spells(name: Seq<u8>, word: Seq<char>) -> bool {
    eq_ignore_ascii_case_spec(name, ascii_bytes(word))
}

/// Turns one byte into lower case.
pub fn to_ascii_lower(b: u8) -> (r: u8)
    ensures
        r == ascii_lower(b),
{
    if b >= 0x41 && b <= 0x5a {
        b + 0x20
    } else {
        b
    }
}

/// Compares two byte strings without regard to ASCII case.
pub fn eq_ignore_ascii_case(a: &[u8], b: &[u8]) -> (r: bool)
    ensures
        r == eq_ignore_ascii_case_spec(a@, b@),
{
    if a.len() != b.len() {
        return false;
    }
    let mut i: usize = 0;
    while i < a.len()
        invariant
            i <= a@.len(),
            a@.len() == b@.len(),
            forall|j: int| 0 <= j < i ==> ascii_lower(a@[j]) == ascii_lower(b@[j]),
        decreases a@.len() - i,
    {
        if to_ascii_lower(a[i]) != to_ascii_lower(b[i]) {
            return false;
        }
        i = i + 1;
    }
    true
}

/// Tells whether `name` spells the ASCII word `word` in any mix of case.
pub fn is_word(name: &[u8], word: &str) -> (r: bool)
    requires
        word.is_ascii(),
    ensures
        r == spells(name@, word@),
{
    broadcast use vstd::string::is_ascii_spec_bytes;

    let w = word.as_bytes();
    assert(w@ =~= ascii_bytes(word@));
    eq_ignore_ascii_case(name, w)
}

/// Calls `String::from_utf8` on a copy of `bytes`. The contract claims what
/// the standard library documents: the call succeeds exactly on well-formed
/// UTF-8, and the string it returns has the given bytes.
#[verifier::external_body]
pub(crate) fn string_from_utf8(bytes: &[u8]) -> (r: Option<String>)
    ensures
        r is Some <==> valid_utf8(bytes@),
        r matches Some(s) ==> encode_utf8(s@) == bytes@,
{
    String::from_utf8(bytes.to_vec()).ok()
}

/// Reads `bytes` as text, if they are UTF-8.
pub fn utf8_to_string(bytes: &[u8]) -> (r: Option<String>)
    ensures
        r is Some <==> valid_utf8(bytes@),
        r matches Some(s) ==> s@ == decode_utf8(bytes@),
{
    broadcast use vstd::utf8::encode_utf8_decode_utf8;

    let r = string_from_utf8(bytes);
    proof {
        if r is Some {
            assert(decode_utf8(encode_utf8(r->0@)) == r->0@);
        }
    }
    r
}

/// Appends `src` to `out`.
pub fn push_bytes(out: &mut Vec<u8>, src: &[u8])
    ensures
        final(out)@ == old(out)@ + src@,
{
    let mut i: usize = 0;
    while i < src.len()
        invariant
            i <= src@.len(),
            out@ == old(out)@ + src@.take(i as int),
        decreases src@.len() - i,
    {
        out.push(src[i]);
        proof {
            assert(src@.take(i + 1) =~= src@.take(i as int).push(src@[i as int]));
            assert(out@ =~= old(out)@ + src@.take(i + 1));
        }
        i = i + 1;
    }
    proof {
        assert(src@.take(src@.len() as int) =~= src@);
    }
}

/// Bytes below 128 are UTF-8 as they stand, one character for each byte.
pub proof fn lemma_ascii_is_utf8(bytes: Seq<u8>)
    requires
        forall|i: int| 0 <= i < bytes.len() ==> bytes[i] < 128,
    ensures
        valid_utf8(bytes),
        decode_utf8(bytes) == Seq::new(bytes.len(), |i: int| bytes[i] as char),
        encode_utf8(Seq::new(bytes.len(), |i: int| bytes[i] as char)) == bytes,
{
    broadcast use {
        vstd::utf8::is_ascii_chars_encode_utf8,
        vstd::utf8::encode_utf8_valid_utf8,
        vstd::utf8::encode_utf8_decode_utf8,
    };

    let chars = Seq::new(bytes.len(), |i: int| bytes[i] as char);
    assert(vstd::utf8::is_ascii_chars(chars));
    assert(encode_utf8(chars) =~= bytes);
}

/// The bytes of an ASCII text spell a word exactly where the two are equally
/// long and agree, character by character, once letters are taken in lower
/// case.
pub proof fn lemma_spells_ascii(text: Seq<char>, word: Seq<char>)
    requires
        vstd::utf8::is_ascii_chars(text),
    ensures
        spells(encode_utf8(text), word) <==> (text.len() == word.len() && forall|i: int|
            0 <= i < text.len() ==> ascii_lower(#[trigger] text[i] as u8) == ascii_lower(
                word[i] as u8,
            )),
{
    broadcast use vstd::utf8::is_ascii_chars_encode_utf8;

    let bytes = encode_utf8(text);
    if spells(bytes, word) {
        assert forall|i: int| 0 <= i < text.len() implies ascii_lower(#[trigger] text[i] as u8)
            == ascii_lower(word[i] as u8) by {
            assert(bytes[i] == text[i] as u8);
            assert(ascii_bytes(word)[i] == word[i] as u8);
        }
    }
    if text.len() == word.len() && forall|i: int|
        0 <= i < text.len() ==> ascii_lower(#[trigger] text[i] as u8) == ascii_lower(
            word[i] as u8,
        ) {
        assert forall|i: int| 0 <= i < bytes.len() implies ascii_lower(bytes[i]) == ascii_lower(
            ascii_bytes(word)[i],
        ) by {
            assert(bytes[i] == text[i] as u8);
        }
    }
}

} // verus!
