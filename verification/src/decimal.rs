//! Decimal numerals: the text form that integers take on the wire.
//!
//! A numeral is an optional sign followed by ASCII digits. Writing produces
//! the canonical form (no `+`, no leading zeros); reading accepts every
//! numeral whose value fits the target type.

use vstd::prelude::*;

verus! {

/// ASCII `+`.
pub const PLUS_SIGN: u8 = 0x2b;

/// ASCII `-`.
pub const MINUS_SIGN: u8 = 0x2d;

/// ASCII `0`.
pub const DIGIT_ZERO: u8 = 0x30;

/// Why a byte string is not a numeral of the wanted type.
#[derive(Clone, Copy, Debug, PartialEq, Eq, Structural)]
pub enum IntErrorKind {
    /// The string is empty.
    Empty,
    /// A byte is not a digit where a digit is needed, or a sign stands alone.
    InvalidDigit,
    /// The value lies above the largest value of the type.
    PosOverflow,
    /// The value lies below the smallest value of the type.
    NegOverflow,
}

/// Whether `b` is one of the ASCII digits `0` to `9`.
pub open spec fn is_digit(b: u8) -> bool {
    0x30 <= b <= 0x39
}

/// The ASCII digit that stands for `d`.
pub open spec fn digit_of(d: nat) -> u8
    recommends
        d < 10,
{
    (0x30 + d) as u8
}

/// The canonical numeral of `n`: its decimal digits, most significant first.
pub open spec fn nat_to_digits(n: nat) -> Seq<u8>
    decreases n,
{
    if n < 10 {
        seq![digit_of(n)]
    } else {
        nat_to_digits(n / 10).push(digit_of(n % 10))
    }
}

/// The canonical numeral of `i`, with a leading `-` when `i` is negative.
pub open spec fn int_to_decimal(i: int) -> Seq<u8> {
    if i < 0 {
        seq![MINUS_SIGN] + nat_to_digits((-i) as nat)
    } else {
        nat_to_digits(i as nat)
    }
}

/// Reads the digits `d` from left to right into a value between `min` and
/// `max`, counting downwards when `negative`. The first byte that is no digit,
/// or the first digit that takes the value out of range, decides the error.
pub open spec fn accumulate(d: Seq<u8>, negative: bool, min: int, max: int) -> Result<
    int,
    IntErrorKind,
>
    decreases d.len(),
{
    if d.len() == 0 {
        Ok(0)
    } else {
        match accumulate(d.drop_last(), negative, min, max) {
            Err(e) => Err(e),
            Ok(acc) => {
                if !is_digit(d.last()) {
                    Err(IntErrorKind::InvalidDigit)
                } else {
                    let next = if negative {
                        acc * 10 - (d.last() - 0x30)
                    } else {
                        acc * 10 + (d.last() - 0x30)
                    };
                    if next > max {
                        Err(IntErrorKind::PosOverflow)
                    } else if next < min {
                        Err(IntErrorKind::NegOverflow)
                    } else {
                        Ok(next)
                    }
                }
            },
        }
    }
}

/// The value of the numeral `s` in a type that ranges from `min` to `max`.
/// A leading `+` is always accepted, a leading `-` only where `signed`.
pub open spec fn parse_decimal(s: Seq<u8>, signed: bool, min: int, max: int) -> Result<
    int,
    IntErrorKind,
> {
    if s.len() == 0 {
        Err(IntErrorKind::Empty)
    } else if s.len() == 1 && (s[0] == PLUS_SIGN || s[0] == MINUS_SIGN) {
        Err(IntErrorKind::InvalidDigit)
    } else if s[0] == PLUS_SIGN {
        accumulate(s.skip(1), false, min, max)
    } else if signed && s[0] == MINUS_SIGN {
        accumulate(s.skip(1), true, min, max)
    } else {
        accumulate(s, false, min, max)
    }
}

/// The value of `s` as a signed 64-bit integer.
pub open spec fn parse_i64_spec(s: Seq<u8>) -> Result<i64, IntErrorKind> {
    match parse_decimal(s, true, i64::MIN as int, i64::MAX as int) {
        Ok(v) => Ok(v as i64),
        Err(e) => Err(e),
    }
}

/// The value of `s` as an unsigned 64-bit integer.
pub open spec fn parse_u64_spec(s: Seq<u8>) -> Result<u64, IntErrorKind> {
    match parse_decimal(s, false, 0, u64::MAX as int) {
        Ok(v) => Ok(v as u64),
        Err(e) => Err(e),
    }
}

/// The value of `s` as an unsigned 16-bit integer.
pub open spec fn parse_u16_spec(s: Seq<u8>) -> Result<u16, IntErrorKind> {
    match parse_decimal(s, false, 0, u16::MAX as int) {
        Ok(v) => Ok(v as u16),
        Err(e) => Err(e),
    }
}

/// An error met while reading a prefix of the digits is the error of the
/// whole string.
pub proof fn lemma_accumulate_prefix_error(
    d: Seq<u8>,
    k: int,
    negative: bool,
    min: int,
    max: int,
)
    requires
        0 <= k <= d.len(),
        accumulate(d.take(k), negative, min, max) is Err,
    ensures
        accumulate(d, negative, min, max) == accumulate(d.take(k), negative, min, max),
    decreases d.len() - k,
{
    if k == d.len() {
        assert(d.take(k) =~= d);
    } else {
        assert(d.take(k + 1).drop_last() =~= d.take(k));
        lemma_accumulate_prefix_error(d, k + 1, negative, min, max);
    }
}

/// A canonical numeral is a non-empty string of digits.
pub proof fn lemma_nat_to_digits_are_digits(n: nat)
    ensures
        nat_to_digits(n).len() >= 1,
        forall|i: int| 0 <= i < nat_to_digits(n).len() ==> is_digit(#[trigger] nat_to_digits(n)[i]),
    decreases n,
{
    if n >= 10 {
        lemma_nat_to_digits_are_digits(n / 10);
    }
}

/// A canonical numeral has at most as many digits as the number is large,
/// and one for zero.
pub proof fn lemma_nat_to_digits_len(n: nat)
    ensures
        nat_to_digits(n).len() <= n + 1,
    decreases n,
{
    if n >= 10 {
        lemma_nat_to_digits_len(n / 10);
    }
}

/// Reading the canonical numeral of `n` upwards gives `n` back.
pub proof fn lemma_accumulate_nat_to_digits(n: nat, min: int, max: int)
    requires
        min <= 0,
        n <= max,
    ensures
        accumulate(nat_to_digits(n), false, min, max) == Ok::<int, IntErrorKind>(n as int),
    decreases n,
{
    let s = nat_to_digits(n);
    if n < 10 {
        assert(s.drop_last() =~= Seq::<u8>::empty());
        assert(accumulate(s.drop_last(), false, min, max) == Ok::<int, IntErrorKind>(0));
    } else {
        lemma_accumulate_nat_to_digits(n / 10, min, max);
        assert(s.drop_last() =~= nat_to_digits(n / 10));
    }
}

/// Reading the canonical numeral of `n` downwards gives `-n`.
pub proof fn lemma_accumulate_nat_to_digits_negative(n: nat, min: int, max: int)
    requires
        0 <= max,
        min <= -(n as int),
    ensures
        accumulate(nat_to_digits(n), true, min, max) == Ok::<int, IntErrorKind>(-(n as int)),
    decreases n,
{
    let s = nat_to_digits(n);
    if n < 10 {
        assert(s.drop_last() =~= Seq::<u8>::empty());
        assert(accumulate(s.drop_last(), true, min, max) == Ok::<int, IntErrorKind>(0));
    } else {
        lemma_accumulate_nat_to_digits_negative(n / 10, min, max);
        assert(s.drop_last() =~= nat_to_digits(n / 10));
    }
}

/// Reading what was written gives the value back: the canonical numeral of
/// `i` parses to `i` in every type whose range holds `i`.
pub proof fn lemma_parse_int_to_decimal(i: int, signed: bool, min: int, max: int)
    requires
        min <= 0 <= max,
        min <= i <= max,
        i < 0 ==> signed,
    ensures
        parse_decimal(int_to_decimal(i), signed, min, max) == Ok::<int, IntErrorKind>(i),
{
    let s = int_to_decimal(i);
    if i < 0 {
        let digits = nat_to_digits((-i) as nat);
        lemma_nat_to_digits_are_digits((-i) as nat);
        assert(s.skip(1) =~= digits);
        lemma_accumulate_nat_to_digits_negative((-i) as nat, min, max);
    } else {
        lemma_nat_to_digits_are_digits(i as nat);
        assert(is_digit(s[0]));
        lemma_accumulate_nat_to_digits(i as nat, min, max);
    }
}

/// Tells whether a byte is an ASCII digit.
pub fn byte_is_digit(b: u8) -> (r: bool)
    ensures
        r == is_digit(b),
{
    b >= 0x30 && b <= 0x39
}

/// Appends the canonical numeral of `n` to `out`.
pub fn push_digits(out: &mut Vec<u8>, n: u128)
    ensures
        final(out)@ == old(out)@ + nat_to_digits(n as nat),
    decreases n,
{
    if n >= 10 {
        push_digits(out, n / 10);
    }
    let d: u8 = (n % 10) as u8;
    out.push(DIGIT_ZERO + d);
    proof {
        assert(final(out)@ =~= old(out)@ + nat_to_digits(n as nat));
    }
}

/// Appends the canonical numeral of `i` to `out`.
pub fn push_decimal(out: &mut Vec<u8>, i: i64)
    ensures
        final(out)@ == old(out)@ + int_to_decimal(i as int),
{
    if i < 0 {
        out.push(MINUS_SIGN);
        let magnitude: u128 = (-(i as i128)) as u128;
        push_digits(out, magnitude);
        assert(final(out)@ =~= old(out)@ + int_to_decimal(i as int));
    } else {
        push_digits(out, i as u128);
    }
}

/// Reads `s` as a numeral of a type that ranges from `min` to `max`.
fn parse_bounded(s: &[u8], signed: bool, min: i128, max: i128) -> (r: Result<i128, IntErrorKind>)
    requires
        -0x8000_0000_0000_0000 <= min <= 0,
        0 <= max <= 0xffff_ffff_ffff_ffff,
    ensures
        match parse_decimal(s@, signed, min as int, max as int) {
            Ok(v) => r == Ok::<i128, IntErrorKind>(v as i128) && min <= v <= max,
            Err(e) => r == Err::<i128, IntErrorKind>(e),
        },
{
    let n = s.len();
    if n == 0 {
        return Err(IntErrorKind::Empty);
    }
    let first = s[0];
    if n == 1 && (first == PLUS_SIGN || first == MINUS_SIGN) {
        return Err(IntErrorKind::InvalidDigit);
    }
    let negative = signed && first == MINUS_SIGN;
    let start: usize = if first == PLUS_SIGN || negative {
        1
    } else {
        0
    };
    let ghost digits = s@.skip(start as int);
    let mut acc: i128 = 0;
    let mut i: usize = start;
    proof {
        assert(digits.take(0) =~= Seq::<u8>::empty());
        assert(s@.skip(0) =~= s@);
    }
    while i < n
        invariant
            start <= i <= n,
            n == s@.len(),
            digits == s@.skip(start as int),
            parse_decimal(s@, signed, min as int, max as int) == accumulate(
                digits,
                negative,
                min as int,
                max as int,
            ),
            -0x8000_0000_0000_0000 <= min <= 0,
            0 <= max <= 0xffff_ffff_ffff_ffff,
            min <= acc <= max,
            accumulate(digits.take(i - start), negative, min as int, max as int) == Ok::<
                int,
                IntErrorKind,
            >(acc as int),
        decreases n - i,
    {
        let b = s[i];
        proof {
            assert(digits.take(i + 1 - start).drop_last() =~= digits.take(i - start));
            assert(digits.take(i + 1 - start).last() == b);
        }
        if !byte_is_digit(b) {
            proof {
                lemma_accumulate_prefix_error(
                    digits,
                    i + 1 - start,
                    negative,
                    min as int,
                    max as int,
                );
            }
            return Err(IntErrorKind::InvalidDigit);
        }
        let d: i128 = (b - DIGIT_ZERO) as i128;
        let next: i128 = if negative {
            acc * 10 - d
        } else {
            acc * 10 + d
        };
        if next > max {
            proof {
                lemma_accumulate_prefix_error(
                    digits,
                    i + 1 - start,
                    negative,
                    min as int,
                    max as int,
                );
            }
            return Err(IntErrorKind::PosOverflow);
        }
        if next < min {
            proof {
                lemma_accumulate_prefix_error(
                    digits,
                    i + 1 - start,
                    negative,
                    min as int,
                    max as int,
                );
            }
            return Err(IntErrorKind::NegOverflow);
        }
        acc = next;
        i = i + 1;
    }
    proof {
        assert(digits.take(n - start) =~= digits);
    }
    Ok(acc)
}

/// Reads `s` as a signed 64-bit integer.
pub fn parse_i64(s: &[u8]) -> (r: Result<i64, IntErrorKind>)
    ensures
        r == parse_i64_spec(s@),
{
    match parse_bounded(s, true, i64::MIN as i128, i64::MAX as i128) {
        Ok(v) => Ok(v as i64),
        Err(e) => Err(e),
    }
}

/// Reads `s` as an unsigned 64-bit integer.
pub fn parse_u64(s: &[u8]) -> (r: Result<u64, IntErrorKind>)
    ensures
        r == parse_u64_spec(s@),
{
    match parse_bounded(s, false, 0, u64::MAX as i128) {
        Ok(v) => Ok(v as u64),
        Err(e) => Err(e),
    }
}

/// Reads `s` as an unsigned 16-bit integer.
pub fn parse_u16(s: &[u8]) -> (r: Result<u16, IntErrorKind>)
    ensures
        r == parse_u16_spec(s@),
{
    match parse_bounded(s, false, 0, u16::MAX as i128) {
        Ok(v) => Ok(v as u16),
        Err(e) => Err(e),
    }
}

} // verus!
