//! Token amounts: 256-bit signed integers as they stand in a log payload,
//! read as fixed-point numbers.

use bigdecimal::BigDecimal;
use num_bigint::BigInt;
use num_traits::Signed;
use vstd::prelude::*;
use vstd::string::*;

verus! {

/// The integer that big-endian bytes hold in two's complement: the first
/// byte carries the sign, and each further byte shifts by eight bits.
pub open spec fn signed_be_value(bytes: Seq<u8>) -> int
    decreases bytes.len(),
{
    if bytes.len() == 0 {
        0
    } else if bytes.len() == 1 {
        if bytes[0] >= 128 {
            bytes[0] - 256
        } else {
            bytes[0] as int
        }
    } else {
        256 * signed_be_value(bytes.drop_last()) + bytes.last()
    }
}

/// The text that `bigdecimal` writes, in plain notation, for the
/// two's-complement big-endian integer `unscaled` read with `scale`
/// fractional digits.
pub uninterp spec fn plain_decimal_text(unscaled: Seq<u8>, scale: u8) -> Seq<char>;

/// `text` without the run of `c` at its end.
pub open spec fn without_trailing(text: Seq<char>, c: char) -> Seq<char>
    decreases text.len(),
{
    if text.len() > 0 && text.last() == c {
        without_trailing(text.drop_last(), c)
    } else {
        text
    }
}

/// A decimal numeral without the zeros at the end of its fraction, and
/// without the point where no fraction is left. A numeral without a point
/// stays as it is.
pub open spec fn trimmed_fraction(text: Seq<char>) -> Seq<char> {
    if text.contains('.') {
        let digits = without_trailing(text, '0');
        if digits.len() > 0 && digits.last() == '.' {
            digits.drop_last()
        } else {
            digits
        }
    } else {
        text
    }
}

/// An amount as text: the integer in `unscaled` read with `scale` fractional
/// digits, written exactly, with no digit more than the value needs.
pub open spec fn fixed_point_text(unscaled: Seq<u8>, scale: u8) -> Seq<char> {
    trimmed_fraction(plain_decimal_text(unscaled, scale))
}

/// A run of zeros.
pub open spec fn zeros(count: nat) -> Seq<char> {
    Seq::new(count, |i: int| '0')
}

proof fn lemma_trailing_zeros_are_cut(prefix: Seq<char>, count: nat)
    ensures
        without_trailing(prefix + zeros(count), '0') == without_trailing(prefix, '0'),
    decreases count,
{
    if count > 0 {
        assert((prefix + zeros(count)).drop_last() =~= prefix + zeros((count - 1) as nat));
        lemma_trailing_zeros_are_cut(prefix, (count - 1) as nat);
    } else {
        assert(prefix + zeros(count) =~= prefix);
    }
}

/// A numeral whose fraction holds zeros only is written as its whole part
/// alone, whose own zeros stay.
pub proof fn lemma_zero_fraction_is_dropped(whole: Seq<char>, count: nat)
    requires
        !whole.contains('.'),
    ensures
        trimmed_fraction(whole + seq!['.'] + zeros(count)) == whole,
{
    let pointed = whole + seq!['.'];
    let text = pointed + zeros(count);
    assert(text[whole.len() as int] == '.');
    lemma_trailing_zeros_are_cut(pointed, count);
    assert(pointed.last() == '.');
    assert(pointed.drop_last() =~= whole);
}

/// A numeral that ends in a digit other than zero is written as it is.
pub proof fn lemma_significant_fraction_is_kept(text: Seq<char>)
    requires
        text.len() > 0,
        text.last() != '0',
        text.last() != '.',
    ensures
        trimmed_fraction(text) == text,
{
}

/// `Signed::is_positive` of `BigInt::from_signed_bytes_be(bytes)`: whether the
/// two's-complement big-endian integer in `bytes` is greater than zero.
#[verifier::external_body]
pub(crate) fn signed_be_is_positive(bytes: &[u8]) -> (positive: bool)
    ensures
        positive == (signed_be_value(bytes@) > 0),
{
    BigInt::from_signed_bytes_be(bytes).is_positive()
}

/// `BigDecimal::to_plain_string` of the decimal that `BigDecimal::new` makes
/// of `BigInt::from_signed_bytes_be(unscaled)` and `scale`. The text is a
/// function of the bytes and the scale alone; the contract gives it its name
/// and claims nothing else of it.
#[verifier::external_body]
pub(crate) fn plain_decimal_string(unscaled: &[u8], scale: u8) -> (text: String)
    ensures
        text@ == plain_decimal_text(unscaled@, scale),
{
    BigDecimal::new(BigInt::from_signed_bytes_be(unscaled), i64::from(scale)).to_plain_string()
}

/// Drops the zeros at the end of a numeral's fraction, and the point where
/// no fraction is left.
pub fn trim_fraction(text: &str) -> (trimmed: String)
    ensures
        trimmed@ == trimmed_fraction(text@),
{
    let len: usize = text.unicode_len();
    let mut has_point = false;
    let mut i: usize = 0;
    while i < len
        invariant
            len == text@.len(),
            i <= len,
            has_point ==> text@.contains('.'),
            !has_point ==> forall|j: int| 0 <= j < i ==> text@[j] != '.',
        decreases len - i,
    {
        if text.get_char(i) == '.' {
            has_point = true;
        }
        i += 1;
    }
    if !has_point {
        return String::from_str(text);
    }
    let mut end: usize = len;
    let mut in_zeros = true;
    assert(text@.take(len as int) =~= text@);
    while in_zeros && end > 0
        invariant
            len == text@.len(),
            end <= len,
            without_trailing(text@, '0') == without_trailing(text@.take(end as int), '0'),
            !in_zeros ==> end > 0 && text@[end - 1] != '0',
        decreases end + if in_zeros { 1nat } else { 0nat },
    {
        if text.get_char(end - 1) == '0' {
            assert(text@.take(end as int).drop_last() =~= text@.take(end - 1));
            end -= 1;
        } else {
            in_zeros = false;
        }
    }
    assert(without_trailing(text@, '0') == text@.take(end as int));
    if end > 0 && text.get_char(end - 1) == '.' {
        assert(text@.take(end as int).drop_last() =~= text@.take(end - 1));
        end -= 1;
    }
    assert(text@.subrange(0, end as int) =~= text@.take(end as int));
    String::from_str(text.substring_char(0, end))
}

/// Writes the amount that `unscaled` holds, read with `scale` fractional
/// digits.
pub fn fixed_point_string(unscaled: &[u8], scale: u8) -> (text: String)
    ensures
        text@ == fixed_point_text(unscaled@, scale),
{
    let plain = plain_decimal_string(unscaled, scale);
    trim_fraction(plain.as_str())
}

} // verus!
