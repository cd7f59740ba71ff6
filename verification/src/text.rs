//! ASCII text of numbers, for the textual forms of the library's values.

use vstd::prelude::*;

verus! {

/// Whether every byte of `text` is an ASCII code.
pub open spec fn is_ascii_text(text: Seq<u8>) -> bool {
    forall|i: int| 0 <= i < text.len() ==> #[trigger] text[i] < 128
}

/// The characters of an ASCII `text`.
pub open spec fn ascii_chars(text: Seq<u8>) -> Seq<char> {
    text.map_values(|byte: u8| byte as char)
}

/// ASCII code of the upper-case hexadecimal digit for `digit`, where `0 <= digit < 16`.
pub open spec fn hex_digit(digit: int) -> u8 {
    if digit < 10 {
        (48 + digit) as u8
    } else {
        (55 + digit) as u8
    }
}

/// The upper-case hexadecimal digits of `value` without leading zeroes
/// (zero is written as one digit).
pub open spec fn hex_digits(value: nat) -> Seq<u8>
    decreases value,
{
    if value < 16 {
        seq![hex_digit(value as int)]
    } else {
        hex_digits(value / 16).push(hex_digit((value % 16) as int))
    }
}

/// The decimal digits of `value` without leading zeroes (zero is written as one digit).
pub open spec fn decimal_digits(value: nat) -> Seq<u8>
    decreases value,
{
    if value < 10 {
        seq![(48 + value) as u8]
    } else {
        decimal_digits(value / 10).push((48 + value % 10) as u8)
    }
}

/// The ASCII code of the upper-case hexadecimal digit for `digit`.
pub(crate) fn hex_digit_code(digit: u64) -> (r: u8)
    requires
        digit < 16,
    ensures
        r == hex_digit(digit as int),
{
    if digit < 10 {
        48 + digit as u8
    } else {
        55 + digit as u8
    }
}

/// Appends to `text` the hexadecimal digits of `value` without leading zeroes.
pub(crate) fn push_hex_digits(text: &mut Vec<u8>, value: u64)
    ensures
        final(text)@ == old(text)@ + hex_digits(value as nat),
    decreases value,
{
    if value < 16 {
        text.push(hex_digit_code(value));
        assert(final(text)@ =~= old(text)@ + hex_digits(value as nat));
    } else {
        push_hex_digits(text, value / 16);
        text.push(hex_digit_code(value % 16));
        assert(hex_digits(value as nat) == hex_digits((value / 16) as nat).push(
            hex_digit((value % 16) as int),
        ));
        assert(final(text)@ =~= old(text)@ + hex_digits(value as nat));
    }
}

/// Appends to `text` the decimal digits of `value` without leading zeroes.
pub(crate) fn push_decimal_digits(text: &mut Vec<u8>, value: u64)
    ensures
        final(text)@ == old(text)@ + decimal_digits(value as nat),
    decreases value,
{
    if value < 10 {
        text.push(48 + value as u8);
        assert(final(text)@ =~= old(text)@ + decimal_digits(value as nat));
    } else {
        push_decimal_digits(text, value / 10);
        text.push(48 + (value % 10) as u8);
        assert(decimal_digits(value as nat) == decimal_digits((value / 10) as nat).push(
            (48 + value % 10) as u8,
        ));
        assert(final(text)@ =~= old(text)@ + decimal_digits(value as nat));
    }
}

/// Appends to `text` the ASCII codes of `more`.
pub(crate) fn push_bytes(text: &mut Vec<u8>, more: &Vec<u8>)
    ensures
        final(text)@ == old(text)@ + more@,
{
    let mut index: usize = 0;
    while index < more.len()
        invariant
            index <= more.len(),
            text@ == old(text)@ + more@.subrange(0, index as int),
        decreases more.len() - index,
    {
        text.push(more[index]);
        index = index + 1;
        assert(text@ =~= old(text)@ + more@.subrange(0, index as int));
    }
    assert(more@.subrange(0, more.len() as int) =~= more@);
}

/// Hexadecimal digits are ASCII codes.
pub proof fn lemma_hex_digits_ascii(value: nat)
    ensures
        is_ascii_text(hex_digits(value)),
    decreases value,
{
    if value >= 16 {
        lemma_hex_digits_ascii(value / 16);
    }
}

/// Decimal digits are ASCII codes.
pub proof fn lemma_decimal_digits_ascii(value: nat)
    ensures
        is_ascii_text(decimal_digits(value)),
    decreases value,
{
    if value >= 10 {
        lemma_decimal_digits_ascii(value / 10);
    }
}

/// Two ASCII texts one after the other are an ASCII text.
pub proof fn lemma_ascii_concat(a: Seq<u8>, b: Seq<u8>)
    requires
        is_ascii_text(a),
        is_ascii_text(b),
    ensures
        is_ascii_text(a + b),
{
    let text = a + b;
    assert forall|i: int| 0 <= i < text.len() implies #[trigger] text[i] < 128 by {
        if i < a.len() {
            assert(text[i] == a[i]);
        } else {
            assert(text[i] == b[i - a.len()]);
        }
    }
}

/// Builds a `String` from the ASCII codes in `text`.
///
/// Trusted: calls `String::from_utf8` of std, which accepts every valid UTF-8 sequence and
/// keeps its characters; an ASCII code is a one-byte UTF-8 sequence of the character with
/// that code, so the error branch is never taken on the inputs that `requires` admits.
#[verifier::external_body]
pub(crate) fn ascii_string(text: Vec<u8>) -> (r: String)
    requires
        is_ascii_text(text@),
    ensures
        r@ == ascii_chars(text@),
{
    match String::from_utf8(text) {
        Ok(string) => string,
        Err(_) => String::new(),
    }
}

} // verus!
