use vstd::prelude::*;

use crate::text::{
    ascii_chars, ascii_string, hex_digit, hex_digit_code, hex_digits, is_ascii_text,
    lemma_ascii_concat, lemma_hex_digits_ascii, push_hex_digits,
};

verus! {

/// The four upper-case hexadecimal digits of a group `value < 0x1_0000`,
/// padded with leading zeroes.
pub open spec fn hex_digits_padded(value: int) -> Seq<u8> {
    seq![
        hex_digit((value / 0x1000) % 16),
        hex_digit((value / 0x100) % 16),
        hex_digit((value / 0x10) % 16),
        hex_digit(value % 16),
    ]
}

/// ASCII code of the character that separates groups of digits.
pub const GROUP_SEPARATOR: u8 = 95;

/// Number of groups of four hexadecimal digits that are printed:
/// those of the low 64 bits, the width of a machine word.
pub const GROUP_COUNT: u32 = 4;

/// The weight of the lowest digit of the group number `index`, counted from the lowest group.
pub open spec fn group_weight(index: int) -> int {
    if index == 0 {
        1
    } else if index == 1 {
        0x1_0000
    } else if index == 2 {
        0x1_0000_0000
    } else {
        0x1_0000_0000_0000
    }
}

/// The group number `index` of four hexadecimal digits of `value`, counted from the lowest group.
pub open spec fn hex_group(value: int, index: int) -> int {
    (value / group_weight(index)) % 0x1_0000
}

/// The index of the highest printed group: the highest group that is not zero,
/// or the lowest group when all are zero.
pub open spec fn leading_group(value: int) -> int {
    if hex_group(value, 3) != 0 {
        3
    } else if hex_group(value, 2) != 0 {
        2
    } else if hex_group(value, 1) != 0 {
        1
    } else {
        0
    }
}

/// The groups below the group number `index`, highest first,
/// each written as the separator followed by its four padded digits.
pub open spec fn lower_groups_text(value: int, index: int) -> Seq<u8>
    decreases index,
{
    if index <= 0 {
        Seq::empty()
    } else {
        seq![GROUP_SEPARATOR] + hex_digits_padded(hex_group(value, index - 1))
            + lower_groups_text(value, index - 1)
    }
}

/// The text of `value` in hexadecimal with digits grouped by four:
/// the leading group without leading zeroes, then each lower group after a separator.
pub open spec fn grouped_hex_text(value: int) -> Seq<u8> {
    hex_digits(hex_group(value, leading_group(value)) as nat) + lower_groups_text(
        value,
        leading_group(value),
    )
}

/// A number printed in hexadecimal with its digits grouped by four,
/// such as `12_3456_789A`.
pub struct GroupedHex(u128);

impl View for GroupedHex {
    type V = u128;

    closed spec fn view(&self) -> u128 {
        self.0
    }
}

impl GroupedHex {
    /// Wraps `value` for printing in hexadecimal with grouped digits.
    pub fn new(value: u128) -> (r: Self)
        ensures
            r@ == value,
    {
        GroupedHex(value)
    }

    /// The group number `index` of four hexadecimal digits, counted from the lowest group.
    fn group(&self, index: u32) -> (r: u16)
        requires
            index < GROUP_COUNT,
        ensures
            r == hex_group(self@ as int, index as int),
    {
        let weight: u128 = if index == 0 {
            1
        } else if index == 1 {
            0x1_0000
        } else if index == 2 {
            0x1_0000_0000
        } else {
            0x1_0000_0000_0000
        };
        ((self.0 / weight) % 0x1_0000) as u16
    }

    /// The text of the number as ASCII codes: see [`grouped_hex_text`].
    pub fn to_ascii(&self) -> (r: Vec<u8>)
        ensures
            r@ == grouped_hex_text(self@ as int),
    {
        let ghost value = self@ as int;
        let mut lead: u32 = GROUP_COUNT - 1;
        while lead > 0 && self.group(lead) == 0
            invariant
                lead < GROUP_COUNT,
                value == self@ as int,
                forall|j: int| lead < j < GROUP_COUNT ==> hex_group(value, j) == 0,
            decreases lead,
        {
            lead = lead - 1;
        }
        assert(lead == leading_group(value));

        let mut text: Vec<u8> = Vec::new();
        push_hex_digits(&mut text, self.group(lead) as u64);
        let mut index: u32 = lead;
        while index > 0
            invariant
                index <= lead < GROUP_COUNT,
                value == self@ as int,
                lead == leading_group(value),
                text@ + lower_groups_text(value, index as int) == grouped_hex_text(value),
            decreases index,
        {
            let ghost before = text@;
            text.push(GROUP_SEPARATOR);
            push_hex_digits_padded(&mut text, self.group(index - 1));
            proof {
                let rest = lower_groups_text(value, index - 1);
                let padded = hex_digits_padded(hex_group(value, index - 1));
                assert(lower_groups_text(value, index as int) == seq![GROUP_SEPARATOR] + padded
                    + rest);
                assert(before + (seq![GROUP_SEPARATOR] + padded + rest) =~= text@ + rest);
            }
            index = index - 1;
        }
        assert(text@ + lower_groups_text(value, 0) =~= text@);
        text
    }

    /// The text of the number: see [`grouped_hex_text`].
    pub fn to_string(&self) -> (r: String)
        ensures
            r@ == ascii_chars(grouped_hex_text(self@ as int)),
    {
        let text = self.to_ascii();
        proof {
            lemma_grouped_hex_text_ascii(self@ as int);
        }
        ascii_string(text)
    }
}

/// Appends to `text` the four digits of `value`, padded with leading zeroes.
fn push_hex_digits_padded(text: &mut Vec<u8>, value: u16)
    ensures
        final(text)@ == old(text)@ + hex_digits_padded(value as int),
{
    let value = value as u64;
    text.push(hex_digit_code((value / 0x1000) % 16));
    text.push(hex_digit_code((value / 0x100) % 16));
    text.push(hex_digit_code((value / 0x10) % 16));
    text.push(hex_digit_code(value % 16));
    assert(final(text)@ =~= old(text)@ + hex_digits_padded(value as int));
}

proof fn lemma_lower_groups_text_ascii(value: int, index: int)
    ensures
        is_ascii_text(lower_groups_text(value, index)),
    decreases index,
{
    if index > 0 {
        lemma_lower_groups_text_ascii(value, index - 1);
        let separator = seq![GROUP_SEPARATOR];
        let padded = hex_digits_padded(hex_group(value, index - 1));
        assert(is_ascii_text(separator));
        assert(is_ascii_text(padded));
        lemma_ascii_concat(separator, padded);
        lemma_ascii_concat(separator + padded, lower_groups_text(value, index - 1));
    }
}

/// Every byte of a grouped hexadecimal text is an ASCII code.
pub(crate) proof fn lemma_grouped_hex_text_ascii(value: int)
    ensures
        is_ascii_text(grouped_hex_text(value)),
{
    let lead = leading_group(value);
    lemma_hex_digits_ascii(hex_group(value, lead) as nat);
    lemma_lower_groups_text_ascii(value, lead);
    lemma_ascii_concat(hex_digits(hex_group(value, lead) as nat), lower_groups_text(value, lead));
}

/// The value of the ASCII code of a hexadecimal digit.
pub open spec fn hex_digit_value(code: u8) -> int {
    if code <= 57 {
        code - 48
    } else {
        code - 55
    }
}

/// The number that a hexadecimal `text` denotes, separators skipped.
pub open spec fn hex_text_value(text: Seq<u8>) -> int
    decreases text.len(),
{
    if text.len() == 0 {
        0
    } else if text.last() == GROUP_SEPARATOR {
        hex_text_value(text.drop_last())
    } else {
        hex_text_value(text.drop_last()) * 16 + hex_digit_value(text.last())
    }
}

/// The number of digits in a hexadecimal `text`, separators skipped.
pub open spec fn hex_digit_count(text: Seq<u8>) -> nat
    decreases text.len(),
{
    if text.len() == 0 {
        0
    } else if text.last() == GROUP_SEPARATOR {
        hex_digit_count(text.drop_last())
    } else {
        hex_digit_count(text.drop_last()) + 1
    }
}

/// Sixteen to the power `exponent`.
pub open spec fn pow16(exponent: nat) -> int
    decreases exponent,
{
    if exponent == 0 {
        1
    } else {
        16 * pow16((exponent - 1) as nat)
    }
}

proof fn lemma_pow16_positive(exponent: nat)
    ensures
        pow16(exponent) > 0,
    decreases exponent,
{
    if exponent > 0 {
        lemma_pow16_positive((exponent - 1) as nat);
    }
}

/// The value of two texts one after the other.
proof fn lemma_hex_text_value_append(a: Seq<u8>, b: Seq<u8>)
    ensures
        hex_text_value(a + b) == hex_text_value(a) * pow16(hex_digit_count(b)) + hex_text_value(b),
        hex_digit_count(a + b) == hex_digit_count(a) + hex_digit_count(b),
    decreases b.len(),
{
    if b.len() == 0 {
        assert(a + b =~= a);
    } else {
        let c = a + b;
        assert(c.drop_last() =~= a + b.drop_last());
        assert(c.last() == b.last());
        lemma_hex_text_value_append(a, b.drop_last());
        if b.last() != GROUP_SEPARATOR {
            let x = hex_text_value(a);
            let p = pow16(hex_digit_count(b.drop_last()));
            let y = hex_text_value(b.drop_last());
            assert((x * p + y) * 16 == x * (16 * p) + y * 16) by (nonlinear_arith);
        }
    }
}

/// A hexadecimal digit is no separator, and its value is the digit.
proof fn lemma_hex_digit_value(digit: int)
    requires
        0 <= digit < 16,
    ensures
        hex_digit(digit) != GROUP_SEPARATOR,
        hex_digit_value(hex_digit(digit)) == digit,
{
}

/// The value and the digit count of `text` with one more digit at its end.
proof fn lemma_hex_text_push_digit(text: Seq<u8>, digit: int)
    requires
        0 <= digit < 16,
    ensures
        hex_text_value(text.push(hex_digit(digit))) == hex_text_value(text) * 16 + digit,
        hex_digit_count(text.push(hex_digit(digit))) == hex_digit_count(text) + 1,
{
    lemma_hex_digit_value(digit);
    assert(text.push(hex_digit(digit)).drop_last() =~= text);
}

/// The digits of a number denote that number.
proof fn lemma_hex_digits_value(value: nat)
    ensures
        hex_text_value(hex_digits(value)) == value,
    decreases value,
{
    if value < 16 {
        lemma_hex_text_push_digit(Seq::empty(), value as int);
        assert(hex_digits(value) =~= Seq::<u8>::empty().push(hex_digit(value as int)));
    } else {
        lemma_hex_digits_value(value / 16);
        lemma_hex_text_push_digit(hex_digits(value / 16), (value % 16) as int);
    }
}

/// The padded digits of a group denote that group, in four digits.
proof fn lemma_hex_digits_padded_value(value: int)
    requires
        0 <= value < 0x1_0000,
    ensures
        hex_text_value(hex_digits_padded(value)) == value,
        hex_digit_count(hex_digits_padded(value)) == 4,
{
    let d3 = (value / 0x1000) % 16;
    let d2 = (value / 0x100) % 16;
    let d1 = (value / 0x10) % 16;
    let d0 = value % 16;
    let t0 = Seq::<u8>::empty();
    let t1 = t0.push(hex_digit(d3));
    let t2 = t1.push(hex_digit(d2));
    let t3 = t2.push(hex_digit(d1));
    let t4 = t3.push(hex_digit(d0));
    assert(t4 =~= hex_digits_padded(value));
    lemma_hex_text_push_digit(t0, d3);
    lemma_hex_text_push_digit(t1, d2);
    lemma_hex_text_push_digit(t2, d1);
    lemma_hex_text_push_digit(t3, d0);
    assert(((d3 * 16 + d2) * 16 + d1) * 16 + d0 == value) by (nonlinear_arith)
        requires
            0 <= value < 0x1_0000,
            d3 == (value / 0x1000) % 16,
            d2 == (value / 0x100) % 16,
            d1 == (value / 0x10) % 16,
            d0 == value % 16,
    ;
}

proof fn lemma_group_weights()
    ensures
        pow16(0) == group_weight(0),
        pow16(4) == group_weight(1),
        pow16(8) == group_weight(2),
        pow16(12) == group_weight(3),
        group_weight(1) == group_weight(0) * 0x1_0000,
        group_weight(2) == group_weight(1) * 0x1_0000,
        group_weight(3) == group_weight(2) * 0x1_0000,
        group_weight(3) * 0x1_0000 == 0x1_0000_0000_0000_0000,
{
    reveal_with_fuel(pow16, 13);
}

/// The value and the digit count of a separator followed by a group and the rest.
proof fn lemma_separated_group_value(group: int, rest: Seq<u8>)
    requires
        0 <= group < 0x1_0000,
    ensures
        hex_text_value(seq![GROUP_SEPARATOR] + hex_digits_padded(group) + rest) == group * pow16(
            hex_digit_count(rest),
        ) + hex_text_value(rest),
        hex_digit_count(seq![GROUP_SEPARATOR] + hex_digits_padded(group) + rest) == 4
            + hex_digit_count(rest),
{
    let separator = seq![GROUP_SEPARATOR];
    let padded = hex_digits_padded(group);
    lemma_hex_digits_padded_value(group);
    assert(separator.drop_last() =~= Seq::<u8>::empty());
    assert(separator.last() == GROUP_SEPARATOR);
    assert(hex_text_value(Seq::<u8>::empty()) == 0);
    assert(hex_digit_count(Seq::<u8>::empty()) == 0);
    assert(hex_text_value(separator) == 0);
    assert(hex_digit_count(separator) == 0);
    lemma_hex_text_value_append(separator, padded);
    lemma_hex_text_value_append(separator + padded, rest);
}

/// The groups below `index` denote the part of `value` below that group, in four digits each.
proof fn lemma_lower_groups_text_value(value: int, index: int)
    requires
        0 <= value,
        0 <= index < GROUP_COUNT,
    ensures
        hex_text_value(lower_groups_text(value, index)) == value % group_weight(index),
        hex_digit_count(lower_groups_text(value, index)) == 4 * index,
    decreases index,
{
    lemma_group_weights();
    if index > 0 {
        lemma_lower_groups_text_value(value, index - 1);
        let weight = group_weight(index - 1);
        let rest = lower_groups_text(value, index - 1);
        lemma_separated_group_value(hex_group(value, index - 1), rest);
        assert(pow16(hex_digit_count(rest)) == weight);
        vstd::arithmetic::div_mod::lemma_breakdown(value, weight, 0x1_0000);
        assert(group_weight(index) == weight * 0x1_0000);
        let group = hex_group(value, index - 1);
        assert(group == (value / weight) % 0x1_0000);
        assert(group * weight == weight * ((value / weight) % 0x1_0000)) by (nonlinear_arith)
            requires
                group == (value / weight) % 0x1_0000,
        ;
    } else {
        assert(lower_groups_text(value, index) =~= Seq::<u8>::empty());
    }
}

/// The part of `value` below the end of the group number `index` is that group
/// followed by the part below it.
proof fn lemma_group_split(value: int, index: int)
    requires
        0 <= value,
        0 <= index < GROUP_COUNT,
    ensures
        value % (group_weight(index) * 0x1_0000) == hex_group(value, index) * group_weight(index)
            + value % group_weight(index),
{
    let weight = group_weight(index);
    let group = hex_group(value, index);
    vstd::arithmetic::div_mod::lemma_breakdown(value, weight, 0x1_0000);
    assert(group * weight == weight * ((value / weight) % 0x1_0000)) by (nonlinear_arith)
        requires
            group == (value / weight) % 0x1_0000,
    ;
}

/// The grouped hexadecimal text of `value` denotes the low 64 bits of `value`:
/// reading its digits back, separators skipped, gives `value % 2^64`.
pub proof fn lemma_grouped_hex_round_trip(value: u128)
    ensures
        hex_text_value(grouped_hex_text(value as int)) == value % 0x1_0000_0000_0000_0000,
{
    let v = value as int;
    let lead = leading_group(v);
    let group = hex_group(v, lead);
    let head = hex_digits(group as nat);
    let tail = lower_groups_text(v, lead);
    lemma_group_weights();
    lemma_hex_digits_value(group as nat);
    lemma_lower_groups_text_value(v, lead);
    lemma_hex_text_value_append(head, tail);
    lemma_group_split(v, 3);
    lemma_group_split(v, 2);
    lemma_group_split(v, 1);
    lemma_group_split(v, 0);
    assert(hex_text_value(grouped_hex_text(v)) == group * group_weight(lead) + v % group_weight(
        lead,
    ));
}

} // verus!
