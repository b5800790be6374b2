//! Building and comparing the texts of identities and diagnostics.
//!
//! Specifications speak of texts as sequences of characters.

use vstd::prelude::*;
use vstd::string::StrSliceExecFns;
use vstd::string::StringExecFns;

verus! {

/// The characters of one hexadecimal digit, in lower case.
pub open spec fn digit_text(digit: nat) -> Seq<char> {
    if digit == 0 {
        "0"@
    } else if digit == 1 {
        "1"@
    } else if digit == 2 {
        "2"@
    } else if digit == 3 {
        "3"@
    } else if digit == 4 {
        "4"@
    } else if digit == 5 {
        "5"@
    } else if digit == 6 {
        "6"@
    } else if digit == 7 {
        "7"@
    } else if digit == 8 {
        "8"@
    } else if digit == 9 {
        "9"@
    } else if digit == 10 {
        "a"@
    } else if digit == 11 {
        "b"@
    } else if digit == 12 {
        "c"@
    } else if digit == 13 {
        "d"@
    } else if digit == 14 {
        "e"@
    } else {
        "f"@
    }
}

/// `value` written in `base` without leading zeros.
pub open spec fn number_text(value: nat, base: nat) -> Seq<char>
    decreases value,
{
    if base < 2 || value < base {
        digit_text(value)
    } else {
        proof {
            assert(value / base < value) by (nonlinear_arith)
                requires
                    base >= 2,
                    value >= base,
            ;
        }
        number_text(value / base, base) + digit_text(value % base)
    }
}

/// `value` in decimal.
pub open spec fn dec_text(value: nat) -> Seq<char> {
    number_text(value, 10)
}

/// `value` in hexadecimal with the `0x` prefix.
pub open spec fn hex_text(value: nat) -> Seq<char> {
    "0x"@ + number_text(value, 16)
}

/// `value` in hexadecimal, filled with leading zeros to `width` digits.
pub open spec fn padded_hex_text(value: nat, width: nat) -> Seq<char> {
    padding_text(width - number_text(value, 16).len()) + number_text(value, 16)
}

/// `count` zeros.
pub open spec fn padding_text(count: int) -> Seq<char>
    decreases count,
{
    if count <= 0 {
        Seq::empty()
    } else {
        padding_text(count - 1) + "0"@
    }
}

/// `left` precedes `right` in the order of their characters.
pub open spec fn text_less(left: Seq<char>, right: Seq<char>) -> bool
    decreases left.len(),
{
    if right.len() == 0 {
        false
    } else if left.len() == 0 {
        true
    } else if left[0] != right[0] {
        left[0] < right[0]
    } else {
        text_less(left.skip(1), right.skip(1))
    }
}

/// Appends one digit.
fn push_digit(out: &mut String, digit: u64)
    requires
        digit < 16,
    ensures
        final(out)@ == old(out)@ + digit_text(digit as nat),
{
    let text = match digit {
        0 => "0",
        1 => "1",
        2 => "2",
        3 => "3",
        4 => "4",
        5 => "5",
        6 => "6",
        7 => "7",
        8 => "8",
        9 => "9",
        10 => "a",
        11 => "b",
        12 => "c",
        13 => "d",
        14 => "e",
        _ => "f",
    };
    out.append(text);
}

/// Appends `value` written in `base`.
fn push_number(out: &mut String, value: u64, base: u64)
    requires
        2 <= base <= 16,
    ensures
        final(out)@ == old(out)@ + number_text(value as nat, base as nat),
    decreases value,
{
    if value < base {
        push_digit(out, value);
    } else {
        proof {
            assert(value / base < value) by (nonlinear_arith)
                requires
                    base >= 2,
                    value >= base,
            ;
        }
        push_number(out, value / base, base);
        push_digit(out, value % base);
        assert(out@ =~= old(out)@ + number_text(value as nat, base as nat));
    }
}

/// Appends `value` in decimal.
pub fn push_dec(out: &mut String, value: u64)
    ensures
        final(out)@ == old(out)@ + dec_text(value as nat),
{
    push_number(out, value, 10);
}

/// Appends `value` in hexadecimal with the `0x` prefix.
pub fn push_hex(out: &mut String, value: u64)
    ensures
        final(out)@ == old(out)@ + hex_text(value as nat),
{
    out.append("0x");
    push_number(out, value, 16);
    assert(out@ =~= old(out)@ + hex_text(value as nat));
}

/// The number of hexadecimal digits of `value`.
fn hex_digits(value: u64) -> (count: usize)
    ensures
        count == number_text(value as nat, 16).len(),
        1 <= count <= 16,
{
    proof {
        reveal_with_fuel(sixteen_to, 17);
        lemma_hex_length(value as nat, 16);
        lemma_digit_lengths();
    }
    let mut rest: u64 = value;
    let mut count: usize = 1;
    while rest >= 16
        invariant
            count + number_text(rest as nat, 16).len() == number_text(value as nat, 16).len() + 1,
            number_text(value as nat, 16).len() <= 16,
            number_text(rest as nat, 16).len() >= 1,
            forall|d: nat| (#[trigger] digit_text(d)).len() == 1,
        decreases rest,
    {
        proof {
            lemma_number_not_empty((rest / 16) as nat, 16);
        }
        rest = rest / 16;
        count = count + 1;
    }
    count
}

/// Appends `value` in hexadecimal, filled with leading zeros to `width` digits.
pub fn push_padded_hex(out: &mut String, value: u64, width: usize)
    ensures
        final(out)@ == old(out)@ + padded_hex_text(value as nat, width as nat),
{
    let digits: usize = hex_digits(value);
    let missing: usize = if digits < width {
        width - digits
    } else {
        0
    };
    let mut done: usize = 0;
    assert(out@ =~= old(out)@ + padding_text(0));
    while done < missing
        invariant
            done <= missing,
            out@ == old(out)@ + padding_text(done as int),
        decreases missing - done,
    {
        out.append("0");
        done = done + 1;
        assert(out@ =~= old(out)@ + padding_text(done as int));
    }
    proof {
        assert(padding_text(width - digits) == padding_text(missing as int));
    }
    push_number(out, value, 16);
    assert(out@ =~= old(out)@ + padded_hex_text(value as nat, width as nat));
}

/// Copies a text.
pub fn text_of(text: &str) -> (copy: String)
    ensures
        copy@ == text@,
{
    String::from_str(text)
}

/// Compares two texts for equality.
pub fn text_eq(left: &str, right: &str) -> (equal: bool)
    ensures
        equal == (left@ == right@),
{
    let length: usize = left.unicode_len();
    if length != right.unicode_len() {
        return false;
    }
    let mut index: usize = 0;
    while index < length
        invariant
            length == left@.len() == right@.len(),
            index <= length,
            left@.take(index as int) == right@.take(index as int),
        decreases length - index,
    {
        if left.get_char(index) != right.get_char(index) {
            return false;
        }
        index = index + 1;
        assert(left@.take(index as int) =~= right@.take(index as int)) by {
            assert(left@.take(index - 1) == right@.take(index - 1));
            assert forall|i: int| 0 <= i < index implies left@[i] == right@[i] by {
                if i < index - 1 {
                    assert(left@.take(index - 1)[i] == right@.take(index - 1)[i]);
                }
            }
        }
    }
    assert(left@.take(length as int) =~= left@);
    assert(right@.take(length as int) =~= right@);
    true
}

/// Returns the characters of a text.
pub fn chars_of(text: &str) -> (chars: Vec<char>)
    ensures
        chars@ == text@,
{
    let length: usize = text.unicode_len();
    let mut chars: Vec<char> = Vec::new();
    let mut index: usize = 0;
    while index < length
        invariant
            length == text@.len(),
            index <= length,
            chars@ == text@.take(index as int),
        decreases length - index,
    {
        chars.push(text.get_char(index));
        index = index + 1;
        assert(chars@ =~= text@.take(index as int));
    }
    assert(text@.take(length as int) =~= text@);
    chars
}

/// Whether `needle` occurs in `text` at a place.
pub open spec fn occurs_at(text: Seq<char>, needle: Seq<char>, at: int) -> bool {
    0 <= at && at + needle.len() <= text.len() && text.subrange(at, at + needle.len()) == needle
}

/// Whether `needle` occurs in `text`.
pub open spec fn occurs_in(text: Seq<char>, needle: Seq<char>) -> bool {
    exists|at: int| #[trigger] occurs_at(text, needle, at)
}

/// Tells whether `needle` occurs in `text`.
pub fn text_contains(text: &str, needle: &str) -> (found: bool)
    ensures
        found == occurs_in(text@, needle@),
{
    let length: usize = text.unicode_len();
    let size: usize = needle.unicode_len();
    if size > length {
        assert(forall|at: int| !#[trigger] occurs_at(text@, needle@, at));
        return false;
    }
    let mut at: usize = 0;
    while at <= length - size
        invariant
            length == text@.len(),
            size == needle@.len(),
            size <= length,
            at <= length - size + 1,
            forall|i: int| 0 <= i < at ==> !#[trigger] occurs_at(text@, needle@, i),
        decreases length - size + 1 - at,
    {
        let mut index: usize = 0;
        while index < size && text.get_char(at + index) == needle.get_char(index)
            invariant
                length == text@.len(),
                size == needle@.len(),
                at + size <= length,
                index <= size,
                forall|i: int| 0 <= i < index ==> text@[at + i] == needle@[i],
            decreases size - index,
        {
            index = index + 1;
        }
        if index == size {
            assert(text@.subrange(at as int, at + size) =~= needle@);
            assert(occurs_at(text@, needle@, at as int));
            return true;
        }
        assert(!occurs_at(text@, needle@, at as int)) by {
            assert(text@.subrange(at as int, at + size)[index as int] == text@[at + index]);
        }
        if at == length - size {
            assert(forall|i: int| !#[trigger] occurs_at(text@, needle@, i));
            return false;
        }
        at = at + 1;
    }
    false
}

/// Tells whether `left` precedes `right` in the order of their characters.
pub fn text_precedes(left: &str, right: &str) -> (less: bool)
    ensures
        less == text_less(left@, right@),
{
    let left_length: usize = left.unicode_len();
    let right_length: usize = right.unicode_len();
    let mut index: usize = 0;
    assert(left@.skip(0) =~= left@);
    assert(right@.skip(0) =~= right@);
    loop
        invariant
            left_length == left@.len(),
            right_length == right@.len(),
            index <= left_length,
            index <= right_length,
            text_less(left@, right@) == text_less(left@.skip(index as int), right@.skip(index as int)),
        decreases left_length - index,
    {
        if index >= right_length {
            return false;
        }
        if index >= left_length {
            return true;
        }
        let left_char = left.get_char(index);
        let right_char = right.get_char(index);
        if left_char != right_char {
            return left_char < right_char;
        }
        assert(left@.skip(index as int).skip(1) =~= left@.skip(index + 1));
        assert(right@.skip(index as int).skip(1) =~= right@.skip(index + 1));
        index = index + 1;
    }
}

proof fn lemma_digit_lengths()
    ensures
        forall|d: nat| (#[trigger] digit_text(d)).len() == 1,
{
    reveal_strlit("0");
    reveal_strlit("1");
    reveal_strlit("2");
    reveal_strlit("3");
    reveal_strlit("4");
    reveal_strlit("5");
    reveal_strlit("6");
    reveal_strlit("7");
    reveal_strlit("8");
    reveal_strlit("9");
    reveal_strlit("a");
    reveal_strlit("b");
    reveal_strlit("c");
    reveal_strlit("d");
    reveal_strlit("e");
    reveal_strlit("f");
}

proof fn lemma_number_not_empty(value: nat, base: nat)
    ensures
        number_text(value, base).len() >= 1,
    decreases value,
{
    lemma_digit_lengths();
    if base >= 2 && value >= base {
        assert(value / base < value) by (nonlinear_arith)
            requires
                base >= 2,
                value >= base,
        ;
        lemma_number_not_empty(value / base, base);
    }
}

spec fn sixteen_to(exponent: nat) -> nat
    decreases exponent,
{
    if exponent == 0 {
        1
    } else {
        16 * sixteen_to((exponent - 1) as nat)
    }
}

proof fn lemma_hex_length(value: nat, digits: nat)
    requires
        digits >= 1,
        value < sixteen_to(digits),
    ensures
        1 <= number_text(value, 16).len() <= digits,
    decreases digits,
{
    lemma_digit_lengths();
    if value >= 16 {
        assert(sixteen_to(0) == 1);
        assert(digits >= 2);
        lemma_hex_length(value / 16, (digits - 1) as nat);
    }
}

/// The text order is total: of two different texts one precedes the other.
pub proof fn law_text_order_is_total(left: Seq<char>, right: Seq<char>)
    ensures
        left == right || text_less(left, right) || text_less(right, left),
    decreases left.len(),
{
    if left.len() == 0 || right.len() == 0 {
        if left.len() == 0 && right.len() == 0 {
            assert(left =~= right);
        }
    } else if left[0] == right[0] {
        law_text_order_is_total(left.skip(1), right.skip(1));
        if left.skip(1) == right.skip(1) {
            assert(left =~= seq![left[0]] + left.skip(1));
            assert(right =~= seq![right[0]] + right.skip(1));
        }
    }
}

/// The text order is strict: no text precedes itself, and of two texts at most
/// one precedes the other.
pub proof fn law_text_order_is_strict(left: Seq<char>, right: Seq<char>)
    ensures
        !text_less(left, left),
        !(text_less(left, right) && text_less(right, left)),
    decreases left.len(),
{
    if left.len() > 0 {
        law_text_order_is_strict(left.skip(1), right.skip(1));
    }
}

/// The text order is transitive.
pub proof fn law_text_order_is_transitive(first: Seq<char>, second: Seq<char>, third: Seq<char>)
    requires
        text_less(first, second),
        text_less(second, third),
    ensures
        text_less(first, third),
    decreases first.len(),
{
    if first.len() > 0 && second.len() > 0 && third.len() > 0 && first[0] == second[0] && second[0]
        == third[0] {
        law_text_order_is_transitive(first.skip(1), second.skip(1), third.skip(1));
    }
}

/// The number that one digit stands for.
pub open spec fn digit_number(c: char) -> int {
    if 'a' <= c {
        c as int - 'a' as int + 10
    } else {
        c as int - '0' as int
    }
}

/// Whether a character is a digit of numbers in `base`.
pub open spec fn is_digit(c: char, base: int) -> bool {
    ('0' <= c <= '9' || 'a' <= c <= 'f') && 0 <= digit_number(c) < base
}

/// The number that a row of digits stands for.
pub open spec fn number_in(text: Seq<char>, base: int) -> int
    decreases text.len(),
{
    if text.len() == 0 {
        0
    } else {
        base * number_in(text.drop_last(), base) + digit_number(text.last())
    }
}

proof fn lemma_digit(digit: nat)
    requires
        digit < 16,
    ensures
        digit_text(digit).len() == 1,
        '0' <= digit_text(digit)[0] <= '9' || 'a' <= digit_text(digit)[0] <= 'f',
        digit_number(digit_text(digit)[0]) == digit,
        digit_text(digit)[0] == '0' <==> digit == 0,
{
    reveal_strlit("0");
    reveal_strlit("1");
    reveal_strlit("2");
    reveal_strlit("3");
    reveal_strlit("4");
    reveal_strlit("5");
    reveal_strlit("6");
    reveal_strlit("7");
    reveal_strlit("8");
    reveal_strlit("9");
    reveal_strlit("a");
    reveal_strlit("b");
    reveal_strlit("c");
    reveal_strlit("d");
    reveal_strlit("e");
    reveal_strlit("f");
}

/// A number is written in digits of its base, the highest first, without a leading
/// zero unless it is zero itself, so that the digits spell the number.
pub proof fn law_written_numbers_are_read_back(value: nat, base: nat)
    requires
        2 <= base <= 16,
    ensures
        ({
            let text = number_text(value, base);
            &&& text.len() >= 1
            &&& number_in(text, base as int) == value
            &&& forall|i: int| 0 <= i < text.len() ==> is_digit(#[trigger] text[i], base as int)
            &&& value > 0 ==> text[0] != '0'
            &&& value < base ==> text.len() == 1
        }),
    decreases value,
{
    let text = number_text(value, base);
    if value < base {
        lemma_digit(value);
        assert(text.drop_last() =~= Seq::<char>::empty());
        assert(number_in(text.drop_last(), base as int) == 0);
        assert(base as int * 0 == 0) by (nonlinear_arith);
        assert(text.last() == text[0]);
    } else {
        assert(0 < value / base < value && value % base < base && base as int * (value / base)
            as int + (value % base) as int == value) by (nonlinear_arith)
            requires
                base >= 2,
                value >= base,
        ;
        law_written_numbers_are_read_back(value / base, base);
        lemma_digit(value % base);
        let rest = number_text(value / base, base);
        assert(text.drop_last() =~= rest);
        assert(text.last() == digit_text(value % base)[0]);
        assert forall|i: int| 0 <= i < text.len() implies is_digit(
            #[trigger] text[i],
            base as int,
        ) by {
            if i < rest.len() {
                assert(text[i] == rest[i]);
            }
        }
        assert(text[0] == rest[0]);
    }
}

proof fn lemma_padding(count: int)
    ensures
        padding_text(count).len() == if count <= 0 {
            0
        } else {
            count
        },
        forall|i: int| 0 <= i < padding_text(count).len() ==> padding_text(count)[i] == '0',
    decreases count,
{
    reveal_strlit("0");
    if count > 0 {
        lemma_padding(count - 1);
    }
}

proof fn lemma_leading_zeros(zeros: Seq<char>, digits: Seq<char>, base: int)
    requires
        forall|i: int| 0 <= i < zeros.len() ==> zeros[i] == '0',
    ensures
        number_in(zeros + digits, base) == number_in(digits, base),
    decreases zeros.len() + digits.len(),
{
    let text = zeros + digits;
    if digits.len() > 0 {
        assert(text.drop_last() =~= zeros + digits.drop_last());
        lemma_leading_zeros(zeros, digits.drop_last(), base);
    } else if zeros.len() > 0 {
        assert(text =~= zeros);
        lemma_leading_zeros(zeros.drop_last(), digits, base);
        assert(zeros.drop_last() + digits =~= zeros.drop_last());
        assert(number_in(digits, base) == 0);
        assert(base * 0 == 0) by (nonlinear_arith);
    } else {
        assert(text =~= digits);
    }
}

/// Decimal texts are in base ten; hexadecimal texts begin with `0x`; padded
/// hexadecimal texts have at least the width asked for, and the padding does not
/// change the number.
pub proof fn law_number_texts_spell_their_number(value: nat, width: nat)
    ensures
        number_in(dec_text(value), 10) == value,
        forall|i: int|
            0 <= i < dec_text(value).len() ==> '0' <= #[trigger] dec_text(value)[i] <= '9',
        hex_text(value).len() >= 3,
        hex_text(value)[0] == '0',
        hex_text(value)[1] == 'x',
        number_in(hex_text(value).skip(2), 16) == value,
        value > 0 ==> hex_text(value)[2] != '0',
        padded_hex_text(value, width).len() >= width,
        padded_hex_text(value, width).len() > width ==> padded_hex_text(value, width)[0] != '0'
            || padded_hex_text(value, width).len() == 1,
        number_in(padded_hex_text(value, width), 16) == value,
{
    law_written_numbers_are_read_back(value, 10);
    law_written_numbers_are_read_back(value, 16);
    assert forall|i: int| 0 <= i < dec_text(value).len() implies '0' <= #[trigger] dec_text(
        value,
    )[i] <= '9' by {
        assert(is_digit(number_text(value, 10)[i], 10));
    }
    reveal_strlit("0x");
    let digits = number_text(value, 16);
    assert(hex_text(value).skip(2) =~= digits);
    assert(hex_text(value)[2] == digits[0]);
    lemma_padding(width - digits.len());
    lemma_leading_zeros(padding_text(width - digits.len()), digits, 16);
    if padded_hex_text(value, width).len() > width {
        assert(padded_hex_text(value, width) =~= digits);
    }
}

/// A needle occurs in a text exactly when the text is something, the needle, and
/// something more.
pub proof fn law_occurrences_split_the_text(
    before: Seq<char>,
    needle: Seq<char>,
    after: Seq<char>,
    text: Seq<char>,
    at: int,
)
    ensures
        occurs_in(before + needle + after, needle),
        occurs_at(text, needle, at) ==> text == text.take(at) + needle + text.skip(
            at + needle.len(),
        ),
{
    let whole = before + needle + after;
    assert(whole.subrange(before.len() as int, before.len() as int + needle.len()) =~= needle);
    assert(occurs_at(whole, needle, before.len() as int));
    if occurs_at(text, needle, at) {
        assert(text =~= text.take(at) + text.subrange(at, at + needle.len()) + text.skip(
            at + needle.len(),
        ));
    }
}

/// A text precedes what continues it, and two texts that differ after a common
/// beginning are ordered by the first characters in which they differ.
pub proof fn law_text_order_is_by_the_first_difference(
    common: Seq<char>,
    left: Seq<char>,
    right: Seq<char>,
)
    requires
        right.len() > 0,
        left.len() == 0 || left[0] < right[0],
    ensures
        text_less(common + left, common + right),
    decreases common.len(),
{
    if common.len() == 0 {
        assert(common + left =~= left);
        assert(common + right =~= right);
    } else {
        law_text_order_is_by_the_first_difference(common.skip(1), left, right);
        assert((common + left).skip(1) =~= common.skip(1) + left);
        assert((common + right).skip(1) =~= common.skip(1) + right);
    }
}

/// A number of at most `width` hexadecimal digits is padded to exactly that width.
pub proof fn lemma_padded_length(value: nat, width: nat)
    requires
        1 <= width <= 4,
        width == 1 ==> value < 16,
        width == 2 ==> value < 256,
        width == 3 ==> value < 4096,
        width == 4 ==> value < 65536,
    ensures
        padded_hex_text(value, width).len() == width,
{
    reveal_with_fuel(sixteen_to, 5);
    lemma_hex_length(value, width);
    lemma_padding(width - number_text(value, 16).len());
}

} // verus!
