//! Decimal numbers as text, and comparison of text.

use vstd::prelude::*;

verus! {

/// The decimal digit of value `value`.
pub open spec fn digit(value: int) -> char {
    (48 + value) as char
}

/// `number` in decimal, without leading zeros.
pub open spec fn decimal(number: nat) -> Seq<char>
    decreases number,
{
    if number < 10 {
        seq![digit(number as int)]
    } else {
        decimal(number / 10).push(digit((number % 10) as int))
    }
}

/// `number` in decimal, with leading zeros up to a length of `width`.
pub open spec fn zero_padded(number: nat, width: nat) -> Seq<char> {
    let digits = decimal(number);
    let zeros = if digits.len() < width {
        (width - digits.len()) as nat
    } else {
        0
    };
    Seq::new(zeros, |i: int| '0') + digits
}

/// `number` in decimal, a minus sign in front where it is negative, with zeros after the sign
/// up to a length of `width` in all.
pub open spec fn signed_zero_padded(number: int, width: nat) -> Seq<char>
    recommends
        width >= 1,
{
    if number < 0 {
        seq!['-'] + zero_padded((-number) as nat, (width - 1) as nat)
    } else {
        zero_padded(number as nat, width)
    }
}

/// Whether the first text comes before the second in the order of strings.
pub open spec fn comes_before(first: Seq<char>, second: Seq<char>) -> bool {
    exists|i: int|
        0 <= i <= first.len() && i < second.len() && #[trigger] first.take(i) == second.take(i) && (
        i == first.len() || first[i] < second[i])
}

/// The length of a number in decimal.
pub(crate) proof fn lemma_decimal_len(number: nat)
    ensures
        decimal(number).len() >= 1,
        number < 100 ==> decimal(number).len() <= 2,
        number < 1_000 ==> decimal(number).len() <= 3,
        number < 10_000 ==> decimal(number).len() <= 4,
        forall|i: int|
            0 <= i < decimal(number).len() ==> '0' <= #[trigger] decimal(number)[i] <= '9',
    decreases number,
{
    if number >= 10 {
        lemma_decimal_len(number / 10);
        if number < 1_000 {
            assert(number < 100 ==> decimal(number / 10).len() == 1);
        }
    }
}

/// One more digit behind a padded number.
proof fn lemma_zero_padded_step(number: nat, width: nat)
    requires
        width >= 2,
    ensures
        zero_padded(number, width) == zero_padded(number / 10, (width - 1) as nat).push(
            digit((number % 10) as int),
        ),
{
    if number < 10 {
        assert(number / 10 == 0);
        assert(decimal(0) =~= seq!['0']);
    }
    assert(zero_padded(number, width) =~= zero_padded(number / 10, (width - 1) as nat).push(
        digit((number % 10) as int),
    ));
}

/// Different numbers differ in decimal.
proof fn lemma_decimal_injective(left: nat, right: nat)
    requires
        decimal(left) == decimal(right),
    ensures
        left == right,
    decreases left,
{
    lemma_decimal_len(left / 10);
    lemma_decimal_len(right / 10);
    assert(decimal(left).last() == digit((left % 10) as int));
    assert(decimal(right).last() == digit((right % 10) as int));
    if left >= 10 && right >= 10 {
        assert(decimal(left).drop_last() =~= decimal(left / 10));
        assert(decimal(right).drop_last() =~= decimal(right / 10));
        lemma_decimal_injective(left / 10, right / 10);
    }
}

/// Different numbers differ when they are padded to the same width.
pub(crate) proof fn lemma_zero_padded_injective(left: nat, right: nat, width: nat)
    requires
        zero_padded(left, width) == zero_padded(right, width),
    ensures
        left == right,
    decreases width,
{
    if width >= 2 {
        lemma_zero_padded_step(left, width);
        lemma_zero_padded_step(right, width);
        let shorter = (width - 1) as nat;
        assert(zero_padded(left, width).drop_last() =~= zero_padded(left / 10, shorter));
        assert(zero_padded(right, width).drop_last() =~= zero_padded(right / 10, shorter));
        assert(zero_padded(left, width).last() == digit((left % 10) as int));
        assert(zero_padded(right, width).last() == digit((right % 10) as int));
        lemma_zero_padded_injective(left / 10, right / 10, shorter);
    } else {
        lemma_decimal_len(left);
        lemma_decimal_len(right);
        assert(zero_padded(left, width) =~= decimal(left));
        assert(zero_padded(right, width) =~= decimal(right));
        lemma_decimal_injective(left, right);
    }
}

/// Numbers that are padded to the same length stand in the order of strings.
pub(crate) proof fn lemma_zero_padded_ordered(left: nat, right: nat, width: nat)
    requires
        left < right,
        width >= 1,
        zero_padded(left, width).len() == width,
        zero_padded(right, width).len() == width,
    ensures
        comes_before(zero_padded(left, width), zero_padded(right, width)),
    decreases width,
{
    let first = zero_padded(left, width);
    let second = zero_padded(right, width);
    if width >= 2 {
        lemma_zero_padded_step(left, width);
        lemma_zero_padded_step(right, width);
        let shorter = (width - 1) as nat;
        let first_head = zero_padded(left / 10, shorter);
        let second_head = zero_padded(right / 10, shorter);
        assert(first.take(width - 1) =~= first_head);
        assert(second.take(width - 1) =~= second_head);
        if left / 10 < right / 10 {
            lemma_zero_padded_ordered(left / 10, right / 10, shorter);
            let i = choose|i: int|
                0 <= i <= first_head.len() && i < second_head.len() && #[trigger] first_head.take(i)
                    == second_head.take(i) && (i == first_head.len() || first_head[i]
                    < second_head[i]);
            assert(first.take(i) =~= first_head.take(i));
            assert(second.take(i) =~= second_head.take(i));
        } else {
            assert(first[width - 1] < second[width - 1]);
        }
    } else {
        lemma_decimal_len(left / 10);
        lemma_decimal_len(right / 10);
        assert(first =~= decimal(left));
        assert(second =~= decimal(right));
        assert(first.take(0) =~= second.take(0));
    }
}

/// No text comes both before and after another.
pub(crate) proof fn lemma_order_is_strict(first: Seq<char>, second: Seq<char>)
    requires
        comes_before(first, second),
    ensures
        !comes_before(second, first),
{
    if comes_before(second, first) {
        let i = choose|i: int|
            0 <= i <= first.len() && i < second.len() && #[trigger] first.take(i) == second.take(i)
                && (i == first.len() || first[i] < second[i]);
        let j = choose|j: int|
            0 <= j <= second.len() && j < first.len() && #[trigger] second.take(j) == first.take(j)
                && (j == second.len() || second[j] < first[j]);
        if i < j {
            assert(second.take(j)[i] == first.take(j)[i]);
        } else if j < i {
            assert(first.take(i)[j] == second.take(i)[j]);
        }
    }
}

/// The decimal digit of value `value`, as text.
fn digit_text(value: u64) -> (text: &'static str)
    requires
        value < 10,
    ensures
        text@ == seq![digit(value as int)],
{
    proof {
        reveal_strlit("0");
        reveal_strlit("1");
        reveal_strlit("2");
        reveal_strlit("3");
        reveal_strlit("4");
        reveal_strlit("5");
        reveal_strlit("6");
        reveal_strlit("7");
        reveal_strlit("8");
        reveal_strlit("9");
    }
    match value {
        0 => "0",
        1 => "1",
        2 => "2",
        3 => "3",
        4 => "4",
        5 => "5",
        6 => "6",
        7 => "7",
        8 => "8",
        _ => "9",
    }
}

/// Appends `number` in decimal, with leading zeros up to a length of `width`.
pub fn push_zero_padded(out: &mut String, number: u64, width: usize)
    ensures
        final(out)@ == old(out)@ + zero_padded(number as nat, width as nat),
    decreases number, width,
{
    if width >= 2 {
        push_zero_padded(out, number / 10, width - 1);
        proof {
            lemma_zero_padded_step(number as nat, width as nat);
        }
        out.append(digit_text(number % 10));
    } else {
        proof {
            lemma_decimal_len(number as nat);
            lemma_decimal_len((number / 10) as nat);
        }
        if number >= 10 {
            push_zero_padded(out, number / 10, 0);
        }
        out.append(digit_text(number % 10));
        assert(final(out)@ =~= old(out)@ + zero_padded(number as nat, width as nat));
    }
}

/// Appends `number` in decimal, without leading zeros.
pub fn push_decimal(out: &mut String, number: u64)
    ensures
        final(out)@ == old(out)@ + decimal(number as nat),
{
    proof {
        lemma_decimal_len(number as nat);
        assert(zero_padded(number as nat, 1) =~= decimal(number as nat));
    }
    push_zero_padded(out, number, 1);
}

/// The lower-case hexadecimal digit of value `value`.
pub open spec fn hex_digit(value: int) -> char {
    if value < 10 {
        (48 + value) as char
    } else {
        (87 + value) as char
    }
}

/// `number` in lower-case hexadecimal, without leading zeros.
pub open spec fn hexadecimal(number: nat) -> Seq<char>
    decreases number,
{
    if number < 16 {
        seq![hex_digit(number as int)]
    } else {
        hexadecimal(number / 16).push(hex_digit((number % 16) as int))
    }
}

/// The lower-case hexadecimal digit of value `value`, as text.
fn hex_digit_text(value: u16) -> (text: &'static str)
    requires
        value < 16,
    ensures
        text@ == seq![hex_digit(value as int)],
{
    proof {
        reveal_strlit("a");
        reveal_strlit("b");
        reveal_strlit("c");
        reveal_strlit("d");
        reveal_strlit("e");
        reveal_strlit("f");
    }
    match value {
        10 => "a",
        11 => "b",
        12 => "c",
        13 => "d",
        14 => "e",
        15 => "f",
        _ => digit_text(value as u64),
    }
}

/// Appends `number` in lower-case hexadecimal, without leading zeros.
pub fn push_hexadecimal(out: &mut String, number: u16)
    ensures
        final(out)@ == old(out)@ + hexadecimal(number as nat),
    decreases number,
{
    if number >= 16 {
        push_hexadecimal(out, number / 16);
    }
    out.append(hex_digit_text(number % 16));
    assert(final(out)@ =~= old(out)@ + hexadecimal(number as nat));
}

/// Whether two texts are the same.
pub fn same_text(left: &str, right: &str) -> (same: bool)
    ensures
        same == (left@ == right@),
{
    left.to_string() == right.to_string()
}

/// The text that an optional string holds.
pub open spec fn optional_text(text: Option<String>) -> Option<Seq<char>> {
    match text {
        Some(text) => Some(text@),
        None => None,
    }
}

/// The value of a decimal or lower-case hexadecimal digit.
pub open spec fn digit_value(digit: char) -> int {
    if digit <= '9' {
        digit as int - 48
    } else {
        digit as int - 87
    }
}

/// The number that the digits of a text stand for in the given base.
pub open spec fn value_of(digits: Seq<char>, base: int) -> int
    decreases digits.len(),
{
    if digits.len() == 0 {
        0
    } else {
        value_of(digits.drop_last(), base) * base + digit_value(digits.last())
    }
}

/// The value of a number in decimal.
pub(crate) proof fn lemma_decimal_value(number: nat)
    ensures
        value_of(decimal(number), 10) == number,
        number > 0 ==> decimal(number)[0] != '0',
    decreases number,
{
    lemma_decimal_len(number / 10);
    if number < 10 {
        assert(decimal(number).drop_last() =~= Seq::empty());
        assert(value_of(Seq::empty(), 10) == 0);
    } else {
        lemma_decimal_value(number / 10);
        assert(decimal(number).drop_last() =~= decimal(number / 10));
    }
}

/// Zeros in front of a number do not change its value.
proof fn lemma_zeros_add_nothing(zeros: Seq<char>, digits: Seq<char>)
    requires
        forall|i: int| 0 <= i < zeros.len() ==> zeros[i] == '0',
    ensures
        value_of(zeros + digits, 10) == value_of(digits, 10),
    decreases zeros.len() + digits.len(),
{
    if digits.len() > 0 {
        lemma_zeros_add_nothing(zeros, digits.drop_last());
        assert((zeros + digits).drop_last() =~= zeros + digits.drop_last());
    } else if zeros.len() > 0 {
        lemma_zeros_add_nothing(zeros.drop_last(), digits);
        assert((zeros + digits).drop_last() =~= zeros.drop_last() + digits);
    } else {
        assert(zeros + digits =~= digits);
    }
}

/// The value of a number with leading zeros.
pub(crate) proof fn lemma_zero_padded_value(number: nat, width: nat)
    ensures
        value_of(zero_padded(number, width), 10) == number,
{
    let digits = decimal(number);
    let zeros = if digits.len() < width {
        (width - digits.len()) as nat
    } else {
        0
    };
    lemma_decimal_value(number);
    lemma_zeros_add_nothing(Seq::new(zeros, |i: int| '0'), digits);
}

/// A number that is appended in decimal reads back as that number, in decimal digits, without
/// zeros in front of it, behind what stood there before.
pub proof fn law_decimal_reads_back(out: &mut String, number: u64)
    requires
        call_ensures(push_decimal, (out, number), ()),
    ensures
        ({
            let before = old(out)@.len() as int;
            let digits = final(out)@.skip(before);
            &&& final(out)@.len() > before
            &&& final(out)@.take(before) == old(out)@
            &&& value_of(digits, 10) == number
            &&& number > 0 ==> digits[0] != '0'
            &&& number == 0 ==> digits == seq!['0']
            &&& digits == decimal(number as nat)
            &&& forall|i: int| 0 <= i < digits.len() ==> '0' <= #[trigger] digits[i] <= '9'
        }),
{
    lemma_decimal_len(number as nat);
    lemma_decimal_value(number as nat);
    assert(final(out)@.skip(old(out)@.len() as int) =~= decimal(number as nat));
    assert(final(out)@.take(old(out)@.len() as int) =~= old(out)@);
}

/// A number that is appended with leading zeros reads back as that number, in decimal digits,
/// at least as many as asked for, and no more zeros than that takes.
pub proof fn law_padded_number_reads_back(out: &mut String, number: u64, width: usize)
    requires
        call_ensures(push_zero_padded, (out, number, width), ()),
    ensures
        ({
            let before = old(out)@.len() as int;
            let digits = final(out)@.skip(before);
            &&& final(out)@.len() > before
            &&& final(out)@.take(before) == old(out)@
            &&& value_of(digits, 10) == number
            &&& digits.len() >= width
            &&& digits.len() > width && digits.len() > 1 ==> digits[0] != '0'
            &&& forall|i: int| 0 <= i < digits.len() ==> '0' <= #[trigger] digits[i] <= '9'
        }),
{
    lemma_decimal_len(number as nat);
    lemma_decimal_value(number as nat);
    lemma_zero_padded_value(number as nat, width as nat);
    assert(final(out)@.skip(old(out)@.len() as int) =~= zero_padded(number as nat, width as nat));
    assert(final(out)@.take(old(out)@.len() as int) =~= old(out)@);
}

/// The value of a number in hexadecimal.
proof fn lemma_hexadecimal_value(number: nat)
    ensures
        hexadecimal(number).len() >= 1,
        value_of(hexadecimal(number), 16) == number,
        number > 0 ==> hexadecimal(number)[0] != '0',
        forall|i: int|
            0 <= i < hexadecimal(number).len() ==> {
                ||| '0' <= #[trigger] hexadecimal(number)[i] <= '9'
                ||| 'a' <= hexadecimal(number)[i] <= 'f'
            },
    decreases number,
{
    if number < 16 {
        assert(hexadecimal(number).drop_last() =~= Seq::empty());
        assert(value_of(Seq::empty(), 16) == 0);
    } else {
        lemma_hexadecimal_value(number / 16);
        assert(hexadecimal(number).drop_last() =~= hexadecimal(number / 16));
    }
}

/// A number that is appended in hexadecimal reads back as that number, in lower-case digits,
/// without zeros in front of it, behind what stood there before.
pub proof fn law_hexadecimal_reads_back(out: &mut String, number: u16)
    requires
        call_ensures(push_hexadecimal, (out, number), ()),
    ensures
        ({
            let before = old(out)@.len() as int;
            let digits = final(out)@.skip(before);
            &&& final(out)@.len() > before
            &&& final(out)@.take(before) == old(out)@
            &&& value_of(digits, 16) == number
            &&& number > 0 ==> digits[0] != '0'
            &&& number == 0 ==> digits == seq!['0']
            &&& digits == hexadecimal(number as nat)
            &&& forall|i: int|
                0 <= i < digits.len() ==> {
                    ||| '0' <= #[trigger] digits[i] <= '9'
                    ||| 'a' <= digits[i] <= 'f'
                }
        }),
{
    lemma_hexadecimal_value(number as nat);
    assert(final(out)@.skip(old(out)@.len() as int) =~= hexadecimal(number as nat));
    assert(final(out)@.take(old(out)@.len() as int) =~= old(out)@);
}

/// Two texts are told apart exactly where a character or the length differs.
pub proof fn law_texts_are_told_apart(left: &str, right: &str, same: bool)
    requires
        call_ensures(same_text, (left, right), same),
    ensures
        same <==> left@.len() == right@.len() && forall|i: int|
            0 <= i < left@.len() ==> #[trigger] left@[i] == right@[i],
{
    if left@.len() == right@.len() && forall|i: int|
        0 <= i < left@.len() ==> #[trigger] left@[i] == right@[i] {
        assert(left@ =~= right@);
    }
}

/// The value of an optional text is there exactly where the text is, with the same characters.
pub proof fn law_optional_text_is_the_text(some: String)
    ensures
        optional_text(Some(some)) == Some(some@),
        optional_text(None) is None,
{
}

} // verus!
