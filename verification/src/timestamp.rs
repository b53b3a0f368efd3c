//! UTC timestamps as RFC 3339 text with millisecond precision.

use vstd::prelude::*;

use crate::calendar::{self, civil_from_days};
use crate::text::{self, push_zero_padded};

verus! {

/// The clock of the operating system, read at one moment.
#[verifier::external_type_specification]
#[verifier::external_body]
pub struct ExSystemTime(std::time::SystemTime);

/// `SystemTime::now` reads the clock of the machine. Nothing is claimed of the reading.
pub assume_specification[ std::time::SystemTime::now ]() -> std::time::SystemTime;

/// `SystemTime::duration_since`, from the Unix epoch, as whole seconds and the milliseconds
/// of the second that has begun; `None` for a clock that stands before the epoch.
///
/// Claimed is that the milliseconds are less than a whole second. Which reading comes back
/// rests on the clock, and is left unsaid.
#[verifier::external_body]
fn since_unix_epoch(now: &std::time::SystemTime) -> (elapsed: Option<(u64, u32)>)
    ensures
        elapsed matches Some(time) ==> time.1 < 1_000,
{
    match now.duration_since(std::time::UNIX_EPOCH) {
        Ok(elapsed) => Some((elapsed.as_secs(), elapsed.subsec_millis())),
        Err(_) => None,
    }
}

/// The moment `unix_secs` seconds and `millis` milliseconds after 1970-01-01T00:00:00Z, as
/// RFC 3339 text. The year is taken as a 32-bit number.
pub open spec fn rfc3339_text(unix_secs: int, millis: nat) -> Seq<char> {
    let (year, month, day) = calendar::date_of_day(unix_secs / 86_400);
    let second_of_day = unix_secs % 86_400;
    text::signed_zero_padded((year as i32) as int, 4) + "-"@ + text::zero_padded(month as nat, 2)
        + "-"@ + text::zero_padded(day as nat, 2) + "T"@ + text::zero_padded(
        (second_of_day / 3_600) as nat,
        2,
    ) + ":"@ + text::zero_padded(((second_of_day % 3_600) / 60) as nat, 2) + ":"@
        + text::zero_padded((second_of_day % 60) as nat, 2) + "."@ + text::zero_padded(millis, 3)
        + "Z"@
}

/// What a clock reading is written as: the time elapsed since the Unix epoch, or the epoch
/// itself for a clock that stands before it. The seconds are taken as a signed number.
pub open spec fn reading_text(elapsed: Option<(u64, u32)>) -> Seq<char> {
    match elapsed {
        Some(time) => rfc3339_text((time.0 as i64) as int, time.1 as nat),
        None => rfc3339_text(0, 0),
    }
}

/// Whether `text` is what a reading of the machine's clock is written as: a reading that
/// `SystemTime::now` returned, as the time elapsed since the Unix epoch.
pub closed spec fn is_clock_text(text: Seq<char>) -> bool {
    exists|now: std::time::SystemTime, elapsed: Option<(u64, u32)>|
        {
            &&& #[trigger] call_ensures(std::time::SystemTime::now, (), now)
            &&& #[trigger] call_ensures(since_unix_epoch, (&now,), elapsed)
            &&& text == reading_text(elapsed)
        }
}

/// A clock reading is written as the timestamp of some moment, with milliseconds below a
/// thousand.
pub proof fn law_clock_text_is_a_timestamp(text: Seq<char>)
    requires
        is_clock_text(text),
    ensures
        exists|elapsed: Option<(u64, u32)>| #[trigger]
            reading_text(elapsed) == text && (elapsed matches Some(time) ==> time.1 < 1_000),
{
}

/// The moment `unix_secs` seconds and `millis` milliseconds after 1970-01-01T00:00:00Z.
pub fn rfc3339_millis(unix_secs: i64, millis: u32) -> (text: String)
    ensures
        text@ == rfc3339_text(unix_secs as int, millis as nat),
{
    let days: i64 = unix_secs.checked_div_euclid(86_400).unwrap();
    let tod: u32 = unix_secs.checked_rem_euclid(86_400).unwrap() as u32;
    proof {
        calendar::law_every_day_has_a_date(days as int);
    }
    let (year, month, day): (i32, u32, u32) = civil_from_days(days);
    let hour: u32 = tod / 3600;
    let minute: u32 = (tod % 3600) / 60;
    let second: u32 = tod % 60;
    let mut text: String = String::new();
    if year < 0 {
        text.append("-");
        proof {
            reveal_strlit("-");
        }
        push_zero_padded(&mut text, (-(year as i64)) as u64, 3);
    } else {
        push_zero_padded(&mut text, year as u64, 4);
    }
    assert(text@ =~= text::signed_zero_padded(year as int, 4));
    text.append("-");
    push_zero_padded(&mut text, month as u64, 2);
    text.append("-");
    push_zero_padded(&mut text, day as u64, 2);
    text.append("T");
    push_zero_padded(&mut text, hour as u64, 2);
    text.append(":");
    push_zero_padded(&mut text, minute as u64, 2);
    text.append(":");
    push_zero_padded(&mut text, second as u64, 2);
    text.append(".");
    push_zero_padded(&mut text, millis as u64, 3);
    text.append("Z");
    text
}

/// What a clock reading is written as: seconds and milliseconds since the Unix epoch, or
/// `None` for a clock that stands before the epoch.
pub fn timestamp_of_reading(elapsed: Option<(u64, u32)>) -> (text: String)
    ensures
        text@ == reading_text(elapsed),
{
    match elapsed {
        Some(time) => rfc3339_millis(time.0 as i64, time.1),
        None => rfc3339_millis(0, 0),
    }
}

/// The present moment, read from the clock of the machine.
pub fn utc_timestamp() -> (text: String)
    ensures
        is_clock_text(text@),
{
    let now = std::time::SystemTime::now();
    let elapsed: Option<(u64, u32)> = since_unix_epoch(&now);
    assert(call_ensures(std::time::SystemTime::now, (), now));
    assert(call_ensures(since_unix_epoch, (&now,), elapsed));
    timestamp_of_reading(elapsed)
}

/// A moment in the years 0000 to 9999, with its milliseconds.
pub open spec fn in_four_digit_years(unix_secs: int, millis: nat) -> bool {
    -62_167_219_200 <= unix_secs < 253_402_300_800 && millis < 1_000
}

/// A timestamp of the years 0000 to 9999 has the 24 characters of
/// `YYYY-MM-DDThh:mm:ss.mmmZ`, with decimal digits between the separators.
pub proof fn law_timestamp_has_fixed_form(unix_secs: int, millis: nat)
    requires
        in_four_digit_years(unix_secs, millis),
    ensures
        ({
            let text = rfc3339_text(unix_secs, millis);
            &&& text.len() == 24
            &&& text[4] == '-' && text[7] == '-' && text[10] == 'T'
            &&& text[13] == ':' && text[16] == ':' && text[19] == '.' && text[23] == 'Z'
            &&& forall|i: int|
                0 <= i < 23 && i != 4 && i != 7 && i != 10 && i != 13 && i != 16 && i != 19
                    ==> '0' <= #[trigger] text[i] <= '9'
        }),
{
    lemma_timestamp_fields(unix_secs, millis);
    let text = rfc3339_text(unix_secs, millis);
    assert forall|i: int|
        0 <= i < 23 && i != 4 && i != 7 && i != 10 && i != 13 && i != 16 && i != 19 implies '0'
        <= #[trigger] text[i] <= '9' by {
        if i < 4 {
            assert(text[i] == text.subrange(0, 4)[i]);
        } else if i < 7 {
            assert(text[i] == text.subrange(5, 7)[i - 5]);
        } else if i < 10 {
            assert(text[i] == text.subrange(8, 10)[i - 8]);
        } else if i < 13 {
            assert(text[i] == text.subrange(11, 13)[i - 11]);
        } else if i < 16 {
            assert(text[i] == text.subrange(14, 16)[i - 14]);
        } else if i < 19 {
            assert(text[i] == text.subrange(17, 19)[i - 17]);
        } else {
            assert(text[i] == text.subrange(20, 23)[i - 20]);
        }
    }
}

/// Timestamps have millisecond precision: two moments of the years 0000 to 9999 that are a
/// millisecond or more apart have different timestamps.
pub proof fn law_timestamps_tell_moments_apart(
    left_secs: int,
    left_millis: nat,
    right_secs: int,
    right_millis: nat,
)
    requires
        in_four_digit_years(left_secs, left_millis),
        in_four_digit_years(right_secs, right_millis),
        rfc3339_text(left_secs, left_millis) == rfc3339_text(right_secs, right_millis),
    ensures
        left_secs == right_secs,
        left_millis == right_millis,
{
    let left = calendar::date_of_day(left_secs / 86_400);
    let right = calendar::date_of_day(right_secs / 86_400);
    lemma_four_digit_year(left_secs, left_millis);
    lemma_four_digit_year(right_secs, right_millis);
    lemma_timestamp_fields(left_secs, left_millis);
    lemma_timestamp_fields(right_secs, right_millis);
    let left_tod: int = left_secs % 86_400;
    let right_tod: int = right_secs % 86_400;
    text::lemma_zero_padded_injective(left.0 as nat, right.0 as nat, 4);
    text::lemma_zero_padded_injective(left.1 as nat, right.1 as nat, 2);
    text::lemma_zero_padded_injective(left.2 as nat, right.2 as nat, 2);
    text::lemma_zero_padded_injective((left_tod / 3_600) as nat, (right_tod / 3_600) as nat, 2);
    text::lemma_zero_padded_injective(
        ((left_tod % 3_600) / 60) as nat,
        ((right_tod % 3_600) / 60) as nat,
        2,
    );
    text::lemma_zero_padded_injective((left_tod % 60) as nat, (right_tod % 60) as nat, 2);
    text::lemma_zero_padded_injective(left_millis, right_millis, 3);
    calendar::law_every_day_has_a_date(left_secs / 86_400);
    calendar::law_every_day_has_a_date(right_secs / 86_400);
}

/// Whether a text is made of `count` decimal digits.
spec fn are_digits(text: Seq<char>, count: nat) -> bool {
    text.len() == count && forall|i: int| 0 <= i < count ==> '0' <= #[trigger] text[i] <= '9'
}

/// Whether the first moment is earlier than the second.
pub open spec fn is_earlier(
    first_secs: int,
    first_millis: nat,
    second_secs: int,
    second_millis: nat,
) -> bool {
    first_secs < second_secs || (first_secs == second_secs && first_millis < second_millis)
}

/// Timestamps sort as the moments do: of two moments of the years 0000 to 9999, the earlier
/// one is the one whose timestamp comes first in the order of strings.
pub proof fn law_timestamps_sort_as_moments(
    first_secs: int,
    first_millis: nat,
    second_secs: int,
    second_millis: nat,
)
    requires
        in_four_digit_years(first_secs, first_millis),
        in_four_digit_years(second_secs, second_millis),
    ensures
        is_earlier(first_secs, first_millis, second_secs, second_millis) <==> text::comes_before(
            rfc3339_text(first_secs, first_millis),
            rfc3339_text(second_secs, second_millis),
        ),
{
    let first = rfc3339_text(first_secs, first_millis);
    let second = rfc3339_text(second_secs, second_millis);
    if is_earlier(first_secs, first_millis, second_secs, second_millis) {
        lemma_earlier_comes_before(first_secs, first_millis, second_secs, second_millis);
    } else if text::comes_before(first, second) {
        text::lemma_order_is_strict(first, second);
        if is_earlier(second_secs, second_millis, first_secs, first_millis) {
            lemma_earlier_comes_before(second_secs, second_millis, first_secs, first_millis);
        }
    }
}

/// The timestamp of an earlier moment comes first.
proof fn lemma_earlier_comes_before(
    first_secs: int,
    first_millis: nat,
    second_secs: int,
    second_millis: nat,
)
    requires
        in_four_digit_years(first_secs, first_millis),
        in_four_digit_years(second_secs, second_millis),
        is_earlier(first_secs, first_millis, second_secs, second_millis),
    ensures
        text::comes_before(
            rfc3339_text(first_secs, first_millis),
            rfc3339_text(second_secs, second_millis),
        ),
{
    let first = rfc3339_text(first_secs, first_millis);
    let second = rfc3339_text(second_secs, second_millis);
    let (y1, m1, d1) = calendar::date_of_day(first_secs / 86_400);
    let (y2, m2, d2) = calendar::date_of_day(second_secs / 86_400);
    let t1: int = first_secs % 86_400;
    let t2: int = second_secs % 86_400;
    lemma_timestamp_fields(first_secs, first_millis);
    lemma_timestamp_fields(second_secs, second_millis);
    lemma_four_digit_year(first_secs, first_millis);
    lemma_four_digit_year(second_secs, second_millis);
    calendar::law_every_day_has_a_date(first_secs / 86_400);
    calendar::law_every_day_has_a_date(second_secs / 86_400);
    calendar::law_dates_are_ordered(y1, m1, d1, y2, m2, d2);
    assert(first.take(0) =~= second.take(0));
    let h1: int = t1 / 3_600;
    let h2: int = t2 / 3_600;
    let min1: int = (t1 % 3_600) / 60;
    let min2: int = (t2 % 3_600) / 60;
    if y1 != y2 {
        lemma_field_decides(first, second, 0, y1 as nat, y2 as nat, 4);
    } else {
        lemma_prefix_grows(first, second, 0, 4);
        if m1 != m2 {
            lemma_field_decides(first, second, 5, m1 as nat, m2 as nat, 2);
        } else {
            lemma_prefix_grows(first, second, 5, 7);
            if d1 != d2 {
                lemma_field_decides(first, second, 8, d1 as nat, d2 as nat, 2);
            } else {
                assert(first_secs / 86_400 == second_secs / 86_400);
                lemma_prefix_grows(first, second, 8, 10);
                if h1 != h2 {
                    lemma_field_decides(first, second, 11, h1 as nat, h2 as nat, 2);
                } else {
                    lemma_prefix_grows(first, second, 11, 13);
                    if min1 != min2 {
                        lemma_field_decides(first, second, 14, min1 as nat, min2 as nat, 2);
                    } else {
                        lemma_prefix_grows(first, second, 14, 16);
                        if t1 != t2 {
                            lemma_field_decides(
                                first,
                                second,
                                17,
                                (t1 % 60) as nat,
                                (t2 % 60) as nat,
                                2,
                            );
                        } else {
                            lemma_prefix_grows(first, second, 17, 19);
                            lemma_field_decides(first, second, 20, first_millis, second_millis, 3);
                        }
                    }
                }
            }
        }
    }
}

/// Two texts that agree up to a field, in it and in the character behind it agree up to what
/// follows.
proof fn lemma_prefix_grows(first: Seq<char>, second: Seq<char>, from: int, to: int)
    requires
        0 <= from <= to < first.len(),
        first.len() == second.len(),
        first.take(from) == second.take(from),
        first.subrange(from, to) == second.subrange(from, to),
        first[to] == second[to],
    ensures
        first.take(to + 1) == second.take(to + 1),
{
    assert forall|i: int| 0 <= i < to + 1 implies #[trigger] first[i] == second[i] by {
        if i < from {
            assert(first[i] == first.take(from)[i]);
            assert(second[i] == second.take(from)[i]);
        } else if i < to {
            assert(first[i] == first.subrange(from, to)[i - from]);
            assert(second[i] == second.subrange(from, to)[i - from]);
        }
    }
    assert(first.take(to + 1) =~= second.take(to + 1));
}

/// Two texts that agree up to a field are ordered as the numbers in it.
proof fn lemma_field_decides(
    first: Seq<char>,
    second: Seq<char>,
    from: int,
    left: nat,
    right: nat,
    width: nat,
)
    requires
        0 <= from,
        width >= 1,
        from + width <= first.len(),
        first.len() == second.len(),
        first.take(from) == second.take(from),
        first.subrange(from, from + width) == text::zero_padded(left, width),
        second.subrange(from, from + width) == text::zero_padded(right, width),
        left < right,
    ensures
        text::comes_before(first, second),
{
    let a = text::zero_padded(left, width);
    let b = text::zero_padded(right, width);
    text::lemma_zero_padded_ordered(left, right, width);
    let i = choose|i: int|
        0 <= i <= a.len() && i < b.len() && #[trigger] a.take(i) == b.take(i) && (i == a.len()
            || a[i] < b[i]);
    assert forall|k: int| 0 <= k < from + i implies #[trigger] first[k] == second[k] by {
        if k < from {
            assert(first[k] == first.take(from)[k]);
            assert(second[k] == second.take(from)[k]);
        } else {
            assert(first[k] == a[k - from]);
            assert(second[k] == b[k - from]);
            assert(a[k - from] == a.take(i)[k - from]);
            assert(b[k - from] == b.take(i)[k - from]);
        }
    }
    assert(first.take(from + i) =~= second.take(from + i));
    assert(first[from + i] == a[i]);
    assert(second[from + i] == b[i]);
}

/// The date of a moment in the years 0000 to 9999.
proof fn lemma_four_digit_year(unix_secs: int, millis: nat)
    requires
        in_four_digit_years(unix_secs, millis),
    ensures
        ({
            let (year, month, day) = calendar::date_of_day(unix_secs / 86_400);
            0 <= year < 10_000 && 1 <= month <= 12 && 1 <= day <= 31
        }),
{
    let days: int = unix_secs / 86_400;
    let (year, month, day) = calendar::date_of_day(days);
    calendar::law_every_day_has_a_date(days);
    assert(calendar::days_before_month(0, 1) == 0 && calendar::days_before_month(10_000, 1) == 0);
    calendar::law_dates_are_ordered(year, month, day, 0, 1, 1);
    calendar::law_dates_are_ordered(year, month, day, 10_000, 1, 1);
}

/// Where the numbers stand in a timestamp of the years 0000 to 9999.
proof fn lemma_timestamp_fields(unix_secs: int, millis: nat)
    requires
        in_four_digit_years(unix_secs, millis),
    ensures
        ({
            let text = rfc3339_text(unix_secs, millis);
            let (year, month, day) = calendar::date_of_day(unix_secs / 86_400);
            let tod = unix_secs % 86_400;
            &&& text.subrange(0, 4) == text::zero_padded(year as nat, 4)
            &&& text.subrange(5, 7) == text::zero_padded(month as nat, 2)
            &&& text.subrange(8, 10) == text::zero_padded(day as nat, 2)
            &&& text.subrange(11, 13) == text::zero_padded((tod / 3_600) as nat, 2)
            &&& text.subrange(14, 16) == text::zero_padded(((tod % 3_600) / 60) as nat, 2)
            &&& text.subrange(17, 19) == text::zero_padded((tod % 60) as nat, 2)
            &&& text.subrange(20, 23) == text::zero_padded(millis, 3)
            &&& text.len() == 24
            &&& text[4] == '-' && text[7] == '-' && text[10] == 'T'
            &&& text[13] == ':' && text[16] == ':' && text[19] == '.' && text[23] == 'Z'
            &&& are_digits(text::zero_padded(year as nat, 4), 4)
            &&& are_digits(text::zero_padded(month as nat, 2), 2)
            &&& are_digits(text::zero_padded(day as nat, 2), 2)
            &&& are_digits(text::zero_padded((tod / 3_600) as nat, 2), 2)
            &&& are_digits(text::zero_padded(((tod % 3_600) / 60) as nat, 2), 2)
            &&& are_digits(text::zero_padded((tod % 60) as nat, 2), 2)
            &&& are_digits(text::zero_padded(millis, 3), 3)
        }),
{
    lemma_four_digit_year(unix_secs, millis);
    let text = rfc3339_text(unix_secs, millis);
    let (year, month, day) = calendar::date_of_day(unix_secs / 86_400);
    let tod: int = unix_secs % 86_400;
    lemma_padded_digits(year as nat, 4);
    lemma_padded_digits(month as nat, 2);
    lemma_padded_digits(day as nat, 2);
    lemma_padded_digits((tod / 3_600) as nat, 2);
    lemma_padded_digits(((tod % 3_600) / 60) as nat, 2);
    lemma_padded_digits((tod % 60) as nat, 2);
    lemma_padded_digits(millis, 3);
    reveal_strlit("-");
    reveal_strlit("T");
    reveal_strlit(":");
    reveal_strlit(".");
    reveal_strlit("Z");
    assert(text.subrange(0, 4) =~= text::zero_padded(year as nat, 4));
    assert(text.subrange(5, 7) =~= text::zero_padded(month as nat, 2));
    assert(text.subrange(8, 10) =~= text::zero_padded(day as nat, 2));
    assert(text.subrange(11, 13) =~= text::zero_padded((tod / 3_600) as nat, 2));
    assert(text.subrange(14, 16) =~= text::zero_padded(((tod % 3_600) / 60) as nat, 2));
    assert(text.subrange(17, 19) =~= text::zero_padded((tod % 60) as nat, 2));
    assert(text.subrange(20, 23) =~= text::zero_padded(millis, 3));
}

/// A number that fits is padded to digits of exactly the asked length.
proof fn lemma_padded_digits(number: nat, width: nat)
    requires
        width == 2 && number < 100 || width == 3 && number < 1_000 || width == 4 && number < 10_000,
    ensures
        are_digits(text::zero_padded(number, width), width),
{
    text::lemma_decimal_len(number);
}

/// A timestamp of the years 0000 to 9999 reads back as its moment: its date and its time of day
/// are those that lie the given number of seconds after 1970-01-01T00:00:00Z, and its
/// milliseconds are those given.
pub proof fn law_timestamp_reads_back(unix_secs: i64, millis: u32, text: String)
    requires
        call_ensures(rfc3339_millis, (unix_secs, millis), text),
        -62_167_219_200 <= unix_secs < 253_402_300_800,
        millis < 1_000,
    ensures
        ({
            let year = text::value_of(text@.subrange(0, 4), 10);
            let month = text::value_of(text@.subrange(5, 7), 10);
            let day = text::value_of(text@.subrange(8, 10), 10);
            let hour = text::value_of(text@.subrange(11, 13), 10);
            let minute = text::value_of(text@.subrange(14, 16), 10);
            let second = text::value_of(text@.subrange(17, 19), 10);
            &&& calendar::is_date(year, month, day)
            &&& 0 <= hour < 24 && 0 <= minute < 60 && 0 <= second < 60
            &&& calendar::day_number(year, month, day) * 86_400 + hour * 3_600 + minute * 60
                + second == unix_secs
            &&& text::value_of(text@.subrange(20, 23), 10) == millis
            &&& text@.len() == 24
            &&& text@[4] == '-' && text@[7] == '-' && text@[10] == 'T'
            &&& text@[13] == ':' && text@[16] == ':' && text@[19] == '.' && text@[23] == 'Z'
        }),
{
    let secs: int = unix_secs as int;
    lemma_field_values(secs, millis as nat);
    lemma_moment_adds_up(secs);
}

/// The numbers in the fields of a timestamp of the years 0000 to 9999.
proof fn lemma_field_values(unix_secs: int, millis: nat)
    requires
        in_four_digit_years(unix_secs, millis),
    ensures
        ({
            let text = rfc3339_text(unix_secs, millis);
            let (year, month, day) = calendar::date_of_day(unix_secs / 86_400);
            let tod = unix_secs % 86_400;
            &&& text::value_of(text.subrange(0, 4), 10) == year
            &&& text::value_of(text.subrange(5, 7), 10) == month
            &&& text::value_of(text.subrange(8, 10), 10) == day
            &&& text::value_of(text.subrange(11, 13), 10) == tod / 3_600
            &&& text::value_of(text.subrange(14, 16), 10) == (tod % 3_600) / 60
            &&& text::value_of(text.subrange(17, 19), 10) == tod % 60
            &&& text::value_of(text.subrange(20, 23), 10) == millis
            &&& text.len() == 24
            &&& text[4] == '-' && text[7] == '-' && text[10] == 'T'
            &&& text[13] == ':' && text[16] == ':' && text[19] == '.' && text[23] == 'Z'
        }),
{
    let tod: int = unix_secs % 86_400;
    let (year, month, day) = calendar::date_of_day(unix_secs / 86_400);
    lemma_four_digit_year(unix_secs, millis);
    lemma_timestamp_fields(unix_secs, millis);
    text::lemma_zero_padded_value(year as nat, 4);
    text::lemma_zero_padded_value(month as nat, 2);
    text::lemma_zero_padded_value(day as nat, 2);
    text::lemma_zero_padded_value((tod / 3_600) as nat, 2);
    text::lemma_zero_padded_value(((tod % 3_600) / 60) as nat, 2);
    text::lemma_zero_padded_value((tod % 60) as nat, 2);
    text::lemma_zero_padded_value(millis, 3);
}

/// The date and the time of day of a moment add up to it.
proof fn lemma_moment_adds_up(unix_secs: int)
    ensures
        ({
            let (year, month, day) = calendar::date_of_day(unix_secs / 86_400);
            let tod = unix_secs % 86_400;
            &&& calendar::is_date(year, month, day)
            &&& 0 <= tod / 3_600 < 24 && 0 <= (tod % 3_600) / 60 < 60 && 0 <= tod % 60 < 60
            &&& calendar::day_number(year, month, day) * 86_400 + (tod / 3_600) * 3_600 + ((tod
                % 3_600) / 60) * 60 + tod % 60 == unix_secs
        }),
{
    calendar::law_every_day_has_a_date(unix_secs / 86_400);
    let tod: int = unix_secs % 86_400;
    assert((tod / 3_600) * 3_600 + ((tod % 3_600) / 60) * 60 + tod % 60 == tod);
}

/// A reading of the clock is written as the timestamp of the time elapsed, and one that lies
/// before the epoch as the epoch.
pub proof fn law_reading_is_written_as_its_moment(
    seconds: u64,
    millis: u32,
    text: String,
    moment: String,
    before: String,
    epoch: String,
)
    requires
        seconds <= i64::MAX,
        call_ensures(timestamp_of_reading, (Some((seconds, millis)),), text),
        call_ensures(rfc3339_millis, (seconds as i64, millis), moment),
        call_ensures(timestamp_of_reading, (None,), before),
        call_ensures(rfc3339_millis, (0, 0), epoch),
    ensures
        text@ == moment@,
        before@ == epoch@,
{
}

/// The text of a clock reading was read from the clock: it is written from what
/// `SystemTime::now` returned, as the time elapsed since the Unix epoch.
proof fn law_clock_text_is_read_from_the_clock(text: Seq<char>)
    requires
        is_clock_text(text),
    ensures
        exists|now: std::time::SystemTime, elapsed: Option<(u64, u32)>|
            {
                &&& #[trigger] call_ensures(std::time::SystemTime::now, (), now)
                &&& #[trigger] call_ensures(since_unix_epoch, (&now,), elapsed)
                &&& text == reading_text(elapsed)
            },
{
}

/// A timestamp of any year ends with the month, the day and the time of day, of two digits each,
/// and the milliseconds, and starts with the year, of at least four characters, with a minus
/// sign in front where it is negative.
pub proof fn law_timestamp_of_any_year_reads_back(
    unix_secs: i64,
    millis: u32,
    text: String,
    date: (i32, u32, u32),
)
    requires
        call_ensures(rfc3339_millis, (unix_secs, millis), text),
        call_ensures(civil_from_days, ((unix_secs as int / 86_400) as i64,), date),
        millis < 1_000,
    ensures
        ({
            let at = text@.len() - 20;
            let year = text@.take(at);
            let tod = unix_secs as int % 86_400;
            &&& at >= 4
            &&& year[0] == '-' <==> date.0 < 0
            &&& date.0 >= 0 ==> text::value_of(year, 10) == date.0
            &&& date.0 < 0 ==> text::value_of(year.skip(1), 10) == -date.0
            &&& text::value_of(text@.subrange(at + 1, at + 3), 10) == date.1
            &&& text::value_of(text@.subrange(at + 4, at + 6), 10) == date.2
            &&& text::value_of(text@.subrange(at + 7, at + 9), 10) == tod / 3_600
            &&& text::value_of(text@.subrange(at + 10, at + 12), 10) == (tod % 3_600) / 60
            &&& text::value_of(text@.subrange(at + 13, at + 15), 10) == tod % 60
            &&& text::value_of(text@.subrange(at + 16, at + 19), 10) == millis
            &&& text@[at] == '-' && text@[at + 3] == '-' && text@[at + 6] == 'T'
            &&& text@[at + 9] == ':' && text@[at + 12] == ':' && text@[at + 15] == '.'
            &&& text@[at + 19] == 'Z'
        }),
{
    let secs: int = unix_secs as int;
    let days: int = secs / 86_400;
    let tod: int = secs % 86_400;
    calendar::law_every_day_has_a_date(days);
    let (year, month, day) = calendar::date_of_day(days);
    let written = (year as i32) as int;
    let year_text = text::signed_zero_padded(written, 4);
    let tail = tail_text(month as nat, day as nat, tod, millis as nat);
    assert(text@ == year_text + tail) by {
        lemma_text_splits(secs, millis as nat);
    }
    lemma_tail_fields(year_text, month as nat, day as nat, tod, millis as nat);
    lemma_year_value(written);
    assert(text@.take(text@.len() - 20) =~= year_text);
}

/// A timestamp is its year and what follows it.
proof fn lemma_text_splits(unix_secs: int, millis: nat)
    ensures
        ({
            let (year, month, day) = calendar::date_of_day(unix_secs / 86_400);
            rfc3339_text(unix_secs, millis) == text::signed_zero_padded((year as i32) as int, 4)
                + tail_text(month as nat, day as nat, unix_secs % 86_400, millis)
        }),
{
    let (year, month, day) = calendar::date_of_day(unix_secs / 86_400);
    let tod: int = unix_secs % 86_400;
    reveal(tail_text);
    lemma_regroup(
        text::signed_zero_padded((year as i32) as int, 4),
        seq![
            "-"@,
            text::zero_padded(month as nat, 2),
            "-"@,
            text::zero_padded(day as nat, 2),
            "T"@,
            text::zero_padded((tod / 3_600) as nat, 2),
            ":"@,
            text::zero_padded(((tod % 3_600) / 60) as nat, 2),
            ":"@,
            text::zero_padded((tod % 60) as nat, 2),
            "."@,
            text::zero_padded(millis, 3),
            "Z"@,
        ],
    );
}

/// Thirteen texts that are put one by one behind a first text are put behind it as one.
proof fn lemma_regroup(first: Seq<char>, parts: Seq<Seq<char>>)
    requires
        parts.len() == 13,
    ensures
        first + parts[0] + parts[1] + parts[2] + parts[3] + parts[4] + parts[5] + parts[6]
            + parts[7] + parts[8] + parts[9] + parts[10] + parts[11] + parts[12] == first + (
        parts[0] + parts[1] + parts[2] + parts[3] + parts[4] + parts[5] + parts[6] + parts[7]
            + parts[8] + parts[9] + parts[10] + parts[11] + parts[12]),
{
    let t1 = parts[0] + parts[1];
    let t2 = t1 + parts[2];
    let t3 = t2 + parts[3];
    let t4 = t3 + parts[4];
    let t5 = t4 + parts[5];
    let t6 = t5 + parts[6];
    let t7 = t6 + parts[7];
    let t8 = t7 + parts[8];
    let t9 = t8 + parts[9];
    let t10 = t9 + parts[10];
    let t11 = t10 + parts[11];
    lemma_associative(first, parts[0], parts[1]);
    lemma_associative(first, t1, parts[2]);
    lemma_associative(first, t2, parts[3]);
    lemma_associative(first, t3, parts[4]);
    lemma_associative(first, t4, parts[5]);
    lemma_associative(first, t5, parts[6]);
    lemma_associative(first, t6, parts[7]);
    lemma_associative(first, t7, parts[8]);
    lemma_associative(first, t8, parts[9]);
    lemma_associative(first, t9, parts[10]);
    lemma_associative(first, t10, parts[11]);
    lemma_associative(first, t11, parts[12]);
}

/// Putting texts behind each other is associative.
proof fn lemma_associative(a: Seq<char>, b: Seq<char>, c: Seq<char>)
    ensures
        a + (b + c) == a + b + c,
{
    assert(a + (b + c) =~= a + b + c);
}

/// What follows the year in a timestamp.
#[verifier::opaque]
spec fn tail_text(month: nat, day: nat, tod: int, millis: nat) -> Seq<char> {
    "-"@ + text::zero_padded(month, 2) + "-"@ + text::zero_padded(day, 2) + "T"@
        + text::zero_padded((tod / 3_600) as nat, 2) + ":"@ + text::zero_padded(
        ((tod % 3_600) / 60) as nat,
        2,
    ) + ":"@ + text::zero_padded((tod % 60) as nat, 2) + "."@ + text::zero_padded(millis, 3)
        + "Z"@
}

/// The value of a year with a sign.
proof fn lemma_year_value(year: int)
    ensures
        ({
            let shown = text::signed_zero_padded(year, 4);
            &&& shown.len() >= 4
            &&& shown[0] == '-' <==> year < 0
            &&& year >= 0 ==> text::value_of(shown, 10) == year
            &&& year < 0 ==> text::value_of(shown.skip(1), 10) == -year
        }),
{
    let shown = text::signed_zero_padded(year, 4);
    if year < 0 {
        text::lemma_zero_padded_value((-year) as nat, 3);
        text::lemma_decimal_len((-year) as nat);
        assert(shown.skip(1) =~= text::zero_padded((-year) as nat, 3));
    } else {
        text::lemma_zero_padded_value(year as nat, 4);
        text::lemma_decimal_len(year as nat);
    }
}

/// The fields that follow the year, behind any text.
proof fn lemma_tail_fields(start: Seq<char>, month: nat, day: nat, tod: int, millis: nat)
    requires
        month < 100,
        day < 100,
        0 <= tod < 86_400,
        millis < 1_000,
    ensures
        ({
            let tail = tail_text(month, day, tod, millis);
            let whole = start + tail;
            let at = start.len() as int;
            &&& tail.len() == 20
            &&& text::value_of(whole.subrange(at + 1, at + 3), 10) == month
            &&& text::value_of(whole.subrange(at + 4, at + 6), 10) == day
            &&& text::value_of(whole.subrange(at + 7, at + 9), 10) == tod / 3_600
            &&& text::value_of(whole.subrange(at + 10, at + 12), 10) == (tod % 3_600) / 60
            &&& text::value_of(whole.subrange(at + 13, at + 15), 10) == tod % 60
            &&& text::value_of(whole.subrange(at + 16, at + 19), 10) == millis
            &&& whole[at] == '-' && whole[at + 3] == '-' && whole[at + 6] == 'T'
            &&& whole[at + 9] == ':' && whole[at + 12] == ':' && whole[at + 15] == '.'
            &&& whole[at + 19] == 'Z'
        }),
{
    let hour = (tod / 3_600) as nat;
    let minute = ((tod % 3_600) / 60) as nat;
    let second = (tod % 60) as nat;
    lemma_padded_digits(month, 2);
    lemma_padded_digits(day, 2);
    lemma_padded_digits(hour, 2);
    lemma_padded_digits(minute, 2);
    lemma_padded_digits(second, 2);
    lemma_padded_digits(millis, 3);
    reveal_strlit("-");
    reveal_strlit("T");
    reveal_strlit(":");
    reveal_strlit(".");
    reveal_strlit("Z");
    reveal(tail_text);
    let whole = start + tail_text(month, day, tod, millis);
    let at = start.len() as int;
    assert(whole.subrange(at + 1, at + 3) =~= text::zero_padded(month, 2));
    assert(whole.subrange(at + 4, at + 6) =~= text::zero_padded(day, 2));
    assert(whole.subrange(at + 7, at + 9) =~= text::zero_padded(hour, 2));
    assert(whole.subrange(at + 10, at + 12) =~= text::zero_padded(minute, 2));
    assert(whole.subrange(at + 13, at + 15) =~= text::zero_padded(second, 2));
    assert(whole.subrange(at + 16, at + 19) =~= text::zero_padded(millis, 3));
    text::lemma_zero_padded_value(month, 2);
    text::lemma_zero_padded_value(day, 2);
    text::lemma_zero_padded_value(hour, 2);
    text::lemma_zero_padded_value(minute, 2);
    text::lemma_zero_padded_value(second, 2);
    text::lemma_zero_padded_value(millis, 3);
}

} // verus!
