//! The proleptic Gregorian calendar, and the date on which a given day falls.

use vstd::prelude::*;

verus! {

/// Days from 0001-01-01 to 1970-01-01.
pub const DAYS_TO_UNIX_EPOCH: i64 = 719_162;

/// Days from 0000-03-01 to 1970-01-01.
pub const DAYS_FROM_MARCH_EPOCH: i64 = 719_468;

/// Whether `year` has a 29 February.
pub open spec fn is_leap(year: int) -> bool {
    year % 4 == 0 && (year % 100 != 0 || year % 400 == 0)
}

/// Number of days in `year`.
pub open spec fn days_in_year(year: int) -> int {
    if is_leap(year) {
        366
    } else {
        365
    }
}

/// Number of days in `month` (1 is January) of `year`.
pub open spec fn days_in_month(year: int, month: int) -> int {
    if month == 2 {
        if is_leap(year) {
            29
        } else {
            28
        }
    } else if month == 4 || month == 6 || month == 9 || month == 11 {
        30
    } else {
        31
    }
}

/// Whether the calendar has the date `year`-`month`-`day`.
pub open spec fn is_date(year: int, month: int, day: int) -> bool {
    1 <= month <= 12 && 1 <= day <= days_in_month(year, month)
}

/// Days from 0001-01-01 to the first day of `year`; negative for earlier years.
pub open spec fn days_before_year(year: int) -> int {
    365 * (year - 1) + (year - 1) / 4 - (year - 1) / 100 + (year - 1) / 400
}

/// Days from the first day of `year` to the first day of its `month`.
pub open spec fn days_before_month(year: int, month: int) -> int
    decreases month,
{
    if month <= 1 {
        0
    } else {
        days_before_month(year, month - 1) + days_in_month(year, month - 1)
    }
}

/// Days from 1970-01-01 to `year`-`month`-`day`; negative for earlier dates.
pub open spec fn day_number(year: int, month: int, day: int) -> int {
    days_before_year(year) + days_before_month(year, month) + (day - 1) - DAYS_TO_UNIX_EPOCH
}

/// The date, as year, month and day, that lies `days` days after 1970-01-01.
pub open spec fn date_of_day(days: int) -> (int, int, int) {
    choose|date: (int, int, int)| #[trigger]
        is_date(date.0, date.1, date.2) && day_number(date.0, date.1, date.2) == days
}

/// The months before each month, added up.
proof fn lemma_month_starts(year: int)
    ensures
        days_before_month(year, 1) == 0,
        days_before_month(year, 2) == 31,
        days_before_month(year, 3) == 31 + days_in_month(year, 2),
        days_before_month(year, 4) == 62 + days_in_month(year, 2),
        days_before_month(year, 5) == 92 + days_in_month(year, 2),
        days_before_month(year, 6) == 123 + days_in_month(year, 2),
        days_before_month(year, 7) == 153 + days_in_month(year, 2),
        days_before_month(year, 8) == 184 + days_in_month(year, 2),
        days_before_month(year, 9) == 215 + days_in_month(year, 2),
        days_before_month(year, 10) == 245 + days_in_month(year, 2),
        days_before_month(year, 11) == 276 + days_in_month(year, 2),
        days_before_month(year, 12) == 306 + days_in_month(year, 2),
{
    reveal_with_fuel(days_before_month, 13);
}

/// A quotient grows by one exactly at the multiples of the divisor.
proof fn lemma_multiples_step(n: int, divisor: int)
    requires
        divisor > 1,
    ensures
        n / divisor - (n - 1) / divisor == if n % divisor == 0 {
            1int
        } else {
            0int
        },
{
    let q: int = n / divisor;
    let r: int = n % divisor;
    vstd::arithmetic::div_mod::lemma_fundamental_div_mod(n, divisor);
    vstd::arithmetic::div_mod::lemma_mod_bound(n, divisor);
    vstd::arithmetic::mul::lemma_mul_is_commutative(divisor, q);
    if r == 0 {
        assert(n - 1 == (q - 1) * divisor + (divisor - 1)) by (nonlinear_arith)
            requires
                n == q * divisor,
        ;
        vstd::arithmetic::div_mod::lemma_fundamental_div_mod_converse(
            n - 1,
            divisor,
            q - 1,
            divisor - 1,
        );
    } else {
        vstd::arithmetic::div_mod::lemma_fundamental_div_mod_converse(n - 1, divisor, q, r - 1);
    }
}

/// The first day of a year comes right after the last day of the year before.
pub proof fn law_years_are_consecutive(year: int)
    ensures
        days_before_year(year + 1) == days_before_year(year) + days_in_year(year),
        days_before_month(year, 12) + days_in_month(year, 12) == days_in_year(year),
{
    lemma_month_starts(year);
    lemma_multiples_step(year, 4);
    lemma_multiples_step(year, 100);
    lemma_multiples_step(year, 400);
    assert(year % 400 == 0 ==> year % 100 == 0 && year % 4 == 0);
    assert(year % 100 == 0 ==> year % 4 == 0);
}

/// The year of a 400-year era, counted from 1 March, that holds the day `doe` of that era.
proof fn lemma_year_of_era(doe: int, yoe: int)
    requires
        0 <= doe < 146_097,
        yoe == (doe - doe / 1_460 + doe / 36_524 - doe / 146_096) / 365,
    ensures
        0 <= yoe < 400,
        ({
            let doy = doe - (365 * yoe + yoe / 4 - yoe / 100);
            &&& 0 <= doy <= 365
            &&& doy == 365 ==> is_leap(yoe + 1)
        }),
{
    let c: int = if doe / 36_524 >= 3 { 3 } else { doe / 36_524 };
    let r: int = doe - 36_524 * c;
    let k: int = r / 1_461;
    let s: int = r - 1_461 * k;
    let j: int = if s / 365 >= 3 { 3 } else { s / 365 };
    let t: int = s - 365 * j;
    assert(0 <= c <= 3 && 0 <= k <= 24 && 0 <= j <= 3 && 0 <= t <= 365);
    assert(t == 365 ==> j == 3);
    assert(doe / 36_524 - doe / 146_096 == c);
    let carry: int = if 24 * c + k + 365 * j + t >= 1_460 { 1 } else { 0 };
    assert(doe / 1_460 == 25 * c + k + carry);
    assert(yoe == 100 * c + 4 * k + j);
    assert(yoe / 100 == c);
    assert(yoe / 4 == 25 * c + k);
    if t == 365 {
        assert(yoe + 1 == 100 * c + 4 * (k + 1));
        assert(k == 24 ==> c == 3);
    }
}

/// The month, counted from March, and the day in it that the day `doy` of a year falls on.
proof fn lemma_month_of_year(doy: int, mp: int, first: int)
    requires
        0 <= doy <= 365,
        mp == (5 * doy + 2) / 153,
        first == (153 * mp + 2) / 5,
    ensures
        0 <= mp <= 11,
        first <= doy,
        mp == 0 ==> first == 0 && doy < 31,
        mp == 1 ==> first == 31 && doy < 61,
        mp == 2 ==> first == 61 && doy < 92,
        mp == 3 ==> first == 92 && doy < 122,
        mp == 4 ==> first == 122 && doy < 153,
        mp == 5 ==> first == 153 && doy < 184,
        mp == 6 ==> first == 184 && doy < 214,
        mp == 7 ==> first == 214 && doy < 245,
        mp == 8 ==> first == 245 && doy < 275,
        mp == 9 ==> first == 275 && doy < 306,
        mp == 10 ==> first == 306 && doy < 337,
        mp == 11 ==> first == 337 && doy < 366,
{
}

/// Days from 0000-03-01 to 1 March of `year`.
proof fn lemma_march_first(year: int)
    ensures
        days_before_year(year) + 31 + days_in_month(year, 2) + 306 == 365 * year + year / 4 - year
            / 100 + year / 400,
{
    law_years_are_consecutive(year);
}

/// Days from 0000-03-01 to 1 March of the year `yoe` of the era `era`.
proof fn lemma_era_start(era: int, yoe: int)
    requires
        0 <= yoe < 400,
    ensures
        ({
            let year = yoe + era * 400;
            &&& 365 * year + year / 4 - year / 100 + year / 400 == 146_097 * era + 365 * yoe + yoe
                / 4 - yoe / 100
            &&& is_leap(year + 1) == is_leap(yoe + 1)
        }),
{
    let year: int = yoe + era * 400;
    assert(year / 4 == 100 * era + yoe / 4);
    assert(year / 100 == 4 * era + yoe / 100);
    assert(year / 400 == era);
    assert((year + 1) % 4 == (yoe + 1) % 4);
    assert((year + 1) % 100 == (yoe + 1) % 100);
    assert((year + 1) % 400 == (yoe + 1) % 400);
}

/// The day `doy`, counted from 1 March of `march_year`, as a date.
proof fn lemma_date_from_march(march_year: int, doy: int, mp: int, date: (int, int, int))
    requires
        0 <= doy <= 365,
        doy == 365 ==> is_leap(march_year + 1),
        mp == (5 * doy + 2) / 153,
        date.2 == doy - (153 * mp + 2) / 5 + 1,
        date.1 == if mp < 10 { mp + 3 } else { mp - 9 },
        date.0 == if date.1 <= 2 { march_year + 1 } else { march_year },
    ensures
        is_date(date.0, date.1, date.2),
        days_before_year(date.0) + days_before_month(date.0, date.1) + date.2 - 1
            == days_before_year(march_year) + 31 + days_in_month(march_year, 2) + doy,
{
    lemma_month_of_year(doy, mp, (153 * mp + 2) / 5);
    lemma_month_starts(date.0);
    lemma_month_starts(march_year);
    law_years_are_consecutive(march_year);
}

/// The date of the day that is day `doe` of the era `era`.
proof fn lemma_civil_date(days: int, era: int, doe: int) -> (date: (int, int, int))
    requires
        days + DAYS_FROM_MARCH_EPOCH == era * 146_097 + doe,
        0 <= doe < 146_097,
    ensures
        is_date(date.0, date.1, date.2),
        day_number(date.0, date.1, date.2) == days,
        date == civil_formula(era, doe),
{
    let date: (int, int, int) = civil_formula(era, doe);
    let yoe: int = (doe - doe / 1_460 + doe / 36_524 - doe / 146_096) / 365;
    let doy: int = doe - (365 * yoe + yoe / 4 - yoe / 100);
    lemma_year_of_era(doe, yoe);
    lemma_era_start(era, yoe);
    lemma_march_first(yoe + era * 400);
    lemma_date_from_march(yoe + era * 400, doy, (5 * doy + 2) / 153, date);
    date
}

/// What the arithmetic on days of an era gives as year, month and day.
spec fn civil_formula(era: int, doe: int) -> (int, int, int) {
    let yoe = (doe - doe / 1_460 + doe / 36_524 - doe / 146_096) / 365;
    let doy = doe - (365 * yoe + yoe / 4 - yoe / 100);
    let mp = (5 * doy + 2) / 153;
    let month = if mp < 10 {
        mp + 3
    } else {
        mp - 9
    };
    let march_year = yoe + era * 400;
    (
        if month <= 2 {
            march_year + 1
        } else {
            march_year
        },
        month,
        doy - (153 * mp + 2) / 5 + 1,
    )
}

/// The civil date that lies `z` days after 1970-01-01, as year, month and day.
///
/// Days are grouped into eras of 400 years that start on 1 March, so that a leap day is
/// the last day of its year. The year is reduced to 32 bits.
pub fn civil_from_days(z: i64) -> (date: (i32, u32, u32))
    requires
        z + DAYS_FROM_MARCH_EPOCH <= i64::MAX,
    ensures
        date.0 == date_of_day(z as int).0 as i32,
        date.1 == date_of_day(z as int).1,
        date.2 == date_of_day(z as int).2,
{
    let ghost days: int = z as int;
    let z: i64 = z + DAYS_FROM_MARCH_EPOCH;
    let era: i64 = z.checked_div_euclid(146_097).unwrap();
    let doe: u32 = (z - era * 146_097) as u32;
    let yoe: u32 = (doe - doe / 1_460 + doe / 36_524 - doe / 146_096) / 365;
    proof {
        lemma_year_of_era(doe as int, yoe as int);
        let found = lemma_civil_date(days, era as int, doe as int);
        law_date_is_determined(days, found.0, found.1, found.2);
    }
    let y: i64 = yoe as i64 + era * 400;
    let doy: u32 = doe - (365 * yoe + yoe / 4 - yoe / 100);
    let mp: u32 = (5 * doy + 2) / 153;
    proof {
        lemma_month_of_year(doy as int, mp as int, (153 * mp + 2) / 5);
    }
    let d: u32 = doy - (153 * mp + 2) / 5 + 1;
    let m: u32 = if mp < 10 {
        mp + 3
    } else {
        mp - 9
    };
    let y: i64 = if m <= 2 {
        y + 1
    } else {
        y
    };
    (y as i32, m, d)
}

/// Every day falls on exactly one date.
pub proof fn law_date_is_determined(days: int, year: int, month: int, day: int)
    requires
        is_date(year, month, day),
        day_number(year, month, day) == days,
    ensures
        date_of_day(days) == (year, month, day),
{
    let date: (int, int, int) = (year, month, day);
    assert(is_date(date.0, date.1, date.2) && day_number(date.0, date.1, date.2) == days);
    let other: (int, int, int) = date_of_day(days);
    assert(is_date(other.0, other.1, other.2) && day_number(other.0, other.1, other.2) == days);
    law_dates_are_ordered(year, month, day, other.0, other.1, other.2);
    law_dates_are_ordered(other.0, other.1, other.2, year, month, day);
}

/// Whether the first date comes before the second.
pub open spec fn date_before(y1: int, m1: int, d1: int, y2: int, m2: int, d2: int) -> bool {
    y1 < y2 || (y1 == y2 && (m1 < m2 || (m1 == m2 && d1 < d2)))
}

/// A later date lies a greater number of days after 1970-01-01.
pub proof fn law_dates_are_ordered(y1: int, m1: int, d1: int, y2: int, m2: int, d2: int)
    requires
        is_date(y1, m1, d1),
        is_date(y2, m2, d2),
    ensures
        date_before(y1, m1, d1, y2, m2, d2) <==> day_number(y1, m1, d1) < day_number(y2, m2, d2),
{
    lemma_month_starts(y1);
    lemma_month_starts(y2);
    law_years_are_consecutive(y1);
    law_years_are_consecutive(y2);
    if y1 < y2 {
        lemma_years_grow(y1 + 1, y2);
    } else if y2 < y1 {
        lemma_years_grow(y2 + 1, y1);
    }
}

/// A later year starts no earlier.
proof fn lemma_years_grow(y1: int, y2: int)
    requires
        y1 <= y2,
    ensures
        days_before_year(y1) <= days_before_year(y2),
    decreases y2 - y1,
{
    if y1 < y2 {
        law_years_are_consecutive(y1);
        lemma_years_grow(y1 + 1, y2);
    }
}

/// Every day, however far from 1970-01-01, falls on a date of the calendar.
pub proof fn law_every_day_has_a_date(days: int)
    ensures
        ({
            let (year, month, day) = date_of_day(days);
            is_date(year, month, day) && day_number(year, month, day) == days
        }),
{
    let shifted: int = days + DAYS_FROM_MARCH_EPOCH;
    let found = lemma_civil_date(days, shifted / 146_097, shifted % 146_097);
    law_date_is_determined(days, found.0, found.1, found.2);
}

/// The calendar starts its count on 1970-01-01, counts each day of a month and each month in
/// turn, and repeats after 400 years of 146,097 days.
pub proof fn law_days_are_counted_one_by_one(year: int, month: int, day: int)
    ensures
        day_number(1970, 1, 1) == 0,
        day_number(year, month, day + 1) == day_number(year, month, day) + 1,
        1 <= month < 12 ==> day_number(year, month + 1, 1) == day_number(
            year,
            month,
            days_in_month(year, month),
        ) + 1,
        day_number(year + 1, 1, 1) == day_number(year, 12, 31) + 1,
        day_number(year + 400, month, day) == day_number(year, month, day) + 146_097,
{
    law_years_are_consecutive(year);
    lemma_month_starts(year);
    lemma_month_starts(year + 1);
    lemma_month_starts(1970);
    lemma_cycle(year, month);
}

/// The months of a year and of the one 400 years later start on the same days.
proof fn lemma_cycle(year: int, month: int)
    ensures
        days_before_month(year + 400, month) == days_before_month(year, month),
        days_before_year(year + 400) == days_before_year(year) + 146_097,
    decreases month,
{
    assert((year + 400) % 4 == year % 4);
    assert((year + 400) % 100 == year % 100);
    assert((year + 400) % 400 == year % 400);
    if month > 1 {
        lemma_cycle(year, month - 1);
    }
}

/// The date of a day is one of the calendar, and the count of days up to it is that day.
pub proof fn law_date_reads_back_as_its_day(days: i64, date: (i32, u32, u32))
    requires
        days + DAYS_FROM_MARCH_EPOCH <= i64::MAX,
        call_ensures(civil_from_days, (days,), date),
        -2_147_483_648 <= date_of_day(days as int).0 <= 2_147_483_647,
    ensures
        is_date(date.0 as int, date.1 as int, date.2 as int),
        day_number(date.0 as int, date.1 as int, date.2 as int) == days,
{
    law_every_day_has_a_date(days as int);
}

} // verus!
