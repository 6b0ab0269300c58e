//! Dates of the Gregorian calendar, as a signature carries them.

use vstd::prelude::*;

verus! {

/// The first second after the dates that a signature can carry: the year 10000.
pub const END_OF_DATES: i64 = 253402300800;

/// The first second that the clock of every system can show: the year 1601.
pub const START_OF_DATES: i64 = -11644473600;

/// How many days the month `m` of the year `y` has.
pub open spec fn days_in_month(y: int, m: int) -> int {
    if m == 2 {
        if y % 4 == 0 && (y % 100 != 0 || y % 400 == 0) {
            29
        } else {
            28
        }
    } else if m == 4 || m == 6 || m == 9 || m == 11 {
        30
    } else {
        31
    }
}

/// How many days of the year `y` come before its month `m`.
pub open spec fn days_before_month(y: int, m: int) -> int
    decreases m,
{
    if m <= 1 {
        0
    } else {
        days_before_month(y, m - 1) + days_in_month(y, m - 1)
    }
}

/// How many days come before the year `y`, from the year 1 on.
pub open spec fn days_before_year(y: int) -> int {
    365 * (y - 1) + (y - 1) / 4 - (y - 1) / 100 + (y - 1) / 400
}

/// Whether the second `unix_seconds`, counted from the beginning of the year 1970 on, is one
/// of the day `d` of the month `m` of the year `y`.
pub open spec fn is_day(unix_seconds: int, y: int, m: int, d: int) -> bool {
    &&& 1 <= m <= 12
    &&& 1 <= d <= days_in_month(y, m)
    &&& unix_seconds / 86400 == days_before_year(y) - days_before_year(1970) + days_before_month(
        y,
        m,
    ) + d - 1
}

/// `n` in decimal, with `width` digits.
pub open spec fn digits(n: int, width: nat) -> Seq<char>
    decreases width,
{
    if width == 0 {
        seq![]
    } else {
        digits(n / 10, (width - 1) as nat).push((48 + n % 10) as u8 as char)
    }
}

/// A day as text: `YYYYMMDD`.
pub open spec fn day_text(y: int, m: int, d: int) -> Seq<char> {
    digits(y, 4) + digits(m, 2) + digits(d, 2)
}

/// The time of the day as text: `THHMMSSZ`.
pub open spec fn clock_text(unix_seconds: int) -> Seq<char> {
    let s = unix_seconds % 86400;
    seq!['T'] + digits(s / 3600, 2) + digits(s / 60 % 60, 2) + digits(s % 60, 2) + seq!['Z']
}

/// A month ends no later than the year, and the next one begins behind it.
proof fn lemma_months(y: int, m: int, n: int)
    requires
        1 <= m <= n <= 12,
    ensures
        days_before_month(y, 12) + 31 == days_before_year(y + 1) - days_before_year(y),
        m < n ==> days_before_month(y, m) + days_in_month(y, m) <= days_before_month(y, n),
        days_before_month(y, n) <= days_before_month(y, 12),
        days_before_month(y, n) + days_in_month(y, n) <= days_before_month(y, 12) + 31,
{
    let february = days_in_month(y, 2);
    assert(days_before_month(y, 1) == 0);
    assert(days_before_month(y, 2) == 31);
    assert(days_before_month(y, 3) == 31 + february);
    assert(days_before_month(y, 4) == 62 + february);
    assert(days_before_month(y, 5) == 92 + february);
    assert(days_before_month(y, 6) == 123 + february);
    assert(days_before_month(y, 7) == 153 + february);
    assert(days_before_month(y, 8) == 184 + february);
    assert(days_before_month(y, 9) == 215 + february);
    assert(days_before_month(y, 10) == 245 + february);
    assert(days_before_month(y, 11) == 276 + february);
    assert(days_before_month(y, 12) == 306 + february);
    assert(days_before_year(y + 1) - days_before_year(y) == 337 + february) by {
        lemma_year(y);
    }
}

/// A year has 365 days, and a leap year one more.
proof fn lemma_year(y: int)
    ensures
        days_before_year(y + 1) - days_before_year(y) == 337 + days_in_month(y, 2),
{
    assert(y / 4 - (y - 1) / 4 == if y % 4 == 0 {
        1int
    } else {
        0int
    });
    assert(y / 100 - (y - 1) / 100 == if y % 100 == 0 {
        1int
    } else {
        0int
    });
    assert(y / 400 - (y - 1) / 400 == if y % 400 == 0 {
        1int
    } else {
        0int
    });
}

/// Later years begin later.
proof fn lemma_years(y: int, z: int)
    requires
        y < z,
    ensures
        days_before_year(y + 1) <= days_before_year(z),
    decreases z - y,
{
    if y + 1 < z {
        lemma_years(y + 1, z);
    }
}

/// A second is one of a single day.
pub proof fn law_one_day_for_each_second(
    unix_seconds: int,
    y: int,
    m: int,
    d: int,
    y2: int,
    m2: int,
    d2: int,
)
    requires
        is_day(unix_seconds, y, m, d),
        is_day(unix_seconds, y2, m2, d2),
    ensures
        y == y2 && m == m2 && d == d2,
{
    lemma_months(y, m, 12);
    lemma_months(y, 1, m);
    lemma_months(y2, m2, 12);
    lemma_months(y2, 1, m2);
    if y < y2 {
        lemma_years(y, y2);
    } else if y2 < y {
        lemma_years(y2, y);
    } else if m < m2 {
        lemma_months(y, m, m2);
    } else if m2 < m {
        lemma_months(y, m2, m);
    }
}

/// The day that is `days` behind the first of January 1601.
proof fn lemma_day_after(days: int) -> (r: (int, int, int))
    requires
        0 <= days,
    ensures
        is_day((days - 134774) * 86400, r.0, r.1, r.2),
    decreases days,
{
    if days == 0 {
        (1601, 1, 1)
    } else {
        let (y, m, d) = lemma_day_after(days - 1);
        if d < days_in_month(y, m) {
            (y, m, d + 1)
        } else if m < 12 {
            (y, m + 1, 1)
        } else {
            lemma_months(y, 12, 12);
            (y + 1, 1, 1)
        }
    }
}

/// Every second that a signature can be made in is one of some day.
pub proof fn law_every_second_has_a_day(unix_seconds: int)
    requires
        START_OF_DATES <= unix_seconds,
    ensures
        exists|y: int, m: int, d: int| is_day(unix_seconds, y, m, d),
{
    let days = unix_seconds / 86400 + 134774;
    let (y, m, d) = lemma_day_after(days);
    assert(is_day(unix_seconds, y, m, d));
}

/// Each month has its days, and February one more in a leap year.
pub proof fn law_lengths_of_months(y: int)
    ensures
        days_in_month(y, 1) == 31 && days_in_month(y, 3) == 31 && days_in_month(y, 5) == 31
            && days_in_month(y, 7) == 31 && days_in_month(y, 8) == 31 && days_in_month(y, 10) == 31
            && days_in_month(y, 12) == 31,
        days_in_month(y, 4) == 30 && days_in_month(y, 6) == 30 && days_in_month(y, 9) == 30
            && days_in_month(y, 11) == 30,
        y % 4 != 0 ==> days_in_month(y, 2) == 28,
        y % 4 == 0 && y % 100 != 0 ==> days_in_month(y, 2) == 29,
        y % 100 == 0 && y % 400 != 0 ==> days_in_month(y, 2) == 28,
        y % 400 == 0 ==> days_in_month(y, 2) == 29,
{
}

/// Days follow each other, from the first of January 1970 on: every second of a day has the same
/// date, and 86400 seconds later it is the next one, in the same month, the next month or the
/// next year.
pub proof fn law_next_day(unix_seconds: int, later: int, y: int, m: int, d: int)
    ensures
        is_day(0, 1970, 1, 1),
        is_day(unix_seconds, y, m, d) && later / 86400 == unix_seconds / 86400 ==> is_day(
            later,
            y,
            m,
            d,
        ),
        is_day(unix_seconds, y, m, d) ==> {
            &&& 1 <= m <= 12
            &&& 1 <= d <= days_in_month(y, m)
            &&& d < days_in_month(y, m) ==> is_day(unix_seconds + 86400, y, m, d + 1)
            &&& d == days_in_month(y, m) && m < 12 ==> is_day(unix_seconds + 86400, y, m + 1, 1)
            &&& d == 31 && m == 12 ==> is_day(unix_seconds + 86400, y + 1, 1, 1)
        },
{
    reveal_with_fuel(days_before_month, 2);
    if is_day(unix_seconds, y, m, d) && d == 31 && m == 12 {
        lemma_months(y, 12, 12);
    }
}

/// A day is written with four digits of the year, two of the month and two of the day, and the
/// time of the day with two each of the hours, minutes and seconds between `T` and `Z`.
pub proof fn law_dates_as_text(y: int, m: int, d: int, unix_seconds: int)
    requires
        0 <= y < 10000,
        1 <= m <= 12,
        1 <= d <= 31,
    ensures
        ({
            let digit = |n: int| (48 + n) as u8 as char;
            let s = unix_seconds % 86400;
            &&& day_text(y, m, d) == seq![
                digit(y / 1000),
                digit(y / 100 % 10),
                digit(y / 10 % 10),
                digit(y % 10),
                digit(m / 10),
                digit(m % 10),
                digit(d / 10),
                digit(d % 10),
            ]
            &&& clock_text(unix_seconds) == seq![
                'T',
                digit(s / 3600 / 10),
                digit(s / 3600 % 10),
                digit(s % 3600 / 60 / 10),
                digit(s % 3600 / 60 % 10),
                digit(s % 60 / 10),
                digit(s % 60 % 10),
                'Z',
            ]
        }),
{
    reveal_with_fuel(digits, 5);
    let s = unix_seconds % 86400;
    assert(y / 10 / 10 == y / 100 && y / 10 / 10 / 10 == y / 1000);
    assert(s / 60 % 60 == s % 3600 / 60);
}

/// The dates that a signature can carry end where the year 10000 begins, and those that every
/// clock can show begin with the year 1601.
pub proof fn law_range_of_dates()
    ensures
        is_day(END_OF_DATES as int, 10000, 1, 1),
        is_day(START_OF_DATES as int, 1601, 1, 1),
        END_OF_DATES % 86400 == 0,
        START_OF_DATES % 86400 == 0,
{
}

} // verus!
