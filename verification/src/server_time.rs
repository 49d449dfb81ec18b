//! Calendar dates of Unix timestamps, in the proleptic Gregorian calendar
//! and in UTC.

use crate::text::{append_decimal, append_two_digits, decimal, signed_decimal, two_digits, lemma_two_digits};
use vstd::prelude::*;

verus! {

/// Whether `y` is a leap year of the Gregorian calendar.
pub open spec fn is_leap_year(y: int) -> bool {
    y % 4 == 0 && (y % 100 != 0 || y % 400 == 0)
}

/// The number of days of month `m` (1 to 12) of year `y`.
pub open spec fn days_in_month(y: int, m: int) -> int {
    if m == 2 {
        if is_leap_year(y) {
            29
        } else {
            28
        }
    } else if m == 4 || m == 6 || m == 9 || m == 11 {
        30
    } else {
        31
    }
}

/// The number of days of year `y` before the first day of month `m`.
pub open spec fn days_before_month(y: int, m: int) -> int {
    let common: int = if m <= 1 {
        0
    } else if m == 2 {
        31
    } else if m == 3 {
        59
    } else if m == 4 {
        90
    } else if m == 5 {
        120
    } else if m == 6 {
        151
    } else if m == 7 {
        181
    } else if m == 8 {
        212
    } else if m == 9 {
        243
    } else if m == 10 {
        273
    } else if m == 11 {
        304
    } else {
        334
    };
    if m > 2 && is_leap_year(y) {
        common + 1
    } else {
        common
    }
}

/// The number of leap years from year 1 up to year `y - 1` (negative where
/// `y` lies before year 1).
pub open spec fn leap_years_before(y: int) -> int {
    (y - 1) / 4 - (y - 1) / 100 + (y - 1) / 400
}

/// The number of days from 1970-01-01 to the first day of year `y`
/// (negative for earlier years).
pub open spec fn days_before_year(y: int) -> int {
    365 * (y - 1970) + leap_years_before(y) - leap_years_before(1970)
}

/// The number of days from 1970-01-01 to the date `y`-`m`-`d`.
pub open spec fn days_from_civil(y: int, m: int, d: int) -> int {
    days_before_year(y) + days_before_month(y, m) + d - 1
}

/// Whether `y`-`m`-`d` is a date of the calendar.
pub open spec fn valid_date(y: int, m: int, d: int) -> bool {
    1 <= m <= 12 && 1 <= d <= days_in_month(y, m)
}


/// Day number, counted from 1 March of year 0 of a 400-year era, at which
/// year `y` of the era (0 to 400) begins; such a year runs from March to
/// the end of the following February.
spec fn era_year_start(y: int) -> int {
    365 * y + y / 4 - y / 100
}

/// The length of year `y` of an era (0 to 399), as counted from March.
spec fn era_year_len(y: int) -> int {
    if (y + 1) % 4 == 0 && ((y + 1) % 100 != 0 || y == 399) {
        366
    } else {
        365
    }
}

spec fn year_of_era(doe: int) -> int {
    (doe - doe / 1460 + doe / 36524 - doe / 146096) / 365
}

proof fn lemma_year_of_era(doe: int)
    requires
        0 <= doe <= 146096,
    ensures
        0 <= year_of_era(doe) <= 399,
        era_year_start(year_of_era(doe)) <= doe < era_year_start(year_of_era(doe)) + era_year_len(
            year_of_era(doe),
        ),
{
    if doe == 146096 {
        assert(year_of_era(doe) == 399);
    } else {
        let a = doe / 36524;
        let r1 = doe - 36524 * a;
        let b = r1 / 1461;
        let r2 = r1 - 1461 * b;
        let c = if r2 / 365 >= 3 { 3 } else { r2 / 365 };
        let t = r2 - 365 * c;
        assert(0 <= a <= 3);
        assert(0 <= b <= 24);
        assert(0 <= c <= 3);
        assert(0 <= t <= 365);
        assert(b == 24 ==> r2 <= 1459);
        let y = 100 * a + 4 * b + c;
        assert(doe == 36524 * a + 1461 * b + 365 * c + t);
        assert(y / 4 == 25 * a + b);
        assert(y / 100 == a);
        assert(era_year_start(y) == 36524 * a + 1461 * b + 365 * c);
        let r = 24 * a + b + 365 * c + t;
        assert(doe / 146096 == 0);
        assert(doe / 36524 == a);
        assert(doe == 1460 * (25 * a + b) + r);
        let q = if r >= 1460 { 1int } else { 0int };
        assert(doe / 1460 == 25 * a + b + q);
        assert(t == 365 ==> q == 1);
        assert(doe - doe / 1460 + doe / 36524 - doe / 146096 == 365 * y + t - q);
        assert(year_of_era(doe) == y);
        assert(era_year_len(y) == if c == 3 && (b < 24 || a == 3) { 366int } else { 365int });
    }
}


/// Day number, from 1 March, at which month `mp` of a year counted from
/// March begins (`mp` 0 is March, 11 is February).
spec fn shifted_month_start(mp: int) -> int {
    (153 * mp + 2) / 5
}

proof fn lemma_month_of_year(doy: int)
    requires
        0 <= doy < 366,
    ensures
        0 <= (5 * doy + 2) / 153 <= 11,
        shifted_month_start((5 * doy + 2) / 153) <= doy < shifted_month_start((5 * doy + 2) / 153 + 1),
{
    let mp = (5 * doy + 2) / 153;
    assert(153 * mp <= 5 * doy + 2 < 153 * mp + 153);
}

proof fn lemma_leap_step(x: int)
    ensures
        x / 4 - x / 100 + x / 400 == leap_years_before(x) + if is_leap_year(x) { 1int } else { 0int },
{
    assert((x - 1) / 4 == if x % 4 == 0 { x / 4 - 1 } else { x / 4 });
    assert((x - 1) / 100 == if x % 100 == 0 { x / 100 - 1 } else { x / 100 });
    assert((x - 1) / 400 == if x % 400 == 0 { x / 400 - 1 } else { x / 400 });
    assert(x % 100 == 0 ==> x % 4 == 0);
    assert(x % 400 == 0 ==> x % 100 == 0);
}

/// Day count from 1970-01-01, written with years that begin in March.
spec fn shifted_days(yp: int, mp: int, d: int) -> int {
    365 * yp + yp / 4 - yp / 100 + yp / 400 + shifted_month_start(mp) + d - 1 - 719468
}

proof fn lemma_civil_shifted(y: int, m: int, d: int)
    requires
        1 <= m <= 12,
    ensures
        days_from_civil(y, m, d) == shifted_days(
            if m <= 2 { y - 1 } else { y },
            if m <= 2 { m + 9 } else { m - 3 },
            d,
        ),
{
    assert(leap_years_before(1970) == 477);
    if m <= 2 {
        lemma_leap_step(y - 1);
        assert(leap_years_before(y) == (y - 1) / 4 - (y - 1) / 100 + (y - 1) / 400);
    } else {
        lemma_leap_step(y);
    }
}

proof fn lemma_era_split(era: int, yoe: int, mp: int, d: int)
    requires
        0 <= yoe < 400,
    ensures
        shifted_days(era * 400 + yoe, mp, d) == 146097 * era + era_year_start(yoe)
            + shifted_month_start(mp) + d - 1 - 719468,
{
    let yp = era * 400 + yoe;
    assert(yp / 4 == era * 100 + yoe / 4);
    assert(yp / 100 == era * 4 + yoe / 100);
    assert(yp / 400 == era);
}


/// The date reached `days` days after 1970-01-01 with the era method:
/// the year, month and day that `from_unix_secs` computes.
spec fn civil_parts(days: int) -> (int, int, int) {
    let z = days + 719468;
    let era = z / 146097;
    let doe = z % 146097;
    let yoe = year_of_era(doe);
    let doy = doe - era_year_start(yoe);
    let mp = (5 * doy + 2) / 153;
    let d = doy - shifted_month_start(mp) + 1;
    let m = if mp < 10 { mp + 3 } else { mp - 9 };
    let year = era * 400 + yoe + if m <= 2 { 1int } else { 0int };
    (year, m, d)
}

proof fn lemma_civil_parts(days: int)
    ensures
        valid_date(civil_parts(days).0, civil_parts(days).1, civil_parts(days).2),
        days_from_civil(civil_parts(days).0, civil_parts(days).1, civil_parts(days).2) == days,
{
    let z = days + 719468;
    let era = z / 146097;
    let doe = z % 146097;
    assert(z == 146097 * era + doe);
    lemma_year_of_era(doe);
    let yoe = year_of_era(doe);
    let doy = doe - era_year_start(yoe);
    assert(0 <= doy < 366);
    lemma_month_of_year(doy);
    let mp = (5 * doy + 2) / 153;
    let d = doy - shifted_month_start(mp) + 1;
    let m = if mp < 10 { mp + 3 } else { mp - 9 };
    let year = era * 400 + yoe + if m <= 2 { 1int } else { 0int };
    assert(civil_parts(days) == (year, m, d));
    assert(valid_date(year, m, d)) by {
        assert(is_leap_year(era * 400 + yoe + 1) <==> era_year_len(yoe) == 366) by {
            let x = era * 400 + yoe + 1;
            assert(x % 4 == (yoe + 1) % 4);
            assert(x % 100 == (yoe + 1) % 100);
            assert(x % 400 == (yoe + 1) % 400);
        }
        assert(shifted_month_start(mp + 1) - shifted_month_start(mp) == if mp == 1 || mp == 3 || mp == 6
            || mp == 8 { 30int } else if mp == 11 { 30int } else { 31int });
    }
    assert(days_from_civil(year, m, d) == days) by {
        lemma_civil_shifted(year, m, d);
        lemma_era_split(era, yoe, mp, d);
    }
}

/// A calendar date and time of day in UTC.
pub struct DateTime {
    pub year: i64,
    pub month: u8,
    pub day: u8,
    pub hour: u8,
    pub minute: u8,
    pub second: u8,
}

/// Whether `t` is the date and time reached `secs` seconds after
/// 1970-01-01 00:00:00 UTC.
pub open spec fn is_unix_time(t: DateTime, secs: int) -> bool {
    let time_of_day = secs % 86400;
    &&& valid_date(t.year as int, t.month as int, t.day as int)
    &&& days_from_civil(t.year as int, t.month as int, t.day as int) == secs / 86400
    &&& t.hour == time_of_day / 3600
    &&& t.minute == time_of_day % 3600 / 60
    &&& t.second == time_of_day % 60
}

impl DateTime {
    /// The date and time `secs` whole seconds after 1970-01-01 00:00:00 UTC
    /// (negative `secs` lie before it).
    pub fn from_unix_secs(secs: i64) -> (r: Self)
        ensures
            is_unix_time(r, secs as int),
    {
        let days = secs.checked_div_euclid(86400).unwrap();
        let time_of_day = secs.checked_rem_euclid(86400).unwrap();

        let hour = (time_of_day / 3600) as u8;
        let minute = ((time_of_day % 3600) / 60) as u8;
        let second = (time_of_day % 60) as u8;

        let z = days + 719468;
        let era = z.checked_div_euclid(146097).unwrap();
        let doe = z.checked_rem_euclid(146097).unwrap();
        proof {
            lemma_year_of_era(doe as int);
        }
        let yoe = (doe - doe / 1460 + doe / 36524 - doe / 146096) / 365;
        let y = yoe + era * 400;
        let doy = doe - (365 * yoe + yoe / 4 - yoe / 100);
        proof {
            lemma_month_of_year(doy as int);
        }
        let mp = (5 * doy + 2) / 153;
        let day = (doy - (153 * mp + 2) / 5 + 1) as u8;
        let month = if mp < 10 {
            mp + 3
        } else {
            mp - 9
        } as u8;
        let year = if month <= 2 {
            y + 1
        } else {
            y
        };
        proof {
            lemma_civil_parts(days as int);
            assert(civil_parts(days as int) == (year as int, month as int, day as int));
        }
        DateTime { year, month, day, hour, minute, second }
    }
}


proof fn lemma_year_grows(a: int, k: nat)
    ensures
        days_before_year(a + k) >= days_before_year(a) + 365 * k,
    decreases k,
{
    if k > 0 {
        lemma_year_grows(a, (k - 1) as nat);
        lemma_leap_step(a + k - 1);
        lemma_leap_step(a + k);
        assert(leap_years_before(a + k) >= leap_years_before(a + k - 1));
    }
}

proof fn lemma_date_within_year(y: int, m: int, d: int)
    requires
        valid_date(y, m, d),
    ensures
        days_before_year(y) <= days_from_civil(y, m, d) < days_before_year(y + 1),
{
    lemma_leap_step(y);
    assert(days_before_year(y + 1) == days_before_year(y) + 365 + if is_leap_year(y) { 1int } else { 0int });
}

/// A day count from 1970-01-01 names at most one date: the calendar date
/// that `from_unix_secs` gives for a timestamp is determined by its
/// contract.
pub proof fn lemma_unix_time_unique(t1: DateTime, t2: DateTime, secs: int)
    requires
        is_unix_time(t1, secs),
        is_unix_time(t2, secs),
    ensures
        t1 == t2,
{
    let (y1, m1, d1) = (t1.year as int, t1.month as int, t1.day as int);
    let (y2, m2, d2) = (t2.year as int, t2.month as int, t2.day as int);
    lemma_date_within_year(y1, m1, d1);
    lemma_date_within_year(y2, m2, d2);
    if y1 < y2 {
        lemma_year_grows(y1 + 1, (y2 - y1 - 1) as nat);
    } else if y2 < y1 {
        lemma_year_grows(y2 + 1, (y1 - y2 - 1) as nat);
    }
    assert(y1 == y2);
    assert(m1 == m2);
}


/// `t` written as `YYYY-MM-DD hh:mm:ss UTC`.
pub open spec fn date_time_text(t: DateTime) -> Seq<char> {
    signed_decimal(t.year as int) + seq!['-'] + two_digits(t.month as nat) + seq!['-'] + two_digits(
        t.day as nat,
    ) + seq![' '] + two_digits(t.hour as nat) + seq![':'] + two_digits(t.minute as nat) + seq![':']
        + two_digits(t.second as nat) + seq![' ', 'U', 'T', 'C']
}

/// The text of a date and time whose fields are below 100: the year, then
/// the month and day, the hour, minute and second, each as exactly two
/// digits (the tens, then the ones), with their separators and ` UTC`.
pub proof fn lemma_date_time_text_layout(t: DateTime)
    requires
        t.month < 100,
        t.day < 100,
        t.hour < 100,
        t.minute < 100,
        t.second < 100,
    ensures
        date_time_text(t) == signed_decimal(t.year as int) + seq![
            '-',
            (('0' as int) + t.month / 10) as char,
            (('0' as int) + t.month % 10) as char,
            '-',
            (('0' as int) + t.day / 10) as char,
            (('0' as int) + t.day % 10) as char,
            ' ',
            (('0' as int) + t.hour / 10) as char,
            (('0' as int) + t.hour % 10) as char,
            ':',
            (('0' as int) + t.minute / 10) as char,
            (('0' as int) + t.minute % 10) as char,
            ':',
            (('0' as int) + t.second / 10) as char,
            (('0' as int) + t.second % 10) as char,
            ' ',
            'U',
            'T',
            'C',
        ],
        date_time_text(t).len() == signed_decimal(t.year as int).len() + 19,
{
    lemma_two_digits(t.month as nat);
    lemma_two_digits(t.day as nat);
    lemma_two_digits(t.hour as nat);
    lemma_two_digits(t.minute as nat);
    lemma_two_digits(t.second as nat);
    assert(date_time_text(t) =~= signed_decimal(t.year as int) + seq![
            '-',
            (('0' as int) + t.month / 10) as char,
            (('0' as int) + t.month % 10) as char,
            '-',
            (('0' as int) + t.day / 10) as char,
            (('0' as int) + t.day % 10) as char,
            ' ',
            (('0' as int) + t.hour / 10) as char,
            (('0' as int) + t.hour % 10) as char,
            ':',
            (('0' as int) + t.minute / 10) as char,
            (('0' as int) + t.minute % 10) as char,
            ':',
            (('0' as int) + t.second / 10) as char,
            (('0' as int) + t.second % 10) as char,
            ' ',
            'U',
            'T',
            'C',
        ]);
}

impl DateTime {
    /// The date and time written as `YYYY-MM-DD hh:mm:ss UTC`, each part
    /// but the year padded with zeros to two digits.
    pub fn to_string(&self) -> (r: String)
        ensures
            r@ == date_time_text(*self),
    {
        let mut out = String::new();
        if self.year < 0 {
            out.append("-");
            let magnitude: u64 = if self.year == i64::MIN {
                0x8000_0000_0000_0000
            } else {
                (-self.year) as u64
            };
            append_decimal(&mut out, magnitude);
        } else {
            append_decimal(&mut out, self.year as u64);
        }
        out.append("-");
        append_two_digits(&mut out, self.month);
        out.append("-");
        append_two_digits(&mut out, self.day);
        out.append(" ");
        append_two_digits(&mut out, self.hour);
        out.append(":");
        append_two_digits(&mut out, self.minute);
        out.append(":");
        append_two_digits(&mut out, self.second);
        out.append(" UTC");
        proof {
            reveal_strlit("-");
            reveal_strlit(" ");
            reveal_strlit(":");
            reveal_strlit(" UTC");
        }
        assert(out@ =~= date_time_text(*self));
        out
    }
}

} // verus!
