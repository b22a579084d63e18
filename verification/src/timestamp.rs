//! Calendar dates and the compact stamps made of them.
use crate::text::{decimal, zero_padded, zero_padded_u64};
use vstd::prelude::*;
use vstd::string::StringExecFns;

verus! {

/// The year has a 29th of February.
pub open spec fn is_leap(year: int) -> bool {
    year % 4 == 0 && (year % 100 != 0 || year % 400 == 0)
}

/// How many days the month has.
pub open spec fn month_days(year: int, month: int) -> int {
    if month == 2 {
        if is_leap(year) {
            29
        } else {
            28
        }
    } else if month == 4 || month == 6 || month == 9 || month == 11 {
        30
    } else {
        31
    }
}

/// How many days of the year come before the month.
pub open spec fn days_before_month(year: int, month: int) -> int
    decreases month,
{
    if month <= 1 {
        0
    } else {
        days_before_month(year, month - 1) + month_days(year, month - 1)
    }
}

/// How many days come before the year, counted from the start of year 1: one more
/// than 365 for each year before it that is a leap year.
pub open spec fn days_before_year(year: int) -> int {
    365 * (year - 1) + (year - 1) / 4 - (year - 1) / 100 + (year - 1) / 400
}

/// The date exists.
pub open spec fn is_date(year: int, month: int, day: int) -> bool {
    1 <= month <= 12 && 1 <= day <= month_days(year, month)
}

/// How many days the date lies after the 1st of January 1970.
pub open spec fn day_number(year: int, month: int, day: int) -> int {
    days_before_year(year) + days_before_month(year, month) + (day - 1) - days_before_year(1970)
}

/// A year is as long as its months together, and the next year begins where it ends.
pub proof fn years_follow_each_other(year: int)
    ensures
        days_before_year(year + 1) == days_before_year(year) + days_before_month(year, 12)
            + month_days(year, 12),
{
    months_summed(year);
    let y = year - 1;
    assert(year / 4 == y / 4 + (if year % 4 == 0 {
        1int
    } else {
        0
    }));
    assert(year / 100 == y / 100 + (if year % 100 == 0 {
        1int
    } else {
        0
    }));
    assert(year / 400 == y / 400 + (if year % 400 == 0 {
        1int
    } else {
        0
    }));
}

proof fn months_summed(year: int)
    ensures
        days_before_month(year, 1) == 0,
        days_before_month(year, 2) == 31,
        days_before_month(year, 3) == 31 + month_days(year, 2),
        days_before_month(year, 4) == 62 + month_days(year, 2),
        days_before_month(year, 5) == 92 + month_days(year, 2),
        days_before_month(year, 6) == 123 + month_days(year, 2),
        days_before_month(year, 7) == 153 + month_days(year, 2),
        days_before_month(year, 8) == 184 + month_days(year, 2),
        days_before_month(year, 9) == 215 + month_days(year, 2),
        days_before_month(year, 10) == 245 + month_days(year, 2),
        days_before_month(year, 11) == 276 + month_days(year, 2),
        days_before_month(year, 12) == 306 + month_days(year, 2),
{
    reveal_with_fuel(days_before_month, 13);
}

/// The year of a 400-year era, counted from its first of March, in which the day
/// `doe` of the era lies, and the day of that year.
proof fn year_of_era(doe: int) -> (r: (int, int))
    requires
        0 <= doe <= 146_096,
    ensures
        ({
            let (yoe, doy) = r;
            &&& yoe == (doe - doe / 1460 + doe / 36_524 - doe / 146_096) / 365
            &&& 0 <= yoe <= 399
            &&& 0 <= doy <= 365
            &&& doe == 365 * yoe + yoe / 4 - yoe / 100 + doy
            &&& doy == 365 ==> (yoe + 1) % 4 == 0 && ((yoe + 1) % 100 != 0 || yoe == 399)
        }),
{
    let c = if doe / 36_524 < 4 {
        doe / 36_524
    } else {
        3
    };
    let e = doe - 36_524 * c;
    assert(0 <= c <= 3);
    assert(0 <= e <= 36_524);
    assert(c < 3 ==> e < 36_524);
    let q = e / 1461;
    let f = e - 1461 * q;
    assert(0 <= q <= 24 && 0 <= f <= 1460);
    let a = if f / 365 < 4 {
        f / 365
    } else {
        3
    };
    let g = f - 365 * a;
    assert(0 <= a <= 3 && 0 <= g <= 365);
    let yoe = 100 * c + 4 * q + a;
    assert(yoe / 4 == 25 * c + q);
    assert(yoe / 100 == c);
    let rest = 24 * c + q + 365 * a + g;
    assert(doe == 1460 * (25 * c + q) + rest);
    let over: int = if rest >= 1460 {
        1
    } else {
        0
    };
    assert(0 <= rest < 2920);
    assert(doe / 1460 == 25 * c + q + over);
    assert(doe / 36_524 - doe / 146_096 == c);
    let x = doe - doe / 1460 + doe / 36_524 - doe / 146_096;
    assert(x == 365 * yoe + g - over);
    assert(0 <= g - over < 365) by {
        if g == 365 {
            assert(f == 1460);
            assert(a == 3);
        }
    }
    assert(x / 365 == yoe);
    if g == 365 {
        assert(f == 1460 && a == 3);
        assert(yoe + 1 == 100 * c + 4 * (q + 1));
        if q == 24 {
            assert(e >= 1461 * 24 + 1460);
            assert(c == 3);
        } else {
            assert((yoe + 1) % 100 == 4 * (q + 1));
        }
    }
    (yoe, g)
}

proof fn era_years(era: int, yoe: int)
    requires
        0 <= yoe <= 399,
    ensures
        ({
            let y = 400 * era + yoe;
            &&& y / 4 == 100 * era + yoe / 4
            &&& y / 100 == 4 * era + yoe / 100
            &&& y / 400 == era
            &&& y % 4 == yoe % 4
            &&& y % 100 == yoe % 100
            &&& y % 400 == yoe
        }),
{
}

/// The date that lies `days` days after the 1st of January 1970.
pub fn civil_from_days(days: i64) -> (r: (i64, u32, u32))
    requires
        days <= i64::MAX - 719_468,
    ensures
        is_date(r.0 as int, r.1 as int, r.2 as int),
        day_number(r.0 as int, r.1 as int, r.2 as int) == days,
        days >= 0 ==> r.0 >= 1970,
{
    let z: i64 = days + 719_468;
    let era: i64 = if z >= 0 {
        z / 146_097
    } else {
        -((-(z + 1)) / 146_097) - 1
    };
    assert(era as int == (z as int) / 146_097);
    let doe: u64 = (z - era * 146_097) as u64;
    let yoe: u64 = (doe - doe / 1460 + doe / 36_524 - doe / 146_096) / 365;
    let year: i64 = yoe as i64 + era * 400;
    let ghost (yoe_g, doy_g) = year_of_era(doe as int);
    let doy: u64 = doe - (365 * yoe + yoe / 4 - yoe / 100);
    assert(doy == doy_g);
    let mp: u64 = (5 * doy + 2) / 153;
    let day: u32 = (doy - (153 * mp + 2) / 5 + 1) as u32;
    let month: u32 = (if mp < 10 {
        mp + 3
    } else {
        mp - 9
    }) as u32;
    let y: i64 = if month <= 2 {
        year + 1
    } else {
        year
    };
    proof {
        let y0 = year as int;
        era_years(era as int, yoe as int);
        months_summed(y as int);
        assert(days_before_year(1970) == 719_162);
        if month > 2 {
            years_follow_each_other(y0);
            months_summed(y0);
            assert(0 <= mp <= 9);
            month_from_march(mp as int, doy as int, y0);
        } else {
            assert(10 <= mp <= 11);
            assert(doy as int == 365 ==> is_leap(y0 + 1)) by {
                if doy == 365 {
                    if yoe == 399 {
                        assert(y0 + 1 == 400 * (era + 1));
                    } else {
                        era_years(era as int, yoe + 1);
                    }
                }
            }
        }
        if days >= 0 {
            later_is_not_earlier(y as int, month as int, day as int, days as int);
        }
    }
    (y, month, day)
}

proof fn month_from_march(mp: int, doy: int, year: int)
    requires
        0 <= doy <= 365,
        mp == (5 * doy + 2) / 153,
        mp <= 9,
    ensures
        days_before_month(year, mp + 3) == 31 + month_days(year, 2) + (153 * mp + 2) / 5,
        1 <= doy - (153 * mp + 2) / 5 + 1 <= month_days(year, mp + 3),
{
    months_summed(year);
    assert(mp == 0 || mp == 1 || mp == 2 || mp == 3 || mp == 4 || mp == 5 || mp == 6 || mp == 7
        || mp == 8 || mp == 9);
}

/// A date before 1970 has a negative day number.
proof fn later_is_not_earlier(year: int, month: int, day: int, days: int)
    requires
        is_date(year, month, day),
        day_number(year, month, day) == days,
        days >= 0,
    ensures
        year >= 1970,
{
    if year < 1970 {
        month_in_year(year, month);
        years_follow_each_other(year);
        year_starts_in_order(year + 1, 1970);
    }
}

proof fn month_in_year(year: int, month: int)
    requires
        1 <= month <= 12,
    ensures
        days_before_month(year, month) + month_days(year, month) <= days_before_month(year, 12)
            + month_days(year, 12),
{
    months_summed(year);
}

proof fn year_starts_in_order(a: int, b: int)
    requires
        a <= b,
    ensures
        days_before_year(a) <= days_before_year(b),
    decreases b - a,
{
    if a < b {
        years_follow_each_other(a);
        months_summed(a);
        year_starts_in_order(a + 1, b);
    }
}

/// A day is the day of one date only: two dates with the same day number are the same
/// date.
pub proof fn day_numbers_are_unique(
    y1: int,
    m1: int,
    d1: int,
    y2: int,
    m2: int,
    d2: int,
)
    requires
        is_date(y1, m1, d1),
        is_date(y2, m2, d2),
        day_number(y1, m1, d1) == day_number(y2, m2, d2),
    ensures
        y1 == y2 && m1 == m2 && d1 == d2,
{
    month_in_year(y1, m1);
    month_in_year(y2, m2);
    years_follow_each_other(y1);
    years_follow_each_other(y2);
    months_summed(y1);
    months_summed(y2);
    if y1 < y2 {
        year_starts_in_order(y1 + 1, y2);
    }
    if y2 < y1 {
        year_starts_in_order(y2 + 1, y1);
    }
}

/// The digits of a number, padded with zeros.
pub open spec fn padded(n: int, width: int) -> Seq<char> {
    zero_padded(decimal(n as nat), width)
}

/// The stamp of a date and a second of the day.
pub open spec fn stamp(year: int, month: int, day: int, second: int) -> Seq<char> {
    padded(year, 4) + padded(month, 2) + padded(day, 2) + "-"@ + padded(second / 3600, 2) + padded(
        (second % 3600) / 60,
        2,
    ) + padded(second % 60, 2)
}

/// `text` is the stamp of the moment `seconds` after the start of 1970.
pub open spec fn is_stamp_of(text: Seq<char>, seconds: int) -> bool {
    exists|year: int, month: int, day: int| #[trigger]
        is_date(year, month, day) && day_number(year, month, day) == seconds / 86_400 && text
            == stamp(year, month, day, seconds % 86_400)
}

/// A moment has one stamp only.
pub proof fn stamps_are_unique(a: Seq<char>, b: Seq<char>, seconds: int)
    requires
        is_stamp_of(a, seconds),
        is_stamp_of(b, seconds),
    ensures
        a == b,
{
    let (y1, m1, d1) = choose|y: int, m: int, d: int| #[trigger]
        is_date(y, m, d) && day_number(y, m, d) == seconds / 86_400 && a == stamp(
            y,
            m,
            d,
            seconds % 86_400,
        );
    let (y2, m2, d2) = choose|y: int, m: int, d: int| #[trigger]
        is_date(y, m, d) && day_number(y, m, d) == seconds / 86_400 && b == stamp(
            y,
            m,
            d,
            seconds % 86_400,
        );
    day_numbers_are_unique(y1, m1, d1, y2, m2, d2);
}

/// The stamp of the moment `seconds` after the start of 1970.
pub open spec fn stamp_of(seconds: int) -> Seq<char> {
    choose|text: Seq<char>| is_stamp_of(text, seconds)
}

proof fn every_day_has_a_date(days: int) -> (r: (int, int, int))
    requires
        days >= 0,
    ensures
        is_date(r.0, r.1, r.2),
        day_number(r.0, r.1, r.2) == days,
    decreases days,
{
    if days == 0 {
        months_summed(1970);
        (1970, 1, 1)
    } else {
        let (y, m, d) = every_day_has_a_date(days - 1);
        if d < month_days(y, m) {
            (y, m, d + 1)
        } else if m < 12 {
            (y, m + 1, 1)
        } else {
            years_follow_each_other(y);
            months_summed(y + 1);
            (y + 1, 1, 1)
        }
    }
}

/// Every moment has a stamp.
pub proof fn every_moment_has_a_stamp(seconds: int)
    requires
        seconds >= 0,
    ensures
        is_stamp_of(stamp_of(seconds), seconds),
{
    let (y, m, d) = every_day_has_a_date(seconds / 86_400);
    assert(is_date(y, m, d));
    assert(is_stamp_of(stamp(y, m, d, seconds % 86_400), seconds));
}

/// The moment `seconds` after the start of 1970 as `YYYYMMDD-HHMMSS`.
pub fn utc_timestamp(seconds: u64) -> (r: String)
    ensures
        is_stamp_of(r@, seconds as int),
        r@ == stamp_of(seconds as int),
{
    let days: u64 = seconds / 86_400;
    let rem: u64 = seconds % 86_400;
    let (year, month, day) = civil_from_days(days as i64);
    let mut s: String = zero_padded_u64(year as u64, 4);
    s.append(zero_padded_u64(month as u64, 2).as_str());
    s.append(zero_padded_u64(day as u64, 2).as_str());
    s.append("-");
    s.append(zero_padded_u64(rem / 3600, 2).as_str());
    s.append(zero_padded_u64((rem % 3600) / 60, 2).as_str());
    s.append(zero_padded_u64(rem % 60, 2).as_str());
    assert(s@ == stamp(year as int, month as int, day as int, rem as int));
    proof {
        assert(is_date(year as int, month as int, day as int));
        assert(is_stamp_of(s@, seconds as int));
        stamps_are_unique(s@, stamp_of(seconds as int), seconds as int);
    }
    s
}

} // verus!
