//! Stamps have one shape, and they sort as the moments they stand for.
use crate::text::{decimal, digit_char, is_digit, repeat_char};
use crate::text_order::text_less;
use crate::timestamp::{
    day_number, days_before_month, days_before_year, is_date, is_leap, is_stamp_of, month_days,
    padded, stamp, years_follow_each_other,
};
use vstd::prelude::*;

verus! {

/// Ten to the power of `n`.
pub open spec fn ten_to(n: int) -> int
    decreases n,
{
    if n <= 0 {
        1
    } else {
        10 * ten_to(n - 1)
    }
}

/// `n` written with exactly `width` digits.
spec fn fixed(n: int, width: int) -> Seq<char>
    decreases width,
{
    if width <= 0 {
        Seq::empty()
    } else {
        fixed(n / 10, width - 1).push(digit_char(n % 10))
    }
}

proof fn fixed_zero(width: int)
    requires
        0 <= width,
    ensures
        fixed(0, width) == repeat_char('0', width),
    decreases width,
{
    if width > 0 {
        fixed_zero(width - 1);
        assert(fixed(0, width) =~= repeat_char('0', width));
    } else {
        assert(fixed(0, width) =~= repeat_char('0', width));
    }
}

proof fn padded_is_fixed(n: int, width: int)
    requires
        0 <= n < ten_to(width),
        1 <= width,
    ensures
        padded(n, width) == fixed(n, width),
        decimal(n as nat).len() <= width,
    decreases width,
{
    if n < 10 {
        assert(decimal(n as nat) =~= seq![digit_char(n)]);
        fixed_zero(width - 1);
        assert(n / 10 == 0 && n % 10 == n);
        assert(padded(n, width) =~= fixed(n, width));
    } else {
        if width == 1 {
            assert(ten_to(1) == 10) by {
                reveal_with_fuel(ten_to, 2);
            }
        }
        padded_is_fixed(n / 10, width - 1);
        assert(decimal(n as nat) == decimal((n / 10) as nat).push(digit_char(n % 10)));
        assert(padded(n, width) =~= padded(n / 10, width - 1).push(digit_char(n % 10)));
    }
}

proof fn fixed_shape(n: int, width: int)
    requires
        0 <= width,
        0 <= n,
    ensures
        fixed(n, width).len() == width,
        forall|i: int| 0 <= i < width ==> is_digit(#[trigger] fixed(n, width)[i]),
    decreases width,
{
    if width > 0 {
        fixed_shape(n / 10, width - 1);
        let d = n % 10;
        assert(is_digit(digit_char(d)));
    }
}

/// The order of two texts with the same beginning is that of what follows.
proof fn less_behind(p: Seq<char>, a: Seq<char>, b: Seq<char>)
    ensures
        text_less(p + a, p + b) == text_less(a, b),
    decreases p.len(),
{
    if p.len() == 0 {
        assert(p + a =~= a);
        assert(p + b =~= b);
    } else {
        less_behind(p.skip(1), a, b);
        assert((p + a).skip(1) =~= p.skip(1) + a);
        assert((p + b).skip(1) =~= p.skip(1) + b);
    }
}

/// A text of which an equally long one is greater stays smaller whatever follows.
pub proof fn less_stays(a: Seq<char>, b: Seq<char>, x: Seq<char>, y: Seq<char>)
    requires
        a.len() == b.len(),
        text_less(a, b),
    ensures
        text_less(a + x, b + y),
    decreases a.len(),
{
    if a.len() > 0 {
        assert((a + x)[0] == a[0] && (b + y)[0] == b[0]);
        if a[0] == b[0] {
            less_stays(a.skip(1), b.skip(1), x, y);
            assert((a + x).skip(1) =~= a.skip(1) + x);
            assert((b + y).skip(1) =~= b.skip(1) + y);
        }
    }
}

proof fn fixed_in_order(m: int, n: int, width: int)
    requires
        0 <= m < n < ten_to(width),
        0 <= width,
    ensures
        text_less(fixed(m, width), fixed(n, width)),
    decreases width,
{
    if width > 0 {
        let a = fixed(m / 10, width - 1);
        let b = fixed(n / 10, width - 1);
        let x = seq![digit_char(m % 10)];
        let y = seq![digit_char(n % 10)];
        fixed_shape(m / 10, width - 1);
        fixed_shape(n / 10, width - 1);
        assert(fixed(m, width) =~= a + x);
        assert(fixed(n, width) =~= b + y);
        if m / 10 == n / 10 {
            less_behind(a, x, y);
        } else {
            fixed_in_order(m / 10, n / 10, width - 1);
            less_stays(a, b, x, y);
        }
    }
}

proof fn tens()
    ensures
        ten_to(2) == 100,
        ten_to(4) == 10_000,
{
    reveal_with_fuel(ten_to, 5);
}

/// The stamp of a date in a year of at most four digits is fifteen characters long: eight digits,
/// a dash, and six digits.
pub open spec fn stamp_shape(s: Seq<char>) -> bool {
    &&& s.len() == 15
    &&& s[8] == '-'
    &&& forall|i: int| 0 <= i < 15 && i != 8 ==> is_digit(#[trigger] s[i])
}

/// The last moment of the year 9999.
pub open spec fn last_four_digit_second() -> int {
    253_402_300_799
}

proof fn stamp_parts(year: int, month: int, day: int, second: int)
    requires
        0 <= year <= 9999,
        is_date(year, month, day),
        0 <= second < 86_400,
    ensures
        stamp(year, month, day, second) == fixed(year, 4) + fixed(month, 2) + fixed(day, 2) + seq!['-'] + fixed(
            second / 3600,
            2,
        ) + fixed((second % 3600) / 60, 2) + fixed(second % 60, 2),
{
    tens();
    reveal_strlit("-");
    assert("-"@ =~= seq!['-']);
    padded_is_fixed(year, 4);
    padded_is_fixed(month, 2);
    padded_is_fixed(day, 2);
    padded_is_fixed(second / 3600, 2);
    padded_is_fixed((second % 3600) / 60, 2);
    padded_is_fixed(second % 60, 2);
}

/// Every stamp up to the end of the year 9999 has the shape of a stamp.
pub proof fn stamps_have_shape(text: Seq<char>, seconds: int)
    requires
        0 <= seconds <= last_four_digit_second(),
        is_stamp_of(text, seconds),
    ensures
        stamp_shape(text),
{
    let (y, m, d) = date_of(text, seconds);
    let s = seconds % 86_400;
    stamp_parts(y, m, d, s);
    fixed_shape(y, 4);
    fixed_shape(m, 2);
    fixed_shape(d, 2);
    fixed_shape(s / 3600, 2);
    fixed_shape((s % 3600) / 60, 2);
    fixed_shape(s % 60, 2);
    let a = fixed(y, 4) + fixed(m, 2);
    let b = a + fixed(d, 2);
    let c = b + seq!['-'];
    let e = c + fixed(s / 3600, 2);
    let f = e + fixed((s % 3600) / 60, 2);
    let g = f + fixed(s % 60, 2);
    assert(text == g);
    assert forall|i: int| 0 <= i < 15 && i != 8 implies is_digit(#[trigger] text[i]) by {
        if i < 4 {
            assert(text[i] == fixed(y, 4)[i]);
        } else if i < 6 {
            assert(text[i] == fixed(m, 2)[i - 4]);
        } else if i < 8 {
            assert(text[i] == fixed(d, 2)[i - 6]);
        } else if i < 11 {
            assert(text[i] == fixed(s / 3600, 2)[i - 9]);
        } else if i < 13 {
            assert(text[i] == fixed((s % 3600) / 60, 2)[i - 11]);
        } else {
            assert(text[i] == fixed(s % 60, 2)[i - 13]);
        }
    }
}

proof fn date_of(text: Seq<char>, seconds: int) -> (r: (int, int, int))
    requires
        0 <= seconds <= last_four_digit_second(),
        is_stamp_of(text, seconds),
    ensures
        is_date(r.0, r.1, r.2),
        day_number(r.0, r.1, r.2) == seconds / 86_400,
        text == stamp(r.0, r.1, r.2, seconds % 86_400),
        1970 <= r.0 <= 9999,
{
    let (y, m, d) = choose|y: int, m: int, d: int| #[trigger]
        is_date(y, m, d) && day_number(y, m, d) == seconds / 86_400 && text == stamp(
            y,
            m,
            d,
            seconds % 86_400,
        );
    if y < 1970 {
        days_inside_year(y, m);
        years_in_order(y + 1, 1970);
    }
    if y > 9999 {
        days_before_not_negative(y, m);
        years_in_order(10_000, y);
    }
    (y, m, d)
}

proof fn days_before_not_negative(year: int, month: int)
    ensures
        days_before_month(year, month) >= 0,
    decreases month,
{
    if month > 1 {
        days_before_not_negative(year, month - 1);
    }
}

proof fn months_in_order(year: int, a: int, b: int)
    requires
        1 <= a < b,
    ensures
        days_before_month(year, a) + month_days(year, a) <= days_before_month(year, b),
    decreases b - a,
{
    if a + 1 < b {
        months_in_order(year, a, b - 1);
    }
}

proof fn days_inside_year(year: int, month: int)
    requires
        1 <= month <= 12,
    ensures
        days_before_year(year) + days_before_month(year, month) + month_days(year, month)
            <= days_before_year(year + 1),
{
    years_follow_each_other(year);
    if month < 12 {
        months_in_order(year, month, 12);
    }
}

proof fn years_in_order(a: int, b: int)
    requires
        a <= b,
    ensures
        days_before_year(a) <= days_before_year(b),
    decreases b - a,
{
    if a < b {
        years_follow_each_other(a);
        days_before_not_negative(a, 12);
        years_in_order(a + 1, b);
    }
}

/// Of two dates the one with the smaller day number has the smaller year, or in the
/// same year the smaller month, or in the same month the smaller day.
proof fn dates_in_order(y1: int, m1: int, d1: int, y2: int, m2: int, d2: int)
    requires
        is_date(y1, m1, d1),
        is_date(y2, m2, d2),
        day_number(y1, m1, d1) < day_number(y2, m2, d2),
    ensures
        y1 < y2 || (y1 == y2 && (m1 < m2 || (m1 == m2 && d1 < d2))),
{
    days_inside_year(y1, m1);
    days_inside_year(y2, m2);
    days_before_not_negative(y1, m1);
    days_before_not_negative(y2, m2);
    if y2 < y1 {
        years_in_order(y2 + 1, y1);
    }
    if y1 == y2 && m2 < m1 {
        months_in_order(y1, m2, m1);
    }
}

proof fn day_stamps_in_order(
    y1: int,
    m1: int,
    d1: int,
    y2: int,
    m2: int,
    d2: int,
    x: Seq<char>,
    y: Seq<char>,
)
    requires
        is_date(y1, m1, d1),
        is_date(y2, m2, d2),
        0 <= y1 <= 9999,
        0 <= y2 <= 9999,
        y1 < y2 || (y1 == y2 && (m1 < m2 || (m1 == m2 && d1 < d2))),
    ensures
        text_less(
            fixed(y1, 4) + (fixed(m1, 2) + (fixed(d1, 2) + x)),
            fixed(y2, 4) + (fixed(m2, 2) + (fixed(d2, 2) + y)),
        ),
{
    tens();
    fixed_shape(y1, 4);
    fixed_shape(y2, 4);
    fixed_shape(m1, 2);
    fixed_shape(m2, 2);
    fixed_shape(d1, 2);
    fixed_shape(d2, 2);
    let a = fixed(d1, 2) + x;
    let b = fixed(d2, 2) + y;
    let c = fixed(m1, 2) + a;
    let d = fixed(m2, 2) + b;
    if y1 < y2 {
        fixed_in_order(y1, y2, 4);
        less_stays(fixed(y1, 4), fixed(y2, 4), c, d);
    } else {
        less_behind(fixed(y1, 4), c, d);
        if m1 < m2 {
            fixed_in_order(m1, m2, 2);
            less_stays(fixed(m1, 2), fixed(m2, 2), a, b);
        } else {
            less_behind(fixed(m1, 2), a, b);
            fixed_in_order(d1, d2, 2);
            less_stays(fixed(d1, 2), fixed(d2, 2), x, y);
        }
    }
}

spec fn clock(s: int) -> Seq<char> {
    fixed(s / 3600, 2) + (fixed((s % 3600) / 60, 2) + fixed(s % 60, 2))
}

proof fn clocks_in_order(s: int, t: int)
    requires
        0 <= s < t < 86_400,
    ensures
        text_less(clock(s), clock(t)),
{
    tens();
    fixed_shape(s / 3600, 2);
    fixed_shape(t / 3600, 2);
    fixed_shape((s % 3600) / 60, 2);
    fixed_shape((t % 3600) / 60, 2);
    let a = fixed((s % 3600) / 60, 2) + fixed(s % 60, 2);
    let b = fixed((t % 3600) / 60, 2) + fixed(t % 60, 2);
    if s / 3600 < t / 3600 {
        fixed_in_order(s / 3600, t / 3600, 2);
        less_stays(fixed(s / 3600, 2), fixed(t / 3600, 2), a, b);
    } else {
        assert(s / 3600 == t / 3600);
        less_behind(fixed(s / 3600, 2), a, b);
        if (s % 3600) / 60 < (t % 3600) / 60 {
            fixed_in_order((s % 3600) / 60, (t % 3600) / 60, 2);
            less_stays(
                fixed((s % 3600) / 60, 2),
                fixed((t % 3600) / 60, 2),
                fixed(s % 60, 2),
                fixed(t % 60, 2),
            );
        } else {
            assert((s % 3600) / 60 == (t % 3600) / 60);
            assert(s % 60 < t % 60) by {
                assert(s == 3600 * (s / 3600) + 60 * ((s % 3600) / 60) + s % 60);
                assert(t == 3600 * (t / 3600) + 60 * ((t % 3600) / 60) + t % 60);
            }
            less_behind(fixed((s % 3600) / 60, 2), fixed(s % 60, 2), fixed(t % 60, 2));
            fixed_in_order(s % 60, t % 60, 2);
        }
    }
}

proof fn stamp_regrouped(year: int, month: int, day: int, s: int)
    requires
        0 <= year <= 9999,
        is_date(year, month, day),
        0 <= s < 86_400,
    ensures
        stamp(year, month, day, s) == fixed(year, 4) + (fixed(month, 2) + (fixed(day, 2) + (seq!['-']
            + clock(s)))),
{
    stamp_parts(year, month, day, s);
    fixed_shape(year, 4);
    fixed_shape(month, 2);
    fixed_shape(day, 2);
    fixed_shape(s / 3600, 2);
    fixed_shape((s % 3600) / 60, 2);
    fixed_shape(s % 60, 2);
    assert(stamp(year, month, day, s) =~= fixed(year, 4) + (fixed(month, 2) + (fixed(day, 2) + (seq![
        '-',
    ] + clock(s)))));
}

proof fn moments_of_a_day_in_order(year: int, month: int, day: int, u: int, v: int)
    requires
        0 <= u < v < 86_400,
    ensures
        text_less(
            fixed(year, 4) + (fixed(month, 2) + (fixed(day, 2) + (seq!['-'] + clock(u)))),
            fixed(year, 4) + (fixed(month, 2) + (fixed(day, 2) + (seq!['-'] + clock(v)))),
        ),
{
    let x = seq!['-'] + clock(u);
    let y = seq!['-'] + clock(v);
    clocks_in_order(u, v);
    less_behind(seq!['-'], clock(u), clock(v));
    less_behind(fixed(day, 2), x, y);
    less_behind(fixed(month, 2), fixed(day, 2) + x, fixed(day, 2) + y);
    less_behind(
        fixed(year, 4),
        fixed(month, 2) + (fixed(day, 2) + x),
        fixed(month, 2) + (fixed(day, 2) + y),
    );
}

/// Stamps sort as the moments they stand for, up to the end of the year 9999, whatever
/// is put behind them.
pub proof fn stamps_sort_by_time(
    a: Seq<char>,
    s: int,
    b: Seq<char>,
    t: int,
    behind_a: Seq<char>,
    behind_b: Seq<char>,
)
    requires
        0 <= s < t <= last_four_digit_second(),
        is_stamp_of(a, s),
        is_stamp_of(b, t),
    ensures
        text_less(a, b),
        text_less(a + behind_a, b + behind_b),
{
    let (y1, m1, d1) = date_of(a, s);
    let (y2, m2, d2) = date_of(b, t);
    let u = s % 86_400;
    let v = t % 86_400;
    stamps_have_shape(a, s);
    stamps_have_shape(b, t);
    stamp_regrouped(y1, m1, d1, u);
    stamp_regrouped(y2, m2, d2, v);
    if s / 86_400 < t / 86_400 {
        dates_in_order(y1, m1, d1, y2, m2, d2);
        day_stamps_in_order(y1, m1, d1, y2, m2, d2, seq!['-'] + clock(u), seq!['-'] + clock(v));
    } else {
        crate::timestamp::day_numbers_are_unique(y1, m1, d1, y2, m2, d2);
        moments_of_a_day_in_order(y1, m1, d1, u, v);
    }
    less_stays(a, b, behind_a, behind_b);
}

// ------------------------------------------------------------------------ the calendar

/// A year has a day more where four divides it, save where a hundred does and four hundred
/// does not; so four hundred years have as many days as any other four hundred.
pub proof fn leap_years_have_a_day_more(year: int)
    requires
        year >= 1,
    ensures
        days_before_year(year + 1) - days_before_year(year) == if (year % 4 == 0 && year % 100 != 0)
            || year % 400 == 0 {
            366int
        } else {
            365
        },
        days_before_year(year + 400) - days_before_year(year) == 146_097,
        is_leap(year) <==> (year % 4 == 0 && year % 100 != 0) || year % 400 == 0,
{
    years_follow_each_other(year);
    four_divides_four_hundred(year);
    four_hundred_more(year - 1);
}

proof fn four_divides_four_hundred(year: int)
    ensures
        year % 400 == 0 ==> year % 4 == 0,
        year % 400 == 0 ==> year % 100 == 0,
{
    let q = year / 400;
    assert(year == 400 * q + year % 400);
    assert((400 * q) % 4 == 0);
    assert((400 * q) % 100 == 0);
}

proof fn four_hundred_more(y: int)
    ensures
        (y + 400) / 4 == y / 4 + 100,
        (y + 400) / 100 == y / 100 + 4,
        (y + 400) / 400 == y / 400 + 1,
{
}

/// The months have these days.
pub proof fn months_have_their_days(year: int)
    ensures
        month_days(year, 2) == if (year % 4 == 0 && year % 100 != 0) || year % 400 == 0 {
            29int
        } else {
            28
        },
        forall|m: int|
            m == 4 || m == 6 || m == 9 || m == 11 ==> #[trigger] month_days(year, m) == 30,
        forall|m: int|
            m == 1 || m == 3 || m == 5 || m == 7 || m == 8 || m == 10 || m == 12
                ==> #[trigger] month_days(year, m) == 31,
{
}

} // verus!
