//! Civil dates: from seconds since the Unix epoch to the Gregorian calendar.

use vstd::prelude::*;

verus! {

/// The first second past the last one that falls in year `i32::MAX`.
pub const YEAR_RANGE_END_SECS: u64 = 67_767_976_233_532_800;

/// A leap year of the Gregorian calendar.
pub open spec fn is_leap(y: int) -> bool {
    y % 4 == 0 && (y % 100 != 0 || y % 400 == 0)
}

/// The days of year `y`.
pub open spec fn days_in_year(y: int) -> int {
    if is_leap(y) {
        366
    } else {
        365
    }
}

/// The days of month `m` of year `y`.
pub open spec fn days_in_month(y: int, m: int) -> int {
    if m == 2 {
        if is_leap(y) {
            29
        } else {
            28
        }
    } else if m == 4 || m == 6 || m == 9 || m == 11 {
        30
    } else {
        31
    }
}

/// `y-m-d` is a day of the calendar, in 1970 or later.
pub open spec fn valid_date(y: int, m: int, d: int) -> bool {
    1970 <= y && 1 <= m <= 12 && 1 <= d <= days_in_month(y, m)
}

/// The days from 1970-01-01 to the first day of year `y`.
pub open spec fn days_before_year(y: int) -> int
    decreases y,
{
    if y <= 1970 {
        0
    } else {
        days_before_year(y - 1) + days_in_year(y - 1)
    }
}

/// The days from the first day of year `y` to the first day of its month `m`.
pub open spec fn days_before_month(y: int, m: int) -> int
    decreases m,
{
    if m <= 1 {
        0
    } else {
        days_before_month(y, m - 1) + days_in_month(y, m - 1)
    }
}

/// The days from 1970-01-01 to `y-m-d`.
pub open spec fn day_number(y: int, m: int, d: int) -> int {
    days_before_year(y) + days_before_month(y, m) + d - 1
}

/// `t` is a year, month and day that fall `day` days after 1970-01-01.
pub open spec fn falls_on(t: (int, int, int), day: int) -> bool {
    valid_date(t.0, t.1, t.2) && day_number(t.0, t.1, t.2) == day
}

/// The date of the day `day` days after 1970-01-01.
pub open spec fn date_of(day: int) -> (int, int, int) {
    choose|t: (int, int, int)| falls_on(t, day)
}

/// The days from 0000-03-01 to 1 March of year `y`, in closed form.
spec fn march_days(y: int) -> int {
    365 * y + y / 4 - y / 100 + y / 400
}

proof fn lemma_march_days_step(y: int)
    requires
        y >= 0,
    ensures
        march_days(y + 1) == march_days(y) + days_in_year(y + 1),
{
}

/// Later years begin at least 365 days per year later.
proof fn lemma_march_days_grow(a: int, b: int)
    requires
        a <= b,
    ensures
        march_days(a) + 365 * (b - a) <= march_days(b),
{
    let leaps_a = a / 4 - a / 100 + a / 400;
    let leaps_b = b / 4 - b / 100 + b / 400;
    assert(a / 100 == (a / 4) / 25);
    assert(b / 100 == (b / 4) / 25);
    assert(leaps_a <= leaps_b);
}

proof fn lemma_days_before_year(y: int)
    requires
        y >= 1970,
    ensures
        days_before_year(y) == march_days(y - 1) + 306 - 719_468,
    decreases y,
{
    if y > 1970 {
        lemma_days_before_year(y - 1);
        lemma_march_days_step(y - 2);
    }
}

proof fn lemma_days_before_month(y: int)
    ensures
        days_before_month(y, 1) == 0,
        days_before_month(y, 2) == 31,
        forall|m: int|
            3 <= m <= 12 ==> #[trigger] days_before_month(y, m) == (153 * (m - 3) + 2) / 5 + (
            days_in_year(y) - 306),
{
    reveal_with_fuel(days_before_month, 13);
    assert forall|m: int| 3 <= m <= 12 implies #[trigger] days_before_month(y, m) == (153 * (m - 3)
        + 2) / 5 + (days_in_year(y) - 306) by {
        if m == 3 {
        } else if m == 4 {
        } else if m == 5 {
        } else if m == 6 {
        } else if m == 7 {
        } else if m == 8 {
        } else if m == 9 {
        } else if m == 10 {
        } else if m == 11 {
        } else {
            assert(m == 12);
        }
    }
}

/// Within a 400-year era, the year of the era that holds day `doe`, counting
/// years from 1 March.
spec fn year_of_era(doe: int) -> int {
    (doe - doe / 1460 + doe / 36_524 - doe / 146_096) / 365
}

/// `year_of_era` finds the year whose first day is the last one not after `doe`.
proof fn lemma_year_of_era(doe: int)
    requires
        0 <= doe <= 146_096,
    ensures
        0 <= year_of_era(doe) <= 399,
        ({
            let yoe = year_of_era(doe);
            let doy = doe - (365 * yoe + yoe / 4 - yoe / 100);
            &&& 0 <= doy
            &&& doy <= 364 + (days_in_year(yoe + 1) - 365)
        }),
{
    let yoe = year_of_era(doe);
    let century = doe / 36_524;
    assert(0 <= century <= 4);
    if century == 0 {
    } else if century == 1 {
    } else if century == 2 {
    } else if century == 3 {
    } else {
    }
}

/// Hinnant's month formula: `mp` is the month, counted from March, of day `doy`
/// of a year that begins on 1 March, and `d` the day of that month.
proof fn lemma_month_of_year(doy: int)
    requires
        0 <= doy <= 365,
    ensures
        ({
            let mp = (5 * doy + 2) / 153;
            &&& 0 <= mp <= 11
            &&& (153 * mp + 2) / 5 <= doy
            &&& mp < 11 ==> doy < (153 * (mp + 1) + 2) / 5
            &&& mp >= 10 <==> doy >= 306
        }),
{
}

/// Years and their days repeat every 400 years.
proof fn lemma_era(era: int, yoe: int)
    requires
        0 <= era,
        0 <= yoe <= 399,
    ensures
        march_days(era * 400 + yoe) == era * 146_097 + 365 * yoe + yoe / 4 - yoe / 100,
        days_in_year(era * 400 + yoe + 1) == days_in_year(yoe + 1),
{
    let y = era * 400 + yoe;
    assert(y / 4 == era * 100 + yoe / 4);
    assert(y / 100 == era * 4 + yoe / 100);
    assert(y / 400 == era);
    assert((y + 1) % 4 == (yoe + 1) % 4);
    assert((y + 1) % 100 == (yoe + 1) % 100);
    assert((y + 1) % 400 == (yoe + 1) % 400);
}

/// Day `doy` of the year that begins on 1 March of year `y` falls on the day
/// `d` of month `mo` that the month formula gives.
proof fn lemma_civil(days: int, y: int, doy: int, mp: int)
    requires
        days >= 0,
        0 <= doy <= 364 + (days_in_year(y + 1) - 365),
        days + 719_468 == march_days(y) + doy,
        mp == (5 * doy + 2) / 153,
    ensures
        ({
            let d = doy - (153 * mp + 2) / 5 + 1;
            let mo = if mp < 10 {
                mp + 3
            } else {
                mp - 9
            };
            let y_final = if mo <= 2 {
                y + 1
            } else {
                y
            };
            &&& valid_date(y_final, mo, d)
            &&& day_number(y_final, mo, d) == days
        }),
{
    let d = doy - (153 * mp + 2) / 5 + 1;
    let mo = if mp < 10 {
        mp + 3
    } else {
        mp - 9
    };
    let y_final = if mo <= 2 {
        y + 1
    } else {
        y
    };
    lemma_month_of_year(doy);
    lemma_march_reaches(y, doy, days);
    assert(y_final >= 1970);
    lemma_days_before_year(y_final);
    lemma_days_before_month(y_final);
    if mp < 10 {
        lemma_march_days_step(y - 1);
        assert(days_before_month(y, mo) == (153 * mp + 2) / 5 + (days_in_year(y) - 306));
        assert(d <= days_in_month(y, mo));
    } else {
        assert(days_before_year(y + 1) == march_days(y) + 306 - 719_468);
        assert(mo == 1 || mo == 2);
        assert(mo == 1 ==> (153 * mp + 2) / 5 == 306);
        assert(mo == 2 ==> (153 * mp + 2) / 5 == 337);
        assert(d <= days_in_month(y + 1, mo));
    }
}

/// A day in 1970 or later lies in a March-based year no earlier than 1969, and
/// in 1969 only from January on.
proof fn lemma_march_reaches(y: int, doy: int, days: int)
    requires
        days >= 0,
        0 <= doy <= 365,
        days + 719_468 == march_days(y) + doy,
    ensures
        y >= 1969,
        y == 1969 ==> doy >= 306,
{
    if y < 1969 {
        lemma_march_days_grow(y, 1969);
    }
}

/// A day before the end of year `i32::MAX` lies in a March-based year whose
/// number fits, and so does the number of the civil year.
proof fn lemma_year_range(days: int, y: int, doy: int)
    requires
        0 <= days < YEAR_RANGE_END_SECS / 86_400,
        0 <= doy <= 365,
        days + 719_468 == march_days(y) + doy,
    ensures
        y <= i32::MAX,
        y == i32::MAX ==> doy < 306,
{
    assert(march_days(0x7fff_ffff) + 306 == YEAR_RANGE_END_SECS / 86_400 + 719_468);
    if y > i32::MAX {
        lemma_march_days_grow(0x7fff_ffff, y);
    }
}

/// The civil date and time of day, in UTC, of a moment given in seconds since
/// the Unix epoch: year, month, day, hour, minute, second.
pub fn ymdhms(epoch_secs: u64) -> (t: (i32, u32, u32, u32, u32, u32))
    requires
        epoch_secs < YEAR_RANGE_END_SECS,
    ensures
        valid_date(t.0 as int, t.1 as int, t.2 as int),
        day_number(t.0 as int, t.1 as int, t.2 as int) == epoch_secs / 86_400,
        date_of((epoch_secs / 86_400) as int) == (t.0 as int, t.1 as int, t.2 as int),
        t.3 < 24,
        t.4 < 60,
        t.5 < 60,
        t.3 * 3600 + t.4 * 60 + t.5 == epoch_secs % 86_400,
{
    let days: i64 = (epoch_secs / 86_400) as i64;
    let secs_of_day: u32 = (epoch_secs % 86_400) as u32;

    let z: i64 = days + 719_468;
    let era: i64 = z / 146_097;
    let doe: u32 = (z - era * 146_097) as u32;
    proof {
        lemma_year_of_era(doe as int);
    }
    let yoe: u32 = (doe - doe / 1460 + doe / 36_524 - doe / 146_096) / 365;
    proof {
        assert(yoe as int == year_of_era(doe as int));
        lemma_era(era as int, yoe as int);
    }
    let doy: u32 = doe - (365 * yoe + yoe / 4 - yoe / 100);
    proof {
        lemma_year_range(days as int, era * 400 + yoe, doy as int);
    }
    let y: i32 = yoe as i32 + (era as i32) * 400;
    let mp: u32 = (5 * doy + 2) / 153;
    proof {
        lemma_month_of_year(doy as int);
        lemma_civil(days as int, y as int, doy as int, mp as int);
    }
    let d: u32 = doy - (153 * mp + 2) / 5 + 1;
    let mo: u32 = if mp < 10 {
        mp + 3
    } else {
        mp - 9
    };
    let y_final: i32 = if mo <= 2 {
        y + 1
    } else {
        y
    };
    proof {
        law_one_date_per_day((y_final as int, mo as int, d as int), days as int);
    }
    (
        y_final,
        mo,
        d,
        secs_of_day / 3600,
        (secs_of_day / 60) % 60,
        secs_of_day % 60,
    )
}

// ── laws ────────────────────────────────────────────────────────────────────

proof fn lemma_year_starts(a: int, b: int)
    requires
        1970 <= a < b,
    ensures
        days_before_year(a) + days_in_year(a) <= days_before_year(b),
    decreases b,
{
    if a + 1 < b {
        lemma_year_starts(a, b - 1);
    }
}

proof fn lemma_month_starts(y: int, a: int, b: int)
    requires
        1 <= a < b,
    ensures
        days_before_month(y, a) + days_in_month(y, a) <= days_before_month(y, b),
    decreases b,
{
    if a + 1 < b {
        lemma_month_starts(y, a, b - 1);
    }
}

proof fn lemma_within_year(y: int, m: int, d: int)
    requires
        valid_date(y, m, d),
    ensures
        0 <= days_before_month(y, m) + d - 1 < days_in_year(y),
{
    lemma_days_before_month(y);
}

/// Dates and days are in step: an earlier date, by year, month and day, has the
/// smaller day number.
pub proof fn law_dates_in_order(y1: int, m1: int, d1: int, y2: int, m2: int, d2: int)
    requires
        valid_date(y1, m1, d1),
        valid_date(y2, m2, d2),
        y1 < y2 || (y1 == y2 && m1 < m2) || (y1 == y2 && m1 == m2 && d1 < d2),
    ensures
        day_number(y1, m1, d1) < day_number(y2, m2, d2),
{
    lemma_within_year(y1, m1, d1);
    lemma_within_year(y2, m2, d2);
    if y1 < y2 {
        lemma_year_starts(y1, y2);
    } else if m1 < m2 {
        lemma_month_starts(y1, m1, m2);
    }
}

/// No two dates fall on one day, so what `ymdhms` returns is the only date of
/// that day.
pub proof fn law_one_date_per_day(t: (int, int, int), day: int)
    requires
        falls_on(t, day),
    ensures
        date_of(day) == t,
{
    let u = date_of(day);
    assert(falls_on(u, day));
    if u != t {
        if u.0 < t.0 || (u.0 == t.0 && u.1 < t.1) || (u.0 == t.0 && u.1 == t.1 && u.2 < t.2) {
            law_dates_in_order(u.0, u.1, u.2, t.0, t.1, t.2);
        } else {
            law_dates_in_order(t.0, t.1, t.2, u.0, u.1, u.2);
        }
    }
}

/// Every day from 1970 on has a date.
pub proof fn law_every_day_has_a_date(day: int)
    requires
        day >= 0,
    ensures
        falls_on(date_of(day), day),
{
    let z = day + 719_468;
    let era = z / 146_097;
    let doe = z - era * 146_097;
    let yoe = year_of_era(doe);
    let doy = doe - (365 * yoe + yoe / 4 - yoe / 100);
    let mp = (5 * doy + 2) / 153;
    lemma_year_of_era(doe);
    lemma_era(era, yoe);
    let y = era * 400 + yoe;
    lemma_civil(day, y, doy, mp);
    let d = doy - (153 * mp + 2) / 5 + 1;
    let mo = if mp < 10 {
        mp + 3
    } else {
        mp - 9
    };
    let y_final = if mo <= 2 {
        y + 1
    } else {
        y
    };
    law_one_date_per_day((y_final, mo, d), day);
}

/// A day before the year 10000 has a year of four digits.
pub proof fn lemma_four_digit_years(day: int)
    requires
        0 <= day < 2_932_897,
    ensures
        1970 <= date_of(day).0 <= 9999,
{
    law_every_day_has_a_date(day);
    let t = date_of(day);
    if t.0 >= 10_000 {
        lemma_days_before_year(10_000);
        lemma_within_year(t.0, t.1, t.2);
        if t.0 > 10_000 {
            lemma_year_starts(10_000, t.0);
        }
    }
}

/// The day after a date: the next of its month, the first of the next month, or the
/// first of the next year. Months have 31 days, but for four of 30, and February has
/// 28, or 29 in every fourth year that does not end a century, and in every fourth
/// century. Counting begins on the first of January 1970.
pub proof fn law_days_follow_one_another(y: int, m: int, d: int)
    requires
        valid_date(y, m, d),
    ensures
        day_number(1970, 1, 1) == 0,
        ({
            let leap = y % 4 == 0 && (y % 100 != 0 || y % 400 == 0);
            let last: int = if m == 2 {
                if leap {
                    29
                } else {
                    28
                }
            } else if m == 4 || m == 6 || m == 9 || m == 11 {
                30
            } else {
                31
            };
            &&& d <= last
            &&& d < last ==> day_number(y, m, d + 1) == day_number(y, m, d) + 1
            &&& d == last && m < 12 ==> day_number(y, m + 1, 1) == day_number(y, m, d) + 1
            &&& d == last && m == 12 ==> day_number(y + 1, 1, 1) == day_number(y, m, d) + 1
        }),
{
    lemma_days_before_month(y);
    reveal_with_fuel(days_before_month, 13);
}

} // verus!
