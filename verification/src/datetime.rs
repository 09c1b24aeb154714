//! Capture times: the EXIF notation and the Gregorian calendar.
use vstd::prelude::*;

use crate::text::{
    chars_of,
    find_char,
    first_at,
    i64_value,
    parse_i64,
    split,
    split_on,
    text_of,
    trim,
    trimmed,
    views,
};

verus! {

// ---------------------------------------------------------------------------
// The calendar
// ---------------------------------------------------------------------------

pub open spec fn is_leap(y: int) -> bool {
    y % 4 == 0 && (y % 100 != 0 || y % 400 == 0)
}

/// The number of days of a month.
pub open spec fn month_days(y: int, m: int) -> int {
    if m == 2 {
        if is_leap(y) {
            29
        } else {
            28
        }
    } else if m == 4 || m == 6 || m == 9 || m == 11 {
        30
    } else {
        31
    }
}

/// The number of days of a year in front of its month `m`.
pub open spec fn days_before_month(y: int, m: int) -> int
    decreases m,
{
    if m <= 1 {
        0
    } else {
        days_before_month(y, m - 1) + month_days(y, m - 1)
    }
}

/// The days from 1 January 1970 to 1 January of the year `y`.
pub open spec fn days_to_year(y: int) -> int
    decreases
            if y >= 1970 {
                y - 1970
            } else {
                1970 - y
            },
{
    if y == 1970 {
        0
    } else if y > 1970 {
        days_to_year(y - 1) + 365 + (if is_leap(y - 1) {
            1int
        } else {
            0
        })
    } else {
        days_to_year(y + 1) - 365 - (if is_leap(y) {
            1int
        } else {
            0
        })
    }
}

/// The seconds from the start of 1970 to a date and time of the day.
pub open spec fn epoch_seconds(y: int, m: int, d: int, hh: int, mi: int, ss: int) -> int {
    (days_to_year(y) + days_before_month(y, m) + d - 1) * 86400 + hh * 3600 + mi * 60 + ss
}

/// The number of leap years from year 1 to year `n`.
#[verifier::opaque]
spec fn leaps(n: int) -> int {
    n / 4 - n / 100 + n / 400
}

proof fn lemma_fourth_years(y: int)
    ensures
        y / 4 == (y - 1) / 4 + (if y % 4 == 0 {
            1int
        } else {
            0
        }),
{
}

proof fn lemma_hundredth_years(y: int)
    ensures
        y / 100 == (y - 1) / 100 + (if y % 100 == 0 {
            1int
        } else {
            0
        }),
        y % 100 == 0 ==> y % 4 == 0,
{
}

proof fn lemma_four_hundredth_years(y: int)
    ensures
        y / 400 == (y - 1) / 400 + (if y % 400 == 0 {
            1int
        } else {
            0
        }),
        y % 400 == 0 ==> y % 100 == 0,
{
}

proof fn lemma_leaps_step(y: int)
    ensures
        leaps(y) == leaps(y - 1) + (if is_leap(y) {
            1int
        } else {
            0
        }),
{
    reveal(leaps);
    lemma_fourth_years(y);
    lemma_hundredth_years(y);
    lemma_four_hundredth_years(y);
}

proof fn lemma_days_to_year(y: int)
    ensures
        days_to_year(y) == 365 * (y - 1970) + leaps(y - 1) - leaps(1969),
    decreases
            if y >= 1970 {
                y - 1970
            } else {
                1970 - y
            },
{
    if y > 1970 {
        lemma_days_to_year(y - 1);
        lemma_leaps_step(y - 1);
    } else if y < 1970 {
        lemma_days_to_year(y + 1);
        lemma_leaps_step(y);
    }
}

proof fn lemma_days_before_month(y: int, m: int)
    requires
        1 <= m <= 12,
    ensures
        days_before_month(y, m) == (if m <= 2 {
            (m - 1) * 31
        } else {
            59 + (if is_leap(y) {
                1int
            } else {
                0
            }) + (153 * (m - 3) + 2) / 5
        }),
{
    reveal_with_fuel(days_before_month, 13);
}

/// The day number counted in years that start in March, so that the leap day comes
/// last.
proof fn lemma_march_years(y: int, m: int, d: int, y2: int, era: int, yoe: int, doy: int)
    requires
        1 <= m <= 12,
        y2 == (if m <= 2 {
            y - 1
        } else {
            y
        }),
        era == y2 / 400,
        yoe == y2 - era * 400,
        doy == (153 * ((m + 9) % 12) + 2) / 5 + d - 1,
    ensures
        era * 146097 + (yoe * 365 + yoe / 4 - yoe / 100 + doy) - 719468 == days_to_year(y)
            + days_before_month(y, m) + d - 1,
{
    lemma_days_to_year(y);
    lemma_days_before_month(y, m);
    assert(0 <= yoe < 400);
    assert(y2 / 4 == era * 100 + yoe / 4);
    assert(y2 / 100 == era * 4 + yoe / 100);
    assert(leaps(y2) == era * 97 + yoe / 4 - yoe / 100) by {
        reveal(leaps);
    }
    assert(leaps(1969) == 477) by {
        reveal(leaps);
    }
    if m > 2 {
        assert((m + 9) % 12 == m - 3);
        lemma_leaps_step(y);
    } else {
        assert((m + 9) % 12 == m + 9);
    }
}

/// The seconds since the start of 1970, wide enough for any date.
fn civil_wide(y: i64, m: i64, d: i64, hh: i64, mi: i64, ss: i64) -> (r: i128)
    requires
        1 <= m <= 12,
    ensures
        r == epoch_seconds(y as int, m as int, d as int, hh as int, mi as int, ss as int),
{
    let y2: i128 = if m <= 2 {
        y as i128 - 1
    } else {
        y as i128
    };
    let era: i128 = if y2 >= 0 {
        y2 / 400
    } else {
        -((399 - y2) / 400)
    };
    proof {
        if y2 < 0 {
            assert(era == y2 as int / 400);
        }
    }
    let yoe: i128 = y2 - era * 400;
    let mp: i128 = (m as i128 + 9) % 12;
    let doy: i128 = (153 * mp + 2) / 5 + d as i128 - 1;
    let doe: i128 = yoe * 365 + yoe / 4 - yoe / 100 + doy;
    let days: i128 = era * 146097 + doe - 719468;
    proof {
        lemma_march_years(
            y as int,
            m as int,
            d as int,
            y2 as int,
            era as int,
            yoe as int,
            doy as int,
        );
    }
    days * 86400 + hh as i128 * 3600 + mi as i128 * 60 + ss as i128
}

/// A date of the Gregorian calendar and a time of the day as seconds since the
/// start of 1970. A day behind the end of its month counts on into the next.
pub fn civil_to_epoch(y: i64, m: i64, d: i64, hh: i64, mi: i64, ss: i64) -> (r: i64)
    requires
        1 <= m <= 12,
        i64::MIN <= epoch_seconds(
            y as int,
            m as int,
            d as int,
            hh as int,
            mi as int,
            ss as int,
        ) <= i64::MAX,
    ensures
        r == epoch_seconds(y as int, m as int, d as int, hh as int, mi as int, ss as int),
{
    civil_wide(y, m, d, hh, mi, ss) as i64
}

// ---------------------------------------------------------------------------
// The EXIF notation
// ---------------------------------------------------------------------------

/// A date and time as EXIF writes them.
pub struct CivilModel {
    pub y: i64,
    pub m: i64,
    pub d: i64,
    pub hh: i64,
    pub mi: i64,
    pub ss: i64,
}

/// Reads `2026:09:16 10:12:44`: date and time parted by the first space, their
/// numbers by colons. Seconds that are missing or unreadable count as 0, and
/// whatever stands behind the third number of either is passed over. Years before
/// 1900 and months and days that no calendar has are refused.
pub open spec fn civil_fields(s: Seq<char>) -> Option<CivilModel> {
    let t = trimmed(s);
    let k = first_at(t, ' ');
    let date = split(t.take(k), ':');
    let time = split(t.skip(k + 1), ':');
    if k >= t.len() || date.len() < 3 || time.len() < 2 {
        None
    } else {
        match (
            i64_value(date[0]),
            i64_value(date[1]),
            i64_value(date[2]),
            i64_value(time[0]),
            i64_value(time[1]),
        ) {
            (Some(y), Some(m), Some(d), Some(hh), Some(mi)) => {
                let ss = if time.len() < 3 {
                    0
                } else {
                    match i64_value(time[2]) {
                        Some(v) => v,
                        None => 0,
                    }
                };
                if y < 1900 || !(1 <= m <= 12) || !(1 <= d <= 31) {
                    None
                } else {
                    Some(CivilModel { y, m, d, hh, mi, ss })
                }
            },
            _ => None,
        }
    }
}

pub open spec fn civil_seconds(c: CivilModel) -> int {
    epoch_seconds(c.y as int, c.m as int, c.d as int, c.hh as int, c.mi as int, c.ss as int)
}

/// The capture time that an EXIF text gives, as seconds since the start of 1970;
/// none where the text is no date and time, or the number does not fit.
pub open spec fn exif_seconds(s: Seq<char>) -> Option<i64> {
    match civil_fields(s) {
        Some(c) if i64::MIN <= civil_seconds(c) <= i64::MAX => Some(civil_seconds(c) as i64),
        _ => None,
    }
}

pub fn parse_exif_datetime(s: &str) -> (r: Option<i64>)
    ensures
        r == exif_seconds(s@),
{
    let t = trim(s);
    let v = chars_of(t.as_str());
    let n: usize = v.len();
    let k: usize = match find_char(&v, ' ') {
        Some(k) => k,
        None => return None,
    };
    let left = text_of(&v, 0, k);
    let right = text_of(&v, k + 1, n);
    proof {
        assert(left@ =~= v@.take(k as int));
        assert(right@ =~= v@.skip(k + 1));
    }
    let date = split_on(left.as_str(), ':');
    let time = split_on(right.as_str(), ':');
    let ghost ds = views(date@);
    let ghost ts = views(time@);
    if date.len() < 3 || time.len() < 2 {
        return None;
    }
    assert(ds[0] == date@[0]@ && ds[1] == date@[1]@ && ds[2] == date@[2]@);
    assert(ts[0] == time@[0]@ && ts[1] == time@[1]@);
    let y: i64 = match parse_i64(date[0].as_str()) {
        Some(x) => x,
        None => return None,
    };
    let m: i64 = match parse_i64(date[1].as_str()) {
        Some(x) => x,
        None => return None,
    };
    let d: i64 = match parse_i64(date[2].as_str()) {
        Some(x) => x,
        None => return None,
    };
    let hh: i64 = match parse_i64(time[0].as_str()) {
        Some(x) => x,
        None => return None,
    };
    let mi: i64 = match parse_i64(time[1].as_str()) {
        Some(x) => x,
        None => return None,
    };
    let ss: i64 = if time.len() < 3 {
        0
    } else {
        assert(ts[2] == time@[2]@);
        match parse_i64(time[2].as_str()) {
            Some(x) => x,
            None => 0,
        }
    };
    if y < 1900 || m < 1 || m > 12 || d < 1 || d > 31 {
        return None;
    }
    let secs: i128 = civil_wide(y, m, d, hh, mi, ss);
    if secs < i64::MIN as i128 || secs > i64::MAX as i128 {
        return None;
    }
    Some(civil_to_epoch(y, m, d, hh, mi, ss))
}

/// A text with the numbers of a date and a time of day gives the moment that they name: year,
/// month and day in front of the first space, hours, minutes and seconds behind it, each
/// parted by colons.
pub proof fn law_dates_are_read(s: Seq<char>, y: i64, m: i64, d: i64, hh: i64, mi: i64, ss: i64)
    requires
        first_at(trimmed(s), ' ') < trimmed(s).len(),
        ({
            let t = trimmed(s);
            let k = first_at(t, ' ');
            let date = split(t.take(k), ':');
            let time = split(t.skip(k + 1), ':');
            &&& date.len() >= 3 && time.len() >= 3
            &&& i64_value(date[0]) == Some(y) && i64_value(date[1]) == Some(m) && i64_value(date[2])
                == Some(d)
            &&& i64_value(time[0]) == Some(hh) && i64_value(time[1]) == Some(mi) && i64_value(
                time[2],
            ) == Some(ss)
        }),
        1 <= m <= 12,
        1 <= d <= 31,
        i64::MIN <= epoch_seconds(
            y as int,
            m as int,
            d as int,
            hh as int,
            mi as int,
            ss as int,
        ) <= i64::MAX,
    ensures
        y >= 1900 ==> exif_seconds(s) == Some(
            epoch_seconds(y as int, m as int, d as int, hh as int, mi as int, ss as int) as i64,
        ),
        y < 1900 ==> exif_seconds(s) is None,
{
}

/// The calendar repeats every 400 years, which have 146097 days; a year has 365 days, and a
/// leap year one more; and the count starts with 1970.
pub proof fn law_calendar_repeats(y: int)
    ensures
        days_to_year(y + 400) == days_to_year(y) + 146097,
        days_before_month(y, 13) == 365 + (if is_leap(y) {
            1int
        } else {
            0
        }),
        days_to_year(y + 1) == days_to_year(y) + days_before_month(y, 13),
        days_to_year(1970) == 0,
        is_leap(y) == is_leap(y + 400),
{
    lemma_days_to_year(y);
    lemma_days_to_year(y + 1);
    lemma_days_to_year(y + 400);
    lemma_leaps_step(y);
    lemma_leaps_repeat(y - 1);
    lemma_days_before_month(y, 12);
    assert(days_before_month(y, 13) == days_before_month(y, 12) + month_days(y, 12));
    assert(is_leap(y) == is_leap(y + 400)) by {
        assert((y + 400) % 400 == y % 400);
        assert((y + 400) % 100 == y % 100);
        assert((y + 400) % 4 == y % 4);
    }
}

proof fn lemma_leaps_repeat(n: int)
    ensures
        leaps(n + 400) == leaps(n) + 97,
{
    reveal(leaps);
    assert((n + 400) / 4 == n / 4 + 100);
    assert((n + 400) / 100 == n / 100 + 4);
    assert((n + 400) / 400 == n / 400 + 1);
}

/// A day has 86400 seconds, an hour 3600 and a minute 60.
pub proof fn law_times_of_day_add_up(y: int, m: int, d: int, hh: int, mi: int, ss: int)
    ensures
        epoch_seconds(y, m, d + 1, hh, mi, ss) == epoch_seconds(y, m, d, hh, mi, ss) + 86400,
        epoch_seconds(y, m, d, hh + 24, mi, ss) == epoch_seconds(y, m, d + 1, hh, mi, ss),
        epoch_seconds(y, m, d, hh, mi + 60, ss) == epoch_seconds(y, m, d, hh + 1, mi, ss),
        epoch_seconds(y, m, d, hh, mi, ss + 60) == epoch_seconds(y, m, d, hh, mi + 1, ss),
        epoch_seconds(1970, 1, 1, 0, 0, 0) == 0,
{
    assert((days_to_year(y) + days_before_month(y, m) + d) * 86400 == (days_to_year(y)
        + days_before_month(y, m) + d - 1) * 86400 + 86400) by (nonlinear_arith);
}

} // verus!
