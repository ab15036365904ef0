//! Civil (proleptic Gregorian) dates of days counted from 1970-01-01, and
//! the UTC timestamps written with them.

use vstd::prelude::*;
use vstd::arithmetic::div_mod::lemma_fundamental_div_mod_converse;
use crate::numfmt::{decimal, u64_to_string};
use crate::text::{push_char, push_str};

verus! {

/// Whether a year is a leap year of the Gregorian calendar.
pub open spec fn is_leap_year(y: int) -> bool {
    y % 4 == 0 && (y % 100 != 0 || y % 400 == 0)
}

/// The number of days of month `m` (1 to 12) of year `y`.
pub open spec fn days_in_month(y: int, m: int) -> int {
    if m == 2 {
        if is_leap_year(y) {
            29
        } else {
            28
        }
    } else if m == 4 || m == 6 || m == 9 || m == 11 {
        30
    } else {
        31
    }
}

/// The number of days of year `y` before month `m`.
pub open spec fn days_before_month(y: int, m: int) -> int
    decreases m,
{
    if m <= 1 {
        0
    } else {
        days_before_month(y, m - 1) + days_in_month(y, m - 1)
    }
}

/// The number of leap years among the years 1 to `n`.
pub open spec fn leap_years_through(n: int) -> int {
    n / 4 - n / 100 + n / 400
}

/// The number of days from 1970-01-01 to the date `y-m-d`.
pub open spec fn days_from_epoch(y: int, m: int, d: int) -> int {
    365 * (y - 1970) + (leap_years_through(y - 1) - leap_years_through(1969)) + days_before_month(y, m) + d - 1
}

/// Whether `y-m-d` is a date of the calendar.
pub open spec fn is_valid_date(y: int, m: int, d: int) -> bool {
    1 <= m <= 12 && 1 <= d <= days_in_month(y, m)
}

/// Within one 400-year era counted from March 1 of its first year, the
/// year `yoe` that the day `doe` falls in, and the day of that year.
proof fn lemma_year_of_era(doe: u32)
    by (bit_vector)
    requires
        doe < 146097u32,
    ensures
        ({
            let yoe = (doe - doe / 1460 + doe / 36524 - doe / 146096) / 365;
            &&& yoe < 400
            &&& 365 * yoe + yoe / 4 - yoe / 100 <= doe
            &&& doe < 365 * (yoe + 1) + (yoe + 1) / 4 - (yoe + 1) / 100 + (yoe + 1) / 400
        }),
{
}

/// The length of a year of an era counted from March: 366 days when the
/// February it ends with is a leap month.
proof fn lemma_era_year_length(yoe: u32)
    by (bit_vector)
    requires
        yoe < 400u32,
    ensures
        ({
            let ly = yoe + 1;
            let leap = ly % 4 == 0 && (ly % 100 != 0 || ly % 400 == 0);
            365 * (yoe + 1) + (yoe + 1) / 4 - (yoe + 1) / 100 + (yoe + 1) / 400 - (365 * yoe + yoe / 4 - yoe
                / 100) == if leap {
                366int
            } else {
                365int
            }
        }),
{
}

/// The month and day of a day of a year counted from March 1: a valid date
/// when the day is within the year.
proof fn lemma_month_of_year(doy: u32, leap: bool)
    by (bit_vector)
    requires
        doy < 365u32 || (leap && doy < 366u32),
    ensures
        ({
            let mp = (5 * doy + 2) / 153;
            let d = doy - (153 * mp + 2) / 5 + 1;
            let m = if mp < 10 {
                mp + 3
            } else {
                mp - 9
            };
            &&& mp <= 11
            &&& (153 * mp + 2) / 5 <= doy
            &&& 1 <= m && m <= 12
            &&& 1 <= d
            &&& d <= (if m == 2 {
                if leap {
                    29int
                } else {
                    28int
                }
            } else if m == 4 || m == 6 || m == 9 || m == 11 {
                30int
            } else {
                31int
            })
        }),
{
}

/// Leap years depend on the year modulo 400 only.
proof fn lemma_leap_shift(era: int, ly: int)
    requires
        era >= 0,
        0 <= ly,
    ensures
        is_leap_year(400 * era + ly) == is_leap_year(ly),
{
    let y = 400 * era + ly;
    lemma_fundamental_div_mod_converse(ly, 4, ly / 4, ly % 4);
    lemma_fundamental_div_mod_converse(ly, 100, ly / 100, ly % 100);
    lemma_fundamental_div_mod_converse(ly, 400, ly / 400, ly % 400);
    lemma_fundamental_div_mod_converse(y, 4, 100 * era + ly / 4, ly % 4);
    lemma_fundamental_div_mod_converse(y, 100, 4 * era + ly / 100, ly % 100);
    lemma_fundamental_div_mod_converse(y, 400, era + ly / 400, ly % 400);
}

/// The leap years through `400 * era + yoe` are those of the whole eras
/// before and of the years of the last one.
proof fn lemma_leaps_shift(era: int, yoe: int)
    requires
        era >= 0,
        0 <= yoe < 400,
    ensures
        365 * (400 * era + yoe) + leap_years_through(400 * era + yoe) == 146097 * era + 365 * yoe + yoe / 4 - yoe
            / 100,
{
    let y = 400 * era + yoe;
    lemma_fundamental_div_mod_converse(yoe, 4, yoe / 4, yoe % 4);
    lemma_fundamental_div_mod_converse(yoe, 100, yoe / 100, yoe % 100);
    lemma_fundamental_div_mod_converse(y, 4, 100 * era + yoe / 4, yoe % 4);
    lemma_fundamental_div_mod_converse(y, 100, 4 * era + yoe / 100, yoe % 100);
    lemma_fundamental_div_mod_converse(y, 400, era, yoe);
}

/// A year adds one leap year exactly when it is one.
proof fn lemma_leaps_step(y: int)
    requires
        y >= 1,
    ensures
        leap_years_through(y) == leap_years_through(y - 1) + if is_leap_year(y) {
            1int
        } else {
            0int
        },
{
    let p = y - 1;
    lemma_fundamental_div_mod_converse(p, 4, p / 4, p % 4);
    lemma_fundamental_div_mod_converse(p, 100, p / 100, p % 100);
    lemma_fundamental_div_mod_converse(p, 400, p / 400, p % 400);
    if p % 4 == 3 {
        lemma_fundamental_div_mod_converse(y, 4, p / 4 + 1, 0);
    } else {
        lemma_fundamental_div_mod_converse(y, 4, p / 4, p % 4 + 1);
    }
    if p % 100 == 99 {
        lemma_fundamental_div_mod_converse(y, 100, p / 100 + 1, 0);
    } else {
        lemma_fundamental_div_mod_converse(y, 100, p / 100, p % 100 + 1);
    }
    if p % 400 == 399 {
        lemma_fundamental_div_mod_converse(y, 400, p / 400 + 1, 0);
    } else {
        lemma_fundamental_div_mod_converse(y, 400, p / 400, p % 400 + 1);
    }
}

/// The days before each month of a year, counted from March for the months
/// from March on.
proof fn lemma_days_before_month(y: int, m: int)
    requires
        1 <= m <= 12,
    ensures
        m >= 3 ==> days_before_month(y, m) == 59 + (if is_leap_year(y) {
            1int
        } else {
            0int
        }) + (153 * (m - 3) + 2) / 5,
        m == 1 ==> days_before_month(y, m) == 0,
        m == 2 ==> days_before_month(y, m) == 31,
{
    reveal_with_fuel(days_before_month, 12);
}

/// The civil date `(year, month, day)` of the day `days_since_epoch`
/// counted from 1970-01-01.
pub fn days_to_ymd(days_since_epoch: u64) -> (res: (u64, u64, u64))
    requires
        days_since_epoch <= u64::MAX - 719468,
    ensures
        res.0 >= 1970,
        is_valid_date(res.0 as int, res.1 as int, res.2 as int),
        days_from_epoch(res.0 as int, res.1 as int, res.2 as int) == days_since_epoch,
{
    let z = days_since_epoch + 719468;
    let era = z / 146097;
    let doe = z - era * 146097;
    proof {
        lemma_year_of_era(doe as u32);
    }
    let yoe = (doe - doe / 1460 + doe / 36524 - doe / 146096) / 365;
    let y = yoe + era * 400;
    let doy = doe - (365 * yoe + yoe / 4 - yoe / 100);
    proof {
        lemma_era_year_length(yoe as u32);
        let ly = yoe + 1;
        let leap = ly % 4 == 0 && (ly % 100 != 0 || ly % 400 == 0);
        lemma_month_of_year(doy as u32, leap);
    }
    let mp = (5 * doy + 2) / 153;
    let d = doy - (153 * mp + 2) / 5 + 1;
    let m = if mp < 10 {
        mp + 3
    } else {
        mp - 9
    };
    let y = if m <= 2 {
        y + 1
    } else {
        y
    };
    proof {
        let ly: int = if m <= 2 { yoe + 1 } else { yoe as int };
        assert(era >= 4);
        lemma_leap_shift(era as int, ly);
        assert(y == 400 * era + ly);
        lemma_leaps_shift(era as int, yoe as int);
        lemma_days_before_month(y as int, m as int);
        assert(z == 146097 * era + doe);
        assert(doe == 365 * yoe + yoe / 4 - yoe / 100 + doy);
        assert(doy == (153 * mp + 2) / 5 + d - 1);
        if m >= 3 {
            lemma_leaps_step(y as int);
            assert(mp == m - 3);
        } else {
            assert(mp == m + 9);
        }
    }
    (y, m, d)
}

/// The day after `y-m-d`.
pub open spec fn next_day(y: int, m: int, d: int) -> (int, int, int) {
    if d < days_in_month(y, m) {
        (y, m, d + 1)
    } else if m < 12 {
        (y, m + 1, 1)
    } else {
        (y + 1, 1, 1)
    }
}

/// The days of year `y`.
pub open spec fn year_length(y: int) -> int {
    if is_leap_year(y) {
        366
    } else {
        365
    }
}

proof fn lemma_days_before_month_grows(y: int, a: int, b: int)
    requires
        1 <= a < b <= 13,
    ensures
        days_before_month(y, b) >= days_before_month(y, a) + days_in_month(y, a),
    decreases b - a,
{
    if b > a + 1 {
        lemma_days_before_month_grows(y, a, b - 1);
    }
}

proof fn lemma_year_start_step(y: int)
    requires
        y >= 1,
    ensures
        days_from_epoch(y + 1, 1, 1) == days_from_epoch(y, 1, 1) + year_length(y),
{
    lemma_leaps_step(y);
}

proof fn lemma_year_start_grows(a: int, b: int)
    requires
        1 <= a < b,
    ensures
        days_from_epoch(b, 1, 1) >= days_from_epoch(a, 1, 1) + year_length(a),
    decreases b - a,
{
    lemma_year_start_step(a);
    if b > a + 1 {
        lemma_year_start_grows(a + 1, b);
        lemma_year_start_step(a + 1);
    }
}

proof fn lemma_days_before_month_nonneg(y: int, m: int)
    requires
        1 <= m <= 12,
    ensures
        days_before_month(y, m) >= 0,
{
    reveal_with_fuel(days_before_month, 13);
}

/// A date lies within its year: its day count is its year's first day's
/// plus less than the year's length.
proof fn lemma_date_within_year(y: int, m: int, d: int)
    requires
        is_valid_date(y, m, d),
    ensures
        days_from_epoch(y, m, d) == days_from_epoch(y, 1, 1) + days_before_month(y, m) + d - 1,
        days_before_month(y, m) + d - 1 < year_length(y),
{
    reveal_with_fuel(days_before_month, 13);
    if m < 12 {
        lemma_days_before_month_grows(y, m, 13);
    }
}

/// The day after a date is a date, and its day count is one more.
pub proof fn lemma_next_day(y: int, m: int, d: int)
    requires
        y >= 1,
        is_valid_date(y, m, d),
    ensures
        is_valid_date(next_day(y, m, d).0, next_day(y, m, d).1, next_day(y, m, d).2),
        days_from_epoch(next_day(y, m, d).0, next_day(y, m, d).1, next_day(y, m, d).2) == days_from_epoch(y, m, d)
            + 1,
{
    if d < days_in_month(y, m) {
    } else if m < 12 {
        assert(days_before_month(y, m + 1) == days_before_month(y, m) + days_in_month(y, m));
    } else {
        lemma_date_within_year(y, m, d);
        lemma_year_start_step(y);
        reveal_with_fuel(days_before_month, 13);
    }
}

/// Two dates with the same day count are the same date.
pub proof fn lemma_date_unique(y1: int, m1: int, d1: int, y2: int, m2: int, d2: int)
    requires
        y1 >= 1,
        y2 >= 1,
        is_valid_date(y1, m1, d1),
        is_valid_date(y2, m2, d2),
        days_from_epoch(y1, m1, d1) == days_from_epoch(y2, m2, d2),
    ensures
        y1 == y2 && m1 == m2 && d1 == d2,
{
    lemma_date_within_year(y1, m1, d1);
    lemma_date_within_year(y2, m2, d2);
    let s1 = days_from_epoch(y1, 1, 1);
    let s2 = days_from_epoch(y2, 1, 1);
    let o1 = days_before_month(y1, m1) + d1 - 1;
    let o2 = days_before_month(y2, m2) + d2 - 1;
    assert(s1 + o1 == s2 + o2);
    assert(0 <= o1 < year_length(y1) && 0 <= o2 < year_length(y2)) by {
        lemma_days_before_month_nonneg(y1, m1);
        lemma_days_before_month_nonneg(y2, m2);
    }
    if y1 < y2 {
        lemma_year_start_grows(y1, y2);
        assert(false);
    } else if y2 < y1 {
        lemma_year_start_grows(y2, y1);
        assert(false);
    } else {
        if m1 < m2 {
            lemma_days_before_month_grows(y1, m1, m2);
            assert(false);
        } else if m2 < m1 {
            lemma_days_before_month_grows(y1, m2, m1);
            assert(false);
        }
    }
}

/// Day after day: the date `days_to_ymd` gives for day `n + 1` is the day
/// after the date it gives for day `n` (both are the only dates with those
/// day counts).
pub proof fn lemma_day_after(n: int, y: int, m: int, d: int, y2: int, m2: int, d2: int)
    requires
        y >= 1970,
        y2 >= 1970,
        is_valid_date(y, m, d),
        days_from_epoch(y, m, d) == n,
        is_valid_date(y2, m2, d2),
        days_from_epoch(y2, m2, d2) == n + 1,
    ensures
        (y2, m2, d2) == next_day(y, m, d),
{
    lemma_next_day(y, m, d);
    let (ny, nm, nd) = next_day(y, m, d);
    lemma_date_unique(ny, nm, nd, y2, m2, d2);
}

/// `n` in decimal, padded with leading zeros to at least `width` digits.
pub open spec fn padded(n: nat, width: nat) -> Seq<char> {
    let digits = decimal(n);
    if digits.len() >= width {
        digits
    } else {
        Seq::new((width - digits.len()) as nat, |i: int| '0') + digits
    }
}

/// The UTC timestamp `YYYY-MM-DDTHH:MM:SSZ` of a date and a time of day.
pub open spec fn timestamp_text(y: nat, m: nat, d: nat, hh: nat, mm: nat, ss: nat) -> Seq<char> {
    padded(y, 4) + "-"@ + padded(m, 2) + "-"@ + padded(d, 2) + "T"@ + padded(hh, 2) + ":"@ + padded(mm, 2)
        + ":"@ + padded(ss, 2) + "Z"@
}

/// Whether `text` is the UTC timestamp of the second `secs` counted from
/// 1970-01-01T00:00:00Z.
pub open spec fn is_timestamp_of(text: Seq<char>, secs: nat) -> bool {
    exists|y: nat, m: nat, d: nat|
        {
            &&& is_valid_date(y as int, m as int, d as int)
            &&& days_from_epoch(y as int, m as int, d as int) == secs / 86400
            &&& text == #[trigger] timestamp_text(
                y,
                m,
                d,
                (secs % 86400) / 3600,
                (secs % 3600) / 60,
                secs % 60,
            )
        }
}

/// `n` in decimal, padded with leading zeros to at least `width` digits.
pub fn padded_decimal(n: u64, width: usize) -> (res: String)
    ensures
        res@ == padded(n as nat, width as nat),
{
    let digits = u64_to_string(n);
    let count = crate::text::chars_of(digits.as_str()).len();
    let mut res = String::new();
    if count < width {
        let mut k: usize = 0;
        while k < width - count
            invariant
                count < width,
                k <= width - count,
                res@ == Seq::new(k as nat, |i: int| '0'),
            decreases width - count - k,
        {
            push_char(&mut res, '0');
            k += 1;
            assert(res@ == Seq::new(k as nat, |i: int| '0'));
        }
    }
    let ghost zeros = res@;
    push_str(&mut res, digits.as_str());
    proof {
        if count >= width {
            assert(zeros == Seq::<char>::empty());
            assert(res@ == decimal(n as nat));
        }
    }
    res
}

/// The UTC timestamp `YYYY-MM-DDTHH:MM:SSZ` of the second `secs` counted
/// from 1970-01-01T00:00:00Z.
pub fn timestamp_from_secs(secs: u64) -> (res: String)
    ensures
        is_timestamp_of(res@, secs as nat),
{
    let days = secs / 86400;
    let time_secs = secs % 86400;
    let hours = time_secs / 3600;
    let minutes = (time_secs % 3600) / 60;
    let seconds = time_secs % 60;
    let (year, month, day) = days_to_ymd(days);
    proof {
        reveal_strlit("-");
        reveal_strlit("T");
        reveal_strlit(":");
        reveal_strlit("Z");
        assert((secs % 86400) % 3600 == secs % 3600) by (nonlinear_arith);
        assert((secs % 86400) % 60 == secs % 60) by (nonlinear_arith);
    }
    let mut res = padded_decimal(year, 4);
    push_char(&mut res, '-');
    let part = padded_decimal(month, 2);
    push_str(&mut res, part.as_str());
    push_char(&mut res, '-');
    let part = padded_decimal(day, 2);
    push_str(&mut res, part.as_str());
    push_char(&mut res, 'T');
    let part = padded_decimal(hours, 2);
    push_str(&mut res, part.as_str());
    push_char(&mut res, ':');
    let part = padded_decimal(minutes, 2);
    push_str(&mut res, part.as_str());
    push_char(&mut res, ':');
    let part = padded_decimal(seconds, 2);
    push_str(&mut res, part.as_str());
    push_char(&mut res, 'Z');
    proof {
        let t = timestamp_text(
            year as nat,
            month as nat,
            day as nat,
            (secs % 86400) as nat / 3600,
            (secs % 3600) as nat / 60,
            (secs % 60) as nat,
        );
        assert(res@ == t);
        assert(is_valid_date(year as int, month as int, day as int));
    }
    res
}

/// The seconds since 1970-01-01T00:00:00Z on the system clock
/// (`SystemTime::now` measured from `UNIX_EPOCH`, zero for a clock set
/// before it). Nothing is stated of the value: it is the time.
#[verifier::external_body]
fn unix_time_secs() -> (res: u64) {
    std::time::SystemTime::now().duration_since(std::time::UNIX_EPOCH).unwrap_or_default().as_secs()
}

/// The current UTC time as `YYYY-MM-DDTHH:MM:SSZ`.
pub fn now_iso8601() -> (res: String)
    ensures
        exists|secs: nat| is_timestamp_of(res@, secs),
{
    let secs = unix_time_secs();
    timestamp_from_secs(secs)
}

} // verus!
