//! Time bucketing for the time-series view, and the checks made on loaded
//! data files.
//!
//! Timestamps are Unix seconds (UTC); calendar days are counted from
//! 1970-01-01 (day 0). The calendar itself (which year and month a day falls
//! in, which day a date is) comes from `chrono`.

use vstd::prelude::*;

use chrono::Datelike;

use crate::types::Interval;

verus! {

/// First calendar day `chrono` represents (January 1, 262144 BCE).
pub open spec fn min_day() -> int {
    -96465292
}

/// Last calendar day `chrono` represents (December 31, 262142 CE).
pub open spec fn max_day() -> int {
    95026236
}

/// Year of [`min_day`].
pub open spec fn min_year() -> int {
    -262143
}

/// Year of [`max_day`].
pub open spec fn max_year() -> int {
    262142
}

/// Whether a timestamp lies within the calendar `chrono` represents.
pub open spec fn in_calendar(ts: int) -> bool {
    min_day() * 86400 <= ts < (max_day() + 1) * 86400
}

/// The calendar day (UTC) of a timestamp.
pub open spec fn day_of(ts: int) -> int {
    ts / 86400
}

/// Days since the Monday of the week of a calendar day (0 = Monday);
/// 1970-01-01 was a Thursday.
pub open spec fn weekday_of(day: int) -> int {
    (day + 3) % 7
}

/// The calendar day of the date `year-month-day` in the proleptic Gregorian
/// calendar (the one `chrono` uses), counted from 1970-01-01. Years are
/// counted from March here, so that the leap day ends a year.
pub open spec fn day_number(year: int, month: int, day: int) -> int {
    let y = if month <= 2 { year - 1 } else { year };
    let era = y / 400;
    let year_of_era = y - era * 400;
    let month_from_march = if month > 2 { month - 3 } else { month + 9 };
    let day_of_year = (153 * month_from_march + 2) / 5 + day - 1;
    let day_of_era = year_of_era * 365 + year_of_era / 4 - year_of_era / 100 + day_of_year;
    era * 146097 + day_of_era - 719468
}

/// The year, month and day of month of a calendar day in the proleptic
/// Gregorian calendar: the inverse of [`day_number`].
pub open spec fn civil_date(day: int) -> (int, int, int) {
    let z = day + 719468;
    let era = z / 146097;
    let day_of_era = z - era * 146097;
    let year_of_era = (day_of_era - day_of_era / 1460 + day_of_era / 36524 - day_of_era / 146096) / 365;
    let y = year_of_era + era * 400;
    let day_of_year = day_of_era - (365 * year_of_era + year_of_era / 4 - year_of_era / 100);
    let month_from_march = (5 * day_of_year + 2) / 153;
    let d = day_of_year - (153 * month_from_march + 2) / 5 + 1;
    let m = if month_from_march < 10 { month_from_march + 3 } else { month_from_march - 9 };
    (if m <= 2 { y + 1 } else { y }, m, d)
}

/// The year of a calendar day.
pub open spec fn year_of_day(day: int) -> int {
    civil_date(day).0
}

/// The month (1 to 12) of a calendar day.
pub open spec fn month_of_day(day: int) -> int {
    civil_date(day).1
}

/// Days from March 1 of year 0 of a 400-year era to March 1 of its year `x`.
spec fn era_days(x: int) -> int {
    x * 365 + x / 4 - x / 100
}

/// Whether the March-based year `x` of an era ends with a leap day.
spec fn ends_leap(x: int) -> int {
    if x % 4 == 3 && (x % 100 != 99 || x == 399) { 1 } else { 0 }
}

/// Days from March 1 to the first of the month `mp` months later.
spec fn month_days(mp: int) -> int {
    (153 * mp + 2) / 5
}

/// The calendar day of March 1 of the March-based year `y`.
spec fn march_first(y: int) -> int {
    (y / 400) * 146097 + era_days(y - (y / 400) * 400) - 719468
}

proof fn lemma_era_years(doe: int)
    requires
        0 <= doe < 146097,
    ensures
        ({
            let yoe = (doe - doe / 1460 + doe / 36524 - doe / 146096) / 365;
            &&& 0 <= yoe < 400
            &&& era_days(yoe) <= doe < era_days(yoe) + 365 + ends_leap(yoe)
        }),
{
    let yoe = (doe - doe / 1460 + doe / 36524 - doe / 146096) / 365;
    assert({
        &&& 0 <= yoe < 400
        &&& yoe * 365 + yoe / 4 - yoe / 100 <= doe
        &&& doe - (yoe * 365 + yoe / 4 - yoe / 100) < 365 + (if yoe % 4 == 3 && (yoe % 100 != 99 || yoe == 399) { 1int } else { 0int })
    });
}

proof fn lemma_era_step(x: int)
    requires
        0 <= x < 400,
    ensures
        x < 399 ==> era_days(x + 1) == era_days(x) + 365 + ends_leap(x),
        era_days(399) + 365 + ends_leap(399) == 146097,
{
    assert(x < 399 ==> (x + 1) * 365 + (x + 1) / 4 - (x + 1) / 100 == x * 365 + x / 4 - x / 100 + 365 + (if x % 4 == 3 && (x % 100 != 99 || x == 399) { 1int } else { 0int }));
}

proof fn lemma_months(doy: int)
    requires
        0 <= doy < 366,
    ensures
        ({
            let mp = (5 * doy + 2) / 153;
            &&& 0 <= mp < 12
            &&& month_days(mp) <= doy
            &&& mp < 11 ==> doy < month_days(mp + 1)
        }),
{
}

proof fn lemma_month_of_first(mp: int, d: int)
    requires
        0 <= mp < 12,
        0 <= d,
        mp < 11 ==> month_days(mp) + d < month_days(mp + 1),
        month_days(mp) + d < 366,
    ensures
        (5 * (month_days(mp) + d) + 2) / 153 == mp,
{
}

proof fn lemma_march_first_step(y: int)
    ensures
        march_first(y + 1) == march_first(y) + 365 + ends_leap(y - (y / 400) * 400),
{
    let era = y / 400;
    let yoe = y - era * 400;
    vstd::arithmetic::div_mod::lemma_fundamental_div_mod(y, 400);
    lemma_era_step(yoe);
    lemma_era_step(0);
    if yoe < 399 {
        vstd::arithmetic::div_mod::lemma_fundamental_div_mod_converse(y + 1, 400, era, yoe + 1);
    } else {
        vstd::arithmetic::div_mod::lemma_fundamental_div_mod_converse(y + 1, 400, era + 1, 0);
    }
}

/// The parts of a calendar day's date: it is `d - 1` days after the first of
/// the month `mp` months after March 1 of the March-based year `y`.
proof fn lemma_civil_parts(z: int)
    ensures
        ({
            let (year, m, d) = civil_date(z);
            let y = if m <= 2 { year - 1 } else { year };
            let mp = if m > 2 { m - 3 } else { m + 9 };
            &&& 1 <= m <= 12
            &&& 1 <= d
            &&& 0 <= mp < 12
            &&& z == march_first(y) + month_days(mp) + d - 1
            &&& month_days(mp) + d - 1 < 365 + ends_leap(y - (y / 400) * 400)
            &&& mp < 11 ==> month_days(mp) + d - 1 < month_days(mp + 1)
            &&& day_number(year, m, d) == z
        }),
{
    let zz = z + 719468;
    let era = zz / 146097;
    let doe = zz - era * 146097;
    vstd::arithmetic::div_mod::lemma_fundamental_div_mod(zz, 146097);
    lemma_era_years(doe);
    let yoe = (doe - doe / 1460 + doe / 36524 - doe / 146096) / 365;
    let y = yoe + era * 400;
    let doy = doe - (365 * yoe + yoe / 4 - yoe / 100);
    lemma_months(doy);
    vstd::arithmetic::div_mod::lemma_fundamental_div_mod_converse(y, 400, era, yoe);
}

/// The date of the calendar day of a date is that date, for the first of a
/// month and for December 31.
proof fn lemma_date_of_day(year: int, m: int, d: int)
    requires
        1 <= m <= 12,
        d == 1 || (m == 12 && d == 31),
    ensures
        civil_date(day_number(year, m, d)) == (year, m, d),
{
    let y = if m <= 2 { year - 1 } else { year };
    let mp = if m > 2 { m - 3 } else { m + 9 };
    let era = y / 400;
    let yoe = y - era * 400;
    vstd::arithmetic::div_mod::lemma_fundamental_div_mod(y, 400);
    lemma_era_step(yoe);
    let doy = month_days(mp) + d - 1;
    lemma_month_of_first(mp, d - 1);
    let doe = era_days(yoe) + doy;
    let z = day_number(year, m, d);
    assert(z + 719468 == era * 146097 + doe);
    vstd::arithmetic::div_mod::lemma_fundamental_div_mod_converse(z + 719468, 146097, era, doe);
    lemma_era_years(doe);
    let yoe2 = (doe - doe / 1460 + doe / 36524 - doe / 146096) / 365;
    lemma_era_days_monotone(yoe, 399);
    lemma_era_step(0);
    if yoe2 < yoe {
        lemma_era_step(yoe2);
        lemma_era_days_monotone(yoe2 + 1, yoe);
    } else if yoe2 > yoe {
        lemma_era_step(yoe);
        lemma_era_days_monotone(yoe + 1, yoe2);
    }
}

proof fn lemma_era_days_monotone(a: int, b: int)
    requires
        0 <= a <= b <= 399,
    ensures
        era_days(a) <= era_days(b),
    decreases b - a,
{
    if a < b {
        lemma_era_step(b - 1);
        lemma_era_days_monotone(a, b - 1);
    }
}

/// A calendar day lies between January 1 and December 31 of its year, and on
/// or after the first of its month and before the first of the next month.
pub proof fn lemma_day_in_its_month(z: int)
    ensures
        1 <= month_of_day(z) <= 12,
        day_number(year_of_day(z), 1, 1) <= z <= day_number(year_of_day(z), 12, 31),
        day_number(year_of_day(z), month_of_day(z), 1) <= z,
        month_of_day(z) < 12 ==> z < day_number(year_of_day(z), month_of_day(z) + 1, 1),
        month_of_day(z) == 12 ==> z < day_number(year_of_day(z) + 1, 1, 1),
{
    lemma_civil_parts(z);
    let year = year_of_day(z);
    let m = month_of_day(z);
    let y = if m <= 2 { year - 1 } else { year };
    lemma_march_first_step(y);
    lemma_march_first_step(year - 1);
    lemma_era_step(0);
    vstd::arithmetic::div_mod::lemma_fundamental_div_mod(y, 400);
    vstd::arithmetic::div_mod::lemma_fundamental_div_mod(year - 1, 400);
}

/// The date of the first of a month, and of December 31, has that year and
/// month.
pub proof fn lemma_first_of_month(year: int, m: int, d: int)
    requires
        1 <= m <= 12,
        d == 1 || (m == 12 && d == 31),
    ensures
        year_of_day(day_number(year, m, d)) == year,
        month_of_day(day_number(year, m, d)) == m,
{
    lemma_date_of_day(year, m, d);
}

/// Calls `NaiveDate::from_epoch_days` and `Datelike::year`. Trusted: `chrono`
/// gives the year of the day's date in the proleptic Gregorian calendar,
/// which is within the years it represents.
#[verifier::external_body]
fn civil_year(day: i32) -> (r: i32)
    requires
        min_day() <= day <= max_day(),
    ensures
        r == year_of_day(day as int),
        min_year() <= r <= max_year(),
{
    chrono::NaiveDate::from_epoch_days(day).unwrap().year()
}

/// Calls `NaiveDate::from_epoch_days` and `Datelike::month`. Trusted: `chrono`
/// gives the month of the day's date in the proleptic Gregorian calendar.
#[verifier::external_body]
fn civil_month(day: i32) -> (r: u32)
    requires
        min_day() <= day <= max_day(),
    ensures
        r == month_of_day(day as int),
{
    chrono::NaiveDate::from_epoch_days(day).unwrap().month()
}

/// Calls `NaiveDate::from_ymd_opt` and `NaiveDate::to_epoch_days`. Trusted:
/// `chrono` gives the proleptic Gregorian calendar day of a date that exists
/// (the first of a month, or December 31) in a year it represents, which is
/// within its calendar.
#[verifier::external_body]
pub(crate) fn epoch_day_of(year: i32, month: u32, day: u32) -> (r: i32)
    requires
        min_year() <= year <= max_year(),
        1 <= month <= 12,
        day == 1 || (month == 12 && day == 31),
    ensures
        r == day_number(year as int, month as int, day as int),
        min_day() <= r <= max_day(),
{
    chrono::NaiveDate::from_ymd_opt(year, month, day).unwrap().to_epoch_days()
}

/// Whether an interval is a multi-day one, whose partial edge buckets are
/// dropped.
pub open spec fn is_coarse(interval: Interval) -> bool {
    interval == Interval::Week || interval == Interval::Month || interval == Interval::Year
}

/// The timestamp at which the bucket of `ts` starts: the hour, the day, the
/// Monday of the week, the first of the month or January 1 (UTC, at midnight
/// for the day-based ones).
pub open spec fn bucket_start(ts: int, interval: Interval) -> int {
    let d = day_of(ts);
    match interval {
        Interval::Hour => ts - ts % 3600,
        Interval::Day => d * 86400,
        Interval::Week => (d - weekday_of(d)) * 86400,
        Interval::Month => day_number(year_of_day(d), month_of_day(d), 1) * 86400,
        Interval::Year => day_number(year_of_day(d), 1, 1) * 86400,
    }
}

/// Whether the bucket of `ts` can be computed: `ts` is within the calendar,
/// and so is the Monday its week starts on.
pub open spec fn bucket_defined(ts: int, interval: Interval) -> bool {
    &&& in_calendar(ts)
    &&& interval == Interval::Week ==> day_of(ts) - weekday_of(day_of(ts)) >= min_day()
}

/// The last calendar day covered by the bucket starting at `start`.
pub open spec fn last_day(start: int, interval: Interval) -> int {
    let d = day_of(start);
    match interval {
        Interval::Week => d + 6,
        Interval::Month => if month_of_day(d) == 12 {
            day_number(year_of_day(d) + 1, 1, 1) - 1
        } else {
            day_number(year_of_day(d), month_of_day(d) + 1, 1) - 1
        },
        Interval::Year => day_number(year_of_day(d), 12, 31),
        Interval::Hour | Interval::Day => d,
    }
}

/// Whether the last day of the bucket starting at `start` is within the
/// calendar.
pub open spec fn last_day_defined(start: int, interval: Interval) -> bool {
    &&& in_calendar(start)
    &&& interval == Interval::Week ==> day_of(start) + 6 <= max_day()
    &&& interval == Interval::Month ==> !(month_of_day(day_of(start)) == 12 && year_of_day(
        day_of(start),
    ) == max_year())
}

/// The calendar day of a timestamp.
fn day_index(ts: i64) -> (r: i64)
    requires
        in_calendar(ts as int),
    ensures
        r == day_of(ts as int),
        min_day() <= r <= max_day(),
{
    ts.checked_div_euclid(86400).unwrap()
}

/// The calendar day starting at midnight of day `d` is `d`.
proof fn lemma_day_of_midnight(d: int)
    ensures
        day_of(d * 86400) == d,
{
    vstd::arithmetic::div_mod::lemma_div_multiples_vanish(d, 86400);
}

/// Whether a reading at `ts` lies within the bucket starting at `k`: at or
/// after its start and on or before its last day, the bucket of `k` being
/// `k` itself. Opaque, so that computing a bucket does not unfold it.
#[verifier::opaque]
pub open spec fn lies_in_bucket(ts: int, k: int, interval: Interval) -> bool {
    &&& k <= ts
    &&& bucket_start(k, interval) == k
    &&& last_day_defined(k, interval) ==> day_of(ts) <= last_day(k, interval)
}

/// Start of the bucket that holds `ts`, as a timestamp; the reading lies
/// within that bucket.
pub fn bucket_key(ts: i64, interval: Interval) -> (r: i64)
    requires
        bucket_defined(ts as int, interval),
    ensures
        r == bucket_start(ts as int, interval),
        in_calendar(r as int),
        lies_in_bucket(ts as int, r as int, interval),
{
    proof {
        reveal(lies_in_bucket);
    }
    match interval {
        Interval::Hour => {
            let rem = ts.checked_rem_euclid(3600).unwrap();
            proof {
                let q = (ts as int) / 3600;
                let d = day_of(ts as int);
                vstd::arithmetic::div_mod::lemma_fundamental_div_mod(ts as int, 3600);
                assert(min_day() * 86400 == 3600 * (min_day() * 24));
                vstd::arithmetic::div_mod::lemma_div_is_ordered(min_day() * 86400, ts as int, 3600);
                vstd::arithmetic::div_mod::lemma_div_multiples_vanish(min_day() * 24, 3600);
                vstd::arithmetic::div_mod::lemma_mod_multiples_basic(q, 3600);
                // midnight of the reading's day is a whole hour at or before it
                vstd::arithmetic::div_mod::lemma_fundamental_div_mod(ts as int, 86400);
                assert(d * 86400 == 3600 * (d * 24));
                vstd::arithmetic::div_mod::lemma_div_is_ordered(d * 86400, ts as int, 3600);
                vstd::arithmetic::div_mod::lemma_div_multiples_vanish(d * 24, 3600);
                vstd::arithmetic::div_mod::lemma_fundamental_div_mod_converse(
                    ts - rem,
                    86400,
                    d,
                    ts - rem - d * 86400,
                );
            }
            ts - rem
        },
        Interval::Day => {
            let d = day_index(ts);
            proof {
                lemma_day_of_midnight(d as int);
            }
            d * 86400
        },
        Interval::Week => {
            let d = day_index(ts);
            let dow = (d + 3).checked_rem_euclid(7).unwrap();
            proof {
                let w = d - dow;
                lemma_day_of_midnight(w as int);
                vstd::arithmetic::div_mod::lemma_fundamental_div_mod(d + 3, 7);
                vstd::arithmetic::div_mod::lemma_mod_multiples_basic((d + 3) / 7, 7);
                vstd::arithmetic::div_mod::lemma_fundamental_div_mod(ts as int, 86400);
            }
            (d - dow) * 86400
        },
        Interval::Month => {
            let d = day_index(ts);
            let y = civil_year(d as i32);
            let m = civil_month(d as i32);
            proof {
                lemma_day_in_its_month(d as int);
            }
            let first = epoch_day_of(y, m, 1);
            proof {
                lemma_first_of_month(y as int, m as int, 1);
                lemma_day_of_midnight(first as int);
                vstd::arithmetic::div_mod::lemma_fundamental_div_mod(ts as int, 86400);
            }
            first as i64 * 86400
        },
        Interval::Year => {
            let d = day_index(ts);
            let y = civil_year(d as i32);
            proof {
                lemma_day_in_its_month(d as int);
            }
            let first = epoch_day_of(y, 1, 1);
            proof {
                lemma_first_of_month(y as int, 1, 1);
                lemma_day_of_midnight(first as int);
                vstd::arithmetic::div_mod::lemma_fundamental_div_mod(ts as int, 86400);
            }
            first as i64 * 86400
        },
    }
}

/// The last calendar day of the bucket starting at `start`.
pub fn bucket_last_day(start: i64, interval: Interval) -> (r: i64)
    requires
        last_day_defined(start as int, interval),
    ensures
        r == last_day(start as int, interval),
{
    let d = day_index(start);
    match interval {
        Interval::Week => d + 6,
        Interval::Month => {
            let y = civil_year(d as i32);
            let m = civil_month(d as i32);
            let next = if m == 12 {
                epoch_day_of(y + 1, 1, 1)
            } else {
                epoch_day_of(y, m + 1, 1)
            };
            next as i64 - 1
        },
        Interval::Year => {
            let y = civil_year(d as i32);
            epoch_day_of(y, 12, 31) as i64
        },
        Interval::Hour | Interval::Day => d,
    }
}

/// Whether a sequence is strictly increasing.
pub open spec fn strictly_increasing(s: Seq<i64>) -> bool {
    forall|i: int, j: int| 0 <= i < j < s.len() ==> s[i] < s[j]
}

/// Whether `k` occurs in `s`.
pub open spec fn holds(s: Seq<i64>, k: int) -> bool {
    exists|j: int| 0 <= j < s.len() && s[j] == k
}

/// Adds `k` to a strictly increasing list, keeping it strictly increasing.
fn insert_sorted(keys: &mut Vec<i64>, k: i64)
    requires
        strictly_increasing(old(keys)@),
    ensures
        strictly_increasing(final(keys)@),
        forall|x: int| holds(final(keys)@, x) <==> (holds(old(keys)@, x) || x == k),
{
    let n = keys.len();
    if n == 0 || keys[n - 1] < k {
        keys.push(k);
        proof {
            assert forall|x: int| holds(keys@, x) implies (holds(old(keys)@, x) || x == k) by {
                let j = choose|j: int| 0 <= j < keys@.len() && keys@[j] == x;
                if j < n {
                    assert(old(keys)@[j] == x);
                }
            }
            assert forall|x: int| holds(old(keys)@, x) implies holds(keys@, x) by {
                let j = choose|j: int| 0 <= j < old(keys)@.len() && old(keys)@[j] == x;
                assert(keys@[j] == x);
            }
            assert(keys@[n as int] == k);
        }
        return;
    }
    let mut j: usize = 0;
    while keys[j] < k
        invariant
            n == keys@.len(),
            keys@ == old(keys)@,
            0 < n,
            j < n,
            keys@[n - 1] >= k,
            forall|q: int| 0 <= q < j ==> keys@[q] < k,
        decreases n - j,
    {
        j += 1;
    }
    if keys[j] != k {
        keys.insert(j, k);
        proof {
            let o = old(keys)@;
            assert(keys@ == o.insert(j as int, k));
            assert forall|a: int, b: int| 0 <= a < b < keys@.len() implies keys@[a] < keys@[b] by {
                if b < j {
                } else if b == j {
                } else if a < j {
                    assert(o[a] < k);
                    assert(k < o[j as int]);
                } else if a == j {
                    assert(o[j as int] > k);
                    assert(keys@[b] == o[b - 1]);
                } else {
                    assert(keys@[a] == o[a - 1]);
                    assert(keys@[b] == o[b - 1]);
                }
            }
            assert forall|x: int| #[trigger] holds(keys@, x) <==> (holds(o, x) || x == k) by {
                if holds(keys@, x) {
                    let i = choose|i: int| 0 <= i < keys@.len() && keys@[i] == x;
                    if i < j {
                        assert(o[i] == x);
                    } else if i > j {
                        assert(o[i - 1] == x);
                    }
                }
                if x == k {
                    assert(keys@[j as int] == k);
                } else if holds(o, x) {
                    let i = choose|i: int| 0 <= i < o.len() && o[i] == x;
                    if i < j {
                        assert(keys@[i] == x);
                    } else {
                        assert(keys@[i + 1] == x);
                    }
                }
            }
        }
    } else {
        proof {
            assert forall|x: int| (holds(old(keys)@, x) || x == k) implies holds(keys@, x) by {
                if x == k {
                    assert(keys@[j as int] == k);
                }
            }
        }
    }
}

/// Smallest element of a non-empty sequence.
pub open spec fn least(s: Seq<i64>) -> int
    decreases s.len(),
{
    if s.len() <= 1 {
        s[0] as int
    } else {
        let m = least(s.drop_last());
        if s.last() < m { s.last() as int } else { m }
    }
}

/// Greatest element of a non-empty sequence.
pub open spec fn greatest(s: Seq<i64>) -> int
    decreases s.len(),
{
    if s.len() <= 1 {
        s[0] as int
    } else {
        let m = greatest(s.drop_last());
        if s.last() > m { s.last() as int } else { m }
    }
}

/// Whether `k` starts the bucket of some reading.
pub open spec fn is_bucket_of(ts: Seq<i64>, interval: Interval, k: int) -> bool {
    exists|i: int| 0 <= i < ts.len() && bucket_start(ts[i] as int, interval) == k
}

/// Whether `k` is the earliest bucket of the readings.
pub open spec fn is_first_bucket(ts: Seq<i64>, interval: Interval, k: int) -> bool {
    forall|i: int| 0 <= i < ts.len() ==> k <= bucket_start(ts[i] as int, interval)
}

/// Whether `k` is the latest bucket of the readings.
pub open spec fn is_last_bucket(ts: Seq<i64>, interval: Interval, k: int) -> bool {
    forall|i: int| 0 <= i < ts.len() ==> bucket_start(ts[i] as int, interval) <= k
}

/// Whether the bucket `k` is kept: it holds a reading, and it is not a partial
/// multi-day bucket at either edge. The first bucket is partial when the
/// earliest reading is not on the bucket's first day, the last one when the
/// latest reading is not on the bucket's last day.
pub open spec fn kept_bucket(ts: Seq<i64>, interval: Interval, k: int) -> bool {
    &&& is_bucket_of(ts, interval, k)
    &&& !(is_coarse(interval) && is_first_bucket(ts, interval, k) && day_of(least(ts)) != day_of(k))
    &&& !(is_coarse(interval) && is_last_bucket(ts, interval, k) && day_of(greatest(ts))
        != last_day(k, interval))
}

/// Whether every reading's bucket, and its last day, can be computed.
pub open spec fn buckets_defined(ts: Seq<i64>, interval: Interval) -> bool {
    forall|i: int|
        0 <= i < ts.len() ==> bucket_defined(#[trigger] ts[i] as int, interval) && last_day_defined(
            bucket_start(ts[i] as int, interval),
            interval,
        )
}

pub(crate) proof fn lemma_least_step(s: Seq<i64>, n: int)
    requires
        0 < n < s.len(),
    ensures
        least(s.take(n + 1)) == if s[n] < least(s.take(n)) { s[n] as int } else { least(s.take(n)) },
        greatest(s.take(n + 1)) == if s[n] > greatest(s.take(n)) { s[n] as int } else { greatest(s.take(n)) },
{
    assert(s.take(n + 1).drop_last() =~= s.take(n));
}

/// The distinct buckets of a non-empty list of readings, in time order, with
/// the earliest and the latest reading.
fn sorted_buckets(ts: &Vec<i64>, interval: Interval) -> (r: (Vec<i64>, i64, i64))
    requires
        buckets_defined(ts@, interval),
        ts@.len() > 0,
    ensures
        strictly_increasing(r.0@),
        forall|x: int| holds(r.0@, x) <==> is_bucket_of(ts@, interval, x),
        r.1 == least(ts@),
        r.2 == greatest(ts@),
        in_calendar(r.1 as int),
        in_calendar(r.2 as int),
{
    let n = ts.len();
    let mut keys: Vec<i64> = Vec::new();
    let mut lo: i64 = ts[0];
    let mut hi: i64 = ts[0];
    let mut i: usize = 0;
    while i < n
        invariant
            n == ts@.len(),
            0 < n,
            i <= n,
            buckets_defined(ts@, interval),
            strictly_increasing(keys@),
            forall|x: int| holds(keys@, x) <==> is_bucket_of(ts@.take(i as int), interval, x),
            i > 0 ==> lo == least(ts@.take(i as int)),
            i > 0 ==> hi == greatest(ts@.take(i as int)),
            i == 0 ==> lo == ts@[0] && hi == ts@[0],
            in_calendar(lo as int),
            in_calendar(hi as int),
        decreases n - i,
    {
        let t = ts[i];
        assert(bucket_defined(ts@[i as int] as int, interval));
        assert(in_calendar(t as int));
        let k = bucket_key(t, interval);
        insert_sorted(&mut keys, k);
        if t < lo {
            lo = t;
        }
        if t > hi {
            hi = t;
        }
        proof {
            let pre = ts@.take(i as int);
            let post = ts@.take(i + 1);
            assert forall|x: int| is_bucket_of(post, interval, x) <==> (is_bucket_of(pre, interval, x)
                || x == k) by {
                if is_bucket_of(post, interval, x) {
                    let q = choose|q: int| 0 <= q < post.len() && bucket_start(post[q] as int, interval) == x;
                    if q < i {
                        assert(pre[q] == post[q]);
                    }
                }
                if is_bucket_of(pre, interval, x) {
                    let q = choose|q: int| 0 <= q < pre.len() && bucket_start(pre[q] as int, interval) == x;
                    assert(post[q] == pre[q]);
                }
                if x == k {
                    assert(post[i as int] == t);
                }
            }
            if i == 0 {
                assert(post.len() == 1);
            } else {
                lemma_least_step(ts@, i as int);
            }
        }
        i += 1;
    }
    proof {
        assert(ts@.take(n as int) =~= ts@);
    }
    (keys, lo, hi)
}

/// In a strictly increasing list of exactly the readings' buckets, the first
/// entry is the first bucket and the last entry the last bucket, and no other
/// entry is either.
proof fn lemma_edges(ts: Seq<i64>, interval: Interval, all: Seq<i64>)
    requires
        buckets_defined(ts, interval),
        ts.len() > 0,
        strictly_increasing(all),
        forall|x: int| holds(all, x) <==> is_bucket_of(ts, interval, x),
    ensures
        all.len() > 0,
        is_first_bucket(ts, interval, all[0] as int),
        is_last_bucket(ts, interval, all[all.len() - 1] as int),
        in_calendar(all[0] as int),
        last_day_defined(all[all.len() - 1] as int, interval),
        forall|j: int|
            0 <= j < all.len() && is_first_bucket(ts, interval, #[trigger] all[j] as int) ==> j == 0,
        forall|j: int|
            0 <= j < all.len() && is_last_bucket(ts, interval, #[trigger] all[j] as int) ==> j == all.len() - 1,
{
    assert(is_bucket_of(ts, interval, bucket_start(ts[0] as int, interval)));
    assert(holds(all, bucket_start(ts[0] as int, interval)));
    assert forall|q: int| 0 <= q < ts.len() implies all[0] <= bucket_start(#[trigger] ts[q] as int, interval)
        && bucket_start(ts[q] as int, interval) <= all[all.len() - 1] by {
        assert(is_bucket_of(ts, interval, bucket_start(ts[q] as int, interval)));
        assert(holds(all, bucket_start(ts[q] as int, interval)));
        let j = choose|j: int| 0 <= j < all.len() && all[j] == bucket_start(ts[q] as int, interval);
        assert(all[0] <= all[j]);
        assert(all[j] <= all[all.len() - 1]);
    }
    assert(holds(all, all[0] as int));
    assert(holds(all, all[all.len() - 1] as int));
    let q0 = choose|q: int| 0 <= q < ts.len() && bucket_start(ts[q] as int, interval) == all[0];
    assert(last_day_defined(bucket_start(ts[q0] as int, interval), interval));
    let q1 = choose|q: int| 0 <= q < ts.len() && bucket_start(ts[q] as int, interval) == all[all.len() - 1];
    assert(last_day_defined(bucket_start(ts[q1] as int, interval), interval));
    assert forall|j: int|
        0 <= j < all.len() && is_first_bucket(ts, interval, #[trigger] all[j] as int) implies j == 0 by {
        assert(all[j] <= bucket_start(ts[q0] as int, interval));
    }
    assert forall|j: int|
        0 <= j < all.len() && is_last_bucket(ts, interval, #[trigger] all[j] as int) implies j == all.len() - 1 by {
        assert(bucket_start(ts[q1] as int, interval) <= all[j]);
    }
}

/// The edges removed from a strictly increasing list are exactly its first
/// and last values.
proof fn lemma_trim(all: Seq<i64>, drop_first: bool, drop_last: bool, k: int)
    requires
        strictly_increasing(all),
        all.len() > 0,
    ensures
        ({
            let s1 = if drop_first { all.subrange(1, all.len() as int) } else { all };
            let s2 = if drop_last && s1.len() > 0 { s1.drop_last() } else { s1 };
            holds(s2, k) <==> (holds(all, k) && !(drop_first && k == all[0]) && !(drop_last && k
                == all[all.len() - 1]))
        }),
{
    let n = all.len() as int;
    let s1 = if drop_first { all.subrange(1, n) } else { all };
    let s2 = if drop_last && s1.len() > 0 { s1.drop_last() } else { s1 };
    let off: int = if drop_first { 1 } else { 0 };
    assert forall|j: int| 0 <= j < s2.len() implies s2[j] == all[j + off] by {}
    if holds(s2, k) {
        let j = choose|j: int| 0 <= j < s2.len() && s2[j] == k;
        assert(all[j + off] == k);
        if drop_first && k == all[0] {
            assert(all[0] < all[j + off]);
        }
        if drop_last && k == all[n - 1] {
            assert(all[j + off] < all[n - 1]);
        }
    }
    if holds(all, k) && !(drop_first && k == all[0]) && !(drop_last && k == all[n - 1]) {
        let j = choose|j: int| 0 <= j < n && all[j] == k;
        if drop_first {
            assert(j != 0);
        }
        if drop_last {
            assert(j != n - 1);
        }
        assert(s2[j - off] == k);
    }
}

/// The buckets left after trimming partial edges: `keys` are a series'
/// bucket starts in time order, `first_day` and `last_day` the days of its
/// earliest and latest readings, `last_end` the last day of its last bucket.
/// For the Week, Month and Year intervals the first bucket goes when the
/// earliest reading is not on its first day, and then the last remaining one
/// when the latest reading is not on `last_end`.
pub open spec fn trimmed(keys: Seq<i64>, interval: Interval, first_day: int, last_day: int, last_end: int) -> Seq<i64> {
    let drop_first = is_coarse(interval) && keys.len() > 0 && first_day != day_of(keys[0] as int);
    let rest = if drop_first { keys.skip(1) } else { keys };
    if is_coarse(interval) && rest.len() > 0 && last_day != last_end {
        rest.drop_last()
    } else {
        rest
    }
}

/// Drops the partial edge buckets of a series, as [`trimmed`] says.
pub fn trim_partial_edges(keys: Vec<i64>, interval: Interval, first_day: i64, last_day: i64, last_end: i64) -> (r: Vec<i64>)
    ensures
        r@ == trimmed(keys@, interval, first_day as int, last_day as int, last_end as int),
{
    let coarse = match interval {
        Interval::Week | Interval::Month | Interval::Year => true,
        Interval::Hour | Interval::Day => false,
    };
    let mut out = keys;
    if coarse && out.len() > 0 {
        let first = out[0];
        if first.checked_div_euclid(86400).unwrap() != first_day {
            out.remove(0);
        }
    }
    let ghost rest = out@;
    if coarse && out.len() > 0 && last_day != last_end {
        out.pop();
        proof {
            assert(out@ =~= rest.drop_last());
        }
    }
    out
}

/// The buckets, in time order, that the mean series of these readings has:
/// the start of every bucket holding a reading, without the partial Week,
/// Month or Year bucket at either edge.
pub fn bucket_plan(timestamps: &Vec<i64>, interval: Interval) -> (r: Vec<i64>)
    requires
        buckets_defined(timestamps@, interval),
    ensures
        strictly_increasing(r@),
        forall|k: int| holds(r@, k) <==> kept_bucket(timestamps@, interval, k),
{
    let ts = timestamps;
    if ts.len() == 0 {
        let empty: Vec<i64> = Vec::new();
        return empty;
    }
    let (keys, lo, hi) = sorted_buckets(ts, interval);
    let ghost all = keys@;
    proof {
        lemma_edges(ts@, interval, all);
    }
    let last_end = bucket_last_day(keys[keys.len() - 1], interval);
    let out = trim_partial_edges(keys, interval, day_index(lo), day_index(hi), last_end);
    proof {
        let n = all.len() as int;
        let drop_first = is_coarse(interval) && day_of(least(ts@)) != day_of(all[0] as int);
        let s1 = if drop_first { all.subrange(1, n) } else { all };
        assert(all.skip(1) =~= all.subrange(1, n));
        let drop_last = is_coarse(interval) && day_of(greatest(ts@)) != last_day(all[n - 1] as int, interval);
        let s2 = if drop_last && s1.len() > 0 { s1.drop_last() } else { s1 };
        assert(out@ =~= s2);
        assert forall|k: int| holds(out@, k) <==> kept_bucket(ts@, interval, k) by {
            lemma_trim(all, drop_first, drop_last, k);
            if holds(all, k) {
                let j = choose|j: int| 0 <= j < n && all[j] == k;
                assert(is_first_bucket(ts@, interval, k) <==> j == 0);
                assert(is_last_bucket(ts@, interval, k) <==> j == n - 1);
            }
        }
        assert forall|i: int, j: int| 0 <= i < j < out@.len() implies out@[i] < out@[j] by {
            let off: int = if drop_first { 1 } else { 0 };
            assert(out@[i] == all[i + off]);
            assert(out@[j] == all[j + off]);
        }
    }
    out
}

/// What `DateTime::parse_from_rfc3339` followed by `DateTime::timestamp` gives
/// for a text: the instant's Unix seconds, or `None` when the text is not an
/// RFC 3339 date-time.
pub uninterp spec fn rfc3339_secs(s: Seq<char>) -> Option<int>;

/// Calls `DateTime::parse_from_rfc3339` and `DateTime::timestamp`. Trusted: the
/// result is the one named above, and a parsed instant lies within the
/// calendar `chrono` represents.
#[verifier::external_body]
fn parse_rfc3339(s: &str) -> (r: Option<i64>)
    ensures
        r is Some <==> rfc3339_secs(s@) is Some,
        r matches Some(x) ==> rfc3339_secs(s@) == Some(x as int) && in_calendar(x as int),
{
    match chrono::DateTime::parse_from_rfc3339(s) {
        Ok(d) => Some(d.timestamp()),
        Err(_) => None,
    }
}

/// What `NaiveDate::parse_from_str` with the format `%Y-%m-%d` followed by
/// `NaiveDate::to_epoch_days` gives for a text, or `None` when the text is not
/// such a date.
pub uninterp spec fn ymd_day(s: Seq<char>) -> Option<int>;

/// Calls `NaiveDate::parse_from_str` (format `%Y-%m-%d`) and
/// `NaiveDate::to_epoch_days`. Trusted: the result is the one named above, and
/// a parsed date is a day of the calendar `chrono` represents.
#[verifier::external_body]
fn parse_ymd(s: &str) -> (r: Option<i32>)
    ensures
        r is Some <==> ymd_day(s@) is Some,
        r matches Some(d) ==> ymd_day(s@) == Some(d as int) && min_day() <= d <= max_day(),
{
    match chrono::NaiveDate::parse_from_str(s, "%Y-%m-%d") {
        Ok(d) => Some(d.to_epoch_days()),
        Err(_) => None,
    }
}

/// The instant an hourly file's index 0 stands for: its parsed `start_utc`, or
/// the Unix epoch when that does not parse.
pub open spec fn hourly_base(start_utc: Seq<char>) -> int {
    match rfc3339_secs(start_utc) {
        Some(x) => x,
        None => 0,
    }
}

/// Whether the reading at `idx` steps of `step` seconds after `base` has a
/// time: the offset fits in 64 bits and the instant is within the calendar.
pub open spec fn hourly_ok(base: int, idx: int, step: int) -> bool {
    &&& i64::MIN <= idx * step <= i64::MAX
    &&& in_calendar(base + idx * step)
}

/// The times `base + idx * step_secs` of readings indexed from the instant
/// `base`. `None` when some offset overflows or some time falls outside the
/// calendar.
pub fn hourly_times_from(base: i64, step_secs: i64, idxs: &[i64]) -> (r: Option<Vec<i64>>)
    ensures
        r is Some <==> forall|k: int| 0 <= k < idxs@.len() ==> hourly_ok(base as int, #[trigger] idxs@[k] as int, step_secs as int),
        r matches Some(v) ==> {
            &&& v@.len() == idxs@.len()
            &&& forall|k: int| 0 <= k < idxs@.len() ==> #[trigger] v@[k] == base + idxs@[k] * step_secs
        },
{
    assert(min_day() * 86400 == -8_334_601_228_800int && (max_day() + 1) * 86400 == 8_210_266_876_800int);
    let mut out: Vec<i64> = Vec::new();
    let mut i: usize = 0;
    while i < idxs.len()
        invariant
            i <= idxs@.len(),
            out@.len() == i,
            forall|k: int| 0 <= k < i ==> hourly_ok(base as int, #[trigger] idxs@[k] as int, step_secs as int),
            forall|k: int| 0 <= k < i ==> #[trigger] out@[k] == base + idxs@[k] * step_secs,
        decreases idxs@.len() - i,
    {
        let idx = idxs[i];
        let off = match idx.checked_mul(step_secs) {
            Some(o) => o,
            None => {
                assert(!hourly_ok(base as int, idxs@[i as int] as int, step_secs as int));
                return None;
            },
        };
        let t = match base.checked_add(off) {
            Some(t) => t,
            None => {
                assert(!hourly_ok(base as int, idxs@[i as int] as int, step_secs as int));
                return None;
            },
        };
        if t < -8_334_601_228_800 || t >= 8_210_266_876_800 {
            assert(!hourly_ok(base as int, idxs@[i as int] as int, step_secs as int));
            return None;
        }
        out.push(t);
        i += 1;
    }
    Some(out)
}

/// The times of an hourly file's readings: `start_utc + idx * step_secs` for
/// each index. `None` when some offset overflows or some time falls outside
/// the calendar.
pub fn hourly_timestamps(start_utc: &str, step_secs: i64, idxs: &[i64]) -> (r: Option<Vec<i64>>)
    ensures
        r is Some <==> forall|k: int|
            0 <= k < idxs@.len() ==> hourly_ok(hourly_base(start_utc@), #[trigger] idxs@[k] as int, step_secs as int),
        r matches Some(v) ==> {
            &&& v@.len() == idxs@.len()
            &&& forall|k: int| 0 <= k < idxs@.len() ==> #[trigger] v@[k] == hourly_base(start_utc@) + idxs@[k] * step_secs
        },
{
    let base: i64 = match parse_rfc3339(start_utc) {
        Some(b) => b,
        None => 0,
    };
    hourly_times_from(base, step_secs, idxs)
}

/// The day a daily file's index 0 stands for: its parsed `start_date`, or
/// 1970-01-01 when that does not parse.
pub open spec fn daily_base(start_date: Seq<char>) -> int {
    match ymd_day(start_date) {
        Some(d) => d,
        None => 0,
    }
}

/// The calendar day of a daily file's `start_date`, when it is a
/// `YYYY-MM-DD` date.
pub fn base_day(start_date: &str) -> (r: Option<i64>)
    ensures
        r is Some <==> ymd_day(start_date@) is Some,
        r matches Some(d) ==> ymd_day(start_date@) == Some(d as int),
{
    match parse_ymd(start_date) {
        Some(d) => Some(d as i64),
        None => None,
    }
}

/// The times, UTC midnight of the day `base_day + idx`, of readings indexed
/// by day from `base_day`. `None` when some day falls outside the calendar.
pub fn daily_times_from(base_day: i64, idxs: &[i64]) -> (r: Option<Vec<i64>>)
    requires
        min_day() <= base_day <= max_day(),
    ensures
        r is Some <==> forall|k: int| 0 <= k < idxs@.len() ==> in_calendar((base_day + #[trigger] idxs@[k]) * 86400),
        r matches Some(v) ==> {
            &&& v@.len() == idxs@.len()
            &&& forall|k: int| 0 <= k < idxs@.len() ==> #[trigger] v@[k] == (base_day + idxs@[k]) * 86400
        },
{
    let mut out: Vec<i64> = Vec::new();
    let mut i: usize = 0;
    while i < idxs.len()
        invariant
            min_day() <= base_day <= max_day(),
            i <= idxs@.len(),
            out@.len() == i,
            forall|k: int| 0 <= k < i ==> in_calendar((base_day + #[trigger] idxs@[k]) * 86400),
            forall|k: int| 0 <= k < i ==> #[trigger] out@[k] == (base_day + idxs@[k]) * 86400,
        decreases idxs@.len() - i,
    {
        let idx = idxs[i];
        if idx < -200_000_000 || idx > 200_000_000 {
            assert(!in_calendar((base_day + idxs@[i as int]) * 86400));
            return None;
        }
        let d = base_day + idx;
        if d < -96_465_292 || d > 95_026_236 {
            assert(!in_calendar((base_day + idxs@[i as int]) * 86400));
            return None;
        }
        out.push(d * 86400);
        i += 1;
    }
    Some(out)
}

/// The times of a daily file's readings: UTC midnight of the day `idx` days
/// after `start_date`, for each index. `None` when some day falls outside the
/// calendar.
pub fn daily_timestamps(start_date: &str, idxs: &[i64]) -> (r: Option<Vec<i64>>)
    ensures
        r is Some <==> forall|k: int|
            0 <= k < idxs@.len() ==> in_calendar((daily_base(start_date@) + #[trigger] idxs@[k]) * 86400),
        r matches Some(v) ==> {
            &&& v@.len() == idxs@.len()
            &&& forall|k: int| 0 <= k < idxs@.len() ==> #[trigger] v@[k] == (daily_base(start_date@) + idxs@[k]) * 86400
        },
{
    let base: i64 = match parse_ymd(start_date) {
        Some(d) => d as i64,
        None => 0,
    };
    daily_times_from(base, idxs)
}

/// Summary of the published archive (`meta.json`).
pub struct Meta {
    pub years: Vec<i32>,
    pub min_year: i32,
    pub max_year: i32,
    pub latest_year: i32,
    pub generated: String,
    pub daily_start: String,
    pub rows: u64,
    pub stations: u32,
    pub substances: Vec<String>,
    pub source_url: String,
    pub station_list_url: String,
}

/// Whether a grid of `nx` by `ny` cells, holding `len` values, has a usable
/// shape: at least two cells each way and one value per cell.
pub open spec fn grid_shape_ok(nx: int, ny: int, len: int) -> bool {
    len == nx * ny && nx >= 2 && ny >= 2
}

/// Checks the shape of the modelled ultrafine-particle grid: `len` row-major
/// values for `nx` by `ny` cells. The error names the file.
pub fn check_grid_shape(nx: usize, ny: usize, len: usize) -> (r: Result<(), String>)
    ensures
        r is Ok <==> grid_shape_ok(nx as int, ny as int, len as int),
        r matches Err(msg) ==> msg@ == "ufp-surface.json: inconsistent grid shape"@,
{
    let fits = match nx.checked_mul(ny) {
        Some(cells) => cells == len,
        None => false,
    };
    if !fits || nx < 2 || ny < 2 {
        return Err("ufp-surface.json: inconsistent grid shape".to_owned());
    }
    Ok(())
}

/// Whether `v` is the top-left vertex of a cell of an `nx` by `ny` grid laid
/// out row by row: neither in the last column nor in the last row.
pub open spec fn is_cell(nx: int, ny: int, v: int) -> bool {
    0 <= v && v % nx < nx - 1 && v / nx < ny - 1
}

/// Whether the four corners of the cell at `v` hold a value.
pub open spec fn cell_complete(present: Seq<bool>, nx: int, v: int) -> bool {
    present[v] && present[v + 1] && present[v + nx] && present[v + nx + 1]
}

/// The cells of the ultrafine-particle surface that are drawn, in row-major
/// order: those whose four corners hold a value. `present` tells, vertex by
/// vertex, whether the grid has a value there.
pub fn complete_cells(present: &[bool], nx: usize, ny: usize) -> (r: Vec<usize>)
    requires
        grid_shape_ok(nx as int, ny as int, present@.len() as int),
    ensures
        forall|a: int, b: int| 0 <= a < b < r@.len() ==> r@[a] < r@[b],
        forall|k: int|
            0 <= k < r@.len() ==> is_cell(nx as int, ny as int, #[trigger] r@[k] as int) && cell_complete(
                present@,
                nx as int,
                r@[k] as int,
            ),
        forall|v: int|
            is_cell(nx as int, ny as int, v) && cell_complete(present@, nx as int, v) ==> #[trigger] r@.contains(
                v as usize,
            ),
{
    let len = present.len();
    proof {
        assert((ny - 1) * nx == nx * ny - nx) by (nonlinear_arith);
        assert((ny - 1) * nx <= len);
    }
    let n = (ny - 1) * nx;
    let mut out: Vec<usize> = Vec::new();
    let mut v: usize = 0;
    while v < n
        invariant
            grid_shape_ok(nx as int, ny as int, present@.len() as int),
            n == (ny - 1) * nx,
            n == nx * ny - nx,
            v <= n,
            forall|a: int, b: int| 0 <= a < b < out@.len() ==> out@[a] < out@[b],
            forall|k: int| 0 <= k < out@.len() ==> #[trigger] out@[k] < v,
            forall|k: int|
                0 <= k < out@.len() ==> is_cell(nx as int, ny as int, #[trigger] out@[k] as int)
                    && cell_complete(present@, nx as int, out@[k] as int),
            forall|w: int|
                0 <= w < v && is_cell(nx as int, ny as int, w) && cell_complete(present@, nx as int, w)
                    ==> #[trigger] out@.contains(w as usize),
        decreases n - v,
    {
        let col = v % nx;
        proof {
            let q = (v as int) / (nx as int);
            vstd::arithmetic::div_mod::lemma_fundamental_div_mod(v as int, nx as int);
            assert(q < ny - 1) by (nonlinear_arith)
                requires
                    v as int == nx * q + col,
                    0 <= col,
                    (v as int) < (ny - 1) * nx,
                    nx > 0,
            ;
            if col < nx - 1 {
                assert(v + nx + 1 < nx * ny) by (nonlinear_arith)
                    requires
                        v as int == nx * q + col,
                        col < nx - 1,
                        q <= ny - 2,
                        nx > 0,
                ;
            }
        }
        if col < nx - 1 && present[v] && present[v + 1] && present[v + nx] && present[v + nx + 1] {
            let ghost before = out@;
            out.push(v);
            proof {
                assert forall|w: int|
                    0 <= w < v + 1 && is_cell(nx as int, ny as int, w) && cell_complete(present@, nx as int, w)
                        implies #[trigger] out@.contains(w as usize) by {
                    if w < v {
                        assert(before.contains(w as usize));
                        let k = choose|k: int| 0 <= k < before.len() && before[k] == w as usize;
                        assert(out@[k] == w as usize);
                    } else {
                        assert(out@[before.len() as int] == v);
                    }
                }
            }
        } else {
            proof {
                assert forall|w: int|
                    0 <= w < v + 1 && is_cell(nx as int, ny as int, w) && cell_complete(present@, nx as int, w)
                        implies #[trigger] out@.contains(w as usize) by {
                    if w == v {
                        assert(!(col < nx - 1) || !cell_complete(present@, nx as int, w));
                    }
                }
            }
        }
        v += 1;
    }
    proof {
        assert forall|w: int|
            is_cell(nx as int, ny as int, w) && cell_complete(present@, nx as int, w) implies #[trigger] out@.contains(
                w as usize,
            ) by {
            let q = w / (nx as int);
            vstd::arithmetic::div_mod::lemma_fundamental_div_mod(w, nx as int);
            assert(w < (ny - 1) * nx) by (nonlinear_arith)
                requires
                    w == nx * q + w % (nx as int),
                    w % (nx as int) < nx - 1,
                    q < ny - 1,
                    nx > 0,
            ;
        }
    }
    out
}

/// For the month and year buckets, at any instant: a timestamp's bucket
/// starts at or before it, the timestamp's day is on or before the bucket's
/// last day, and the bucket of the bucket's start is the bucket itself.
pub proof fn lemma_calendar_bucket_holds_reading(ts: int, interval: Interval)
    requires
        interval == Interval::Month || interval == Interval::Year,
    ensures
        bucket_start(ts, interval) <= ts,
        day_of(ts) <= last_day(bucket_start(ts, interval), interval),
        bucket_start(bucket_start(ts, interval), interval) == bucket_start(ts, interval),
{
    let d = day_of(ts);
    vstd::arithmetic::div_mod::lemma_fundamental_div_mod(ts, 86400);
    lemma_day_in_its_month(d);
    let y = year_of_day(d);
    let m = month_of_day(d);
    if interval == Interval::Month {
        lemma_first_of_month(y, m, 1);
        lemma_day_of_midnight(day_number(y, m, 1));
    } else {
        lemma_first_of_month(y, 1, 1);
        lemma_day_of_midnight(day_number(y, 1, 1));
    }
}

/// The Year bucket starting on January 1 of any year `y` ends on December 31
/// of `y`, the day before January 1 of the next year: a year is never cut
/// short or run into the next.
pub proof fn lemma_year_bucket_ends_on_december_31(y: int)
    ensures
        last_day(day_number(y, 1, 1) * 86400, Interval::Year) == day_number(y, 12, 31),
        day_number(y, 12, 31) + 1 == day_number(y + 1, 1, 1),
{
    lemma_day_of_midnight(day_number(y, 1, 1));
    lemma_first_of_month(y, 1, 1);
}

/// The Month bucket starting on the first of any month ends the day before
/// the first of the next month.
pub proof fn lemma_month_bucket_ends_before_next_month(y: int, m: int)
    requires
        1 <= m <= 12,
    ensures
        last_day(day_number(y, m, 1) * 86400, Interval::Month) + 1 == (if m == 12 {
            day_number(y + 1, 1, 1)
        } else {
            day_number(y, m + 1, 1)
        }),
{
    lemma_day_of_midnight(day_number(y, m, 1));
    lemma_first_of_month(y, m, 1);
}

/// For the hour, day and week buckets, at any instant: a timestamp's bucket
/// starts at or before it and less than one bucket length earlier, and the
/// bucket of the bucket's start is the bucket itself.
pub proof fn lemma_bucket_holds_reading(ts: int, interval: Interval)
    requires
        interval == Interval::Hour || interval == Interval::Day || interval == Interval::Week,
    ensures
        bucket_start(ts, interval) <= ts,
        ts < bucket_start(ts, interval) + (match interval {
            Interval::Hour => 3600int,
            Interval::Day => 86400int,
            _ => 7 * 86400int,
        }),
        bucket_start(bucket_start(ts, interval), interval) == bucket_start(ts, interval),
{
    let d = day_of(ts);
    assert(d * 86400 <= ts < d * 86400 + 86400);
    match interval {
        Interval::Hour => {
            let b = ts - ts % 3600;
            assert(b % 3600 == 0) by {
                vstd::arithmetic::div_mod::lemma_fundamental_div_mod(ts, 3600);
                vstd::arithmetic::div_mod::lemma_mod_multiples_basic(ts / 3600, 3600);
            }
        },
        Interval::Day => {
            assert((d * 86400) / 86400 == d) by {
                vstd::arithmetic::div_mod::lemma_div_multiples_vanish(d, 86400);
            }
        },
        _ => {
            let w = d - weekday_of(d);
            assert((w * 86400) / 86400 == w) by {
                vstd::arithmetic::div_mod::lemma_div_multiples_vanish(w, 86400);
            }
            assert(weekday_of(w) == 0) by {
                vstd::arithmetic::div_mod::lemma_fundamental_div_mod(d + 3, 7);
                vstd::arithmetic::div_mod::lemma_mod_multiples_basic((d + 3) / 7, 7);
            }
        },
    }
}

/// Whether the bucket of `ts`, and the last day of that bucket, can be
/// computed.
pub fn bucket_computable(ts: i64, interval: Interval) -> (r: bool)
    ensures
        r == (bucket_defined(ts as int, interval) && last_day_defined(
            bucket_start(ts as int, interval),
            interval,
        )),
{
    if ts < -8_334_601_228_800 || ts >= 8_210_266_876_800 {
        return false;
    }
    assert(min_day() * 86400 == -8_334_601_228_800int && (max_day() + 1) * 86400 == 8_210_266_876_800int);
    let d = day_index(ts);
    if let Interval::Week = interval {
        let dow = (d + 3).checked_rem_euclid(7).unwrap();
        if d - dow < -96_465_292 {
            return false;
        }
    }
    let k = bucket_key(ts, interval);
    let kd = day_index(k);
    match interval {
        Interval::Week => kd + 6 <= 95_026_236,
        Interval::Month => {
            let y = civil_year(kd as i32);
            let m = civil_month(kd as i32);
            !(m == 12 && y == 262_142)
        },
        Interval::Hour | Interval::Day | Interval::Year => true,
    }
}

/// [`bucket_plan`] for readings whose buckets may fall outside the calendar:
/// `None` when some reading's bucket, or its last day, cannot be computed.
pub fn checked_bucket_plan(timestamps: &Vec<i64>, interval: Interval) -> (r: Option<Vec<i64>>)
    ensures
        r is Some <==> buckets_defined(timestamps@, interval),
        r matches Some(plan) ==> {
            &&& strictly_increasing(plan@)
            &&& forall|k: int| holds(plan@, k) <==> kept_bucket(timestamps@, interval, k)
        },
{
    let mut i: usize = 0;
    while i < timestamps.len()
        invariant
            i <= timestamps@.len(),
            forall|j: int|
                0 <= j < i ==> bucket_defined(#[trigger] timestamps@[j] as int, interval)
                    && last_day_defined(bucket_start(timestamps@[j] as int, interval), interval),
        decreases timestamps@.len() - i,
    {
        if !bucket_computable(timestamps[i], interval) {
            return None;
        }
        i += 1;
    }
    Some(bucket_plan(timestamps, interval))
}

} // verus!
