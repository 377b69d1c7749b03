//! Day and hour filtering for the map's date-range aggregation, and the
//! map's caption.

use vstd::prelude::*;

use crate::i18n::{table_of, Lang};
use crate::loader::{in_calendar, max_day, min_day, weekday_of};
use crate::pollutants::{lookup, name_in, name_of};
use crate::series::{local_day, local_day_hour, local_hour};
use crate::types::{DayType, Stat};

verus! {

/// Synthetic substance key of the Air Quality Index; the dominant-pollutant
/// detail only applies to it.
pub const IQA_KEY: &'static str = "IQA";

/// Whether a day, given as days since the Monday of its week (0 = Monday),
/// falls on a weekend.
pub open spec fn weekend_day(days_from_monday: int) -> bool {
    days_from_monday == 5 || days_from_monday == 6
}

/// Whether a day passes a day-type filter.
pub open spec fn passes(day_type: DayType, weekend: bool) -> bool {
    match day_type {
        DayType::All => true,
        DayType::Weekday => !weekend,
        DayType::Weekend => weekend,
    }
}

/// Saturday and Sunday (5 and 6 days after Monday) are the weekend.
pub fn is_weekend(days_from_monday: u32) -> (r: bool)
    requires
        days_from_monday < 7,
    ensures
        r == weekend_day(days_from_monday as int),
{
    days_from_monday == 5 || days_from_monday == 6
}

/// Does this day pass the day-type filter?
pub fn day_type_ok(day_type: DayType, weekend: bool) -> (r: bool)
    ensures
        r == passes(day_type, weekend),
{
    match day_type {
        DayType::All => true,
        DayType::Weekday => !weekend,
        DayType::Weekend => weekend,
    }
}

/// Whether a local hour lies in the inclusive window `hour_from..=hour_to`.
pub open spec fn in_window(hour: int, hour_from: int, hour_to: int) -> bool {
    hour_from <= hour <= hour_to
}

/// Does a reading at this local hour pass the time-of-day window?
pub fn hour_in_window(hour: u8, hour_from: u8, hour_to: u8) -> (r: bool)
    ensures
        r == in_window(hour as int, hour_from as int, hour_to as int),
{
    hour_from <= hour && hour <= hour_to
}

/// Whether the map aggregates the daily tier: only at the full-day window
/// `[0, 23]`; any narrower window needs the hourly tier.
pub fn uses_daily_tier(hour_from: u8, hour_to: u8) -> (r: bool)
    ensures
        r == (hour_from == 0 && hour_to == 23),
{
    hour_from == 0 && hour_to == 23
}

/// The Montréal day of an hourly reading at `ts` that the map keeps for the
/// days `from` to `to`, the hours `hour_from` to `hour_to` and a day type;
/// `None` for a reading it leaves out.
pub open spec fn map_hour_day(ts: int, from: int, to: int, hour_from: int, hour_to: int, day_type: DayType) -> Option<int> {
    let d = local_day(ts);
    if from <= d <= to && in_window(local_hour(ts), hour_from, hour_to) && passes(day_type, weekend_day(weekday_of(d))) {
        Some(d)
    } else {
        None
    }
}

/// For each hourly reading (by its time), the Montréal day under which the
/// map counts it, or `None` when the date range, the time-of-day window or
/// the day type leaves it out.
pub fn map_hourly_days(ts: &[i64], from: i64, to: i64, hour_from: u8, hour_to: u8, day_type: DayType) -> (r: Vec<Option<i64>>)
    requires
        forall|i: int| 0 <= i < ts@.len() ==> in_calendar(#[trigger] ts@[i] as int),
    ensures
        r@.len() == ts@.len(),
        forall|i: int|
            0 <= i < ts@.len() ==> match #[trigger] r@[i] {
                Some(d) => map_hour_day(ts@[i] as int, from as int, to as int, hour_from as int, hour_to as int, day_type) == Some(d as int),
                None => map_hour_day(ts@[i] as int, from as int, to as int, hour_from as int, hour_to as int, day_type) is None,
            },
{
    let mut out: Vec<Option<i64>> = Vec::new();
    let mut i: usize = 0;
    while i < ts.len()
        invariant
            i <= ts@.len(),
            out@.len() == i,
            forall|k: int| 0 <= k < ts@.len() ==> in_calendar(#[trigger] ts@[k] as int),
            forall|k: int|
                0 <= k < i ==> match #[trigger] out@[k] {
                    Some(d) => map_hour_day(ts@[k] as int, from as int, to as int, hour_from as int, hour_to as int, day_type) == Some(d as int),
                    None => map_hour_day(ts@[k] as int, from as int, to as int, hour_from as int, hour_to as int, day_type) is None,
                },
        decreases ts@.len() - i,
    {
        assert(in_calendar(ts@[i as int] as int));
        let (d, h) = local_day_hour(ts[i]);
        let dow = (d + 3).checked_rem_euclid(7).unwrap();
        let keep = from <= d && d <= to && hour_in_window(h, hour_from, hour_to)
            && day_type_ok(day_type, dow == 5 || dow == 6);
        out.push(if keep { Some(d) } else { None });
        i += 1;
    }
    out
}

/// Whether the map counts the daily cell `idx` days after `base`: its day
/// lies within `from` to `to` and passes the day type.
pub open spec fn daily_cell_kept(base: int, idx: int, from: int, to: int, day_type: DayType) -> bool {
    let d = base + idx;
    from <= d <= to && passes(day_type, weekend_day(weekday_of(d)))
}

/// For each cell of a daily file whose index 0 is the day `base`, whether the
/// map counts it. `None` when some cell's day lies outside the calendar.
pub fn daily_cells_kept(base: i64, idxs: &[i64], from: i64, to: i64, day_type: DayType) -> (r: Option<Vec<bool>>)
    requires
        min_day() <= base <= max_day(),
    ensures
        r is Some <==> forall|i: int| 0 <= i < idxs@.len() ==> min_day() <= base + #[trigger] idxs@[i] <= max_day(),
        r matches Some(v) ==> {
            &&& v@.len() == idxs@.len()
            &&& forall|i: int| 0 <= i < idxs@.len() ==> #[trigger] v@[i] == daily_cell_kept(base as int, idxs@[i] as int, from as int, to as int, day_type)
        },
{
    let mut out: Vec<bool> = Vec::new();
    let mut i: usize = 0;
    while i < idxs.len()
        invariant
            min_day() <= base <= max_day(),
            i <= idxs@.len(),
            out@.len() == i,
            forall|k: int| 0 <= k < i ==> min_day() <= base + #[trigger] idxs@[k] <= max_day(),
            forall|k: int| 0 <= k < i ==> #[trigger] out@[k] == daily_cell_kept(base as int, idxs@[k] as int, from as int, to as int, day_type),
        decreases idxs@.len() - i,
    {
        let idx = idxs[i];
        if idx < -200_000_000 || idx > 200_000_000 {
            return None;
        }
        let d = base + idx;
        if d < -96_465_292 || d > 95_026_236 {
            return None;
        }
        let dow = (d + 3).checked_rem_euclid(7).unwrap();
        out.push(from <= d && d <= to && day_type_ok(day_type, dow == 5 || dow == 6));
        i += 1;
    }
    Some(out)
}

/// The map's date range is inclusive at both ends: with all days, a daily
/// cell is counted exactly when its day lies from `from` to `to`, a one-day
/// range counts that day's cell, and a cell counted for weekdays or for
/// weekends only is counted for all days, weekends being Saturdays and
/// Sundays (5 and 6 days after a Monday).
pub proof fn lemma_daily_cells_inclusive(base: int, idx: int, from: int, to: int)
    ensures
        daily_cell_kept(base, idx, from, to, DayType::All) <==> from <= base + idx <= to,
        daily_cell_kept(base, idx, base + idx, base + idx, DayType::All),
        daily_cell_kept(base, idx, from, to, DayType::All) <==> (daily_cell_kept(base, idx, from, to, DayType::Weekday)
            || daily_cell_kept(base, idx, from, to, DayType::Weekend)),
        daily_cell_kept(base, idx, from, to, DayType::Weekend) ==> (weekday_of(base + idx) == 5 || weekday_of(base + idx) == 6),
        daily_cell_kept(base, idx, from, to, DayType::Weekday) ==> !(weekday_of(base + idx) == 5 || weekday_of(base + idx) == 6),
{
}

/// The map counts an hourly reading, under its Montréal day, exactly when
/// that day lies from `from` to `to` (both included) and its Montréal hour
/// from `hour_from` to `hour_to` (both included), for all days; weekdays and
/// weekends split those readings, weekends being Saturdays and Sundays.
pub proof fn lemma_map_hours_inclusive(ts: int, from: int, to: int, hour_from: int, hour_to: int)
    ensures
        map_hour_day(ts, from, to, hour_from, hour_to, DayType::All) == (if from <= local_day(ts) <= to && hour_from
            <= local_hour(ts) <= hour_to {
            Some(local_day(ts))
        } else {
            None
        }),
        map_hour_day(ts, from, to, hour_from, hour_to, DayType::All) is Some <==> (map_hour_day(
            ts,
            from,
            to,
            hour_from,
            hour_to,
            DayType::Weekday,
        ) is Some || map_hour_day(ts, from, to, hour_from, hour_to, DayType::Weekend) is Some),
        map_hour_day(ts, from, to, hour_from, hour_to, DayType::Weekend) is Some ==> (weekday_of(local_day(ts)) == 5
            || weekday_of(local_day(ts)) == 6),
        map_hour_day(ts, from, to, hour_from, hour_to, DayType::Weekday) is Some ==> !(weekday_of(local_day(ts)) == 5
            || weekday_of(local_day(ts)) == 6),
{
}

/// Total of `counts` over the entries `kept` marks.
pub open spec fn kept_total(counts: Seq<u32>, kept: Seq<bool>) -> int
    decreases counts.len(),
{
    if counts.len() == 0 {
        0
    } else {
        kept_total(counts.drop_last(), kept.take(counts.len() - 1)) + (if kept[counts.len() - 1] { counts.last() as int } else { 0 })
    }
}

/// Number of entries `kept` marks.
pub open spec fn kept_number(kept: Seq<bool>) -> int
    decreases kept.len(),
{
    if kept.len() == 0 {
        0
    } else {
        kept_number(kept.drop_last()) + (if kept.last() { 1int } else { 0 })
    }
}

/// The hourly samples and the days behind a station's daily-tier statistics:
/// the total of the kept cells' sample counts, and how many cells are kept.
pub fn daily_sample_count(counts: &[u32], kept: &[bool]) -> (r: (u64, u64))
    requires
        counts@.len() == kept@.len(),
        counts@.len() <= u32::MAX,
    ensures
        r.0 == kept_total(counts@, kept@),
        r.1 == kept_number(kept@),
{
    let mut n: u64 = 0;
    let mut days: u64 = 0;
    let mut i: usize = 0;
    while i < counts.len()
        invariant
            counts@.len() == kept@.len(),
            counts@.len() <= u32::MAX,
            i <= counts@.len(),
            n == kept_total(counts@.take(i as int), kept@.take(i as int)),
            n <= i * 0xffff_ffff,
            days == kept_number(kept@.take(i as int)),
            days <= i,
        decreases counts@.len() - i,
    {
        proof {
            let c = counts@.take(i + 1);
            let k = kept@.take(i + 1);
            assert(c.drop_last() =~= counts@.take(i as int));
            assert(k.take(i as int) =~= kept@.take(i as int));
            assert(k.drop_last() =~= kept@.take(i as int));
            assert(c.last() == counts@[i as int]);
            assert(k[i as int] == kept@[i as int]);
            assert(n + 0xffff_ffff <= (i + 1) * 0xffff_ffff) by (nonlinear_arith)
                requires
                    n <= i * 0xffff_ffff,
            ;
            assert((i + 1) * 0xffff_ffff <= 0xffff_ffff * 0xffff_ffff) by (nonlinear_arith)
                requires
                    i + 1 <= 0xffff_ffff,
            ;
        }
        if kept[i] {
            n = n + counts[i] as u64;
            days = days + 1;
        }
        i += 1;
    }
    proof {
        assert(counts@.take(counts@.len() as int) =~= counts@);
        assert(kept@.take(kept@.len() as int) =~= kept@);
    }
    (n, days)
}

/// The map's colour-bar caption: substance name, statistic and date range
/// (`from → to`, or the single day when both ends are the same).
pub fn map_caption(lang: Lang, substance: &str, stat: Stat, from: &str, to: &str) -> (r: String)
    ensures
        r@ == (match lookup(substance@) {
            Some(p) => name_in(p, lang)@,
            None => substance@,
        }) + " · "@ + (match stat {
            Stat::Mean => table_of(lang).stat_mean,
            Stat::Median => table_of(lang).stat_median,
            Stat::Max => table_of(lang).stat_max,
            Stat::Min => table_of(lang).stat_min,
            Stat::MeanDailyMax => table_of(lang).stat_mean_daily_max,
        })@ + " · "@ + (if from@ == to@ { from@ } else { from@ + " → "@ + to@ }),
{
    let mut r = name_of(substance, lang);
    r.append(" · ");
    let label = stat.label(lang);
    r.append(label);
    r.append(" · ");
    r.append(from);
    if !crate::i18n::same_text(from, to) {
        r.append(" → ");
        r.append(to);
        proof {
            let a = (match lookup(substance@) {
                Some(p) => name_in(p, lang)@,
                None => substance@,
            }) + " · "@ + label@ + " · "@;
            assert(r@ =~= a + (from@ + " → "@ + to@));
        }
    }
    r
}

/// The daily tier is used exactly when the window keeps every hour of the
/// day, so it never stands in for a narrowed window.
pub proof fn lemma_daily_tier_keeps_every_hour(hour_from: u8, hour_to: u8)
    requires
        hour_from <= 23,
        hour_to <= 23,
    ensures
        (hour_from == 0 && hour_to == 23) <==> forall|h: int| 0 <= h < 24 ==> #[trigger] in_window(h, hour_from as int, hour_to as int),
{
    if forall|h: int| 0 <= h < 24 ==> #[trigger] in_window(h, hour_from as int, hour_to as int) {
        assert(in_window(0, hour_from as int, hour_to as int));
        assert(in_window(23, hour_from as int, hour_to as int));
    }
}

/// Every day passes the "all days" filter, and each day passes exactly one of
/// the weekday and weekend filters.
pub proof fn lemma_day_types_partition(weekend: bool)
    ensures
        passes(DayType::All, weekend),
        passes(DayType::Weekday, weekend) != passes(DayType::Weekend, weekend),
{
}

} // verus!
