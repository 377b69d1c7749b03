//! What the time-series chart is built from: Montréal local time, the bins
//! of the averaging profiles, the years of the profile tier, the span of the
//! plotted data, and the coverage note.

use vstd::prelude::*;

use chrono::Offset;

use crate::loader::{
    day_number, day_of, epoch_day_of, greatest, in_calendar, least, lemma_least_step, max_day, max_year, min_day,
    min_year, weekday_of,
};
use crate::chart::{decimal, push_decimal};
use crate::map::weekend_day;
use crate::types::Profile;

verus! {

/// What `chrono-tz` gives as Montréal's offset from UTC, in seconds, at the
/// instant `ts`.
pub uninterp spec fn montreal_offset(ts: int) -> int;

/// Calls `DateTime::from_timestamp`, `DateTime::with_timezone` with
/// `chrono_tz::America::Montreal`, `Offset::fix` and
/// `FixedOffset::local_minus_utc`. Trusted: the result is Montréal's offset at
/// the instant, named above; as a `FixedOffset` it is less than a day either
/// way.
#[verifier::external_body]
fn montreal_offset_secs(ts: i64) -> (r: i32)
    requires
        in_calendar(ts as int),
    ensures
        r == montreal_offset(ts as int),
        -86400 < r < 86400,
{
    chrono::DateTime::from_timestamp(ts, 0).unwrap().with_timezone(&chrono_tz::America::Montreal).offset().fix().local_minus_utc()
}

/// The instant `ts` on Montréal's wall clock, as seconds from 1970-01-01
/// 00:00 local.
pub open spec fn local_secs(ts: int) -> int {
    ts + montreal_offset(ts)
}

/// Montréal's calendar day at the instant `ts`.
pub open spec fn local_day(ts: int) -> int {
    local_secs(ts) / 86400
}

/// Montréal's hour of the day (0 to 23) at the instant `ts`.
pub open spec fn local_hour(ts: int) -> int {
    (local_secs(ts) % 86400) / 3600
}

/// The instant `ts` on Montréal's wall clock.
pub fn montreal_local_secs(ts: i64) -> (r: i64)
    requires
        in_calendar(ts as int),
    ensures
        r == local_secs(ts as int),
        -86400 < montreal_offset(ts as int) < 86400,
{
    let off = montreal_offset_secs(ts);
    ts + off as i64
}

/// Montréal's calendar day and hour at the instant `ts`.
pub fn local_day_hour(ts: i64) -> (r: (i64, u8))
    requires
        in_calendar(ts as int),
    ensures
        r.0 == local_day(ts as int),
        r.1 == local_hour(ts as int),
        0 <= r.1 < 24,
        min_day() - 1 <= r.0 <= max_day() + 1,
{
    let l = montreal_local_secs(ts);
    let day = l.checked_div_euclid(86400).unwrap();
    let secs = l.checked_rem_euclid(86400).unwrap();
    (day, (secs / 3600) as u8)
}

/// The bin of a reading at `ts` in a profile: for Weekday and Weekend, its
/// Montréal hour, when its Montréal day is of that kind (`None` otherwise);
/// for Weekly, the weekday (0 = Monday) of its UTC date.
pub open spec fn profile_bin(ts: int, p: Profile) -> Option<int> {
    match p {
        Profile::Weekday => if weekend_day(weekday_of(local_day(ts))) {
            None
        } else {
            Some(local_hour(ts))
        },
        Profile::Weekend => if weekend_day(weekday_of(local_day(ts))) {
            Some(local_hour(ts))
        } else {
            None
        },
        Profile::Weekly => Some(weekday_of(day_of(ts))),
    }
}

/// The profile bin of each reading (by its time), `None` for a reading the
/// profile drops.
pub fn profile_bins(ts: &[i64], p: Profile) -> (r: Vec<Option<u8>>)
    requires
        forall|i: int| 0 <= i < ts@.len() ==> in_calendar(#[trigger] ts@[i] as int),
    ensures
        r@.len() == ts@.len(),
        forall|i: int|
            0 <= i < ts@.len() ==> match #[trigger] r@[i] {
                Some(b) => profile_bin(ts@[i] as int, p) == Some(b as int),
                None => profile_bin(ts@[i] as int, p) is None,
            },
{
    let mut out: Vec<Option<u8>> = Vec::new();
    let mut i: usize = 0;
    while i < ts.len()
        invariant
            i <= ts@.len(),
            out@.len() == i,
            forall|k: int| 0 <= k < ts@.len() ==> in_calendar(#[trigger] ts@[k] as int),
            forall|k: int|
                0 <= k < i ==> match #[trigger] out@[k] {
                    Some(b) => profile_bin(ts@[k] as int, p) == Some(b as int),
                    None => profile_bin(ts@[k] as int, p) is None,
                },
        decreases ts@.len() - i,
    {
        let t = ts[i];
        assert(in_calendar(ts@[i as int] as int));
        let bin = match p {
            Profile::Weekly => {
                let d = t.checked_div_euclid(86400).unwrap();
                let dow = (d + 3).checked_rem_euclid(7).unwrap();
                Some(dow as u8)
            },
            Profile::Weekday | Profile::Weekend => {
                let (day, hour) = local_day_hour(t);
                let dow = (day + 3).checked_rem_euclid(7).unwrap();
                let weekend = dow == 5 || dow == 6;
                let keep = match p {
                    Profile::Weekend => weekend,
                    _ => !weekend,
                };
                if keep {
                    Some(hour)
                } else {
                    None
                }
            },
        };
        out.push(bin);
        i += 1;
    }
    out
}

/// Whether some of the first 24 hourly counts is positive.
pub open spec fn any_count(c: Seq<u32>) -> bool {
    exists|h: int| 0 <= h < 24 && h < c.len() && c[h] > 0
}

/// The years of the profile tier that count for a range of years `lo` to
/// `hi`: those in the range with some reading, in the tier's order.
pub open spec fn tier_years(bins: Seq<(i32, Vec<u32>)>, lo: int, hi: int) -> Seq<i32>
    decreases bins.len(),
{
    if bins.len() == 0 {
        Seq::empty()
    } else {
        let rest = tier_years(bins.drop_last(), lo, hi);
        let (y, c) = bins.last();
        if lo <= y <= hi && any_count(c@) {
            rest.push(y)
        } else {
            rest
        }
    }
}

/// The years of the diurnal-profile tier a profile over the years `lo` to
/// `hi` sums: `bins` holds each tier year with its 24 hourly counts for the
/// profile's day kind.
pub fn profile_tier_years(lo: i32, hi: i32, bins: &[(i32, Vec<u32>)]) -> (r: Vec<i32>)
    ensures
        r@ == tier_years(bins@, lo as int, hi as int),
{
    let mut out: Vec<i32> = Vec::new();
    let mut i: usize = 0;
    while i < bins.len()
        invariant
            i <= bins@.len(),
            out@ == tier_years(bins@.take(i as int), lo as int, hi as int),
        decreases bins@.len() - i,
    {
        let y = bins[i].0;
        let c = &bins[i].1;
        let mut any = false;
        let mut h: usize = 0;
        while h < 24 && h < c.len()
            invariant
                h <= 24,
                h <= c@.len(),
                any <==> exists|g: int| 0 <= g < h && c@[g] > 0,
            decreases 24 - h,
        {
            if c[h] > 0 {
                any = true;
            }
            h += 1;
        }
        proof {
            assert(bins@.take(i + 1).drop_last() =~= bins@.take(i as int));
            assert(bins@.take(i + 1).last() == bins@[i as int]);
            if any_count(c@) {
                let g = choose|g: int| 0 <= g < 24 && g < c@.len() && c@[g] > 0;
                assert(g < h);
            }
        }
        if lo <= y && y <= hi && any {
            out.push(y);
        }
        i += 1;
    }
    proof {
        assert(bins@.take(bins@.len() as int) =~= bins@);
    }
    out
}

/// The span of a profile-tier series, at year resolution: from January 1 of
/// its first year to December 31 of its last, clamped to the query's days.
pub fn profile_tier_extent(first_year: i32, last_year: i32, query: (i64, i64)) -> (r: (i64, i64))
    requires
        min_year() <= first_year <= max_year(),
        min_year() <= last_year <= max_year(),
    ensures
        r.0 == (if day_number(first_year as int, 1, 1) > query.0 { day_number(first_year as int, 1, 1) } else { query.0 as int }),
        r.1 == (if day_number(last_year as int, 12, 31) < query.1 { day_number(last_year as int, 12, 31) } else { query.1 as int }),
{
    let start = epoch_day_of(first_year, 1, 1) as i64;
    let end = epoch_day_of(last_year, 12, 31) as i64;
    (if start > query.0 { start } else { query.0 }, if end < query.1 { end } else { query.1 })
}

/// The UTC days of the earliest and the latest reading, `None` without
/// readings.
pub fn reading_extent(ts: &[i64]) -> (r: Option<(i64, i64)>)
    ensures
        r is None <==> ts@.len() == 0,
        r matches Some((a, b)) ==> a == day_of(least(ts@)) && b == day_of(greatest(ts@)),
{
    if ts.len() == 0 {
        return None;
    }
    let mut lo = ts[0];
    let mut hi = ts[0];
    let mut i: usize = 1;
    proof {
        assert(ts@.take(1).len() == 1);
    }
    while i < ts.len()
        invariant
            1 <= i <= ts@.len(),
            lo == least(ts@.take(i as int)),
            hi == greatest(ts@.take(i as int)),
        decreases ts@.len() - i,
    {
        proof {
            lemma_least_step(ts@, i as int);
            assert(ts@.take(i + 1)[i as int] == ts@[i as int]);
        }
        if ts[i] < lo {
            lo = ts[i];
        }
        if ts[i] > hi {
            hi = ts[i];
        }
        i += 1;
    }
    proof {
        assert(ts@.take(ts@.len() as int) =~= ts@);
    }
    Some((lo.checked_div_euclid(86400).unwrap(), hi.checked_div_euclid(86400).unwrap()))
}

/// Whether the instant `ts` falls on one of the days `from` to `to` (UTC),
/// from midnight to 23:59:59.
pub open spec fn in_days(ts: int, from: int, to: int) -> bool {
    from * 86400 <= ts <= to * 86400 + 86399
}

/// Which readings (by their time) fall within the query's days `from` to
/// `to`.
pub fn in_query_range(ts: &[i64], from: i64, to: i64) -> (r: Vec<bool>)
    ensures
        r@.len() == ts@.len(),
        forall|i: int| 0 <= i < ts@.len() ==> #[trigger] r@[i] == in_days(ts@[i] as int, from as int, to as int),
{
    let lo: i128 = from as i128 * 86400;
    let hi: i128 = to as i128 * 86400 + 86399;
    let mut out: Vec<bool> = Vec::new();
    let mut i: usize = 0;
    while i < ts.len()
        invariant
            lo == from * 86400,
            hi == to * 86400 + 86399,
            i <= ts@.len(),
            out@.len() == i,
            forall|k: int| 0 <= k < i ==> #[trigger] out@[k] == in_days(ts@[k] as int, from as int, to as int),
        decreases ts@.len() - i,
    {
        let t = ts[i] as i128;
        out.push(lo <= t && t <= hi);
        i += 1;
    }
    out
}

/// The words of the coverage note, in the interface's language.
pub struct CoverageTexts {
    /// Leads the line with the query range.
    pub query: &'static str,
    /// Precedes the first day of data when it starts late.
    pub begins: &'static str,
    /// Precedes the last day of data when it ends early.
    pub ends: &'static str,
    /// Follows "1" for a single long gap.
    pub gap_singular: &'static str,
    /// Follows the number of long gaps when there are several.
    pub gaps_plural: &'static str,
    /// Precedes the widest of several gaps.
    pub longest: &'static str,
}

/// The lines of the coverage note after the query line: a late start (data
/// beginning more than 7 days after the query), an early end (more than 7
/// days before it), and the long gaps, with the widest one's ends.
pub open spec fn coverage_parts(
    t: CoverageTexts,
    query: (int, int),
    data: (int, int),
    n_gaps: nat,
    data_text: (Seq<char>, Seq<char>),
    gap_text: Option<(Seq<char>, Seq<char>)>,
) -> Seq<Seq<char>> {
    let late: Seq<Seq<char>> = if data.0 - query.0 > 7 { seq![t.begins@ + " "@ + data_text.0] } else { seq![] };
    let early: Seq<Seq<char>> = if query.1 - data.1 > 7 { seq![t.ends@ + " "@ + data_text.1] } else { seq![] };
    let gap: Seq<Seq<char>> = match gap_text {
        Some((a, b)) => seq![
            if n_gaps == 1 {
                "1 "@ + t.gap_singular@ + ": "@ + a + " → "@ + b
            } else {
                decimal(n_gaps) + " "@ + t.gaps_plural@ + " ("@ + t.longest@ + " "@ + a + " → "@ + b + ")"@
            },
        ],
        None => seq![],
    };
    late + early + gap
}

/// `first` followed by each of `rest`, one per line.
pub open spec fn lines(first: Seq<char>, rest: Seq<Seq<char>>) -> Seq<char>
    decreases rest.len(),
{
    if rest.len() == 0 {
        first
    } else {
        lines(first, rest.drop_last()) + "\n"@ + rest.last()
    }
}

/// The characters of each string of a list.
pub open spec fn texts_of(s: Seq<String>) -> Seq<Seq<char>> {
    s.map_values(|x: String| x@)
}

/// The line on the long gaps: one gap, or how many and the widest.
fn gap_line(t: &CoverageTexts, n_gaps: u32, a: &str, b: &str) -> (r: String)
    ensures
        r@ == (if n_gaps == 1 {
            "1 "@ + t.gap_singular@ + ": "@ + a@ + " → "@ + b@
        } else {
            decimal(n_gaps as nat) + " "@ + t.gaps_plural@ + " ("@ + t.longest@ + " "@ + a@ + " → "@ + b@ + ")"@
        }),
{
    let mut line = String::new();
    if n_gaps == 1 {
        line.append("1 ");
        line.append(t.gap_singular);
        line.append(": ");
        line.append(a);
        line.append(" → ");
        line.append(b);
    } else {
        push_decimal(&mut line, n_gaps as u64);
        line.append(" ");
        line.append(t.gaps_plural);
        line.append(" (");
        line.append(t.longest);
        line.append(" ");
        line.append(a);
        line.append(" → ");
        line.append(b);
        line.append(")");
    }
    line
}

/// The text of `a`, `b`, `c` and `d` one after another.
fn concat4(a: &str, b: &str, c: &str, d: &str) -> (r: String)
    ensures
        r@ == a@ + b@ + c@ + d@,
{
    let mut r = a.to_owned();
    r.append(b);
    r.append(c);
    r.append(d);
    r
}

/// The lines of the coverage note after the query line.
fn coverage_lines(
    t: &CoverageTexts,
    query: (i64, i64),
    data: (i64, i64),
    n_gaps: u32,
    data_text: (&str, &str),
    gap_text: Option<(&str, &str)>,
) -> (r: Vec<String>)
    ensures
        texts_of(r@) == coverage_parts(
            *t,
            (query.0 as int, query.1 as int),
            (data.0 as int, data.1 as int),
            n_gaps as nat,
            (data_text.0@, data_text.1@),
            match gap_text {
                Some((a, b)) => Some((a@, b@)),
                None => None,
            },
        ),
{
    let mut out: Vec<String> = Vec::new();
    if (data.0 as i128) - (query.0 as i128) > 7 {
        out.push(concat4(t.begins, " ", data_text.0, ""));
    }
    if (query.1 as i128) - (data.1 as i128) > 7 {
        out.push(concat4(t.ends, " ", data_text.1, ""));
    }
    if let Some((a, b)) = gap_text {
        out.push(gap_line(t, n_gaps, a, b));
    }
    proof {
        reveal_strlit("");
        assert(""@ =~= Seq::<char>::empty());
        let late: Seq<Seq<char>> = if data.0 - query.0 > 7 { seq![t.begins@ + " "@ + data_text.0@] } else { seq![] };
        let early: Seq<Seq<char>> = if query.1 - data.1 > 7 { seq![t.ends@ + " "@ + data_text.1@] } else { seq![] };
        assert(t.begins@ + " "@ + data_text.0@ + ""@ =~= t.begins@ + " "@ + data_text.0@);
        assert(t.ends@ + " "@ + data_text.1@ + ""@ =~= t.ends@ + " "@ + data_text.1@);
        assert(texts_of(out@) =~= coverage_parts(
            *t,
            (query.0 as int, query.1 as int),
            (data.0 as int, data.1 as int),
            n_gaps as nat,
            (data_text.0@, data_text.1@),
            match gap_text {
                Some((a, b)) => Some((a@, b@)),
                None => None,
            },
        ));
    }
    out
}

/// `first` followed by each of `rest`, one per line.
fn join_lines(first: String, rest: &Vec<String>) -> (r: String)
    ensures
        r@ == lines(first@, texts_of(rest@)),
{
    let mut out = first;
    let ghost f = out@;
    let mut i: usize = 0;
    while i < rest.len()
        invariant
            i <= rest@.len(),
            out@ == lines(f, texts_of(rest@.take(i as int))),
        decreases rest@.len() - i,
    {
        out.append("\n");
        out.append(rest[i].as_str());
        proof {
            let pre = texts_of(rest@.take(i as int));
            let post = texts_of(rest@.take(i + 1));
            assert(post.drop_last() =~= pre);
            assert(post.last() == rest@[i as int]@);
        }
        i += 1;
    }
    proof {
        assert(rest@.take(rest@.len() as int) =~= rest@);
    }
    out
}

/// The note on how the plotted data falls short of the query range: `None`
/// when it starts and ends within 7 days of the query and has no long gap;
/// else the query line followed by one line per shortfall. Ranges are in
/// calendar days; the `*_text` arguments are those days as the note writes
/// them, `gap_text` the ends of the widest gap when there is one, and
/// `n_gaps` how many long gaps there are.
pub fn coverage_note(
    t: &CoverageTexts,
    query: (i64, i64),
    data: (i64, i64),
    n_gaps: u32,
    query_text: (&str, &str),
    data_text: (&str, &str),
    gap_text: Option<(&str, &str)>,
) -> (r: Option<String>)
    ensures
        ({
            let parts = coverage_parts(
                *t,
                (query.0 as int, query.1 as int),
                (data.0 as int, data.1 as int),
                n_gaps as nat,
                (data_text.0@, data_text.1@),
                match gap_text {
                    Some((a, b)) => Some((a@, b@)),
                    None => None,
                },
            );
            &&& r is None <==> parts.len() == 0
            &&& r matches Some(note) ==> note@ == lines(
                t.query@ + ": "@ + query_text.0@ + " → "@ + query_text.1@,
                parts,
            )
        }),
{
    let rest = coverage_lines(t, query, data, n_gaps, data_text, gap_text);
    if rest.len() == 0 {
        return None;
    }
    let first = concat4(t.query, ": ", query_text.0, " → ");
    let mut head = first;
    head.append(query_text.1);
    Some(join_lines(head, &rest))
}

/// Saturdays and Sundays (Montréal days 5 and 6 after a Monday) go to the
/// Weekend profile and every other day to the Weekday profile, each reading
/// in the bin of its Montréal hour; the Weekly profile bins every reading by
/// the weekday of its UTC date.
pub proof fn lemma_profile_days(ts: int)
    ensures
        profile_bin(ts, Profile::Weekend) is Some <==> (weekday_of(local_day(ts)) == 5 || weekday_of(local_day(ts)) == 6),
        profile_bin(ts, Profile::Weekday) is Some <==> !(profile_bin(ts, Profile::Weekend) is Some),
        profile_bin(ts, Profile::Weekend) is Some ==> profile_bin(ts, Profile::Weekend) == Some(local_hour(ts)),
        profile_bin(ts, Profile::Weekday) is Some ==> profile_bin(ts, Profile::Weekday) == Some(local_hour(ts)),
        profile_bin(ts, Profile::Weekly) == Some((day_of(ts) + 3) % 7),
{
}

/// The count the gap line of the coverage note states is `n_gaps`: with a
/// widest gap to report, the note's last line begins with the decimal digits
/// of `n_gaps` and a space, and the note has one line per shortfall.
pub proof fn lemma_coverage_counts_gaps(
    t: CoverageTexts,
    query: (int, int),
    data: (int, int),
    n_gaps: nat,
    data_text: (Seq<char>, Seq<char>),
    a: Seq<char>,
    b: Seq<char>,
)
    requires
        n_gaps >= 1,
    ensures
        ({
            let parts = coverage_parts(t, query, data, n_gaps, data_text, Some((a, b)));
            let last = parts.last();
            let digits = decimal(n_gaps);
            &&& parts.len() == (if data.0 - query.0 > 7 { 1int } else { 0 }) + (if query.1 - data.1 > 7 { 1int } else { 0 }) + 1
            &&& digits.len() < last.len()
            &&& last.take(digits.len() as int) == digits
            &&& last[digits.len() as int] == ' '
        }),
{
    reveal_strlit("1 ");
    reveal_strlit(" ");
    let parts = coverage_parts(t, query, data, n_gaps, data_text, Some((a, b)));
    let last = parts.last();
    let digits = decimal(n_gaps);
    if n_gaps == 1 {
        assert(digits =~= seq!['1']);
        assert(last.take(1) =~= seq!['1']);
    } else {
        lemma_decimal_nonempty(n_gaps);
        assert(last.take(digits.len() as int) =~= digits);
    }
}

proof fn lemma_decimal_nonempty(n: nat)
    ensures
        decimal(n).len() >= 1,
    decreases n,
{
    if n >= 10 {
        lemma_decimal_nonempty(n / 10);
    }
}
} // verus!
