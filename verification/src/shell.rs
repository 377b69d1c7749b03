//! Decisions of the application shell: the profile axis, pinned-trace
//! colours, the default substance, the `?view=` deep link, the range and
//! profile controls, and the hourly files and date presets a view needs.

use vstd::prelude::*;
use vstd::view::View as _;

use crate::i18n::{lowercase_of, same_text, starts_with, table_of, to_lowercase, Lang};
use crate::loader::{day_number, epoch_day_of, max_day, min_day};
use crate::types::{is_diurnal, slug_of, view_of_slug, Interval, Profile, View};

verus! {

/// Fixed anchor of the synthetic profile axes, as a timestamp: Monday
/// 2001-01-01 at UTC midnight. Diurnal profiles lay points at `anchor + h`
/// hours, the weekly profile at `anchor + d` days.
pub fn profile_anchor() -> (r: i64)
    ensures
        r == day_number(2001, 1, 1) * 86400,
{
    let d = epoch_day_of(2001, 1, 1);
    d as i64 * 86400
}

/// Most pinned traces held at once (with the live one the chart never draws
/// more than five).
pub const MAX_PINS: usize = 4;

/// The x-axis basis of each profile selection.
pub open spec fn axis_of(p: Option<Profile>) -> u8 {
    match p {
        None => 0,
        Some(Profile::Weekday) | Some(Profile::Weekend) => 1,
        Some(Profile::Weekly) => 2,
    }
}

/// X-axis basis of the chart for a profile selection: ordinary time (0), the
/// 24-hour diurnal base (1) or the 7-day weekly base (2). Traces on different
/// bases cannot share an axis.
pub fn axis_kind(p: Option<Profile>) -> (r: u8)
    ensures
        r == axis_of(p),
{
    match p {
        None => 0,
        Some(Profile::Weekday) | Some(Profile::Weekend) => 1,
        Some(Profile::Weekly) => 2,
    }
}

/// The pinned-trace palette, in assignment order: orange, green, magenta,
/// gold.
pub open spec fn palette() -> Seq<&'static str> {
    seq!["#ff9f43", "#2ecc71", "#e06cf0", "#f5d442"]
}

/// The pinned-trace palette.
pub fn pin_colors() -> (r: &'static [&'static str])
    ensures
        r@ == palette(),
{
    &["#ff9f43", "#2ecc71", "#e06cf0", "#f5d442"]
}

/// The characters of each string of a list.
pub open spec fn texts(s: Seq<String>) -> Seq<Seq<char>> {
    s.map_values(|x: String| x@)
}

/// Index of the first palette colour, from `i` on, that no pin uses; the
/// palette's length when there is none.
pub open spec fn first_free_from(used: Seq<Seq<char>>, i: nat) -> nat
    decreases 4 - i,
{
    if i >= 4 {
        4
    } else if !used.contains(palette()[i as int]@) {
        i
    } else {
        first_free_from(used, i + 1)
    }
}

/// The colour for a new pin: the first palette colour no pin uses, or the
/// first colour when all are taken.
pub open spec fn free_color(used: Seq<Seq<char>>) -> &'static str {
    let i = first_free_from(used, 0);
    if i < 4 {
        palette()[i as int]
    } else {
        palette()[0]
    }
}

/// Whether some entry of `s` holds the characters `c`.
fn any_is(s: &[String], c: &str) -> (r: bool)
    ensures
        r == texts(s@).contains(c@),
{
    let mut i: usize = 0;
    while i < s.len()
        invariant
            i <= s@.len(),
            forall|j: int| 0 <= j < i ==> s@[j]@ != c@,
        decreases s@.len() - i,
    {
        if same_text(s[i].as_str(), c) {
            proof {
                assert(texts(s@)[i as int] == c@);
            }
            return true;
        }
        i += 1;
    }
    proof {
        if texts(s@).contains(c@) {
            let j = choose|j: int| 0 <= j < texts(s@).len() && texts(s@)[j] == c@;
            assert(s@[j]@ == c@);
        }
    }
    false
}

/// A frozen copy of the live trace, kept on the chart while the controls are
/// reconfigured into further traces: its palette colour, the substance it
/// plots, the x-axis basis it was built on (see [`axis_kind`]), whether its
/// readings are hourly, and the trace itself (`series`, which the chart draws).
pub struct PinnedTrace<S> {
    pub series: S,
    pub color: &'static str,
    pub substance: String,
    pub axis: u8,
    pub hourly: bool,
}

/// The colours of a list of pins.
pub open spec fn colors_of<S>(pins: Seq<PinnedTrace<S>>) -> Seq<Seq<char>> {
    pins.map_values(|p: PinnedTrace<S>| p.color@)
}

/// The invariant of the pin list: at most [`MAX_PINS`] pins, no two of the
/// same colour.
pub open spec fn pins_ok<S>(pins: Seq<PinnedTrace<S>>) -> bool {
    pins.len() <= MAX_PINS && colors_of(pins).no_duplicates()
}

/// Whether some pin has the colour `c`.
fn color_used<S>(pins: &[PinnedTrace<S>], c: &str) -> (r: bool)
    ensures
        r == colors_of(pins@).contains(c@),
{
    let mut i: usize = 0;
    while i < pins.len()
        invariant
            i <= pins@.len(),
            forall|j: int| 0 <= j < i ==> pins@[j].color@ != c@,
        decreases pins@.len() - i,
    {
        if same_text(pins[i].color, c) {
            proof {
                assert(colors_of(pins@)[i as int] == c@);
            }
            return true;
        }
        i += 1;
    }
    proof {
        if colors_of(pins@).contains(c@) {
            let j = choose|j: int| 0 <= j < colors_of(pins@).len() && colors_of(pins@)[j] == c@;
            assert(pins@[j].color@ == c@);
        }
    }
    false
}

/// First palette colour not used by an existing pin (pins can be removed in
/// any order, so gaps are recycled rather than an index cycled).
pub fn next_pin_color<S>(pins: &[PinnedTrace<S>]) -> (r: &'static str)
    ensures
        r == free_color(colors_of(pins@)),
{
    let pal = pin_colors();
    let mut i: usize = 0;
    while i < pal.len()
        invariant
            pal@ == palette(),
            i <= 4,
            first_free_from(colors_of(pins@), 0) == first_free_from(colors_of(pins@), i as nat),
        decreases 4 - i,
    {
        if !color_used(pins, pal[i]) {
            return pal[i];
        }
        i += 1;
    }
    pal[0]
}

/// Whether the live trace can be pinned: there is one, and fewer than
/// [`MAX_PINS`] pins.
pub fn can_pin<S>(pins: &[PinnedTrace<S>], live_present: bool) -> (r: bool)
    ensures
        r == (live_present && pins@.len() < MAX_PINS),
{
    live_present && pins.len() < MAX_PINS
}

/// Pins the live trace (`None` when the chart shows none): nothing happens
/// without one or with [`MAX_PINS`] pins already; else it is added last, in
/// the first free palette colour, with the basis of the current profile
/// selection and hourly when pinned on the ordinary axis under the Hour
/// interval. The pin list's invariant holds after every pin.
pub fn pin_live<S>(
    pins: &mut Vec<PinnedTrace<S>>,
    live: Option<S>,
    substance: String,
    profile: Option<Profile>,
    interval: Interval,
)
    ensures
        (live is None || old(pins)@.len() >= MAX_PINS) ==> final(pins)@ == old(pins)@,
        live is Some && old(pins)@.len() < MAX_PINS ==> final(pins)@ == old(pins)@.push(
            (PinnedTrace {
                series: live->0,
                color: free_color(colors_of(old(pins)@)),
                substance,
                axis: axis_of(profile),
                hourly: axis_of(profile) == 0 && interval == Interval::Hour,
            }),
        ),
        pins_ok(old(pins)@) ==> pins_ok(final(pins)@),
{
    let series = match live {
        Some(s) => s,
        None => return,
    };
    if pins.len() >= MAX_PINS {
        return;
    }
    let color = next_pin_color(pins.as_slice());
    let axis = axis_kind(profile);
    let hourly = axis == 0 && interval == Interval::Hour;
    let ghost before = pins@;
    pins.push(PinnedTrace { series, color, substance, axis, hourly });
    proof {
        assert(colors_of(pins@) =~= colors_of(before).push(color@));
        if pins_ok(before) {
            lemma_new_pin_color_is_free(colors_of(before));
            let cs = colors_of(pins@);
            assert forall|i: int, j: int| 0 <= i < cs.len() && 0 <= j < cs.len() && i != j implies cs[i]
                != cs[j] by {
                if i < before.len() && j < before.len() {
                    assert(colors_of(before)[i] != colors_of(before)[j]);
                } else if i < before.len() {
                    assert(colors_of(before).contains(cs[i]));
                } else if j < before.len() {
                    assert(colors_of(before).contains(cs[j]));
                }
            }
        }
    }
}

/// Removes the pin at `idx` (a sidebar chip), if there is one. The pin list's
/// invariant holds after every removal.
pub fn unpin<S>(pins: &mut Vec<PinnedTrace<S>>, idx: usize)
    ensures
        final(pins)@ == (if idx < old(pins)@.len() { old(pins)@.remove(idx as int) } else { old(pins)@ }),
        pins_ok(old(pins)@) ==> pins_ok(final(pins)@),
{
    if idx < pins.len() {
        let ghost before = pins@;
        pins.remove(idx);
        proof {
            let cb = colors_of(before);
            let ca = colors_of(pins@);
            assert(ca =~= cb.remove(idx as int));
            if pins_ok(before) {
                assert forall|i: int, j: int| 0 <= i < ca.len() && 0 <= j < ca.len() && i != j implies ca[i]
                    != ca[j] by {
                    let bi = if i < idx { i } else { i + 1 };
                    let bj = if j < idx { j } else { j + 1 };
                    assert(ca[i] == cb[bi]);
                    assert(ca[j] == cb[bj]);
                }
            }
        }
    }
}

/// Traces on different x-axis bases cannot overlay: when some pin was built
/// on another basis than the current profile selection's, every pin goes.
pub fn drop_pins_off_axis<S>(pins: &mut Vec<PinnedTrace<S>>, profile: Option<Profile>)
    ensures
        final(pins)@ == (if exists|i: int| 0 <= i < old(pins)@.len() && #[trigger] old(pins)@[i].axis != axis_of(profile) {
            Seq::empty()
        } else {
            old(pins)@
        }),
        pins_ok(old(pins)@) ==> pins_ok(final(pins)@),
{
    let kind = axis_kind(profile);
    let mut i: usize = 0;
    while i < pins.len()
        invariant
            kind == axis_of(profile),
            pins@ == old(pins)@,
            i <= pins@.len(),
            forall|j: int| 0 <= j < i ==> #[trigger] pins@[j].axis == kind,
        decreases pins@.len() - i,
    {
        if pins[i].axis != kind {
            assert(old(pins)@[i as int].axis != axis_of(profile));
            pins.clear();
            proof {
                assert(colors_of(pins@) =~= Seq::<Seq<char>>::empty());
            }
            return;
        }
        i += 1;
    }
}

/// Whether the chart compares substances (some pin plots another substance
/// than the live trace), which puts it on a normalized axis.
pub fn compares_substances<S>(pins: &[PinnedTrace<S>], live_substance: &str) -> (r: bool)
    ensures
        r == exists|i: int| 0 <= i < pins@.len() && #[trigger] pins@[i].substance@ != live_substance@,
{
    let mut i: usize = 0;
    while i < pins.len()
        invariant
            i <= pins@.len(),
            forall|j: int| 0 <= j < i ==> #[trigger] pins@[j].substance@ == live_substance@,
        decreases pins@.len() - i,
    {
        if !same_text(pins[i].substance.as_str(), live_substance) {
            assert(pins@[i as int].substance@ != live_substance@);
            return true;
        }
        i += 1;
    }
    false
}

/// The empty pin list, which the chart starts with, meets the invariant.
pub proof fn lemma_no_pins_ok<S>()
    ensures
        pins_ok(Seq::<PinnedTrace<S>>::empty()),
{
    assert(colors_of(Seq::<PinnedTrace<S>>::empty()) =~= Seq::<Seq<char>>::empty());
}

/// The palette colours are distinct.
proof fn lemma_palette_distinct()
    ensures
        palette().map_values(|c: &'static str| c@).no_duplicates(),
{
    reveal_strlit("#ff9f43");
    reveal_strlit("#2ecc71");
    reveal_strlit("#e06cf0");
    reveal_strlit("#f5d442");
    let p = palette().map_values(|c: &'static str| c@);
    assert(p[0][1] == 'f' && p[1][1] == '2' && p[2][1] == 'e' && p[3][1] == 'f');
    assert(p[0][2] == 'f' && p[3][2] == '5');
}

/// While fewer pins than the palette has colours exist, a new pin gets a
/// colour no existing pin has, so the pinned traces never share a colour.
pub proof fn lemma_new_pin_color_is_free(used: Seq<Seq<char>>)
    requires
        used.len() < 4,
    ensures
        !used.contains(free_color(used)@),
{
    lemma_palette_distinct();
    let p = palette().map_values(|c: &'static str| c@);
    let i = first_free_from(used, 0);
    lemma_first_free(used, 0);
    if i >= 4 {
        // every palette colour is in use: four distinct values in fewer than
        // four entries
        assert(p.to_set().subset_of(used.to_set()));
        p.unique_seq_to_set();
        used.lemma_cardinality_of_set();
        vstd::set_lib::lemma_len_subset(p.to_set(), used.to_set());
        assert(false);
    }
}

/// `first_free_from` is a colour no pin uses, and every palette colour before
/// it is in use.
proof fn lemma_first_free(used: Seq<Seq<char>>, i: nat)
    requires
        i <= 4,
    ensures
        first_free_from(used, i) < 4 ==> !used.contains(palette()[first_free_from(used, i) as int]@),
        first_free_from(used, i) >= 4 ==> forall|j: int| i <= j < 4 ==> used.contains(#[trigger] palette()[j]@),
    decreases 4 - i,
{
    if i < 4 {
        lemma_first_free(used, i + 1);
    }
}

/// The default among the options, by their characters.
pub open spec fn default_of(opts: Seq<Seq<char>>) -> Seq<char> {
    if opts.contains("NO"@) {
        "NO"@
    } else if opts.contains("PM2.5"@) {
        "PM2.5"@
    } else if opts.len() > 0 {
        opts[0]
    } else {
        Seq::empty()
    }
}

/// Preferred default substance when the current one is unavailable: NO (a
/// primary, traffic-emitted pollutant that stays localized near sources), then
/// PM2.5 (measured everywhere), then the first available option.
pub fn default_substance(opts: &[String]) -> (r: String)
    ensures
        r@ == default_of(texts(opts@)),
{
    if any_is(opts, "NO") {
        return "NO".to_owned();
    }
    if any_is(opts, "PM2.5") {
        return "PM2.5".to_owned();
    }
    if opts.len() > 0 {
        return opts[0].clone();
    }
    String::new()
}

/// A query string without its leading `?` characters.
pub open spec fn trim_question(s: Seq<char>) -> Seq<char>
    decreases s.len(),
{
    if s.len() > 0 && s[0] == '?' {
        trim_question(s.drop_first())
    } else {
        s
    }
}

/// Position of the first `&` in `s`, or its length when there is none.
pub open spec fn amp_at(s: Seq<char>) -> int
    decreases s.len(),
{
    if s.len() == 0 {
        0
    } else if s[0] == '&' {
        0
    } else {
        1 + amp_at(s.drop_first())
    }
}

/// The view named by a `key=value` pair, when the key is `view` and the value
/// a known slug.
pub open spec fn view_of_pair(pair: Seq<char>) -> Option<View> {
    if starts_with(pair, "view="@) {
        view_of_slug(pair.skip(5))
    } else {
        None
    }
}

/// The view named by the first `&`-separated pair of `s` that names one.
pub open spec fn first_view(s: Seq<char>) -> Option<View>
    decreases s.len(),
{
    let k = amp_at(s);
    if k < 0 || k > s.len() {
        None
    } else if view_of_pair(s.take(k)) is Some {
        view_of_pair(s.take(k))
    } else if k >= s.len() {
        None
    } else {
        first_view(s.skip(k + 1))
    }
}

/// The view a query string names: the first `view=<slug>` pair with a known
/// slug, after the leading `?`.
pub open spec fn view_of_query(q: Seq<char>) -> Option<View> {
    first_view(trim_question(q))
}

proof fn lemma_amp_is(s: Seq<char>, k: int)
    requires
        0 <= k <= s.len(),
        k < s.len() ==> s[k] == '&',
        forall|q: int| 0 <= q < k ==> s[q] != '&',
    ensures
        amp_at(s) == k,
    decreases s.len(),
{
    if s.len() > 0 && s[0] != '&' {
        assert forall|q: int| 0 <= q < k - 1 implies s.drop_first()[q] != '&' by {
            assert(s.drop_first()[q] == s[q + 1]);
        }
        lemma_amp_is(s.drop_first(), k - 1);
    }
}

/// Reads the view from a query string such as `?view=<slug>`. `None` when the
/// parameter is absent or its slug unknown.
pub fn view_from_query(search: &str) -> (r: Option<View>)
    ensures
        r == view_of_query(search@),
{
    let n = search.unicode_len();
    let ghost s = search@;
    let mut start: usize = 0;
    proof {
        assert(s.skip(0) =~= s);
    }
    while start < n && search.get_char(start) == '?'
        invariant
            s == search@,
            n == s.len(),
            start <= n,
            trim_question(s) == trim_question(s.skip(start as int)),
        decreases n - start,
    {
        proof {
            assert(s.skip(start as int).drop_first() =~= s.skip(start + 1));
        }
        start += 1;
    }
    proof {
        reveal_strlit("view=");
    }
    let mut p: usize = start;
    proof {
        if start < n {
            assert(s.skip(start as int)[0] == s[start as int]);
        }
        assert(trim_question(s.skip(start as int)) == s.skip(start as int));
    }
    loop
        invariant
            s == search@,
            n == s.len(),
            p <= n,
            view_of_query(s) == first_view(s.skip(p as int)),
        decreases n - p,
    {
        let mut e: usize = p;
        while e < n && search.get_char(e) != '&'
            invariant
                s == search@,
                n == s.len(),
                p <= e <= n,
                forall|q: int| p <= q < e ==> s[q] != '&',
            decreases n - e,
        {
            e += 1;
        }
        let ghost rest = s.skip(p as int);
        proof {
            lemma_amp_is(rest, e - p);
            assert(rest.take(e - p) =~= s.subrange(p as int, e as int));
        }
        let mut found: Option<View> = None;
        if e - p >= 5 && search.get_char(p) == 'v' && search.get_char(p + 1) == 'i'
            && search.get_char(p + 2) == 'e' && search.get_char(p + 3) == 'w'
            && search.get_char(p + 4) == '=' {
            let slug = search.substring_char(p + 5, e);
            found = View::from_slug(slug);
            proof {
                reveal_strlit("view=");
                let pair = s.subrange(p as int, e as int);
                assert(pair.subrange(0, 5) =~= "view="@);
                assert(pair.skip(5) =~= slug@);
            }
        } else {
            proof {
                reveal_strlit("view=");
                let pair = s.subrange(p as int, e as int);
                if starts_with(pair, "view="@) {
                    assert(pair.subrange(0, 5)[0] == 'v');
                    assert(pair.subrange(0, 5)[1] == 'i');
                    assert(pair.subrange(0, 5)[2] == 'e');
                    assert(pair.subrange(0, 5)[3] == 'w');
                    assert(pair.subrange(0, 5)[4] == '=');
                }
            }
        }
        if found.is_some() {
            return found;
        }
        if e >= n {
            return None;
        }
        proof {
            assert(rest.skip(e - p + 1) =~= s.skip(e + 1));
        }
        p = e + 1;
    }
}

/// A click on a view's tab: `None` when that view is already active (nothing
/// changes and no history entry is made), else the view to switch to, which
/// gets one history entry.
pub fn view_switch(current: View, clicked: View) -> (r: Option<View>)
    ensures
        r == (if current == clicked { None } else { Some(clicked) }),
{
    if current == clicked {
        None
    } else {
        Some(clicked)
    }
}

/// The query string that records a view.
pub fn view_query(v: View) -> (r: String)
    ensures
        r@ == "?view="@ + slug_of(v),
{
    let mut q = "?view=".to_owned();
    q.append(v.slug());
    q
}

/// Reading back the query string recorded for a view gives that view, so a
/// shared address or a step through the history opens the same tab.
pub proof fn lemma_view_query_round_trip(v: View)
    ensures
        view_of_query("?view="@ + slug_of(v)) == Some(v),
{
    reveal_strlit("?view=");
    reveal_strlit("view=");
    crate::types::lemma_slug_round_trip(v);
    let q = "?view="@ + slug_of(v);
    let body = "view="@ + slug_of(v);
    assert(q.drop_first() =~= body);
    assert(trim_question(q) == trim_question(body));
    crate::types::lemma_slug_chars(v);
    assert(body[0] == 'v');
    assert(trim_question(body) == body);
    assert forall|i: int| 0 <= i < body.len() implies body[i] != '&' by {
        if i >= 5 {
            assert(body[i] == slug_of(v)[i - 5]);
        }
    }
    lemma_amp_is(body, body.len() as int);
    assert(body.take(body.len() as int) =~= body);
    assert(body.subrange(0, 5) =~= "view="@);
    assert(body.skip(5) =~= slug_of(v));
}

/// A range `(from, to)` after its start is set to `from`: the end moves up to
/// `from` when it was earlier, so the range never runs backwards.
pub fn range_with_start(range: (i64, i64), from: i64) -> (r: (i64, i64))
    ensures
        r.0 == from,
        r.1 == (if range.1 < from { from } else { range.1 }),
        r.0 <= r.1,
{
    if range.1 < from {
        (from, from)
    } else {
        (from, range.1)
    }
}

/// A range `(from, to)` after its end is set to `to`: the start moves down to
/// `to` when it was later, so the range never runs backwards.
pub fn range_with_end(range: (i64, i64), to: i64) -> (r: (i64, i64))
    ensures
        r.1 == to,
        r.0 == (if range.0 > to { to } else { range.0 }),
        r.0 <= r.1,
{
    if range.0 > to {
        (to, to)
    } else {
        (range.0, to)
    }
}

/// The profile after its button is clicked: the active profile turns off,
/// any other one turns on.
pub fn toggle_profile(current: Option<Profile>, clicked: Profile) -> (r: Option<Profile>)
    ensures
        r == (if current == Some(clicked) { None } else { Some(clicked) }),
{
    match current {
        Some(p) if p == clicked => None,
        _ => Some(clicked),
    }
}

/// Fewest days a date range must span for an interval's buckets to make a
/// chart: two weeks, two months, or more than a year.
pub open spec fn min_span_days(interval: Interval) -> int {
    match interval {
        Interval::Hour | Interval::Day => 0,
        Interval::Week => 14,
        Interval::Month => 60,
        Interval::Year => 400,
    }
}

/// Whether a date preset from day `from` to day `to` is too short for the
/// interval, so its button is disabled.
pub fn preset_too_short(interval: Interval, from: i64, to: i64) -> (r: bool)
    ensures
        r == (to - from < min_span_days(interval)),
{
    let min_days: i64 = match interval {
        Interval::Hour | Interval::Day => 0,
        Interval::Week => 14,
        Interval::Month => 60,
        Interval::Year => 400,
    };
    (to as i128) - (from as i128) < min_days as i128
}

/// Most hourly station-year files read for one range: a longer range loads
/// only its newest years.
pub const MAX_HOURLY_YEARS: usize = 3;

/// The years from `lo` to `hi`, in order, that the archive has.
pub open spec fn available_years(lo: int, hi: int, avail: Seq<i32>) -> Seq<i32>
    decreases hi - lo + 1,
{
    if hi < lo {
        Seq::empty()
    } else {
        let rest = available_years(lo, hi - 1, avail);
        if avail.contains(hi as i32) {
            rest.push(hi as i32)
        } else {
            rest
        }
    }
}

/// The newest `MAX_HOURLY_YEARS` of a list of years, or all of them.
pub open spec fn newest_years(ys: Seq<i32>) -> Seq<i32> {
    if ys.len() > MAX_HOURLY_YEARS {
        ys.skip(ys.len() - MAX_HOURLY_YEARS)
    } else {
        ys
    }
}

/// Whether the year `y` is in `avail`.
fn has_year(avail: &[i32], y: i32) -> (r: bool)
    ensures
        r == avail@.contains(y),
{
    let mut i: usize = 0;
    while i < avail.len()
        invariant
            i <= avail@.len(),
            forall|j: int| 0 <= j < i ==> avail@[j] != y,
        decreases avail@.len() - i,
    {
        if avail[i] == y {
            return true;
        }
        i += 1;
    }
    false
}

/// Years of hourly files to load for a range from year `lo` to year `hi`:
/// those the archive has (`avail`), in order, bounded to the newest
/// [`MAX_HOURLY_YEARS`].
pub fn hourly_years(lo: i32, hi: i32, avail: &[i32]) -> (r: Vec<i32>)
    ensures
        r@ == newest_years(available_years(lo as int, hi as int, avail@)),
{
    let mut ys: Vec<i32> = Vec::new();
    if lo <= hi {
        let mut y: i32 = lo;
        loop
            invariant_except_break
                lo <= y <= hi,
                ys@ == available_years(lo as int, y - 1, avail@),
            ensures
                ys@ == available_years(lo as int, hi as int, avail@),
            decreases hi - y,
        {
            if has_year(avail, y) {
                ys.push(y);
            }
            if y == hi {
                break;
            }
            y += 1;
        }
    }
    proof {
        if lo > hi {
            assert(ys@ == available_years(lo as int, hi as int, avail@));
        }
    }
    if ys.len() > MAX_HOURLY_YEARS {
        let cut = ys.len() - MAX_HOURLY_YEARS;
        let newest = ys.split_off(cut);
        return newest;
    }
    ys
}

/// Whether a diurnal profile over the years `from_year` to `to_year` reads the
/// exact hourly tier (the range spans at most [`MAX_HOURLY_YEARS`] years)
/// rather than the precomputed profile tier.
pub fn diurnal_uses_hourly(from_year: i32, to_year: i32) -> (r: bool)
    ensures
        r == (0 <= to_year - from_year + 1 <= MAX_HOURLY_YEARS),
{
    let span: i64 = to_year as i64 - from_year as i64 + 1;
    0 <= span && span <= 3
}

/// Without a profile, the chart reads hourly files for the Hour interval
/// only; Day and every coarser interval read the daily tier over any range.
/// The Weekly profile reads the daily tier; a diurnal profile reads hourly
/// files over at most [`MAX_HOURLY_YEARS`] years, else the per-year bins.
pub proof fn lemma_tiers(iv: Interval, from_year: int, to_year: int)
    ensures
        tier_of(None, iv, from_year, to_year) == ChartTier::Hourly <==> iv == Interval::Hour,
        iv != Interval::Hour ==> tier_of(None, iv, from_year, to_year) == ChartTier::Daily,
        tier_of(Some(Profile::Weekly), iv, from_year, to_year) == ChartTier::Daily,
        tier_of(Some(Profile::Weekday), iv, from_year, to_year) == ChartTier::Hourly <==> 0 <= to_year - from_year + 1 <= 3,
        tier_of(Some(Profile::Weekend), iv, from_year, to_year) != ChartTier::Daily,
{
}

/// The data tier the time-series chart reads.
#[derive(Debug, Clone, Copy, PartialEq, Eq, Structural)]
pub enum ChartTier {
    /// Hourly station-year files.
    Hourly,
    /// One daily file per station.
    Daily,
    /// Precomputed per-year diurnal bins.
    ProfileBins,
}

/// The tier each selection reads: a diurnal profile over at most
/// [`MAX_HOURLY_YEARS`] years, or the Hour interval, reads hourly files; a
/// longer diurnal profile reads the per-year bins; everything else the daily
/// tier.
pub open spec fn tier_of(profile: Option<Profile>, interval: Interval, from_year: int, to_year: int) -> ChartTier {
    match profile {
        Some(p) => if is_diurnal(p) {
            if 0 <= to_year - from_year + 1 <= MAX_HOURLY_YEARS {
                ChartTier::Hourly
            } else {
                ChartTier::ProfileBins
            }
        } else {
            ChartTier::Daily
        },
        None => if interval == Interval::Hour {
            ChartTier::Hourly
        } else {
            ChartTier::Daily
        },
    }
}

/// Which tier the time-series chart reads for a profile selection, an
/// interval and a range from year `from_year` to year `to_year`.
pub fn chart_tier(profile: Option<Profile>, interval: Interval, from_year: i32, to_year: i32) -> (r: ChartTier)
    ensures
        r == tier_of(profile, interval, from_year as int, to_year as int),
{
    match profile {
        Some(p) => if p.needs_hourly() {
            if diurnal_uses_hourly(from_year, to_year) {
                ChartTier::Hourly
            } else {
                ChartTier::ProfileBins
            }
        } else {
            ChartTier::Daily
        },
        None => if interval == Interval::Hour {
            ChartTier::Hourly
        } else {
            ChartTier::Daily
        },
    }
}

/// The interval a pinned ordinary trace is re-bucketed to: the live interval,
/// except that a trace pinned from daily readings cannot follow the Hour
/// interval and stays daily.
pub fn pin_interval(live: Interval, hourly_readings: bool) -> (r: Interval)
    ensures
        r == (if live == Interval::Hour && !hourly_readings { Interval::Day } else { live }),
{
    if live == Interval::Hour && !hourly_readings {
        Interval::Day
    } else {
        live
    }
}

/// The step from `s[i]` to `s[i + 1]`.
pub open spec fn step(s: Seq<i64>, i: int) -> int {
    s[i + 1] - s[i]
}

/// Whether the step from `s[i]` to `s[i + 1]` is a gap wider than `min_gap`.
pub open spec fn is_gap(s: Seq<i64>, i: int, min_gap: int) -> bool {
    0 <= i && i + 1 < s.len() && s[i + 1] - s[i] > min_gap
}

/// How many steps among the first `n` of `s` are gaps.
pub open spec fn gaps_before(s: Seq<i64>, min_gap: int, n: int) -> nat
    decreases n,
{
    if n <= 0 {
        0
    } else {
        gaps_before(s, min_gap, n - 1) + (if is_gap(s, n - 1, min_gap) { 1nat } else { 0nat })
    }
}

/// Whether step `i` is the widest gap of `s`, and the first of that width.
pub open spec fn is_widest_gap(s: Seq<i64>, min_gap: int, i: int) -> bool {
    &&& is_gap(s, i, min_gap)
    &&& forall|j: int| #[trigger] is_gap(s, j, min_gap) ==> s[j + 1] - s[j] <= s[i + 1] - s[i]
    &&& forall|j: int| 0 <= j < i && #[trigger] is_gap(s, j, min_gap) ==> s[j + 1] - s[j] < s[i + 1] - s[i]
}

/// Counts the gaps wider than `min_gap` between consecutive values of `s`
/// (coverage notes use it on reading times and on years), and gives the ends of
/// the widest one, the first such when several are as wide.
pub fn gap_summary(s: &[i64], min_gap: i64) -> (r: (u32, Option<(i64, i64)>))
    requires
        s@.len() <= u32::MAX,
        forall|i: int| 0 <= i < s@.len() - 1 ==> i64::MIN <= #[trigger] step(s@, i) <= i64::MAX,
    ensures
        r.0 == gaps_before(s@, min_gap as int, s@.len() - 1),
        r.1 is None <==> r.0 == 0,
        r.1 matches Some((a, b)) ==> exists|i: int|
            is_widest_gap(s@, min_gap as int, i) && a == s@[i] && b == s@[i + 1],
{
    let n = s.len();
    let mut count: u32 = 0;
    let mut best: Option<(i64, i64)> = None;
    let ghost mut best_at: int = 0;
    if n < 2 {
        return (0, None);
    }
    let mut i: usize = 0;
    while i + 1 < n
        invariant
            n == s@.len(),
            n >= 2,
            i + 1 <= n,
            n <= u32::MAX,
            forall|q: int| 0 <= q < s@.len() - 1 ==> i64::MIN <= #[trigger] step(s@, q) <= i64::MAX,
            count == gaps_before(s@, min_gap as int, i as int),
            count <= i,
            best is None <==> count == 0,
            best matches Some((a, b)) ==> {
                &&& 0 <= best_at < i
                &&& is_gap(s@, best_at, min_gap as int)
                &&& a == s@[best_at] && b == s@[best_at + 1]
                &&& forall|j: int| 0 <= j < i && #[trigger] is_gap(s@, j, min_gap as int) ==> s@[j + 1]
                    - s@[j] <= b - a
                &&& forall|j: int| 0 <= j < best_at && #[trigger] is_gap(s@, j, min_gap as int) ==> s@[j
                    + 1] - s@[j] < b - a
            },
            best is None ==> forall|j: int| 0 <= j < i ==> !#[trigger] is_gap(s@, j, min_gap as int),
        decreases n - i,
    {
        proof {
            assert(i64::MIN <= step(s@, i as int) <= i64::MAX);
            if best is Some {
                assert(i64::MIN <= step(s@, best_at) <= i64::MAX);
            }
        }
        let width = s[i + 1] - s[i];
        if width > min_gap {
            count += 1;
            let replace = match best {
                None => true,
                Some((a, b)) => width > b - a,
            };
            if replace {
                best = Some((s[i], s[i + 1]));
                proof {
                    best_at = i as int;
                }
            }
        }
        proof {
            assert(is_gap(s@, i as int, min_gap as int) == (width > min_gap));
        }
        i += 1;
    }
    proof {
        if let Some((a, b)) = best {
            assert(is_widest_gap(s@, min_gap as int, best_at));
        }
    }
    (count, best)
}

/// The label of each view, as the document title shows it.
pub open spec fn view_label_of(v: View, lang: Lang) -> &'static str {
    match v {
        View::MapView => table_of(lang).view_map,
        View::Series => table_of(lang).view_series,
        View::Network => table_of(lang).view_network,
        View::Methods => table_of(lang).view_methods,
        View::Limits => table_of(lang).view_limits,
        View::Links => table_of(lang).view_links,
    }
}

/// The browser tab title for a view: `AirQualityMTL — <view label>`.
pub fn document_title(v: View, lang: Lang) -> (r: String)
    ensures
        r@ == "AirQualityMTL — "@ + view_label_of(v, lang)@,
{
    let t = lang.t();
    let label = match v {
        View::MapView => t.view_map,
        View::Series => t.view_series,
        View::Network => t.view_network,
        View::Methods => t.view_methods,
        View::Limits => t.view_limits,
        View::Links => t.view_links,
    };
    let mut title = "AirQualityMTL — ".to_owned();
    title.append(label);
    title
}

/// The substances a view offers: the selected station's own substances in the
/// time-series view (when a station is selected and known), else every
/// substance of the archive.
pub fn substance_options(v: View, all: Vec<String>, station_substances: Option<Vec<String>>) -> (r: Vec<String>)
    ensures
        r@ == (match (v, station_substances) {
            (View::Series, Some(own)) => own@,
            _ => all@,
        }),
{
    match (v, station_substances) {
        (View::Series, Some(own)) => own,
        _ => all,
    }
}

/// The substance to switch to when the options change: none while there are
/// no options or the current one is still offered, else the default among the
/// options.
pub fn substance_after_change(current: &str, opts: &[String]) -> (r: Option<String>)
    ensures
        r matches Some(x) ==> x@ == default_of(texts(opts@)),
        r is None <==> (opts@.len() == 0 || texts(opts@).contains(current@)),
{
    if opts.len() == 0 || any_is(opts, current) {
        None
    } else {
        Some(default_substance(opts))
    }
}

/// The label of a profile in a language.
pub open spec fn profile_label_of(p: Profile, lang: Lang) -> &'static str {
    match p {
        Profile::Weekday => table_of(lang).prof_weekday,
        Profile::Weekend => table_of(lang).prof_weekend,
        Profile::Weekly => table_of(lang).prof_weekly,
    }
}

/// The label of an interval in a language.
pub open spec fn interval_label_of(iv: Interval, lang: Lang) -> &'static str {
    match iv {
        Interval::Hour => table_of(lang).hour,
        Interval::Day => table_of(lang).day,
        Interval::Week => table_of(lang).week,
        Interval::Month => table_of(lang).month,
        Interval::Year => table_of(lang).year,
    }
}

/// The aggregation slot of the chart caption: the active profile's label
/// followed by the word "profile" in lowercase, else the interval's label.
pub fn caption_mode(lang: Lang, profile: Option<Profile>, interval: Interval) -> (r: String)
    ensures
        r@ == (match profile {
            Some(p) => profile_label_of(p, lang)@ + " "@ + lowercase_of(table_of(lang).profile@),
            None => interval_label_of(interval, lang)@,
        }),
{
    match profile {
        Some(p) => {
            let mut r = p.label(lang).to_owned();
            r.append(" ");
            let word = to_lowercase(lang.t().profile);
            r.append(word.as_str());
            r
        },
        None => interval.label(lang).to_owned(),
    }
}

/// The self-describing chart caption: station, substance label and
/// aggregation slot, then the plotted span `from → to`, which is left out
/// while traces are compared (each legend row carries its own span).
pub fn chart_caption(station: &str, substance_label: &str, mode: &str, comparing: bool, from: &str, to: &str) -> (r: String)
    ensures
        r@ == station@ + " · "@ + substance_label@ + " · "@ + mode@ + (if comparing {
            Seq::empty()
        } else {
            " · "@ + from@ + " → "@ + to@
        }),
{
    let mut r = station.to_owned();
    r.append(" · ");
    r.append(substance_label);
    r.append(" · ");
    r.append(mode);
    if !comparing {
        r.append(" · ");
        r.append(from);
        r.append(" → ");
        r.append(to);
    }
    proof {
        if comparing {
            assert(r@ =~= station@ + " · "@ + substance_label@ + " · "@ + mode@ + Seq::<char>::empty());
        } else {
            assert(r@ =~= station@ + " · "@ + substance_label@ + " · "@ + mode@ + (" · "@ + from@ + " → "@
                + to@));
        }
    }
    r
}

/// The legend label of the live trace: `station — substance`, followed by the
/// profile's label in brackets when a profile is active.
pub fn series_label(station: &str, substance_name: &str, profile_label: Option<&str>) -> (r: String)
    ensures
        r@ == station@ + " — "@ + substance_name@ + (match profile_label {
            Some(p) => " ("@ + p@ + ")"@,
            None => Seq::empty(),
        }),
{
    let mut r = station.to_owned();
    r.append(" — ");
    r.append(substance_name);
    match profile_label {
        Some(p) => {
            r.append(" (");
            r.append(p);
            r.append(")");
            proof {
                assert(r@ =~= station@ + " — "@ + substance_name@ + (" ("@ + p@ + ")"@));
            }
        },
        None => {
            proof {
                assert(r@ =~= station@ + " — "@ + substance_name@ + Seq::<char>::empty());
            }
        },
    }
    r
}

/// A legend label stamped with the span of data behind it: `label · from → to`.
pub fn span_label(label: &str, from: &str, to: &str) -> (r: String)
    ensures
        r@ == label@ + " · "@ + from@ + " → "@ + to@,
{
    let mut r = label.to_owned();
    r.append(" · ");
    r.append(from);
    r.append(" → ");
    r.append(to);
    r
}

/// A legend label on the normalized axis, recording what 100 % means for the
/// trace: `label — 100% = max unit`, without the unit when it is empty.
pub fn normalized_label(label: &str, max_text: &str, unit: &str) -> (r: String)
    ensures
        r@ == label@ + " — 100% = "@ + max_text@ + (if unit@.len() == 0 { Seq::empty() } else { " "@ + unit@ }),
{
    let mut r = label.to_owned();
    r.append(" — 100% = ");
    r.append(max_text);
    if unit.unicode_len() > 0 {
        r.append(" ");
        r.append(unit);
        proof {
            assert(r@ =~= label@ + " — 100% = "@ + max_text@ + (" "@ + unit@));
        }
    } else {
        proof {
            assert(r@ =~= label@ + " — 100% = "@ + max_text@ + Seq::<char>::empty());
        }
    }
    r
}

/// The station the time-series view opens on: the one with the longest
/// record, the last of them when several tie (as `Iterator::max_by_key`
/// picks). `records` holds each station's id and number of years.
pub fn default_station(records: &[(u32, usize)]) -> (r: Option<u32>)
    ensures
        r is None <==> records@.len() == 0,
        r matches Some(id) ==> exists|i: int|
            {
                &&& 0 <= i < records@.len()
                &&& records@[i].0 == id
                &&& forall|j: int| 0 <= j < records@.len() ==> #[trigger] records@[j].1 <= records@[i].1
                &&& forall|j: int| i < j < records@.len() ==> #[trigger] records@[j].1 < records@[i].1
            },
{
    if records.len() == 0 {
        return None;
    }
    let mut best: usize = 0;
    let mut k: usize = 1;
    while k < records.len()
        invariant
            0 <= best < k <= records@.len(),
            forall|j: int| 0 <= j < k ==> #[trigger] records@[j].1 <= records@[best as int].1,
            forall|j: int| best < j < k ==> #[trigger] records@[j].1 < records@[best as int].1,
        decreases records@.len() - k,
    {
        if records[k].1 >= records[best].1 {
            best = k;
        }
        k += 1;
    }
    Some(records[best].0)
}

/// A preset's first day: `from`, but no earlier than the archive's first day
/// `start`.
pub open spec fn clamped_start(from: int, start: int) -> int {
    if from > start { from } else { start }
}

/// The quick date ranges for an archive spanning the calendar days `start` to
/// `end`: all years, then the last 10 years, 5 years, year and 3 months
/// (3653, 1826, 365 and 91 days back from `end`), each starting no earlier than
/// the archive. Each preset is its label and its first and last days.
pub fn date_presets(lang: Lang, start: i64, end: i64) -> (r: Vec<(&'static str, i64, i64)>)
    requires
        min_day() <= start <= max_day(),
        min_day() + 3653 <= end <= max_day(),
    ensures
        r@.len() == 5,
        r@[0] == (table_of(lang).all_years, start, end),
        r@[1].0 == table_of(lang).last_10_years && r@[1].1 == clamped_start(end - 3653, start as int),
        r@[2].0 == table_of(lang).last_5_years && r@[2].1 == clamped_start(end - 1826, start as int),
        r@[3].0 == table_of(lang).last_year && r@[3].1 == clamped_start(end - 365, start as int),
        r@[4].0 == table_of(lang).last_3_months && r@[4].1 == clamped_start(end - 91, start as int),
        forall|i: int| 1 <= i < 5 ==> (#[trigger] r@[i]).2 == end,
{
    let t = lang.t();
    let clamp = |back: i64| -> (d: i64)
        requires
            0 <= back <= 3653,
            min_day() + 3653 <= end,
        ensures
            d == clamped_start(end - back, start as int),
    {
        if end - back > start { end - back } else { start }
    };
    let mut r: Vec<(&'static str, i64, i64)> = Vec::new();
    r.push((t.all_years, start, end));
    r.push((t.last_10_years, clamp(3653), end));
    r.push((t.last_5_years, clamp(1826), end));
    r.push((t.last_year, clamp(365), end));
    r.push((t.last_3_months, clamp(91), end));
    r
}

} // verus!
