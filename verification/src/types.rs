use vstd::prelude::*;

use vstd::view::View as _;

use crate::i18n::{same_text, table_of, Lang};

verus! {

/// Day-type filter for the map: which days feed the aggregation.
#[derive(Debug, Clone, Copy, PartialEq, Eq, Structural)]
pub enum DayType {
    All,
    Weekday,
    Weekend,
}

impl DayType {
    /// Every day type, in the order the controls list them.
    pub fn all() -> (r: &'static [DayType])
        ensures
            r@ == seq![DayType::All, DayType::Weekday, DayType::Weekend],
    {
        &[DayType::All, DayType::Weekday, DayType::Weekend]
    }

    pub fn label(self, lang: Lang) -> (r: &'static str)
        ensures
            r == (match self {
                DayType::All => table_of(lang).days_all,
                DayType::Weekday => table_of(lang).prof_weekday,
                DayType::Weekend => table_of(lang).prof_weekend,
            }),
    {
        let t = lang.t();
        match self {
            DayType::All => t.days_all,
            DayType::Weekday => t.prof_weekday,
            DayType::Weekend => t.prof_weekend,
        }
    }
}

/// Which summary statistic the map paints for the selected substance.
#[derive(Debug, Clone, Copy, PartialEq, Eq, Structural)]
pub enum Stat {
    Mean,
    Median,
    Max,
    Min,
    /// Mean of each day's maximum over the selected range.
    MeanDailyMax,
}

impl Stat {
    /// Every statistic, in the order the controls list them.
    pub fn all() -> (r: &'static [Stat])
        ensures
            r@ == seq![Stat::Mean, Stat::Median, Stat::Max, Stat::Min, Stat::MeanDailyMax],
    {
        &[Stat::Mean, Stat::Median, Stat::Max, Stat::Min, Stat::MeanDailyMax]
    }

    pub fn label(self, lang: Lang) -> (r: &'static str)
        ensures
            r == (match self {
                Stat::Mean => table_of(lang).stat_mean,
                Stat::Median => table_of(lang).stat_median,
                Stat::Max => table_of(lang).stat_max,
                Stat::Min => table_of(lang).stat_min,
                Stat::MeanDailyMax => table_of(lang).stat_mean_daily_max,
            }),
    {
        let t = lang.t();
        match self {
            Stat::Mean => t.stat_mean,
            Stat::Median => t.stat_median,
            Stat::Max => t.stat_max,
            Stat::Min => t.stat_min,
            Stat::MeanDailyMax => t.stat_mean_daily_max,
        }
    }
}

/// Time-series bucket size.
#[derive(Debug, Clone, Copy, PartialEq, Eq, Structural)]
pub enum Interval {
    Hour,
    Day,
    Week,
    Month,
    Year,
}

impl Interval {
    /// Every bucket size, finest first.
    pub fn all() -> (r: &'static [Interval])
        ensures
            r@ == seq![Interval::Hour, Interval::Day, Interval::Week, Interval::Month, Interval::Year],
    {
        &[Interval::Hour, Interval::Day, Interval::Week, Interval::Month, Interval::Year]
    }

    pub fn label(self, lang: Lang) -> (r: &'static str)
        ensures
            r == (match self {
                Interval::Hour => table_of(lang).hour,
                Interval::Day => table_of(lang).day,
                Interval::Week => table_of(lang).week,
                Interval::Month => table_of(lang).month,
                Interval::Year => table_of(lang).year,
            }),
    {
        let t = lang.t();
        match self {
            Interval::Hour => t.hour,
            Interval::Day => t.day,
            Interval::Week => t.week,
            Interval::Month => t.month,
            Interval::Year => t.year,
        }
    }
}

/// Averaging profile for the time-series view: fold the selected date range onto
/// a short repeating time base. Weekday/Weekend give a 24-hour diurnal mean
/// (from hourly data); Weekly gives a 7-point day-of-week mean (from the daily
/// tier, so it spans the whole record).
#[derive(Debug, Clone, Copy, PartialEq, Eq, Structural)]
pub enum Profile {
    Weekday,
    Weekend,
    Weekly,
}

/// Whether a profile is one of the diurnal ones.
pub open spec fn is_diurnal(p: Profile) -> bool {
    p == Profile::Weekday || p == Profile::Weekend
}

impl Profile {
    /// Every profile, in the order the controls list them.
    pub fn all() -> (r: &'static [Profile])
        ensures
            r@ == seq![Profile::Weekday, Profile::Weekend, Profile::Weekly],
    {
        &[Profile::Weekday, Profile::Weekend, Profile::Weekly]
    }

    pub fn label(self, lang: Lang) -> (r: &'static str)
        ensures
            r == (match self {
                Profile::Weekday => table_of(lang).prof_weekday,
                Profile::Weekend => table_of(lang).prof_weekend,
                Profile::Weekly => table_of(lang).prof_weekly,
            }),
    {
        let t = lang.t();
        match self {
            Profile::Weekday => t.prof_weekday,
            Profile::Weekend => t.prof_weekend,
            Profile::Weekly => t.prof_weekly,
        }
    }

    /// True for the diurnal profiles, which need the hourly tier.
    pub fn needs_hourly(self) -> (r: bool)
        ensures
            r == is_diurnal(self),
    {
        match self {
            Profile::Weekday | Profile::Weekend => true,
            Profile::Weekly => false,
        }
    }
}

/// Which top-level view is active.
#[derive(Debug, Clone, Copy, PartialEq, Eq, Structural)]
pub enum View {
    /// The regional map.
    MapView,
    Series,
    /// Background on the RSQA monitoring network.
    Network,
    /// Data sources and processing methodology.
    Methods,
    /// Air-quality limits and guidelines reference.
    Limits,
    /// Curated external links for further reading.
    Links,
}

/// Whether a view is one of the read-only articles.
pub open spec fn is_article(v: View) -> bool {
    v == View::Network || v == View::Methods || v == View::Limits || v == View::Links
}

/// The URL slug of each view.
pub open spec fn slug_of(v: View) -> Seq<char> {
    match v {
        View::MapView => "map"@,
        View::Series => "series"@,
        View::Network => "sources"@,
        View::Methods => "methodology"@,
        View::Limits => "limits"@,
        View::Links => "reading"@,
    }
}

/// The view a slug names, if any.
pub open spec fn view_of_slug(s: Seq<char>) -> Option<View> {
    if s == "map"@ {
        Some(View::MapView)
    } else if s == "series"@ {
        Some(View::Series)
    } else if s == "sources"@ {
        Some(View::Network)
    } else if s == "methodology"@ {
        Some(View::Methods)
    } else if s == "limits"@ {
        Some(View::Limits)
    } else if s == "reading"@ {
        Some(View::Links)
    } else {
        None
    }
}

impl View {
    /// True for the read-only article views, which hide the filter sidebar.
    pub fn is_info(self) -> (r: bool)
        ensures
            r == is_article(self),
    {
        match self {
            View::Network | View::Methods | View::Limits | View::Links => true,
            View::MapView | View::Series => false,
        }
    }

    /// Stable URL slug for `?view=<slug>` deep links, independent of the
    /// translated display labels so saved links stay valid.
    pub fn slug(self) -> (r: &'static str)
        ensures
            r@ == slug_of(self),
    {
        match self {
            View::MapView => "map",
            View::Series => "series",
            View::Network => "sources",
            View::Methods => "methodology",
            View::Limits => "limits",
            View::Links => "reading",
        }
    }

    /// Inverse of [`slug`](Self::slug); `None` for an unknown slug.
    pub fn from_slug(s: &str) -> (r: Option<View>)
        ensures
            r == view_of_slug(s@),
    {
        if same_text(s, "map") {
            Some(View::MapView)
        } else if same_text(s, "series") {
            Some(View::Series)
        } else if same_text(s, "sources") {
            Some(View::Network)
        } else if same_text(s, "methodology") {
            Some(View::Methods)
        } else if same_text(s, "limits") {
            Some(View::Limits)
        } else if same_text(s, "reading") {
            Some(View::Links)
        } else {
            None
        }
    }
}

/// Reveals the characters of every view slug.
proof fn reveal_slugs()
    ensures
        "map"@ =~= seq!['m', 'a', 'p'],
        "series"@ =~= seq!['s', 'e', 'r', 'i', 'e', 's'],
        "sources"@ =~= seq!['s', 'o', 'u', 'r', 'c', 'e', 's'],
        "methodology"@ =~= seq!['m', 'e', 't', 'h', 'o', 'd', 'o', 'l', 'o', 'g', 'y'],
        "limits"@ =~= seq!['l', 'i', 'm', 'i', 't', 's'],
        "reading"@ =~= seq!['r', 'e', 'a', 'd', 'i', 'n', 'g'],
{
    reveal_strlit("map");
    reveal_strlit("series");
    reveal_strlit("sources");
    reveal_strlit("methodology");
    reveal_strlit("limits");
    reveal_strlit("reading");
}

/// Slugs are made of lowercase letters only.
pub proof fn lemma_slug_chars(v: View)
    ensures
        forall|i: int| 0 <= i < slug_of(v).len() ==> 'a' <= #[trigger] slug_of(v)[i] <= 'z',
{
    reveal_slugs();
}

/// Reading back a view's slug gives the view: every saved link opens the view
/// it was made for.
pub proof fn lemma_slug_round_trip(v: View)
    ensures
        view_of_slug(slug_of(v)) == Some(v),
{
    reveal_slugs();
}

/// A slug that is recognised is exactly the slug of the view it names, so no
/// two views share a slug and no other text opens a view.
pub proof fn lemma_slug_unique(s: Seq<char>, v: View)
    requires
        view_of_slug(s) == Some(v),
    ensures
        s == slug_of(v),
{
    reveal_slugs();
}

} // verus!
