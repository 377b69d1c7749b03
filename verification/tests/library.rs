use airquality_mtl::chart::{
    escape_xml_attr, escape_xml_text, gap_threshold_secs, group_thousands, line_gap_threshold, segment_starts,
};
use airquality_mtl::i18n::{en, fr, Lang};
use airquality_mtl::loader::{
    base_day, bucket_computable, bucket_key, bucket_last_day, bucket_plan, check_grid_shape, checked_bucket_plan,
    complete_cells, daily_times_from, daily_timestamps, hourly_times_from, hourly_timestamps, trim_partial_edges,
    Meta,
};
use airquality_mtl::map::{
    daily_cells_kept, daily_sample_count, day_type_ok, hour_in_window, is_weekend, map_caption, map_hourly_days,
    uses_daily_tier, IQA_KEY,
};
use airquality_mtl::series::{
    coverage_note, in_query_range, local_day_hour, montreal_local_secs, profile_bins, profile_tier_extent,
    profile_tier_years, reading_extent, CoverageTexts,
};
use airquality_mtl::pollutants::{display_label, name_of, pollutant, pollutants, unit_of};
use airquality_mtl::shell::{
    axis_kind, chart_tier, date_presets, default_substance, diurnal_uses_hourly, document_title, gap_summary,
    can_pin, caption_mode, chart_caption, compares_substances, default_station, drop_pins_off_axis, normalized_label,
    pin_live, span_label, unpin, PinnedTrace,
    hourly_years, next_pin_color, pin_colors, pin_interval, preset_too_short, profile_anchor, range_with_end,
    range_with_start, substance_after_change, substance_options, toggle_profile, view_from_query, view_query, view_switch,
    ChartTier, MAX_HOURLY_YEARS, MAX_PINS,
};
use airquality_mtl::types::{DayType, Interval, Profile, Stat, View};

const DAY: i64 = 86_400;

fn strings(xs: &[&str]) -> Vec<String> {
    xs.iter().map(|s| s.to_string()).collect()
}

// ── i18n ────────────────────────────────────────────────────────────────────

#[test]
fn lang_codes_and_labels() {
    assert_eq!(Lang::En.code(), "en");
    assert_eq!(Lang::Fr.code(), "fr");
    assert_eq!(Lang::En.short_label(), "EN");
    assert_eq!(Lang::Fr.short_label(), "FR");
    assert_eq!(Lang::STORAGE_KEY, "airquality-lang");
}

#[test]
fn lang_other_is_an_involution() {
    for l in [Lang::En, Lang::Fr] {
        assert_ne!(l.other(), l);
        assert_eq!(l.other().other(), l);
    }
}

#[test]
fn lang_tables() {
    assert_eq!(Lang::En.t().view_map, "Map");
    assert_eq!(Lang::Fr.t().view_map, "Carte");
    assert_eq!(Lang::En.t().dow[0], "Mon");
    assert_eq!(Lang::Fr.t().dow[6], "dim");
    assert_eq!(en().stat_mean_daily_max, "Mean daily max");
    assert_eq!(fr().copied_to_clipboard, "Copié !");
}

#[test]
fn lang_from_stored_preference() {
    assert_eq!(Lang::from_preferences(Some("fr"), Some("en-US")), Lang::Fr);
    assert_eq!(Lang::from_preferences(Some("en"), Some("fr-CA")), Lang::En);
}

#[test]
fn lang_from_browser_language() {
    assert_eq!(Lang::from_preferences(None, Some("fr-CA")), Lang::Fr);
    // the browser language is lowercased before the check
    assert_eq!(Lang::from_preferences(None, Some("FR")), Lang::Fr);
    assert_eq!(Lang::from_preferences(Some("de"), Some("Fr-be")), Lang::Fr);
    assert_eq!(Lang::from_preferences(None, Some("en-GB")), Lang::En);
    assert_eq!(Lang::from_preferences(None, Some("f")), Lang::En);
    assert_eq!(Lang::from_preferences(None, None), Lang::En);
    assert_eq!(Lang::from_preferences(Some("FR"), Some("")), Lang::En);
}

#[test]
fn lang_from_lowercased_browser_language() {
    assert_eq!(Lang::from_lowercase_preferences(None, Some("fr-ca")), Lang::Fr);
    assert_eq!(Lang::from_lowercase_preferences(None, Some("FR")), Lang::En);
    assert_eq!(Lang::from_lowercase_preferences(Some("en"), Some("fr")), Lang::En);
    assert_eq!(Lang::from_lowercase_preferences(Some("xx"), None), Lang::En);
}

#[test]
fn lang_store_then_restore() {
    for l in [Lang::En, Lang::Fr] {
        assert_eq!(Lang::from_preferences(Some(l.code()), Some("fr")), l);
        assert_eq!(Lang::from_preferences(Some(l.code()), Some("en")), l);
    }
}

// ── types ───────────────────────────────────────────────────────────────────

#[test]
fn enum_lists() {
    assert_eq!(DayType::all(), &[DayType::All, DayType::Weekday, DayType::Weekend]);
    assert_eq!(Stat::all().len(), 5);
    assert_eq!(Stat::all()[4], Stat::MeanDailyMax);
    assert_eq!(Interval::all(), &[Interval::Hour, Interval::Day, Interval::Week, Interval::Month, Interval::Year]);
    assert_eq!(Profile::all(), &[Profile::Weekday, Profile::Weekend, Profile::Weekly]);
}

#[test]
fn enum_labels() {
    assert_eq!(DayType::All.label(Lang::En), "All days");
    assert_eq!(DayType::Weekend.label(Lang::Fr), "Fin de semaine");
    assert_eq!(Stat::MeanDailyMax.label(Lang::Fr), "Moy. max. quotidiens");
    assert_eq!(Stat::Max.label(Lang::En), "Maximum");
    assert_eq!(Interval::Year.label(Lang::En), "Year");
    assert_eq!(Interval::Month.label(Lang::Fr), "Mois");
    assert_eq!(Profile::Weekly.label(Lang::En), "Weekly");
    assert_eq!(Profile::Weekday.label(Lang::Fr), "Semaine");
}

#[test]
fn profile_needs_hourly() {
    assert!(Profile::Weekday.needs_hourly());
    assert!(Profile::Weekend.needs_hourly());
    assert!(!Profile::Weekly.needs_hourly());
}

#[test]
fn view_is_info() {
    assert!(!View::MapView.is_info());
    assert!(!View::Series.is_info());
    assert!(View::Network.is_info());
    assert!(View::Methods.is_info());
    assert!(View::Limits.is_info());
    assert!(View::Links.is_info());
}

#[test]
fn view_slugs() {
    assert_eq!(View::MapView.slug(), "map");
    assert_eq!(View::Network.slug(), "sources");
    assert_eq!(View::Methods.slug(), "methodology");
    assert_eq!(View::Links.slug(), "reading");
    assert_eq!(View::from_slug("limits"), Some(View::Limits));
    assert_eq!(View::from_slug("network"), None);
    assert_eq!(View::from_slug(""), None);
    assert_eq!(View::from_slug("Map"), None);
}

#[test]
fn view_slug_round_trip() {
    for v in [View::MapView, View::Series, View::Network, View::Methods, View::Limits, View::Links] {
        assert_eq!(View::from_slug(v.slug()), Some(v));
    }
}

// ── pollutants ──────────────────────────────────────────────────────────────

#[test]
fn catalogue_lookup() {
    assert_eq!(pollutants().len(), 18);
    let no2 = pollutant("NO2").unwrap();
    assert_eq!(no2.name(Lang::En), "Nitrogen dioxide");
    assert_eq!(no2.name(Lang::Fr), "Dioxyde d'azote");
    assert_eq!(no2.unit, "ppb");
    assert!(pollutant("no2").is_none());
    assert!(pollutant("XYZ").is_none());
}

#[test]
fn catalogue_keys_are_unique() {
    let all = pollutants();
    for i in 0..all.len() {
        for j in 0..all.len() {
            if i != j {
                assert_ne!(all[i].key, all[j].key);
            }
        }
    }
}

#[test]
fn names_and_units() {
    assert_eq!(name_of("PM2.5", Lang::Fr), "Particules fines (PM2,5)");
    assert_eq!(name_of("FOO", Lang::En), "FOO");
    assert_eq!(unit_of("PUF"), "part/cm³");
    assert_eq!(unit_of(IQA_KEY), "");
    assert_eq!(unit_of("FOO"), "");
}

#[test]
fn display_labels() {
    assert_eq!(display_label("O3", Lang::En), "Ozone (ppb)");
    assert_eq!(display_label("PM2.5", Lang::En), "Fine particles (PM2.5) (µg/m³)");
    assert_eq!(display_label("IQA", Lang::Fr), "Indice de la qualité de l'air (IQA)");
    assert_eq!(display_label("BOGUS", Lang::En), "BOGUS");
}

// ── chart text ──────────────────────────────────────────────────────────────

#[test]
fn gap_thresholds() {
    assert_eq!(gap_threshold_secs(Interval::Hour), 7200);
    assert_eq!(gap_threshold_secs(Interval::Day), 172_800);
    assert_eq!(gap_threshold_secs(Interval::Week), 1_209_600);
    assert_eq!(gap_threshold_secs(Interval::Month), 4_838_400);
    assert_eq!(gap_threshold_secs(Interval::Year), 63_072_000);
}

#[test]
fn line_breaks_on_wide_gaps_only() {
    assert_eq!(line_gap_threshold(None, Interval::Day), 172_800);
    assert_eq!(line_gap_threshold(Some(Profile::Weekly), Interval::Day), i64::MAX);
    // daily buckets: a two-day step is bridged, a three-day step is not
    let ts = vec![0, DAY, 3 * DAY, 6 * DAY, 7 * DAY];
    assert_eq!(segment_starts(&ts, 2 * DAY), vec![true, false, false, true, false]);
    assert_eq!(segment_starts(&ts, i64::MAX), vec![true, false, false, false, false]);
    assert_eq!(segment_starts(&[], 2 * DAY), Vec::<bool>::new());
    assert_eq!(segment_starts(&[i64::MIN, i64::MAX], i64::MAX), vec![true, true]);
}

#[test]
fn xml_escaping() {
    assert_eq!(escape_xml_text("a < b & c > d"), "a &lt; b &amp; c &gt; d");
    assert_eq!(escape_xml_text("say \"hi\""), "say \"hi\"");
    assert_eq!(escape_xml_attr("say \"hi\" & <go>"), "say &quot;hi&quot; &amp; &lt;go&gt;");
    assert_eq!(escape_xml_text("Montréal · µg/m³"), "Montréal · µg/m³");
    assert_eq!(escape_xml_text(""), "");
    assert_eq!(escape_xml_text("&amp;"), "&amp;amp;");
}

#[test]
fn escaped_text_is_inert() {
    let s = escape_xml_attr("<<\"&\">>");
    assert!(!s.contains('<') && !s.contains('>') && !s.contains('"'));
}

#[test]
fn thousands_grouping() {
    assert_eq!(group_thousands(0), "0");
    assert_eq!(group_thousands(999), "999");
    assert_eq!(group_thousands(1000), "1,000");
    assert_eq!(group_thousands(12_345), "12,345");
    assert_eq!(group_thousands(-1_234_567), "-1,234,567");
    assert_eq!(group_thousands(i64::MIN), "-9,223,372,036,854,775,808");
    assert_eq!(group_thousands(i64::MAX), "9,223,372,036,854,775,807");
}

// ── map filters ─────────────────────────────────────────────────────────────

#[test]
fn weekend_days() {
    let flags: Vec<bool> = (0..7).map(is_weekend).collect();
    assert_eq!(flags, vec![false, false, false, false, false, true, true]);
}

#[test]
fn day_type_filter() {
    assert!(day_type_ok(DayType::All, true));
    assert!(day_type_ok(DayType::All, false));
    assert!(day_type_ok(DayType::Weekday, false));
    assert!(!day_type_ok(DayType::Weekday, true));
    assert!(day_type_ok(DayType::Weekend, true));
    assert!(!day_type_ok(DayType::Weekend, false));
}

// ── buckets ─────────────────────────────────────────────────────────────────

// 2024-03-13 (a Wednesday) 14:25:36 UTC
const T0: i64 = 1_710_339_936;

#[test]
fn bucket_keys() {
    assert_eq!(bucket_key(T0, Interval::Hour), 1_710_338_400); // 14:00
    assert_eq!(bucket_key(T0, Interval::Day), 1_710_288_000); // 2024-03-13
    assert_eq!(bucket_key(T0, Interval::Week), 1_710_115_200); // Mon 2024-03-11
    assert_eq!(bucket_key(T0, Interval::Month), 1_709_251_200); // 2024-03-01
    assert_eq!(bucket_key(T0, Interval::Year), 1_704_067_200); // 2024-01-01
}

#[test]
fn bucket_keys_before_1970() {
    // 1969-12-31 23:30:00 UTC, a Wednesday
    let t = -1800;
    assert_eq!(bucket_key(t, Interval::Hour), -3600);
    assert_eq!(bucket_key(t, Interval::Day), -DAY);
    assert_eq!(bucket_key(t, Interval::Week), -3 * DAY);
    assert_eq!(bucket_key(t, Interval::Month), -31 * DAY);
    assert_eq!(bucket_key(t, Interval::Year), -365 * DAY);
}

#[test]
fn every_reading_lies_in_its_bucket() {
    let intervals = [Interval::Hour, Interval::Day, Interval::Week, Interval::Month, Interval::Year];
    for &t in &[T0, -1, 0, 951_782_400 /* 2000-02-29 */, 1_709_164_799 /* 2024-02-28 23:59:59 */] {
        for &iv in &intervals {
            let k = bucket_key(t, iv);
            assert!(k <= t);
            assert_eq!(bucket_key(k, iv), k);
            assert!(t.div_euclid(DAY) <= bucket_last_day(k, iv));
        }
    }
}

#[test]
fn bucket_last_days() {
    let d = |ts: i64| ts / DAY;
    // week of Mon 2024-03-11 ends Sun 2024-03-17
    assert_eq!(bucket_last_day(1_710_115_200, Interval::Week), d(1_710_115_200) + 6);
    // February 2024 has 29 days
    assert_eq!(bucket_last_day(1_706_745_600, Interval::Month), d(1_706_745_600) + 28);
    // December rolls into the next year
    assert_eq!(bucket_last_day(1_701_388_800, Interval::Month), d(1_701_388_800) + 30);
    assert_eq!(bucket_last_day(1_704_067_200, Interval::Year), d(1_704_067_200) + 365);
    assert_eq!(bucket_last_day(T0, Interval::Day), d(T0));
    assert_eq!(bucket_last_day(T0, Interval::Hour), d(T0));
}

#[test]
fn plan_hourly_keeps_every_bucket() {
    let ts = vec![T0 + 3600, T0, T0 + 60, T0 - 7200];
    let plan = bucket_plan(&ts, Interval::Hour);
    assert_eq!(plan, vec![1_710_331_200, 1_710_338_400, 1_710_342_000]);
}

#[test]
fn plan_trims_partial_weeks() {
    // Wed 2024-03-13 .. Tue 2024-03-26: the first and last weeks are partial
    let first = 1_710_288_000;
    let ts: Vec<i64> = (0..14).map(|i| first + i * DAY).collect();
    assert_eq!(bucket_plan(&ts, Interval::Week), vec![1_710_720_000]);
}

#[test]
fn plan_keeps_whole_weeks() {
    // Mon 2024-03-11 .. Sun 2024-03-24: two full weeks
    let first = 1_710_115_200;
    let ts: Vec<i64> = (0..14).map(|i| first + i * DAY + 3600).collect();
    assert_eq!(bucket_plan(&ts, Interval::Week), vec![1_710_115_200, 1_710_720_000]);
}

#[test]
fn plan_months() {
    // 2024-01-01 .. 2024-03-13: March is partial, January and February whole
    let jan1 = 1_704_067_200;
    let ts: Vec<i64> = (0..73).map(|i| jan1 + i * DAY).collect();
    assert_eq!(bucket_plan(&ts, Interval::Month), vec![1_704_067_200, 1_706_745_600]);
}

#[test]
fn trimming_partial_edges() {
    let w = 7 * DAY;
    // weekly buckets starting on days 0 and 7; readings from day 1 to day 13
    assert_eq!(trim_partial_edges(vec![0, w], Interval::Week, 1, 13, 13), vec![w]);
    assert_eq!(trim_partial_edges(vec![0, w], Interval::Week, 0, 12, 13), vec![0]);
    assert_eq!(trim_partial_edges(vec![0, w], Interval::Week, 1, 12, 13), Vec::<i64>::new());
    assert_eq!(trim_partial_edges(vec![0, w], Interval::Week, 0, 13, 13), vec![0, w]);
    // a single partial bucket goes once, at the start
    assert_eq!(trim_partial_edges(vec![0], Interval::Month, 3, 3, 30), Vec::<i64>::new());
    // hours and days are never trimmed
    assert_eq!(trim_partial_edges(vec![0, DAY], Interval::Day, 5, 0, 9), vec![0, DAY]);
    assert_eq!(trim_partial_edges(vec![], Interval::Year, 0, 0, 0), Vec::<i64>::new());
}

#[test]
fn plan_single_partial_bucket_is_dropped() {
    assert_eq!(bucket_plan(&vec![T0], Interval::Year), Vec::<i64>::new());
    assert_eq!(bucket_plan(&vec![T0], Interval::Day), vec![1_710_288_000]);
    assert_eq!(bucket_plan(&vec![], Interval::Week), Vec::<i64>::new());
}

// First and last second of the calendar chrono represents.
const FIRST_SECOND: i64 = -8_334_601_228_800;
const LAST_SECOND: i64 = 8_210_266_876_799;

#[test]
fn computable_buckets_at_the_calendar_edges() {
    assert!(!bucket_computable(FIRST_SECOND - 1, Interval::Hour));
    assert!(!bucket_computable(LAST_SECOND + 1, Interval::Day));
    assert!(bucket_computable(FIRST_SECOND, Interval::Hour));
    assert!(bucket_computable(FIRST_SECOND, Interval::Month));
    // The first day is a Thursday: its week starts before the calendar does.
    assert!(!bucket_computable(FIRST_SECOND, Interval::Week));
    assert!(bucket_computable(LAST_SECOND, Interval::Day));
    assert!(bucket_computable(LAST_SECOND, Interval::Year));
    // The last day is a Monday: its week ends after the calendar does.
    assert!(!bucket_computable(LAST_SECOND, Interval::Week));
    // The last month is a December: the month after it does not exist.
    assert!(!bucket_computable(LAST_SECOND, Interval::Month));
    assert!(bucket_computable(T0, Interval::Week));
}

#[test]
fn checked_plan_matches_plan() {
    let jan1 = 1_704_067_200;
    let ts: Vec<i64> = (0..73).map(|i| jan1 + i * DAY).collect();
    assert_eq!(checked_bucket_plan(&ts, Interval::Month), Some(bucket_plan(&ts, Interval::Month)));
    assert_eq!(checked_bucket_plan(&ts, Interval::Month), Some(vec![1_704_067_200, 1_706_745_600]));
    assert_eq!(checked_bucket_plan(&vec![], Interval::Year), Some(Vec::new()));
}

#[test]
fn checked_plan_refuses_out_of_calendar_readings() {
    assert_eq!(checked_bucket_plan(&vec![T0, LAST_SECOND], Interval::Week), None);
    assert_eq!(checked_bucket_plan(&vec![T0, i64::MAX], Interval::Hour), None);
    assert_eq!(checked_bucket_plan(&vec![T0, LAST_SECOND], Interval::Day), Some(vec![1_710_288_000, LAST_SECOND - 86_399]));
}

// ── loader checks ───────────────────────────────────────────────────────────

#[test]
fn grid_shape() {
    assert_eq!(check_grid_shape(3, 2, 6), Ok(()));
    assert_eq!(
        check_grid_shape(3, 2, 5),
        Err("ufp-surface.json: inconsistent grid shape".to_string())
    );
    assert!(check_grid_shape(1, 6, 6).is_err());
    assert!(check_grid_shape(6, 1, 6).is_err());
    assert!(check_grid_shape(usize::MAX, 2, 0).is_err());
}

#[test]
fn meta_holds_plain_values() {
    let m = Meta {
        years: vec![2023, 2024],
        min_year: 2023,
        max_year: 2024,
        latest_year: 2024,
        generated: "2025-01-01".into(),
        daily_start: "1986-01-01".into(),
        rows: 10,
        stations: 2,
        substances: strings(&["NO2"]),
        source_url: String::new(),
        station_list_url: String::new(),
    };
    assert_eq!(m.years.len(), 2);
}

// ── shell ───────────────────────────────────────────────────────────────────

#[test]
fn anchor_is_monday_2001() {
    assert_eq!(profile_anchor(), 978_307_200);
    assert_eq!(bucket_key(profile_anchor(), Interval::Week), profile_anchor());
}

#[test]
fn axis_kinds() {
    assert_eq!(axis_kind(None), 0);
    assert_eq!(axis_kind(Some(Profile::Weekday)), 1);
    assert_eq!(axis_kind(Some(Profile::Weekend)), 1);
    assert_eq!(axis_kind(Some(Profile::Weekly)), 2);
}

fn pin_with(color: &'static str) -> PinnedTrace<u32> {
    PinnedTrace { series: 0, color, substance: "NO2".to_string(), axis: 0, hourly: false }
}

fn colours(pins: &[PinnedTrace<u32>]) -> Vec<&'static str> {
    pins.iter().map(|p| p.color).collect()
}

#[test]
fn pin_colours_recycle_gaps() {
    assert_eq!(MAX_PINS, 4);
    assert_eq!(pin_colors().len(), MAX_PINS);
    assert_eq!(next_pin_color::<u32>(&[]), "#ff9f43");
    assert_eq!(next_pin_color(&[pin_with("#ff9f43")]), "#2ecc71");
    assert_eq!(next_pin_color(&[pin_with("#2ecc71"), pin_with("#ff9f43")]), "#e06cf0");
    assert_eq!(next_pin_color(&[pin_with("#ff9f43"), pin_with("#e06cf0")]), "#2ecc71");
    let full = [pin_with("#ff9f43"), pin_with("#2ecc71"), pin_with("#e06cf0"), pin_with("#f5d442")];
    assert_eq!(next_pin_color(&full), "#ff9f43");
}

#[test]
fn pin_list_steps() {
    let mut pins: Vec<PinnedTrace<u32>> = Vec::new();
    // nothing to pin without a live trace
    pin_live(&mut pins, None, "NO2".to_string(), None, Interval::Day);
    assert!(pins.is_empty());
    assert!(!can_pin(&pins, false));
    for k in 0..MAX_PINS as u32 {
        assert!(can_pin(&pins, true));
        pin_live(&mut pins, Some(k), "NO2".to_string(), None, Interval::Hour);
    }
    assert_eq!(colours(&pins), vec!["#ff9f43", "#2ecc71", "#e06cf0", "#f5d442"]);
    assert!(pins.iter().all(|p| p.axis == 0 && p.hourly));
    // a fifth pin is refused
    assert!(!can_pin(&pins, true));
    pin_live(&mut pins, Some(9), "NO2".to_string(), None, Interval::Hour);
    assert_eq!(pins.len(), MAX_PINS);
    // removing the second frees its colour for the next pin, which goes last
    unpin(&mut pins, 1);
    unpin(&mut pins, 7);
    assert_eq!(colours(&pins), vec!["#ff9f43", "#e06cf0", "#f5d442"]);
    pin_live(&mut pins, Some(5), "O3".to_string(), Some(Profile::Weekly), Interval::Hour);
    assert_eq!(colours(&pins), vec!["#ff9f43", "#e06cf0", "#f5d442", "#2ecc71"]);
    let last = &pins[3];
    assert_eq!((last.series, last.axis, last.hourly), (5, 2, false));
    assert!(compares_substances(&pins, "NO2"));
    assert!(!compares_substances(&pins[..3], "NO2"));
    // a pin on another axis basis clears the list
    drop_pins_off_axis(&mut pins, None);
    assert!(pins.is_empty());
}

#[test]
fn pins_on_one_axis_stay() {
    let mut pins = vec![pin_with("#ff9f43"), pin_with("#2ecc71")];
    drop_pins_off_axis(&mut pins, None);
    assert_eq!(pins.len(), 2);
    drop_pins_off_axis(&mut pins, Some(Profile::Weekday));
    assert!(pins.is_empty());
}

#[test]
fn default_substances() {
    assert_eq!(default_substance(&strings(&["O3", "NO", "PM2.5"])), "NO");
    assert_eq!(default_substance(&strings(&["O3", "PM2.5"])), "PM2.5");
    assert_eq!(default_substance(&strings(&["O3", "SO2"])), "O3");
    assert_eq!(default_substance(&[]), "");
}

#[test]
fn view_queries() {
    assert_eq!(view_from_query("?view=series"), Some(View::Series));
    assert_eq!(view_from_query("view=reading"), Some(View::Links));
    assert_eq!(view_from_query("??lang=fr&view=limits&x=1"), Some(View::Limits));
    assert_eq!(view_from_query("?view=bogus&view=map"), Some(View::MapView));
    assert_eq!(view_from_query("?views=map"), None);
    assert_eq!(view_from_query("?view=map?"), None);
    assert_eq!(view_from_query(""), None);
    assert_eq!(view_from_query("?&&"), None);
}

#[test]
fn view_query_round_trip() {
    for v in [View::MapView, View::Series, View::Network, View::Methods, View::Limits, View::Links] {
        let q = view_query(v);
        assert_eq!(q, format!("?view={}", v.slug()));
        assert_eq!(view_from_query(&q), Some(v));
    }
}

#[test]
fn hourly_year_bounds() {
    assert_eq!(MAX_HOURLY_YEARS, 3);
    let avail = [2018, 2019, 2020, 2022, 2023, 2024];
    assert_eq!(hourly_years(2019, 2023, &avail), vec![2020, 2022, 2023]);
    assert_eq!(hourly_years(2019, 2020, &avail), vec![2019, 2020]);
    assert_eq!(hourly_years(2021, 2021, &avail), Vec::<i32>::new());
    assert_eq!(hourly_years(2024, 2019, &avail), Vec::<i32>::new());
    assert_eq!(hourly_years(1986, 2024, &[]), Vec::<i32>::new());
}

#[test]
fn diurnal_tier_choice() {
    assert!(diurnal_uses_hourly(2022, 2024));
    assert!(diurnal_uses_hourly(2024, 2024));
    assert!(!diurnal_uses_hourly(2021, 2024));
    assert!(!diurnal_uses_hourly(1986, 2024));
    assert!(diurnal_uses_hourly(2024, 2023));
    assert!(!diurnal_uses_hourly(2024, 2021));
}

#[test]
fn pinned_trace_intervals() {
    assert_eq!(pin_interval(Interval::Hour, false), Interval::Day);
    assert_eq!(pin_interval(Interval::Hour, true), Interval::Hour);
    assert_eq!(pin_interval(Interval::Week, false), Interval::Week);
}

#[test]
fn gaps() {
    let ts = [0, 10, 100, 105, 300, 301];
    assert_eq!(gap_summary(&ts, 50), (2, Some((105, 300))));
    assert_eq!(gap_summary(&ts, 1000), (0, None));
    // equal widths: the first one is reported
    assert_eq!(gap_summary(&[1, 3, 5], 1), (2, Some((1, 3))));
    assert_eq!(gap_summary(&[], 0), (0, None));
    assert_eq!(gap_summary(&[7], 0), (0, None));
    // year lists: consecutive years are no gap
    assert_eq!(gap_summary(&[2001, 2002, 2005, 2006, 2009], 1), (2, Some((2002, 2005))));
}

#[test]
fn titles() {
    assert_eq!(document_title(View::MapView, Lang::En), "AirQualityMTL — Map");
    assert_eq!(document_title(View::Links, Lang::Fr), "AirQualityMTL — Pour aller plus loin");
}

#[test]
fn substance_option_sets() {
    let all = strings(&["NO2", "O3", "PM2.5"]);
    let own = strings(&["O3"]);
    assert_eq!(substance_options(View::Series, all.clone(), Some(own.clone())), own);
    assert_eq!(substance_options(View::Series, all.clone(), None), all);
    assert_eq!(substance_options(View::MapView, all.clone(), Some(own)), all);
}

#[test]
fn substance_reconciliation() {
    let opts = strings(&["O3", "PM2.5"]);
    assert_eq!(substance_after_change("O3", &opts), None);
    assert_eq!(substance_after_change("NO", &opts), Some("PM2.5".to_string()));
    assert_eq!(substance_after_change("NO", &[]), None);
}

#[test]
fn presets() {
    // archive 1986-01-01 .. 2024-12-31
    let start = 5_844;
    let end = 20_088;
    let p = date_presets(Lang::En, start, end);
    assert_eq!(p.len(), 5);
    assert_eq!(p[0], ("All years", start, end));
    assert_eq!(p[1], ("Last 10 Years", end - 3653, end));
    assert_eq!(p[4], ("Last 3 Months", end - 91, end));
    // a short archive clamps every start to its first day
    let q = date_presets(Lang::Fr, end - 100, end);
    assert_eq!(q[1], ("10 dernières années", end - 100, end));
    assert_eq!(q[4], ("3 derniers mois", end - 91, end));
}

// ── controls ────────────────────────────────────────────────────────────────

#[test]
fn hour_window_and_tier() {
    assert!(uses_daily_tier(0, 23));
    assert!(!uses_daily_tier(0, 22));
    assert!(!uses_daily_tier(7, 9));
    // 07:00 -> 09:59 keeps the 7, 8 and 9 o'clock hours
    assert!(!hour_in_window(6, 7, 9));
    assert!(hour_in_window(7, 7, 9));
    assert!(hour_in_window(9, 7, 9));
    assert!(!hour_in_window(10, 7, 9));
}

#[test]
fn ranges_never_run_backwards() {
    assert_eq!(range_with_start((3, 10), 5), (5, 10));
    assert_eq!(range_with_start((3, 10), 12), (12, 12));
    assert_eq!(range_with_end((3, 10), 7), (3, 7));
    assert_eq!(range_with_end((3, 10), 1), (1, 1));
    // hours 0..23 as the time-of-day selects use them
    assert_eq!(range_with_start((0, 23), 23), (23, 23));
    assert_eq!(range_with_end((8, 12), 0), (0, 0));
}

#[test]
fn profile_buttons_toggle() {
    assert_eq!(toggle_profile(None, Profile::Weekly), Some(Profile::Weekly));
    assert_eq!(toggle_profile(Some(Profile::Weekly), Profile::Weekly), None);
    assert_eq!(toggle_profile(Some(Profile::Weekday), Profile::Weekend), Some(Profile::Weekend));
}

#[test]
fn short_presets_are_disabled() {
    // the last 3 months (91 days) are too short for yearly buckets only
    assert!(!preset_too_short(Interval::Hour, 100, 191));
    assert!(!preset_too_short(Interval::Week, 100, 191));
    assert!(!preset_too_short(Interval::Month, 100, 191));
    assert!(preset_too_short(Interval::Year, 100, 191));
    assert!(preset_too_short(Interval::Week, 100, 113));
    assert!(!preset_too_short(Interval::Week, 100, 114));
    assert!(preset_too_short(Interval::Month, 0, 59));
    assert!(!preset_too_short(Interval::Year, 0, 400));
}

#[test]
fn chart_tiers() {
    assert_eq!(chart_tier(None, Interval::Hour, 1990, 2024), ChartTier::Hourly);
    assert_eq!(chart_tier(None, Interval::Week, 2024, 2024), ChartTier::Daily);
    assert_eq!(chart_tier(Some(Profile::Weekday), Interval::Month, 2022, 2024), ChartTier::Hourly);
    assert_eq!(chart_tier(Some(Profile::Weekend), Interval::Month, 2021, 2024), ChartTier::ProfileBins);
    assert_eq!(chart_tier(Some(Profile::Weekly), Interval::Hour, 2024, 2024), ChartTier::Daily);
}

// ── file expansion ──────────────────────────────────────────────────────────

#[test]
fn hourly_file_times() {
    let jan1_5h = 1_704_085_200; // 2024-01-01T05:00:00Z
    assert_eq!(
        hourly_timestamps("2024-01-01T05:00:00Z", 3600, &[0, 1, 24]),
        Some(vec![jan1_5h, jan1_5h + 3600, jan1_5h + DAY])
    );
    // the offset is taken into account
    assert_eq!(hourly_timestamps("2024-01-01T00:00:00-05:00", 3600, &[0]), Some(vec![jan1_5h]));
    // an unreadable start stands for the Unix epoch
    assert_eq!(hourly_timestamps("not a date", 3600, &[2]), Some(vec![7200]));
    assert_eq!(hourly_timestamps("2024-01-01T05:00:00Z", 3600, &[]), Some(vec![]));
    // overflowing offsets and instants beyond the calendar have no time
    assert_eq!(hourly_timestamps("2024-01-01T05:00:00Z", 2, &[0, i64::MAX]), None);
    assert_eq!(hourly_timestamps("2024-01-01T05:00:00Z", 3600, &[3_000_000_000]), None);
}

#[test]
fn daily_file_times() {
    assert_eq!(base_day("2024-03-13"), Some(19_795));
    assert_eq!(base_day("1969-12-31"), Some(-1));
    assert_eq!(base_day("13/03/2024"), None);
    assert_eq!(daily_timestamps("2024-03-13", &[0, 1, -1]), Some(vec![1_710_288_000, 1_710_374_400, 1_710_201_600]));
    assert_eq!(daily_timestamps("13/03/2024", &[3]), Some(vec![3 * DAY]));
    assert_eq!(daily_timestamps("2024-03-13", &[200_000_000]), None);
    assert_eq!(daily_timestamps("2024-03-13", &[i64::MIN]), None);
}

#[test]
fn captions_and_labels() {
    assert_eq!(caption_mode(Lang::En, None, Interval::Month), "Month");
    assert_eq!(caption_mode(Lang::En, Some(Profile::Weekly), Interval::Month), "Weekly averaging profile");
    assert_eq!(caption_mode(Lang::Fr, Some(Profile::Weekly), Interval::Month), format!("{} profil moyen", Profile::Weekly.label(Lang::Fr)));
    assert_eq!(
        chart_caption("Station 3", "Ozone (ppb)", "Day", false, "2020-01-01", "2024-12-31"),
        "Station 3 · Ozone (ppb) · Day · 2020-01-01 → 2024-12-31"
    );
    assert_eq!(chart_caption("Station 3", "Ozone (ppb)", "Day", true, "2020-01-01", "2024-12-31"), "Station 3 · Ozone (ppb) · Day");
    assert_eq!(span_label("A", "2001-01-01", "2002-01-01"), "A · 2001-01-01 → 2002-01-01");
    assert_eq!(normalized_label("A", "12.5", "ppb"), "A — 100% = 12.5 ppb");
    assert_eq!(normalized_label("IQA", "80", ""), "IQA — 100% = 80");
}

#[test]
fn default_station_has_the_longest_record() {
    assert_eq!(default_station(&[]), None);
    assert_eq!(default_station(&[(3, 10), (7, 30), (9, 2)]), Some(7));
    // the last of several longest records, as max_by_key picks
    assert_eq!(default_station(&[(3, 30), (7, 30), (9, 2)]), Some(7));
    assert_eq!(default_station(&[(3, 30), (7, 29), (9, 30)]), Some(9));
}

#[test]
fn escaping_round_trips() {
    let s = "a \"b\" & <c> &amp; ;";
    let attr = escape_xml_attr(s);
    let back = attr.replace("&quot;", "\"").replace("&gt;", ">").replace("&lt;", "<").replace("&amp;", "&");
    assert_eq!(back, s);
    let text = escape_xml_text(s);
    assert_eq!(text.replace("&gt;", ">").replace("&lt;", "<").replace("&amp;", "&"), s);
}

#[test]
fn surface_cells_need_four_corners() {
    // 3 x 2 vertices: cells at vertices 0 and 1
    assert_eq!(complete_cells(&[true; 6], 3, 2), vec![0, 1]);
    assert_eq!(complete_cells(&[true, true, true, true, true, false], 3, 2), vec![0]);
    assert_eq!(complete_cells(&[true, true, true, true, false, true], 3, 2), Vec::<usize>::new());
    // 3 x 3: the last column and row start no cell
    let mut p = [true; 9];
    p[8] = false;
    assert_eq!(complete_cells(&p, 3, 3), vec![0, 1, 3]);
}

#[test]
fn times_from_a_base() {
    assert_eq!(hourly_times_from(100, 3600, &[0, 2, -1]), Some(vec![100, 7300, -3500]));
    assert_eq!(hourly_times_from(0, i64::MAX, &[2]), None);
    assert_eq!(hourly_times_from(8_210_266_876_799, 1, &[0, 1]), None);
    assert_eq!(daily_times_from(19_795, &[0, 10]), Some(vec![1_710_288_000, 1_711_152_000]));
    assert_eq!(daily_times_from(95_026_236, &[0]), Some(vec![95_026_236 * DAY]));
    assert_eq!(daily_times_from(95_026_236, &[1]), None);
}

// ── series building ─────────────────────────────────────────────────────────

const MON_NOON: i64 = 1_705_320_000; // 2024-01-15 12:00 UTC, a Monday
const SAT_NOON: i64 = 1_705_147_200; // 2024-01-13 12:00 UTC
const SAT_2H: i64 = 1_705_111_200; // 2024-01-13 02:00 UTC: Friday 21:00 in Montréal

#[test]
fn montreal_wall_clock() {
    assert_eq!(montreal_local_secs(MON_NOON), MON_NOON - 5 * 3600);
    // summer time
    assert_eq!(montreal_local_secs(1_721_044_800), 1_721_044_800 - 4 * 3600);
    assert_eq!(local_day_hour(MON_NOON), (19_737, 7));
    assert_eq!(local_day_hour(SAT_2H), (19_734, 21));
}

#[test]
fn profile_bins_fold_by_local_hour_and_utc_weekday() {
    let ts = [MON_NOON, SAT_NOON, SAT_2H];
    assert_eq!(profile_bins(&ts, Profile::Weekday), vec![Some(7), None, Some(21)]);
    assert_eq!(profile_bins(&ts, Profile::Weekend), vec![None, Some(7), None]);
    assert_eq!(profile_bins(&ts, Profile::Weekly), vec![Some(0), Some(5), Some(5)]);
}

#[test]
fn profile_tier_years_with_readings() {
    let mut late = vec![0u32; 24];
    late.push(5);
    let bins = vec![
        (1999, vec![1]),
        (2000, late),
        (2001, vec![0, 3]),
        (2002, vec![1; 24]),
        (2003, vec![1]),
    ];
    assert_eq!(profile_tier_years(2000, 2002, &bins), vec![2001, 2002]);
    assert_eq!(profile_tier_years(2005, 2010, &bins), Vec::<i32>::new());
    assert_eq!(profile_tier_extent(2001, 2003, (11_000, 13_000)), (11_323, 12_417));
    assert_eq!(profile_tier_extent(2001, 2003, (11_400, 12_000)), (11_400, 12_000));
}

#[test]
fn extents_and_query_ranges() {
    assert_eq!(reading_extent(&[]), None);
    assert_eq!(reading_extent(&[3 * DAY + 5, -1, 100]), Some((-1, 3)));
    assert_eq!(in_query_range(&[0, DAY - 1, DAY, -1], 0, 0), vec![true, true, false, false]);
    assert_eq!(in_query_range(&[i64::MAX, i64::MIN], i64::MIN, i64::MAX), vec![true, true]);
}

const WORDS: CoverageTexts = CoverageTexts {
    query: "Query",
    begins: "Data begins",
    ends: "Data ends",
    gap_singular: "gap",
    gaps_plural: "gaps",
    longest: "longest",
};

#[test]
fn coverage_notes() {
    let q = (100, 200);
    let qt = ("Q0", "Q1");
    assert_eq!(coverage_note(&WORDS, q, (107, 193), 0, qt, ("D0", "D1"), None), None);
    assert_eq!(
        coverage_note(&WORDS, q, (108, 200), 0, qt, ("D0", "D1"), None),
        Some("Query: Q0 → Q1\nData begins D0".to_string())
    );
    assert_eq!(
        coverage_note(&WORDS, q, (100, 150), 1, qt, ("D0", "D1"), Some(("G0", "G1"))),
        Some("Query: Q0 → Q1\nData ends D1\n1 gap: G0 → G1".to_string())
    );
    assert_eq!(
        coverage_note(&WORDS, q, (150, 150), 12, qt, ("D0", "D1"), Some(("G0", "G1"))),
        Some("Query: Q0 → Q1\nData begins D0\nData ends D1\n12 gaps (longest G0 → G1)".to_string())
    );
}

#[test]
fn map_selection_of_hours_and_days() {
    // Montréal days 19734 (Friday) to 19737 (Monday), 07:00 to 21:59
    let ts = [MON_NOON, SAT_NOON, SAT_2H];
    assert_eq!(map_hourly_days(&ts, 19_734, 19_737, 7, 21, DayType::All), vec![Some(19_737), Some(19_735), Some(19_734)]);
    assert_eq!(map_hourly_days(&ts, 19_734, 19_737, 7, 21, DayType::Weekend), vec![None, Some(19_735), None]);
    assert_eq!(map_hourly_days(&ts, 19_734, 19_737, 8, 21, DayType::All), vec![None, None, Some(19_734)]);
    assert_eq!(map_hourly_days(&ts, 19_736, 19_737, 0, 23, DayType::Weekday), vec![Some(19_737), None, None]);
    // daily cells from 2024-01-13 (a Saturday)
    let base = 19_735;
    assert_eq!(daily_cells_kept(base, &[0, 1, 2, 10], base, base + 5, DayType::Weekday), Some(vec![false, false, true, false]));
    assert_eq!(daily_cells_kept(base, &[0, 1, 2], base, base + 5, DayType::All), Some(vec![true, true, true]));
    assert_eq!(daily_cells_kept(base, &[0, 200_000_000], base, base, DayType::All), None);
    assert_eq!(daily_sample_count(&[24, 20, u32::MAX], &[true, false, true]), (24 + u32::MAX as u64, 2));
    assert_eq!(daily_sample_count(&[], &[]), (0, 0));
}

#[test]
fn map_captions_and_view_switch() {
    assert_eq!(map_caption(Lang::En, "O3", Stat::Mean, "2024-01-01", "2024-12-31"), format!("{} · {} · 2024-01-01 → 2024-12-31", name_of("O3", Lang::En), Stat::Mean.label(Lang::En)));
    assert_eq!(map_caption(Lang::En, "XYZ", Stat::Max, "2024-05-05", "2024-05-05"), format!("XYZ · {} · 2024-05-05", Stat::Max.label(Lang::En)));
    assert_eq!(view_switch(View::MapView, View::MapView), None);
    assert_eq!(view_switch(View::MapView, View::Series), Some(View::Series));
}
