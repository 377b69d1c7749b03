use vstd::prelude::*;

verus! {

/// Interface language.
#[derive(Debug, Clone, Copy, PartialEq, Eq, Structural)]
pub enum Lang {
    En,
    Fr,
}

/// Every user-facing string of the interface, one field per message.
pub struct T {
    // Header / chrome
    pub subtitle: &'static str,
    pub view_map: &'static str,
    pub view_series: &'static str,
    pub view_ufp: &'static str,
    pub view_network: &'static str,
    pub view_methods: &'static str,
    pub view_limits: &'static str,
    pub view_links: &'static str,
    pub mobile_filters: &'static str,
    pub mobile_close: &'static str,
    pub data_prefix: &'static str,
    pub generated: &'static str,
    pub latest_year_label: &'static str,
    /// Discrete footer disclaimer on the Map and Time-series views.
    pub disclaimer: &'static str,
    /// Extra footer clause on the Map view: the between-station surface is interpolated.
    pub interp_note: &'static str,

    // Section labels
    pub substance: &'static str,
    pub statistic: &'static str,
    pub station: &'static str,
    pub interval: &'static str,
    pub date_range: &'static str,
    pub custom_range: &'static str,
    pub profile: &'static str,
    pub prof_weekday: &'static str,
    pub prof_weekend: &'static str,
    pub prof_weekly: &'static str,
    pub time_of_day: &'static str,
    pub all_hours: &'static str,
    pub day_type: &'static str,
    pub days_all: &'static str,
    /// Weekday short names, Monday-first, for the weekly profile's axis.
    pub dow: [&'static str; 7],
    pub year: &'static str,
    pub all_years: &'static str,

    // Stats
    pub stat_mean: &'static str,
    pub stat_median: &'static str,
    pub stat_max: &'static str,
    pub stat_min: &'static str,
    pub stat_mean_daily_max: &'static str,

    // Intervals
    pub hour: &'static str,
    pub day: &'static str,
    pub week: &'static str,
    pub month: &'static str,

    // Date presets
    pub last_year: &'static str,
    pub last_5_years: &'static str,
    pub last_10_years: &'static str,
    pub last_3_months: &'static str,
    pub range_too_short: &'static str,

    // Map
    pub loading_stations: &'static str,
    pub click_marker: &'static str,
    /// Shown when a time-of-day filter is active: the map reads the hourly tier
    /// and bounds very long ranges to the most recent years.
    pub map_hour_note: &'static str,
    pub no_data_substance: &'static str,
    pub stations_measuring: &'static str,
    pub map_avg: &'static str,
    pub station_names: &'static str,
    pub show: &'static str,
    pub hide: &'static str,
    pub iqa_main_driver: &'static str,
    pub iqa_peak_driver: &'static str,
    pub iqa_good: &'static str,
    pub iqa_acceptable: &'static str,
    pub iqa_poor: &'static str,
    pub iqa_higher_worse: &'static str,

    // UFP surface view
    pub ufp_title: &'static str,
    pub ufp_loading: &'static str,
    pub ufp_hint: &'static str,
    /// Colour-bar title, e.g. "UFP (particles/cm³)".
    pub ufp_legend_title: &'static str,
    /// Note under the colour bar explaining the reference grid spacing.
    pub ufp_grid_note: &'static str,
    /// Attribution sentence fragments around the linked paper title.
    pub ufp_source_label: &'static str,
    pub ufp_data_credit: &'static str,
    pub ufp_modelled_note: &'static str,

    // Placeholders
    pub select_station_desktop: &'static str,
    pub select_station_mobile: &'static str,

    // Chart legend / export
    pub leg_mean: &'static str,
    pub leg_min: &'static str,
    pub leg_max: &'static str,
    pub download_chart_png: &'static str,
    pub copy_chart_to_clipboard: &'static str,
    pub copied_to_clipboard: &'static str,
}
/// The English message table.
pub open spec fn en_table() -> T {
    T {
        subtitle: "Historical air-quality visualizer",
        view_map: "Map",
        view_series: "Time series",
        view_ufp: "UFP Model",
        view_network: "Stations",
        view_methods: "Methodology",
        view_limits: "Limits",
        view_links: "Further reading",
        mobile_filters: "Filters",
        mobile_close: "Close",
        data_prefix: "Historical RSQA data",
        generated: "Generated",
        latest_year_label: "Latest available year",
        disclaimer: "Independent project · not affiliated with the Ville de Montréal · historical data through 2024, not real-time",
        interp_note: "the interpolated surface between stations is illustrative, not exact",

        substance: "Substance",
        statistic: "Statistic",
        station: "Station",
        interval: "Aggregation",
        date_range: "Date range",
        custom_range: "Custom range",
        profile: "Averaging profile",
        prof_weekday: "Weekday",
        prof_weekend: "Weekend",
        prof_weekly: "Weekly",
        time_of_day: "Time of day",
        all_hours: "All hours",
        day_type: "Day type",
        days_all: "All days",
        dow: ["Mon", "Tue", "Wed", "Thu", "Fri", "Sat", "Sun"],
        year: "Year",
        all_years: "All years",

        stat_mean: "Mean",
        stat_median: "Median",
        stat_max: "Maximum",
        stat_min: "Minimum",
        stat_mean_daily_max: "Mean daily max",

        hour: "Hour",
        day: "Day",
        week: "Week",
        month: "Month",

        last_year: "Last Year",
        last_5_years: "Last 5 Years",
        last_10_years: "Last 10 Years",
        last_3_months: "Last 3 Months",
        range_too_short: "Range too short for interval",

        loading_stations: "Loading stations…",
        click_marker: "Hover over a station for more info",
        map_hour_note: "Time-of-day filter uses hourly data (most recent years for long ranges)",
        no_data_substance: "not measured at this station",
        stations_measuring: "stations measuring",
        map_avg: "Station average",
        station_names: "Station names",
        show: "Show",
        hide: "Hide",
        iqa_main_driver: "Main driver",
        iqa_peak_driver: "Peak driver",
        iqa_good: "Good",
        iqa_acceptable: "Acceptable",
        iqa_poor: "Poor",
        iqa_higher_worse: "Higher = worse air quality",

        ufp_title: "Modelled ultrafine particles (UFP) — Montréal 2020 · height = concentration",
        ufp_loading: "Loading surface…",
        ufp_hint: "Drag to rotate · scroll or pinch to zoom · double-click to reset",
        ufp_legend_title: "UFP (particles/cm³)",
        ufp_grid_note: "Ground grid: 5 km",
        ufp_source_label: "Source:",
        ufp_data_credit: "(Environment International, 2023). Raw model data kindly provided by Scott Weichenthal, the study's corresponding author.",
        ufp_modelled_note: "The values shown are modelled estimates derived from an experimental measurement technique — not direct measurements at this resolution.",

        select_station_desktop: "Select a station and substance from the sidebar to view its time series",
        select_station_mobile: "Select a station and substance from the Filters menu to view its time series",

        leg_mean: "mean",
        leg_min: "min",
        leg_max: "max",
        download_chart_png: "Download chart as PNG",
        copy_chart_to_clipboard: "Copy chart to clipboard",
        copied_to_clipboard: "Copied!",
    }
}

/// The French message table.
pub open spec fn fr_table() -> T {
    T {
        subtitle: "Visualiseur historique de la qualité de l'air",
        view_map: "Carte",
        view_series: "Série temporelle",
        view_ufp: "Modèle PUF",
        view_network: "Stations",
        view_methods: "Méthodologie",
        view_limits: "Limites",
        view_links: "Pour aller plus loin",
        mobile_filters: "Filtres",
        mobile_close: "Fermer",
        data_prefix: "Données RSQA historiques",
        generated: "Généré",
        latest_year_label: "Dernière année disponible",
        disclaimer: "Projet indépendant · non affilié à la Ville de Montréal · données historiques jusqu'en 2024, non en temps réel",
        interp_note: "la surface interpolée entre les stations est illustrative, non exacte",

        substance: "Substance",
        statistic: "Statistique",
        station: "Station",
        interval: "Agrégation",
        date_range: "Plage de dates",
        custom_range: "Plage personnalisée",
        profile: "Profil moyen",
        prof_weekday: "Semaine",
        prof_weekend: "Fin de semaine",
        prof_weekly: "Hebdomadaire",
        time_of_day: "Heure de la journée",
        all_hours: "Toutes les heures",
        day_type: "Type de jour",
        days_all: "Tous les jours",
        dow: ["lun", "mar", "mer", "jeu", "ven", "sam", "dim"],
        year: "Année",
        all_years: "Toutes les années",

        stat_mean: "Moyenne",
        stat_median: "Médiane",
        stat_max: "Maximum",
        stat_min: "Minimum",
        stat_mean_daily_max: "Moy. max. quotidiens",

        hour: "Heure",
        day: "Jour",
        week: "Semaine",
        month: "Mois",

        last_year: "Année dernière",
        last_5_years: "5 dernières années",
        last_10_years: "10 dernières années",
        last_3_months: "3 derniers mois",
        range_too_short: "Plage trop courte pour l'agrégation",

        loading_stations: "Chargement des stations…",
        click_marker: "Survolez une station pour plus d'infos",
        map_hour_note: "Le filtre horaire utilise les données horaires (années récentes pour les longues plages)",
        no_data_substance: "non mesurée à cette station",
        stations_measuring: "stations mesurant",
        map_avg: "Moyenne des stations",
        station_names: "Noms des stations",
        show: "Afficher",
        hide: "Masquer",
        iqa_main_driver: "Polluant dominant",
        iqa_peak_driver: "Polluant au pic",
        iqa_good: "Bon",
        iqa_acceptable: "Acceptable",
        iqa_poor: "Mauvais",
        iqa_higher_worse: "Valeur élevée = air plus pollué",

        ufp_title: "Particules ultrafines (PUF) modélisées — Montréal 2020 · hauteur = concentration",
        ufp_loading: "Chargement de la surface…",
        ufp_hint: "Glissez pour pivoter · molette ou pincement pour zoomer · double-clic pour réinitialiser",
        ufp_legend_title: "PUF (particules/cm³)",
        ufp_grid_note: "Grille au sol : 5 km",
        ufp_source_label: "Source :",
        ufp_data_credit: "(Environment International, 2023). Données brutes du modèle aimablement fournies par Scott Weichenthal, auteur correspondant de l'étude.",
        ufp_modelled_note: "Les valeurs affichées sont des estimations modélisées, dérivées d'une technique de mesure expérimentale — et non des mesures directes à cette résolution.",

        select_station_desktop: "Sélectionnez une station et une substance dans la barre latérale pour afficher la série temporelle",
        select_station_mobile: "Sélectionnez une station et une substance dans le menu Filtres pour afficher la série temporelle",

        leg_mean: "moy",
        leg_min: "min",
        leg_max: "max",
        download_chart_png: "Télécharger le graphique en PNG",
        copy_chart_to_clipboard: "Copier le graphique dans le presse-papiers",
        copied_to_clipboard: "Copié !",
    }
}

/// The message table of each language.
pub open spec fn table_of(lang: Lang) -> T {
    match lang {
        Lang::En => en_table(),
        Lang::Fr => fr_table(),
    }
}

/// Builds the English message table.
pub fn en() -> (r: T)
    ensures
        r == en_table(),
{
    T {
        subtitle: "Historical air-quality visualizer",
        view_map: "Map",
        view_series: "Time series",
        view_ufp: "UFP Model",
        view_network: "Stations",
        view_methods: "Methodology",
        view_limits: "Limits",
        view_links: "Further reading",
        mobile_filters: "Filters",
        mobile_close: "Close",
        data_prefix: "Historical RSQA data",
        generated: "Generated",
        latest_year_label: "Latest available year",
        disclaimer: "Independent project · not affiliated with the Ville de Montréal · historical data through 2024, not real-time",
        interp_note: "the interpolated surface between stations is illustrative, not exact",

        substance: "Substance",
        statistic: "Statistic",
        station: "Station",
        interval: "Aggregation",
        date_range: "Date range",
        custom_range: "Custom range",
        profile: "Averaging profile",
        prof_weekday: "Weekday",
        prof_weekend: "Weekend",
        prof_weekly: "Weekly",
        time_of_day: "Time of day",
        all_hours: "All hours",
        day_type: "Day type",
        days_all: "All days",
        dow: ["Mon", "Tue", "Wed", "Thu", "Fri", "Sat", "Sun"],
        year: "Year",
        all_years: "All years",

        stat_mean: "Mean",
        stat_median: "Median",
        stat_max: "Maximum",
        stat_min: "Minimum",
        stat_mean_daily_max: "Mean daily max",

        hour: "Hour",
        day: "Day",
        week: "Week",
        month: "Month",

        last_year: "Last Year",
        last_5_years: "Last 5 Years",
        last_10_years: "Last 10 Years",
        last_3_months: "Last 3 Months",
        range_too_short: "Range too short for interval",

        loading_stations: "Loading stations…",
        click_marker: "Hover over a station for more info",
        map_hour_note: "Time-of-day filter uses hourly data (most recent years for long ranges)",
        no_data_substance: "not measured at this station",
        stations_measuring: "stations measuring",
        map_avg: "Station average",
        station_names: "Station names",
        show: "Show",
        hide: "Hide",
        iqa_main_driver: "Main driver",
        iqa_peak_driver: "Peak driver",
        iqa_good: "Good",
        iqa_acceptable: "Acceptable",
        iqa_poor: "Poor",
        iqa_higher_worse: "Higher = worse air quality",

        ufp_title: "Modelled ultrafine particles (UFP) — Montréal 2020 · height = concentration",
        ufp_loading: "Loading surface…",
        ufp_hint: "Drag to rotate · scroll or pinch to zoom · double-click to reset",
        ufp_legend_title: "UFP (particles/cm³)",
        ufp_grid_note: "Ground grid: 5 km",
        ufp_source_label: "Source:",
        ufp_data_credit: "(Environment International, 2023). Raw model data kindly provided by Scott Weichenthal, the study's corresponding author.",
        ufp_modelled_note: "The values shown are modelled estimates derived from an experimental measurement technique — not direct measurements at this resolution.",

        select_station_desktop: "Select a station and substance from the sidebar to view its time series",
        select_station_mobile: "Select a station and substance from the Filters menu to view its time series",

        leg_mean: "mean",
        leg_min: "min",
        leg_max: "max",
        download_chart_png: "Download chart as PNG",
        copy_chart_to_clipboard: "Copy chart to clipboard",
        copied_to_clipboard: "Copied!",
    }
}

/// Builds the French message table.
pub fn fr() -> (r: T)
    ensures
        r == fr_table(),
{
    T {
        subtitle: "Visualiseur historique de la qualité de l'air",
        view_map: "Carte",
        view_series: "Série temporelle",
        view_ufp: "Modèle PUF",
        view_network: "Stations",
        view_methods: "Méthodologie",
        view_limits: "Limites",
        view_links: "Pour aller plus loin",
        mobile_filters: "Filtres",
        mobile_close: "Fermer",
        data_prefix: "Données RSQA historiques",
        generated: "Généré",
        latest_year_label: "Dernière année disponible",
        disclaimer: "Projet indépendant · non affilié à la Ville de Montréal · données historiques jusqu'en 2024, non en temps réel",
        interp_note: "la surface interpolée entre les stations est illustrative, non exacte",

        substance: "Substance",
        statistic: "Statistique",
        station: "Station",
        interval: "Agrégation",
        date_range: "Plage de dates",
        custom_range: "Plage personnalisée",
        profile: "Profil moyen",
        prof_weekday: "Semaine",
        prof_weekend: "Fin de semaine",
        prof_weekly: "Hebdomadaire",
        time_of_day: "Heure de la journée",
        all_hours: "Toutes les heures",
        day_type: "Type de jour",
        days_all: "Tous les jours",
        dow: ["lun", "mar", "mer", "jeu", "ven", "sam", "dim"],
        year: "Année",
        all_years: "Toutes les années",

        stat_mean: "Moyenne",
        stat_median: "Médiane",
        stat_max: "Maximum",
        stat_min: "Minimum",
        stat_mean_daily_max: "Moy. max. quotidiens",

        hour: "Heure",
        day: "Jour",
        week: "Semaine",
        month: "Mois",

        last_year: "Année dernière",
        last_5_years: "5 dernières années",
        last_10_years: "10 dernières années",
        last_3_months: "3 derniers mois",
        range_too_short: "Plage trop courte pour l'agrégation",

        loading_stations: "Chargement des stations…",
        click_marker: "Survolez une station pour plus d'infos",
        map_hour_note: "Le filtre horaire utilise les données horaires (années récentes pour les longues plages)",
        no_data_substance: "non mesurée à cette station",
        stations_measuring: "stations mesurant",
        map_avg: "Moyenne des stations",
        station_names: "Noms des stations",
        show: "Afficher",
        hide: "Masquer",
        iqa_main_driver: "Polluant dominant",
        iqa_peak_driver: "Polluant au pic",
        iqa_good: "Bon",
        iqa_acceptable: "Acceptable",
        iqa_poor: "Mauvais",
        iqa_higher_worse: "Valeur élevée = air plus pollué",

        ufp_title: "Particules ultrafines (PUF) modélisées — Montréal 2020 · hauteur = concentration",
        ufp_loading: "Chargement de la surface…",
        ufp_hint: "Glissez pour pivoter · molette ou pincement pour zoomer · double-clic pour réinitialiser",
        ufp_legend_title: "PUF (particules/cm³)",
        ufp_grid_note: "Grille au sol : 5 km",
        ufp_source_label: "Source :",
        ufp_data_credit: "(Environment International, 2023). Données brutes du modèle aimablement fournies par Scott Weichenthal, auteur correspondant de l'étude.",
        ufp_modelled_note: "Les valeurs affichées sont des estimations modélisées, dérivées d'une technique de mesure expérimentale — et non des mesures directes à cette résolution.",

        select_station_desktop: "Sélectionnez une station et une substance dans la barre latérale pour afficher la série temporelle",
        select_station_mobile: "Sélectionnez une station et une substance dans le menu Filtres pour afficher la série temporelle",

        leg_mean: "moy",
        leg_min: "min",
        leg_max: "max",
        download_chart_png: "Télécharger le graphique en PNG",
        copy_chart_to_clipboard: "Copier le graphique dans le presse-papiers",
        copied_to_clipboard: "Copié !",
    }
}

/// What `str::to_lowercase` gives for a string, taken by its characters.
pub uninterp spec fn lowercase_of(s: Seq<char>) -> Seq<char>;

/// Calls `str::to_lowercase`. Trusted: the result is the lowercase form of `s`,
/// which is a function of `s` alone; what that form is is not stated here.
#[verifier::external_body]
pub(crate) fn to_lowercase(s: &str) -> (r: String)
    ensures
        r@ == lowercase_of(s@),
{
    s.to_lowercase()
}

/// Whether the characters of `s` begin with `p`.
pub open spec fn starts_with(s: Seq<char>, p: Seq<char>) -> bool {
    p.len() <= s.len() && s.subrange(0, p.len() as int) == p
}

/// The language a stored preference and a lowercased browser language pick:
/// the stored code when it is exactly `"fr"` or `"en"`, else French when the
/// browser's language begins with `"fr"`, else English.
pub open spec fn lang_pick(stored: Option<Seq<char>>, lowered: Option<Seq<char>>) -> Lang {
    if stored == Some("fr"@) {
        Lang::Fr
    } else if stored == Some("en"@) {
        Lang::En
    } else if lowered matches Some(b) && starts_with(b, "fr"@) {
        Lang::Fr
    } else {
        Lang::En
    }
}

/// The language a stored preference and a browser language pick, the
/// browser's language being lowercased first.
pub open spec fn preferred_lang(stored: Option<Seq<char>>, browser: Option<Seq<char>>) -> Lang {
    lang_pick(
        stored,
        match browser {
            Some(b) => Some(lowercase_of(b)),
            None => None,
        },
    )
}

/// The two-letter code of each language.
pub open spec fn code_of(lang: Lang) -> Seq<char> {
    match lang {
        Lang::En => "en"@,
        Lang::Fr => "fr"@,
    }
}

/// The language the toggle switches to.
pub open spec fn other_of(lang: Lang) -> Lang {
    match lang {
        Lang::En => Lang::Fr,
        Lang::Fr => Lang::En,
    }
}

/// Whether two strings hold the same characters.
pub(crate) fn same_text(a: &str, b: &str) -> (r: bool)
    ensures
        r == (a@ == b@),
{
    let x = a.to_owned();
    let y = b.to_owned();
    x == y
}

impl Lang {
    /// Key under which the chosen language is kept in the browser's storage.
    pub const STORAGE_KEY: &'static str = "airquality-lang";

    /// The initial language from what the browser holds: `stored` is the value
    /// kept under [`Lang::STORAGE_KEY`] (if any), `browser_language` the
    /// navigator's language (if any).
    pub fn from_preferences(stored: Option<&str>, browser_language: Option<&str>) -> (r: Lang)
        ensures
            r == preferred_lang(
                match stored { Some(s) => Some(s@), None => None },
                match browser_language { Some(b) => Some(b@), None => None },
            ),
    {
        let lowered = match browser_language {
            Some(b) => Some(to_lowercase(b)),
            None => None,
        };
        let lowered_str = match &lowered {
            Some(l) => Some(l.as_str()),
            None => None,
        };
        Lang::from_lowercase_preferences(stored, lowered_str)
    }

    /// The initial language from the stored value and the browser's language
    /// already lowercased.
    pub fn from_lowercase_preferences(stored: Option<&str>, lowered_browser: Option<&str>) -> (r: Lang)
        ensures
            r == lang_pick(
                match stored { Some(s) => Some(s@), None => None },
                match lowered_browser { Some(b) => Some(b@), None => None },
            ),
    {
        proof {
            reveal_strlit("fr");
            reveal_strlit("en");
        }
        if let Some(s) = stored {
            if same_text(s, "fr") {
                return Lang::Fr;
            }
            if same_text(s, "en") {
                return Lang::En;
            }
        }
        if let Some(l) = lowered_browser {
            if l.unicode_len() >= 2 && l.get_char(0) == 'f' && l.get_char(1) == 'r' {
                assert(l@.subrange(0, 2) =~= "fr"@);
                return Lang::Fr;
            }
            assert(!starts_with(l@, "fr"@)) by {
                if starts_with(l@, "fr"@) {
                    assert(l@.subrange(0, 2)[0] == 'f');
                    assert(l@.subrange(0, 2)[1] == 'r');
                }
            }
        }
        Lang::En
    }

    pub fn code(self) -> (r: &'static str)
        ensures
            r@ == code_of(self),
    {
        match self {
            Lang::En => "en",
            Lang::Fr => "fr",
        }
    }

    pub fn other(self) -> (r: Lang)
        ensures
            r == other_of(self),
    {
        match self {
            Lang::En => Lang::Fr,
            Lang::Fr => Lang::En,
        }
    }

    pub fn short_label(self) -> (r: &'static str)
        ensures
            r@ == (match self {
                Lang::En => "EN"@,
                Lang::Fr => "FR"@,
            }),
    {
        match self {
            Lang::En => "EN",
            Lang::Fr => "FR",
        }
    }

    /// The message table of this language.
    pub fn t(self) -> (r: T)
        ensures
            r == table_of(self),
    {
        match self {
            Lang::En => en(),
            Lang::Fr => fr(),
        }
    }
}

/// Switching language twice gives back the language one started with.
pub proof fn lemma_other_involution(lang: Lang)
    ensures
        lang != other_of(lang),
        other_of(other_of(lang)) == lang,
{
}

/// What is stored for a language reads back as that language, whatever the
/// browser's language.
pub proof fn lemma_store_then_restore(lang: Lang, browser: Option<Seq<char>>)
    ensures
        preferred_lang(Some(code_of(lang)), browser) == lang,
{
    reveal_strlit("fr");
    reveal_strlit("en");
    assert("fr"@ != "en"@) by {
        assert("fr"@[0] != "en"@[0]);
    }
}

} // verus!
