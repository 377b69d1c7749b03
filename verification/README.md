# airquality_mtl

The logic of AirQualityMTL, a web viewer of Montréal's RSQA air-quality
archive (map of station statistics, time series, diurnal and weekly profiles,
modelled ultrafine particles), written in Verus: each function states what it
does in `requires` / `ensures`, and Verus proves it.

- `src/i18n.rs`: languages, the English and French string tables, and the
  choice of language from what was stored and what the browser prefers.
- `src/types.rs`: the view, statistic, interval, profile and day-type enums,
  their labels and the `?view=` slugs.
- `src/pollutants.rs`: the pollutant catalogue and its labels.
- `src/loader.rs`: the times of the readings of the hourly and daily data
  files, time bucketing of readings (hour, day, week, month, year) with the
  trimming of partial edge buckets, and the checks on loaded files (the
  ultrafine-particle grid's shape and drawable cells).
- `src/series.rs`: Montréal local time, the bins of the averaging profiles
  (local hour on weekdays or weekends, weekday of the date), the years of the
  diurnal-profile tier, the span of the plotted data, the query-range filter
  and the coverage note.
- `src/chart.rs`: line breaks, XML escaping (with its round trip) and
  thousands grouping for the chart and its SVG export.
- `src/map.rs`: the weekday / weekend split, the time-of-day window, the
  hourly readings and daily cells the map counts, and its caption.
- `src/shell.rs`: decisions of the application shell (profile axes, the pin
  list, captions and legend labels, default station and substance, deep
  links, range controls, data tiers and hourly years, coverage gaps, date
  presets).
- `app/`: ordinary Rust around the library: fetching and the serde shapes of
  the files, browser storage and history, the page state and its control
  steps, PNG export, and the floating-point statistics, colours, projection
  and rasterising. It mounts no user interface.
- `tests/`: tests of the library on concrete values.

The outside functions the library calls stand behind trusted wrappers whose
doc comments say what they claim: `chrono`'s calendar and date parsing in
`src/loader.rs` (`civil_year`, `civil_month`, `epoch_day_of`, `parse_rfc3339`,
`parse_ymd`), Montréal's UTC offset from `chrono-tz` in `src/series.rs`
(`montreal_offset_secs`), `str::to_lowercase` in `src/i18n.rs` and `String::push` in
`src/chart.rs`. The calendar itself is written out in `src/loader.rs` as the
proleptic Gregorian day-number formulas, with their properties proved; the
calendar wrappers claim only that `chrono` computes the same.
