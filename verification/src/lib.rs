pub mod i18n;
pub mod types;
pub mod pollutants;
pub mod loader;
pub mod chart;
pub mod map;
pub mod shell;
pub mod series;
