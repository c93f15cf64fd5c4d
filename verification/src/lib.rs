//! Conversion engine for space-weather feeds: normalizes four feed shapes
//! (two JSON Kp-index feeds, a JSON proton-flux feed, and a plain-text
//! three-day forecast bulletin) into compact JSON records.
pub mod bulletin;
pub mod converters;
pub mod datetime;
pub mod jsonout;
pub mod records;
pub mod text;
pub mod trusted;

pub use bulletin::{parse_kp_forecast, parse_rb_forecast, parse_srs_forecast, parse_sw_forecast};
pub use converters::{convert_feed, converter_flux, converter_kp, converter_kp_inst, converter_sw_forecast, FeedKind};
pub use datetime::convert_datetime;
pub use records::{KPForecast, SRSRBForecast, SWForecast};
pub use text::lex_le;
