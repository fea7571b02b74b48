//! A small world clock: locate a configuration file, parse its time zone
//! names, and lay out an aligned report of the current time in each zone.

pub mod locate;
pub mod report;
pub mod text;
pub mod zones;

pub use locate::get_tz_file;
pub use report::{render_rows, report};
pub use text::{max_len, pad_to_size};
pub use zones::{parse_zones, ZoneError};
