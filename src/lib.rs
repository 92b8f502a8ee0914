//! A directory of short-lived activity reports ("spots"): feeds are read into
//! one canonical record, kept in a store that merges repeated reports and lets
//! them expire, and served as a filtered, paginated listing.
pub mod api;
pub mod config;
pub mod error;
pub mod freq;
pub mod gate;
pub mod invite;
pub mod laws;
pub mod normalize;
pub mod pota;
pub mod program;
pub mod query;
pub mod rbn;
pub mod sota;
pub mod store;
pub mod spot;
pub mod text;
pub mod time;

pub use freq::parse_decimal_scaled;
pub use spot::{AggregatedSpot, SpotResponse, SpotRow, SpotSource};
