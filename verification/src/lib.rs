//! Converts OurAirports tabular reference data into JSON documents.
//!
//! The library decodes comma-separated rows into typed records of six
//! kinds (airports, airport frequencies, runways, navaids, countries and
//! regions), applying per-field coercions, and serializes the resulting
//! ordered record list into a JSON document, compact or pretty-printed.

pub mod chars;
pub mod coerce;
pub mod convert;
pub mod errors;
pub mod json;
pub mod json_read;
pub mod numbers;
pub mod records;
pub mod tokens;

pub use convert::{
    convert_airport_data, convert_airport_frequency_data, convert_country_data,
    convert_navaid_data, convert_region_data, convert_runway_data,
};
pub use errors::ConvertError;
pub use records::airport::Airport;
pub use records::country::Country;
pub use records::frequency::AirportFrequency;
pub use records::navaid::Navaid;
pub use records::region::Region;
pub use records::runway::Runway;
