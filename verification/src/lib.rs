//! Converts mobile-network drive-test logs (tabular CSV/TSV exports and KML
//! placemark exports) into one canonical record schema and prepares them for
//! batched writes against a time-series backend that speaks either the v1
//! (username/password, database) or v2 (token/org, bucket) wire dialect.

use vstd::prelude::*;

pub mod config;
pub mod influx_client;
pub mod kml_parser;
pub mod parser;
pub mod pipeline;
pub mod record;
pub mod text;
pub mod timestamp;

verus! {

} // verus!
