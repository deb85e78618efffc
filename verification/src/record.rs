//! The canonical record schema that both parsers produce and the writer
//! consumes: one observation at a point in time. Every field except the
//! timestamp is optional — absence means "not reported", not zero.
//!
//! Numeric measurements are carried as their source text, validated against
//! the float grammar (`text::is_float_text`): this pins down exactly which
//! texts count as numbers while the record itself stays a plain value.

use vstd::prelude::*;

use crate::text::is_float_text;

verus! {

/// The mathematical view of a record: the timestamp as non-leap nanoseconds
/// since the Unix epoch, and each optional field as its character sequence.
pub struct RecordModel {
    pub timestamp_ns: i64,
    pub longitude: Option<Seq<char>>,
    pub latitude: Option<Seq<char>>,
    pub speed: Option<Seq<char>>,
    pub operator_name: Option<Seq<char>>,
    pub operator_code: Option<Seq<char>>,
    pub cgi: Option<Seq<char>>,
    pub cellname: Option<Seq<char>>,
    pub node: Option<Seq<char>>,
    pub cell_id: Option<Seq<char>>,
    pub lac: Option<Seq<char>>,
    pub network_tech: Option<Seq<char>>,
    pub network_mode: Option<Seq<char>>,
    pub level: Option<Seq<char>>,
    pub qual: Option<Seq<char>>,
    pub snr: Option<Seq<char>>,
    pub cqi: Option<Seq<char>>,
    pub arfcn: Option<Seq<char>>,
    pub dl_bitrate: Option<Seq<char>>,
    pub ul_bitrate: Option<Seq<char>>,
}

impl RecordModel {
    /// All numeric fields, where present, hold float-grammar text.
    pub open spec fn wf(self) -> bool {
        &&& (self.longitude matches Some(v) ==> is_float_text(v))
        &&& (self.latitude matches Some(v) ==> is_float_text(v))
        &&& (self.speed matches Some(v) ==> is_float_text(v))
        &&& (self.level matches Some(v) ==> is_float_text(v))
        &&& (self.qual matches Some(v) ==> is_float_text(v))
        &&& (self.snr matches Some(v) ==> is_float_text(v))
        &&& (self.cqi matches Some(v) ==> is_float_text(v))
        &&& (self.dl_bitrate matches Some(v) ==> is_float_text(v))
        &&& (self.ul_bitrate matches Some(v) ==> is_float_text(v))
    }
}

pub open spec fn opt_str_view(o: Option<String>) -> Option<Seq<char>> {
    match o {
        Some(s) => Some(s@),
        None => None,
    }
}

/// One normalized observation. The timestamp is in non-leap nanoseconds
/// since the Unix epoch; `longitude` through `ul_bitrate` follow the order
/// and meaning of the canonical schema.
#[derive(Debug, Clone)]
pub struct NetworkMeasurement {
    pub timestamp_ns: i64,
    pub longitude: Option<String>,
    pub latitude: Option<String>,
    pub speed: Option<String>,
    pub operator_name: Option<String>,
    pub operator_code: Option<String>,
    pub cgi: Option<String>,
    pub cellname: Option<String>,
    pub node: Option<String>,
    pub cell_id: Option<String>,
    pub lac: Option<String>,
    pub network_tech: Option<String>,
    pub network_mode: Option<String>,
    pub level: Option<String>,
    pub qual: Option<String>,
    pub snr: Option<String>,
    pub cqi: Option<String>,
    pub arfcn: Option<String>,
    pub dl_bitrate: Option<String>,
    pub ul_bitrate: Option<String>,
}

impl View for NetworkMeasurement {
    type V = RecordModel;

    open spec fn view(&self) -> RecordModel {
        RecordModel {
            timestamp_ns: self.timestamp_ns,
            longitude: opt_str_view(self.longitude),
            latitude: opt_str_view(self.latitude),
            speed: opt_str_view(self.speed),
            operator_name: opt_str_view(self.operator_name),
            operator_code: opt_str_view(self.operator_code),
            cgi: opt_str_view(self.cgi),
            cellname: opt_str_view(self.cellname),
            node: opt_str_view(self.node),
            cell_id: opt_str_view(self.cell_id),
            lac: opt_str_view(self.lac),
            network_tech: opt_str_view(self.network_tech),
            network_mode: opt_str_view(self.network_mode),
            level: opt_str_view(self.level),
            qual: opt_str_view(self.qual),
            snr: opt_str_view(self.snr),
            cqi: opt_str_view(self.cqi),
            arfcn: opt_str_view(self.arfcn),
            dl_bitrate: opt_str_view(self.dl_bitrate),
            ul_bitrate: opt_str_view(self.ul_bitrate),
        }
    }
}

impl NetworkMeasurement {
    /// A record with the given timestamp and every optional field absent.
    pub fn empty_at(timestamp_ns: i64) -> (r: NetworkMeasurement)
        ensures
            r@ == (RecordModel {
                timestamp_ns,
                longitude: None,
                latitude: None,
                speed: None,
                operator_name: None,
                operator_code: None,
                cgi: None,
                cellname: None,
                node: None,
                cell_id: None,
                lac: None,
                network_tech: None,
                network_mode: None,
                level: None,
                qual: None,
                snr: None,
                cqi: None,
                arfcn: None,
                dl_bitrate: None,
                ul_bitrate: None,
            }),
    {
        NetworkMeasurement {
            timestamp_ns,
            longitude: None,
            latitude: None,
            speed: None,
            operator_name: None,
            operator_code: None,
            cgi: None,
            cellname: None,
            node: None,
            cell_id: None,
            lac: None,
            network_tech: None,
            network_mode: None,
            level: None,
            qual: None,
            snr: None,
            cqi: None,
            arfcn: None,
            dl_bitrate: None,
            ul_bitrate: None,
        }
    }
}

/// The views of a sequence of records.
pub open spec fn records_view(v: Seq<NetworkMeasurement>) -> Seq<RecordModel> {
    v.map_values(|r: NetworkMeasurement| r@)
}

/// What a parse run produced: the records in source order, and how many
/// malformed inputs were skipped along the way.
pub struct ParseOutcome {
    pub records: Vec<NetworkMeasurement>,
    pub error_count: usize,
}

} // verus!
