//! Pipeline driver: selects a parser by the input's file extension and
//! runs it over the file's content. Reading the file, and the batched
//! writes that follow a non-empty parse, are the embedding program's; the
//! chunk plan it must follow is `influx_client::chunk_spans`, which plans
//! no write at all for zero records.

use vstd::prelude::*;

use crate::kml_parser::KmlError;
use crate::kml_parser::KmlErrorModel;
use crate::kml_parser::KmlParser;
use crate::kml_parser::spec_kml_outcome;
use crate::kml_parser::xml_events_of;
use crate::parser::LogParser;
use crate::parser::TabError;
use crate::parser::TabErrorModel;
use crate::parser::csv_rows;
use crate::parser::spec_detect_delimiter;
use crate::parser::spec_tab_outcome;
use crate::record::ParseOutcome;
use crate::record::records_view;
use crate::text::matches_lowered;
use crate::text::eq_ignore_ascii_lower;

verus! {

/// Whether the file name selects the KML parser: a case-insensitive
/// `.kml` extension.
pub open spec fn spec_is_kml_path(path: Seq<char>) -> bool {
    path.len() >= 4 && matches_lowered(path.skip(path.len() - 4), ".kml"@)
}

/// Decides the parser by the file name's extension.
pub fn is_kml_path(path: &str) -> (r: bool)
    ensures
        r == spec_is_kml_path(path@),
{
    let n: usize = path.unicode_len();
    if n < 4 {
        return false;
    }
    let tail = path.substring_char(n - 4, n);
    proof {
        assert(tail@ =~= path@.skip(path@.len() - 4));
    }
    eq_ignore_ascii_lower(tail, ".kml")
}

/// Why a pipeline run failed to parse: carried over from whichever parser
/// ran.
#[derive(Debug)]
pub enum PipelineError {
    Tabular { error: TabError },
    Kml { error: KmlError },
}

pub enum PipelineErrorModel {
    Tabular { error: TabErrorModel },
    Kml { error: KmlErrorModel },
}

impl View for PipelineError {
    type V = PipelineErrorModel;

    open spec fn view(&self) -> PipelineErrorModel {
        match self {
            PipelineError::Tabular { error } => PipelineErrorModel::Tabular { error: error@ },
            PipelineError::Kml { error } => PipelineErrorModel::Kml { error: error@ },
        }
    }
}

/// Parses the input with the parser its name selects — the KML parser for
/// a `.kml` extension (case-insensitively), the tabular parser otherwise —
/// passing the skip/abort policy through. `now_ns` stands in for the
/// current instant.
pub fn parse_records(
    file_name: &str,
    content: &str,
    skip_invalid: bool,
    batch_size: usize,
    now_ns: i64,
) -> (r: Result<ParseOutcome, PipelineError>)
    ensures
        spec_is_kml_path(file_name@) ==> ({
            let m = spec_kml_outcome(xml_events_of(content@), skip_invalid, now_ns);
            match r {
                Ok(out) => m matches Ok(p) && records_view(out.records@) == p.0
                    && out.error_count == p.1,
                Err(e) => m matches Err(me) && e@ == (PipelineErrorModel::Kml { error: me }),
            }
        }),
        !spec_is_kml_path(file_name@) ==> ({
            let rows = csv_rows(content@, spec_detect_delimiter(content@));
            let m = spec_tab_outcome(rows, skip_invalid, now_ns);
            match r {
                Ok(out) => m matches Ok(p) && records_view(out.records@) == p.0
                    && out.error_count == p.1,
                Err(e) => m matches Err(me) && e@ == (PipelineErrorModel::Tabular {
                    error: me,
                }),
            }
        }),
{
    if is_kml_path(file_name) {
        let parser = KmlParser::new(skip_invalid);
        match parser.parse_file(content, now_ns) {
            Ok(out) => Ok(out),
            Err(e) => Err(PipelineError::Kml { error: e }),
        }
    } else {
        let parser = LogParser::new(batch_size, skip_invalid);
        match parser.parse_file(content, now_ns) {
            Ok(out) => Ok(out),
            Err(e) => Err(PipelineError::Tabular { error: e }),
        }
    }
}

} // verus!
