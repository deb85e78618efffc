//! Tabular parser: delimiter-sniffing CSV/TSV reading with header-driven
//! field aliasing and per-row error tolerance. Row tokenization is the csv
//! crate's, reached through a trusted token stream; everything from the
//! header aliasing to the skip/abort policy is verified against the spec
//! fold over that stream.

use vstd::prelude::*;

use crate::record::NetworkMeasurement;
use crate::record::ParseOutcome;
use crate::record::RecordModel;
use crate::record::records_view;
use crate::text::matches_lowered;
use crate::text::eq_ignore_ascii_lower;
use crate::text::is_float_text;
use crate::text::check_float_text;
use crate::text::str_eq;
use crate::text::spec_find_char;
use crate::text::find_char_from;
use crate::timestamp::spec_parse_timestamp;
use crate::timestamp::parse_timestamp;

verus! {

/// A tokenizer over one delimited text, yielding one row per line: the
/// row's cells, or the reader's complaint for a line it cannot tokenize.
#[verifier::external_body]
pub struct CsvTokens {
    inner: csv::StringRecordsIntoIter<std::io::Cursor<Vec<u8>>>,
}

/// The rows the tokenizer has still to yield.
pub uninterp spec fn csv_remaining(t: CsvTokens) -> Seq<Result<Vec<String>, String>>;

/// All rows (the header line first) that the csv crate tokenizes the given
/// content into under the given delimiter; a function of the content and
/// the delimiter alone.
pub uninterp spec fn csv_rows(content: Seq<char>, delim: u8) -> Seq<
    Result<Vec<String>, String>,
>;

/// Relies on `csv::ReaderBuilder` (`delimiter`, `has_headers(false)`,
/// `from_reader`): the returned stream yields every row of the content.
#[verifier::external_body]
fn csv_tokens_new(content: &str, delim: u8) -> (t: CsvTokens)
    ensures
        csv_remaining(t) == csv_rows(content@, delim),
{
    let reader = csv::ReaderBuilder::new()
        .delimiter(delim)
        .has_headers(false)
        .from_reader(std::io::Cursor::new(content.as_bytes().to_vec()));
    CsvTokens { inner: reader.into_records() }
}

/// Relies on `csv::StringRecordsIntoIter::next`: yields the stream's rows
/// in order, a tokenization error surfacing as that row's `Err`.
#[verifier::external_body]
fn csv_next(t: &mut CsvTokens) -> (r: Option<Result<Vec<String>, String>>)
    ensures
        csv_remaining(*old(t)).len() == 0 ==> r is None && csv_remaining(*final(t))
            == csv_remaining(*old(t)),
        csv_remaining(*old(t)).len() > 0 ==> r == Some(csv_remaining(*old(t))[0])
            && csv_remaining(*final(t)) == csv_remaining(*old(t)).drop_first(),
{
    t.inner.next().map(|row| match row {
        Ok(rec) => Ok(rec.iter().map(|f| f.to_string()).collect()),
        Err(e) => Err(e.to_string()),
    })
}

/// How a numeric cell resolves: the empty text and the literals `N/A` and
/// `null` mean "not reported"; any other text that the float grammar
/// accepts is kept; any text it rejects degrades to "not reported" too.
pub open spec fn spec_parse_float_optional(value: Seq<char>) -> Option<Seq<char>> {
    if value.len() == 0 || value == "N/A"@ || value == "null"@ {
        None
    } else if is_float_text(value) {
        Some(value)
    } else {
        None
    }
}

/// Resolves a numeric cell. Never fails: a present but unusable text
/// leaves the field absent.
pub fn parse_float_optional(value: &str) -> (r: Option<String>)
    ensures
        ({
            let m = spec_parse_float_optional(value@);
            match r {
                Some(s) => m == Some(s@),
                None => m is None,
            }
        }),
{
    if value.is_empty() || str_eq(value, "N/A") || str_eq(value, "null") {
        return None;
    }
    if check_float_text(value) {
        Some(value.to_owned())
    } else {
        None
    }
}

/// The all-absent record a row starts from: the row's cells then fill it.
pub open spec fn spec_empty_record(now_ns: i64) -> RecordModel {
    RecordModel {
        timestamp_ns: now_ns,
        longitude: None,
        latitude: None,
        speed: None,
        operator_name: None,
        operator_code: None,
        cgi: None,
        cellname: None,
        node: None,
        cell_id: None,
        lac: None,
        network_tech: None,
        network_mode: None,
        level: None,
        qual: None,
        snr: None,
        cqi: None,
        arfcn: None,
        dl_bitrate: None,
        ul_bitrate: None,
    }
}

/// What one cell does to the record under its column header, matched
/// case-insensitively against the alias table. A timestamp cell that
/// resolves to nothing fails the row with the offending text; every other
/// cell either fills its field or is ignored.
pub open spec fn spec_cell_step(
    acc: RecordModel,
    header: Seq<char>,
    value: Seq<char>,
    now_ns: i64,
) -> Result<RecordModel, Seq<char>> {
    if matches_lowered(header, "timestamp"@) || matches_lowered(header, "time"@) {
        match spec_parse_timestamp(value, now_ns) {
            Some(n) => Ok(RecordModel { timestamp_ns: n, ..acc }),
            None => Err(value),
        }
    } else if matches_lowered(header, "longitude"@) || matches_lowered(header, "lon"@) {
        Ok(RecordModel { longitude: spec_parse_float_optional(value), ..acc })
    } else if matches_lowered(header, "latitude"@) || matches_lowered(header, "lat"@) {
        Ok(RecordModel { latitude: spec_parse_float_optional(value), ..acc })
    } else if matches_lowered(header, "speed"@) {
        Ok(RecordModel { speed: spec_parse_float_optional(value), ..acc })
    } else if matches_lowered(header, "operator"@) || matches_lowered(header, "operator_name"@) {
        Ok(RecordModel { operator_name: Some(value), ..acc })
    } else if matches_lowered(header, "mcc-mnc"@) || matches_lowered(header, "operator_code"@) {
        Ok(RecordModel { operator_code: Some(value), ..acc })
    } else if matches_lowered(header, "cgi"@) {
        Ok(RecordModel { cgi: Some(value), ..acc })
    } else if matches_lowered(header, "cellname"@) {
        Ok(RecordModel { cellname: Some(value), ..acc })
    } else if matches_lowered(header, "node"@) || matches_lowered(header, "rnc"@)
        || matches_lowered(header, "enodeb"@) {
        Ok(RecordModel { node: Some(value), ..acc })
    } else if matches_lowered(header, "cellid"@) || matches_lowered(header, "cell_id"@) {
        Ok(RecordModel { cell_id: Some(value), ..acc })
    } else if matches_lowered(header, "lac"@) {
        Ok(RecordModel { lac: Some(value), ..acc })
    } else if matches_lowered(header, "networktech"@) || matches_lowered(header, "network_tech"@)
        || matches_lowered(header, "tech"@) {
        Ok(RecordModel { network_tech: Some(value), ..acc })
    } else if matches_lowered(header, "networkmode"@) || matches_lowered(header, "network_mode"@)
        || matches_lowered(header, "mode"@) {
        Ok(RecordModel { network_mode: Some(value), ..acc })
    } else if matches_lowered(header, "level"@) || matches_lowered(header, "rsrp"@)
        || matches_lowered(header, "rscp"@) || matches_lowered(header, "rxlevel"@) {
        Ok(RecordModel { level: spec_parse_float_optional(value), ..acc })
    } else if matches_lowered(header, "qual"@) || matches_lowered(header, "rsrq"@)
        || matches_lowered(header, "ecno"@) || matches_lowered(header, "rxqual"@) {
        Ok(RecordModel { qual: spec_parse_float_optional(value), ..acc })
    } else if matches_lowered(header, "snr"@) {
        Ok(RecordModel { snr: spec_parse_float_optional(value), ..acc })
    } else if matches_lowered(header, "cqi"@) {
        Ok(RecordModel { cqi: spec_parse_float_optional(value), ..acc })
    } else if matches_lowered(header, "arfcn"@) {
        Ok(RecordModel { arfcn: Some(value), ..acc })
    } else if matches_lowered(header, "dl_bitrate"@) || matches_lowered(
        header,
        "downlink_bitrate"@,
    ) {
        Ok(RecordModel { dl_bitrate: spec_parse_float_optional(value), ..acc })
    } else if matches_lowered(header, "ul_bitrate"@) || matches_lowered(
        header,
        "uplink_bitrate"@,
    ) {
        Ok(RecordModel { ul_bitrate: spec_parse_float_optional(value), ..acc })
    } else {
        Ok(acc)
    }
}

/// An empty cell under a timestamp alias never fails the row: the record's
/// timestamp becomes "now".
pub proof fn lemma_empty_timestamp_is_now(acc: RecordModel, header: Seq<char>, now_ns: i64)
    requires
        matches_lowered(header, "timestamp"@) || matches_lowered(header, "time"@),
    ensures
        spec_cell_step(acc, header, Seq::<char>::empty(), now_ns) matches Ok(v)
            && v.timestamp_ns == now_ns,
{
}

/// The record a whole row folds to, cell by cell from position `i`; cells
/// beyond the header row are ignored.
pub open spec fn spec_row_fold(
    record: Seq<String>,
    headers: Seq<String>,
    i: int,
    acc: RecordModel,
    now_ns: i64,
) -> Result<RecordModel, Seq<char>>
    decreases record.len() - i,
{
    if i < 0 || i >= record.len() {
        Ok(acc)
    } else if i < headers.len() {
        match spec_cell_step(acc, headers[i]@, record[i]@, now_ns) {
            Ok(a) => spec_row_fold(record, headers, i + 1, a, now_ns),
            Err(e) => Err(e),
        }
    } else {
        spec_row_fold(record, headers, i + 1, acc, now_ns)
    }
}

impl NetworkMeasurement {
    /// Converts one data row under the given header row; `now_ns` stands in
    /// for the current instant. Fails exactly where a timestamp cell does,
    /// returning the unusable text; every other cell-level problem only
    /// leaves its field absent.
    pub fn from_csv_record(
        record: &Vec<String>,
        headers: &Vec<String>,
        now_ns: i64,
    ) -> (r: Result<NetworkMeasurement, String>)
        ensures
            ({
                let m = spec_row_fold(record@, headers@, 0, spec_empty_record(now_ns), now_ns);
                match r {
                    Ok(rec) => m matches Ok(v) && rec@ == v,
                    Err(s) => m matches Err(e) && s@ == e,
                }
            }),
    {
        let mut rec = NetworkMeasurement::empty_at(now_ns);
        let mut i: usize = 0;
        while i < record.len()
            invariant
                0 <= i <= record@.len(),
                spec_row_fold(record@, headers@, 0, spec_empty_record(now_ns), now_ns)
                    == spec_row_fold(record@, headers@, i as int, rec@, now_ns),
            decreases record@.len() - i,
        {
            if i < headers.len() {
                let header: &String = &headers[i];
                let value: &String = &record[i];
                let h = header.as_str();
                let v = value.as_str();
                let ghost acc = rec@;
                if eq_ignore_ascii_lower(h, "timestamp") || eq_ignore_ascii_lower(h, "time") {
                    match parse_timestamp(v, now_ns) {
                        Some(n) => {
                            rec.timestamp_ns = n;
                        },
                        None => {
                            return Err(value.clone());
                        },
                    }
                } else if eq_ignore_ascii_lower(h, "longitude") || eq_ignore_ascii_lower(
                    h,
                    "lon",
                ) {
                    rec.longitude = parse_float_optional(v);
                } else if eq_ignore_ascii_lower(h, "latitude") || eq_ignore_ascii_lower(
                    h,
                    "lat",
                ) {
                    rec.latitude = parse_float_optional(v);
                } else if eq_ignore_ascii_lower(h, "speed") {
                    rec.speed = parse_float_optional(v);
                } else if eq_ignore_ascii_lower(h, "operator") || eq_ignore_ascii_lower(
                    h,
                    "operator_name",
                ) {
                    rec.operator_name = Some(value.clone());
                } else if eq_ignore_ascii_lower(h, "mcc-mnc") || eq_ignore_ascii_lower(
                    h,
                    "operator_code",
                ) {
                    rec.operator_code = Some(value.clone());
                } else if eq_ignore_ascii_lower(h, "cgi") {
                    rec.cgi = Some(value.clone());
                } else if eq_ignore_ascii_lower(h, "cellname") {
                    rec.cellname = Some(value.clone());
                } else if eq_ignore_ascii_lower(h, "node") || eq_ignore_ascii_lower(h, "rnc")
                    || eq_ignore_ascii_lower(h, "enodeb") {
                    rec.node = Some(value.clone());
                } else if eq_ignore_ascii_lower(h, "cellid") || eq_ignore_ascii_lower(
                    h,
                    "cell_id",
                ) {
                    rec.cell_id = Some(value.clone());
                } else if eq_ignore_ascii_lower(h, "lac") {
                    rec.lac = Some(value.clone());
                } else if eq_ignore_ascii_lower(h, "networktech") || eq_ignore_ascii_lower(
                    h,
                    "network_tech",
                ) || eq_ignore_ascii_lower(h, "tech") {
                    rec.network_tech = Some(value.clone());
                } else if eq_ignore_ascii_lower(h, "networkmode") || eq_ignore_ascii_lower(
                    h,
                    "network_mode",
                ) || eq_ignore_ascii_lower(h, "mode") {
                    rec.network_mode = Some(value.clone());
                } else if eq_ignore_ascii_lower(h, "level") || eq_ignore_ascii_lower(h, "rsrp")
                    || eq_ignore_ascii_lower(h, "rscp") || eq_ignore_ascii_lower(h, "rxlevel") {
                    rec.level = parse_float_optional(v);
                } else if eq_ignore_ascii_lower(h, "qual") || eq_ignore_ascii_lower(h, "rsrq")
                    || eq_ignore_ascii_lower(h, "ecno") || eq_ignore_ascii_lower(h, "rxqual") {
                    rec.qual = parse_float_optional(v);
                } else if eq_ignore_ascii_lower(h, "snr") {
                    rec.snr = parse_float_optional(v);
                } else if eq_ignore_ascii_lower(h, "cqi") {
                    rec.cqi = parse_float_optional(v);
                } else if eq_ignore_ascii_lower(h, "arfcn") {
                    rec.arfcn = Some(value.clone());
                } else if eq_ignore_ascii_lower(h, "dl_bitrate") || eq_ignore_ascii_lower(
                    h,
                    "downlink_bitrate",
                ) {
                    rec.dl_bitrate = parse_float_optional(v);
                } else if eq_ignore_ascii_lower(h, "ul_bitrate") || eq_ignore_ascii_lower(
                    h,
                    "uplink_bitrate",
                ) {
                    rec.ul_bitrate = parse_float_optional(v);
                }
                proof {
                    assert(spec_cell_step(acc, headers@[i as int]@, record@[i as int]@, now_ns)
                        matches Ok(a) && a == rec@);
                }
            }
            i = i + 1;
        }
        Ok(rec)
    }
}

/// Each cell keeps the record well-formed: a numeric field is only ever
/// filled with text the float grammar accepts.
pub proof fn lemma_cell_step_wf(
    acc: RecordModel,
    header: Seq<char>,
    value: Seq<char>,
    now_ns: i64,
)
    requires
        acc.wf(),
    ensures
        spec_cell_step(acc, header, value, now_ns) matches Ok(a) ==> a.wf(),
{
}

proof fn lemma_row_fold_wf(
    record: Seq<String>,
    headers: Seq<String>,
    i: int,
    acc: RecordModel,
    now_ns: i64,
)
    requires
        acc.wf(),
    ensures
        spec_row_fold(record, headers, i, acc, now_ns) matches Ok(v) ==> v.wf(),
    decreases record.len() - i,
{
    if 0 <= i < record.len() {
        if i < headers.len() {
            lemma_cell_step_wf(acc, headers[i]@, record[i]@, now_ns);
            match spec_cell_step(acc, headers[i]@, record[i]@, now_ns) {
                Ok(a) => {
                    lemma_row_fold_wf(record, headers, i + 1, a, now_ns);
                },
                Err(e) => {
                },
            }
        } else {
            lemma_row_fold_wf(record, headers, i + 1, acc, now_ns);
        }
    }
}

proof fn lemma_tab_fold_wf(
    headers: Seq<String>,
    rows: Seq<Result<Vec<String>, String>>,
    j: int,
    recs: Seq<RecordModel>,
    errs: int,
    skip_invalid: bool,
    now_ns: i64,
)
    requires
        forall|k: int| 0 <= k < recs.len() ==> (#[trigger] recs[k]).wf(),
    ensures
        spec_tab_fold(headers, rows, j, recs, errs, skip_invalid, now_ns) matches Ok(p)
            ==> forall|k: int| 0 <= k < p.0.len() ==> (#[trigger] p.0[k]).wf(),
    decreases rows.len() - j,
{
    if 1 <= j < rows.len() {
        match rows[j] {
            Ok(fields) => {
                lemma_row_fold_wf(fields@, headers, 0, spec_empty_record(now_ns), now_ns);
                match spec_row_fold(fields@, headers, 0, spec_empty_record(now_ns), now_ns) {
                    Ok(v) => {
                        assert forall|k: int|
                            0 <= k < recs.push(v).len() implies (#[trigger] recs.push(
                            v,
                        )[k]).wf() by {
                            if k < recs.len() {
                                assert(recs[k].wf());
                            }
                        }
                        lemma_tab_fold_wf(
                            headers,
                            rows,
                            j + 1,
                            recs.push(v),
                            errs,
                            skip_invalid,
                            now_ns,
                        );
                    },
                    Err(e) => {
                        lemma_tab_fold_wf(
                            headers,
                            rows,
                            j + 1,
                            recs,
                            errs + 1,
                            skip_invalid,
                            now_ns,
                        );
                    },
                }
            },
            Err(m) => {
                lemma_tab_fold_wf(headers, rows, j + 1, recs, errs + 1, skip_invalid, now_ns);
            },
        }
    }
}

/// Every record a tabular parse yields is well-formed: its numeric fields,
/// where present, hold float-grammar text.
pub proof fn lemma_tabular_records_wf(
    rows: Seq<Result<Vec<String>, String>>,
    skip_invalid: bool,
    now_ns: i64,
)
    ensures
        spec_tab_outcome(rows, skip_invalid, now_ns) matches Ok(p) ==> forall|k: int|
            0 <= k < p.0.len() ==> (#[trigger] p.0[k]).wf(),
{
    if rows.len() > 0 {
        match rows[0] {
            Ok(hdrs) => {
                lemma_tab_fold_wf(hdrs@, rows, 1, Seq::empty(), 0, skip_invalid, now_ns);
            },
            Err(m) => {
            },
        }
    }
}

/// Why a data row was rejected: the reader could not tokenize the line, or
/// its timestamp cell held an unusable text.
#[derive(Debug)]
pub enum RowIssue {
    Malformed { message: String },
    BadTimestamp { value: String },
}

pub enum RowIssueModel {
    Malformed { message: Seq<char> },
    BadTimestamp { value: Seq<char> },
}

impl View for RowIssue {
    type V = RowIssueModel;

    open spec fn view(&self) -> RowIssueModel {
        match self {
            RowIssue::Malformed { message } => RowIssueModel::Malformed { message: message@ },
            RowIssue::BadTimestamp { value } => RowIssueModel::BadTimestamp { value: value@ },
        }
    }
}

/// Why a tabular parse aborted: the header line could not be read, or —
/// with skipping off — a data row failed. `line` is 1-based with the header
/// as line 1, so the first data row is line 2.
#[derive(Debug)]
pub enum TabError {
    Header { message: String },
    Row { line: usize, issue: RowIssue },
}

pub enum TabErrorModel {
    Header { message: Seq<char> },
    Row { line: int, issue: RowIssueModel },
}

impl View for TabError {
    type V = TabErrorModel;

    open spec fn view(&self) -> TabErrorModel {
        match self {
            TabError::Header { message } => TabErrorModel::Header { message: message@ },
            TabError::Row { line, issue } => TabErrorModel::Row {
                line: *line as int,
                issue: issue@,
            },
        }
    }
}

/// Whether data row `j` of the row stream converts to a record.
pub open spec fn row_converts(
    headers: Seq<String>,
    rows: Seq<Result<Vec<String>, String>>,
    j: int,
    now_ns: i64,
) -> bool {
    rows[j] matches Ok(fields) && spec_row_fold(
        fields@,
        headers,
        0,
        spec_empty_record(now_ns),
        now_ns,
    ) is Ok
}

/// The records of the data rows from `j` on that convert, in order.
pub open spec fn spec_converted_records(
    headers: Seq<String>,
    rows: Seq<Result<Vec<String>, String>>,
    j: int,
    now_ns: i64,
) -> Seq<RecordModel>
    decreases rows.len() - j,
{
    if j < 0 || j >= rows.len() {
        Seq::empty()
    } else {
        let rest = spec_converted_records(headers, rows, j + 1, now_ns);
        match rows[j] {
            Ok(fields) => match spec_row_fold(
                fields@,
                headers,
                0,
                spec_empty_record(now_ns),
                now_ns,
            ) {
                Ok(v) => seq![v] + rest,
                Err(e) => rest,
            },
            Err(m) => rest,
        }
    }
}

/// How many data rows from `j` on fail to convert.
pub open spec fn spec_failure_count(
    headers: Seq<String>,
    rows: Seq<Result<Vec<String>, String>>,
    j: int,
    now_ns: i64,
) -> int
    decreases rows.len() - j,
{
    if j < 0 || j >= rows.len() {
        0
    } else {
        let rest = spec_failure_count(headers, rows, j + 1, now_ns);
        if row_converts(headers, rows, j, now_ns) {
            rest
        } else {
            1 + rest
        }
    }
}

/// The error a failing data row `j` aborts the parse with.
pub open spec fn spec_row_error(
    headers: Seq<String>,
    rows: Seq<Result<Vec<String>, String>>,
    j: int,
    now_ns: i64,
) -> TabErrorModel {
    match rows[j] {
        Ok(fields) => match spec_row_fold(
            fields@,
            headers,
            0,
            spec_empty_record(now_ns),
            now_ns,
        ) {
            Ok(v) => TabErrorModel::Header { message: Seq::empty() },  // unreachable for failing rows
            Err(tsval) => TabErrorModel::Row {
                line: j + 1,
                issue: RowIssueModel::BadTimestamp { value: tsval },
            },
        },
        Err(m) => TabErrorModel::Row { line: j + 1, issue: RowIssueModel::Malformed {
            message: m@,
        } },
    }
}

/// The whole tabular parse from data row `j` on, under the skip/abort
/// policy, starting from what was already gathered.
pub open spec fn spec_tab_fold(
    headers: Seq<String>,
    rows: Seq<Result<Vec<String>, String>>,
    j: int,
    recs: Seq<RecordModel>,
    errs: int,
    skip_invalid: bool,
    now_ns: i64,
) -> Result<(Seq<RecordModel>, int), TabErrorModel>
    decreases rows.len() - j,
{
    if j < 1 || j >= rows.len() {
        Ok((recs, errs))
    } else {
        match rows[j] {
            Ok(fields) => match spec_row_fold(
                fields@,
                headers,
                0,
                spec_empty_record(now_ns),
                now_ns,
            ) {
                Ok(v) => spec_tab_fold(
                    headers,
                    rows,
                    j + 1,
                    recs.push(v),
                    errs,
                    skip_invalid,
                    now_ns,
                ),
                Err(tsval) => if skip_invalid {
                    spec_tab_fold(headers, rows, j + 1, recs, errs + 1, skip_invalid, now_ns)
                } else {
                    Err(spec_row_error(headers, rows, j, now_ns))
                },
            },
            Err(m) => if skip_invalid {
                spec_tab_fold(headers, rows, j + 1, recs, errs + 1, skip_invalid, now_ns)
            } else {
                Err(spec_row_error(headers, rows, j, now_ns))
            },
        }
    }
}

proof fn lemma_fold_abort(
    headers: Seq<String>,
    rows: Seq<Result<Vec<String>, String>>,
    i: int,
    recs: Seq<RecordModel>,
    errs: int,
    now_ns: i64,
    j: int,
)
    requires
        1 <= i <= j < rows.len(),
        forall|t: int| i <= t < j ==> row_converts(headers, rows, t, now_ns),
        !row_converts(headers, rows, j, now_ns),
    ensures
        spec_tab_fold(headers, rows, i, recs, errs, false, now_ns) == Err::<
            (Seq<RecordModel>, int),
            TabErrorModel,
        >(spec_row_error(headers, rows, j, now_ns)),
    decreases j - i,
{
    if i < j {
        assert(row_converts(headers, rows, i, now_ns));
        let fields = rows[i]->Ok_0;
        let v = spec_row_fold(fields@, headers, 0, spec_empty_record(now_ns), now_ns)->Ok_0;
        lemma_fold_abort(headers, rows, i + 1, recs.push(v), errs, now_ns, j);
    }
}

/// With skipping off, the first data row that fails to convert aborts the
/// whole parse, and the error cites that row's 1-based file line — the
/// header is line 1, so data row `j` of the stream is line `j + 1`.
pub proof fn lemma_tabular_abort(
    headers: Seq<String>,
    rows: Seq<Result<Vec<String>, String>>,
    now_ns: i64,
    j: int,
)
    requires
        1 <= j < rows.len(),
        forall|t: int| 1 <= t < j ==> row_converts(headers, rows, t, now_ns),
        !row_converts(headers, rows, j, now_ns),
    ensures
        spec_tab_fold(headers, rows, 1, Seq::empty(), 0, false, now_ns) == Err::<
            (Seq<RecordModel>, int),
            TabErrorModel,
        >(spec_row_error(headers, rows, j, now_ns)),
        spec_row_error(headers, rows, j, now_ns) matches TabErrorModel::Row { line, .. }
            && line == j + 1,
{
    lemma_fold_abort(headers, rows, 1, Seq::empty(), 0, now_ns, j);
}

proof fn lemma_fold_skip(
    headers: Seq<String>,
    rows: Seq<Result<Vec<String>, String>>,
    j: int,
    recs: Seq<RecordModel>,
    errs: int,
    now_ns: i64,
)
    requires
        1 <= j,
    ensures
        spec_tab_fold(headers, rows, j, recs, errs, true, now_ns) == Ok::<
            (Seq<RecordModel>, int),
            TabErrorModel,
        >(
            (
                recs + spec_converted_records(headers, rows, j, now_ns),
                errs + spec_failure_count(headers, rows, j, now_ns),
            ),
        ),
    decreases rows.len() - j,
{
    if j >= rows.len() {
        assert(recs + spec_converted_records(headers, rows, j, now_ns) =~= recs);
    } else {
        if row_converts(headers, rows, j, now_ns) {
            let fields = rows[j]->Ok_0;
            let v = spec_row_fold(fields@, headers, 0, spec_empty_record(now_ns), now_ns)->Ok_0;
            lemma_fold_skip(headers, rows, j + 1, recs.push(v), errs, now_ns);
            assert(recs.push(v) + spec_converted_records(headers, rows, j + 1, now_ns) =~= recs
                + spec_converted_records(headers, rows, j, now_ns));
        } else {
            lemma_fold_skip(headers, rows, j + 1, recs, errs + 1, now_ns);
        }
    }
}

/// With skipping on, a parse never aborts on a data row: it yields exactly
/// the records of the rows that convert, in order, and counts each row
/// that does not.
pub proof fn lemma_tabular_skip(
    headers: Seq<String>,
    rows: Seq<Result<Vec<String>, String>>,
    now_ns: i64,
)
    ensures
        spec_tab_fold(headers, rows, 1, Seq::empty(), 0, true, now_ns) == Ok::<
            (Seq<RecordModel>, int),
            TabErrorModel,
        >(
            (
                spec_converted_records(headers, rows, 1, now_ns),
                spec_failure_count(headers, rows, 1, now_ns),
            ),
        ),
{
    lemma_fold_skip(headers, rows, 1, Seq::empty(), 0, now_ns);
    assert(Seq::empty() + spec_converted_records(headers, rows, 1, now_ns)
        =~= spec_converted_records(headers, rows, 1, now_ns));
}

/// What a whole tabular parse yields for a row stream: an empty stream is
/// an empty success; a bad header line is an error; otherwise the fold over
/// the data rows decides.
pub open spec fn spec_tab_outcome(
    rows: Seq<Result<Vec<String>, String>>,
    skip_invalid: bool,
    now_ns: i64,
) -> Result<(Seq<RecordModel>, int), TabErrorModel> {
    if rows.len() == 0 {
        Ok((Seq::empty(), 0))
    } else {
        match rows[0] {
            Err(m) => Err(TabErrorModel::Header { message: m@ }),
            Ok(hdrs) => spec_tab_fold(hdrs@, rows, 1, Seq::empty(), 0, skip_invalid, now_ns),
        }
    }
}

/// The delimiter the first line selects for the whole file: tab where the
/// first line holds a tab, else comma.
pub open spec fn spec_detect_delimiter(content: Seq<char>) -> u8 {
    if content.take(spec_find_char(content, '\n')).contains('\t') {
        9u8
    } else {
        44u8
    }
}

/// Reads delimited text into canonical records under a skip/abort policy
/// for malformed rows.
pub struct LogParser {
    pub skip_invalid: bool,
}

impl LogParser {
    /// The batch size is a writer concern and is ignored here; it is kept
    /// so that both knobs of the processing configuration pass through one
    /// constructor.
    pub fn new(_batch_size: usize, skip_invalid: bool) -> (r: LogParser)
        ensures
            r.skip_invalid == skip_invalid,
    {
        LogParser { skip_invalid }
    }

    /// Picks tab where the first line holds a tab, else comma; the choice
    /// is made once and applies to the whole file.
    pub fn detect_delimiter(&self, content: &str) -> (r: u8)
        ensures
            r == spec_detect_delimiter(content@),
    {
        proof {
            assert(content@.skip(0) =~= content@);
        }
        let nl = find_char_from(content, 0, '\n');
        let ghost line1 = content@.take(spec_find_char(content@, '\n'));
        let mut i: usize = 0;
        while i < nl
            invariant
                0 <= i <= nl,
                nl <= content@.len(),
                nl == spec_find_char(content@, '\n'),
                line1 == content@.take(nl as int),
                forall|j: int| 0 <= j < i ==> content@[j] != '\t',
            decreases nl - i,
        {
            if content.get_char(i) == '\t' {
                proof {
                    assert(line1[i as int] == '\t');
                }
                return 9u8;
            }
            i = i + 1;
        }
        proof {
            assert(!line1.contains('\t')) by {
                if line1.contains('\t') {
                    let k = choose|k: int| 0 <= k < line1.len() && line1[k] == '\t';
                    assert(content@[k] == '\t');
                }
            }
        }
        44u8
    }

    /// Parses a whole delimited text: sniffs the delimiter off the first
    /// line, takes the first row as the header, and converts every further
    /// row, skipping or aborting on failures as configured. `now_ns` stands
    /// in for the current instant.
    pub fn parse_file(&self, content: &str, now_ns: i64) -> (r: Result<ParseOutcome, TabError>)
        ensures
            ({
                let rows = csv_rows(content@, spec_detect_delimiter(content@));
                let m = spec_tab_outcome(rows, self.skip_invalid, now_ns);
                match r {
                    Ok(out) => m matches Ok(p) && records_view(out.records@) == p.0
                        && out.error_count == p.1,
                    Err(e) => m matches Err(me) && e@ == me,
                }
            }),
    {
        let delim = self.detect_delimiter(content);
        let mut tokens = csv_tokens_new(content, delim);
        let ghost all_rows = csv_rows(content@, delim);
        let mut rows: Vec<Result<Vec<String>, String>> = Vec::new();
        let mut done = false;
        while !done
            invariant
                rows@ + csv_remaining(tokens) == all_rows,
                done ==> csv_remaining(tokens).len() == 0,
            decreases csv_remaining(tokens).len() + (if done {
                0int
            } else {
                1int
            }),
        {
            match csv_next(&mut tokens) {
                Some(row) => {
                    rows.push(row);
                    proof {
                        assert(rows@ + csv_remaining(tokens) =~= all_rows);
                    }
                },
                None => {
                    done = true;
                },
            }
        }
        proof {
            assert(rows@ =~= all_rows);
        }
        if rows.len() == 0 {
            return Ok(ParseOutcome { records: Vec::new(), error_count: 0 });
        }
        let headers: &Vec<String> = match &rows[0] {
            Ok(h) => h,
            Err(m) => {
                return Err(TabError::Header { message: m.clone() });
            },
        };
        let mut records: Vec<NetworkMeasurement> = Vec::new();
        let mut error_count: usize = 0;
        let mut j: usize = 1;
        proof {
            assert(records_view(records@) =~= Seq::<RecordModel>::empty());
        }
        while j < rows.len()
            invariant
                1 <= j <= rows@.len(),
                rows@ == all_rows,
                all_rows == csv_rows(content@, spec_detect_delimiter(content@)),
                rows@.len() > 0,
                rows@[0] matches Ok(h) && h == headers,
                error_count < j,
                spec_tab_fold(headers@, rows@, 1, Seq::empty(), 0, self.skip_invalid, now_ns)
                    == spec_tab_fold(
                    headers@,
                    rows@,
                    j as int,
                    records_view(records@),
                    error_count as int,
                    self.skip_invalid,
                    now_ns,
                ),
            decreases rows@.len() - j,
        {
            let ghost recs0 = records_view(records@);
            match &rows[j] {
                Ok(fields) => {
                    match NetworkMeasurement::from_csv_record(fields, headers, now_ns) {
                        Ok(rec) => {
                            records.push(rec);
                            proof {
                                assert(records_view(records@) =~= recs0.push(rec@));
                            }
                        },
                        Err(tsval) => {
                            error_count = error_count + 1;
                            if !self.skip_invalid {
                                return Err(TabError::Row {
                                    line: j + 1,
                                    issue: RowIssue::BadTimestamp { value: tsval },
                                });
                            }
                        },
                    }
                },
                Err(m) => {
                    error_count = error_count + 1;
                    if !self.skip_invalid {
                        return Err(TabError::Row {
                            line: j + 1,
                            issue: RowIssue::Malformed { message: m.clone() },
                        });
                    }
                },
            }
            j = j + 1;
        }
        Ok(ParseOutcome { records, error_count })
    }
}

} // verus!
