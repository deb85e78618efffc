//! KML parser: a single streaming pass over the document's markup events,
//! accumulating per-placemark key/value pairs and coordinate strings, then
//! converting each placemark to a canonical record. Tokenization is the
//! quick-xml crate's, reached through a trusted token stream; the placemark
//! state machine, the unit stripping and the skip/abort policy are verified
//! against a spec fold over that stream.

use vstd::prelude::*;

use quick_xml::events::Event;

use crate::record::NetworkMeasurement;
use crate::record::ParseOutcome;
use crate::record::RecordModel;
use crate::record::records_view;
use crate::text::is_float_text;
use crate::text::check_float_text;
use crate::text::str_eq;
use crate::text::spec_split;
use crate::text::split_char;
use crate::text::spec_trim;
use crate::text::trim_str;
use crate::text::spec_strip_all;
use crate::text::strip_all;
use crate::timestamp::spec_parse_kml_timestamp;
use crate::timestamp::parse_kml_timestamp;

verus! {

/// One markup event, reduced to what the placemark machine reads: element
/// openings (with the `name` attribute, where one is present), closings,
/// text runs, reader-level errors, and anything else as `Other`.
pub enum XmlEvent {
    Start { name: String, name_attr: Option<String> },
    End { name: String },
    Text { content: String },
    Bad { message: String },
    Other,
}

/// A tokenizer over one document, yielding its markup events in order.
#[verifier::external_body]
pub struct XmlTokens {
    inner: quick_xml::Reader<std::io::Cursor<Vec<u8>>>,
    buf: Vec<u8>,
}

/// The events the tokenizer has still to yield.
pub uninterp spec fn xml_remaining(t: XmlTokens) -> Seq<XmlEvent>;

/// All events (in document order, ending before end-of-file) that quick-xml
/// tokenizes the given content into, with text trimming on; a function of
/// the content alone.
pub uninterp spec fn xml_events_of(content: Seq<char>) -> Seq<XmlEvent>;

/// Relies on `quick_xml::Reader::from_reader` with `trim_text(true)`: the
/// returned stream yields every event of the content.
#[verifier::external_body]
fn xml_tokens_new(content: &str) -> (t: XmlTokens)
    ensures
        xml_remaining(t) == xml_events_of(content@),
{
    let mut reader = quick_xml::Reader::from_reader(
        std::io::Cursor::new(content.as_bytes().to_vec()),
    );
    reader.config_mut().trim_text(true);
    XmlTokens { inner: reader, buf: Vec::new() }
}

/// Relies on `quick_xml::Reader::read_event_into`, `BytesStart::name`,
/// `BytesStart::try_get_attribute` (for the `name` attribute) and
/// `BytesText::into_inner`: yields the stream's events in order, a reader
/// error surfacing as that event's `Bad`.
#[verifier::external_body]
fn xml_next(t: &mut XmlTokens) -> (r: Option<XmlEvent>)
    ensures
        xml_remaining(*old(t)).len() == 0 ==> r is None && xml_remaining(*final(t))
            == xml_remaining(*old(t)),
        xml_remaining(*old(t)).len() > 0 ==> r == Some(xml_remaining(*old(t))[0])
            && xml_remaining(*final(t)) == xml_remaining(*old(t)).drop_first(),
{
    t.buf.clear();
    match t.inner.read_event_into(&mut t.buf) {
        Ok(Event::Start(s)) => Some(XmlEvent::Start {
            name: s.name().as_ref().to_owned(),
            name_attr: s.try_get_attribute("name").ok().flatten().map(|a| a.value.into_owned()),
        }),
        Ok(Event::End(e)) => Some(XmlEvent::End { name: e.name().as_ref().to_owned() }),
        Ok(Event::Text(v)) => Some(XmlEvent::Text { content: v.into_inner().into_owned() }),
        Ok(Event::Eof) => None,
        Ok(_) => Some(XmlEvent::Other),
        Err(e) => Some(XmlEvent::Bad { message: e.to_string() }),
    }
}

/// The view of a placemark accumulator: each field as gathered text.
pub struct PlacemarkModel {
    pub technology: Option<Seq<char>>,
    pub rsrp: Option<Seq<char>>,
    pub speed: Option<Seq<char>>,
    pub altitude: Option<Seq<char>>,
    pub time: Option<Seq<char>>,
    pub coordinates: Option<Seq<char>>,
}

pub open spec fn spec_empty_placemark() -> PlacemarkModel {
    PlacemarkModel {
        technology: None,
        rsrp: None,
        speed: None,
        altitude: None,
        time: None,
        coordinates: None,
    }
}

/// A mutable bag of optional strings scoped to one placemark's parse,
/// discarded after conversion to a record or on error.
pub struct PlacemarkData {
    pub technology: Option<String>,
    pub rsrp: Option<String>,
    pub speed: Option<String>,
    pub altitude: Option<String>,
    pub time: Option<String>,
    pub coordinates: Option<String>,
}

impl View for PlacemarkData {
    type V = PlacemarkModel;

    open spec fn view(&self) -> PlacemarkModel {
        PlacemarkModel {
            technology: crate::record::opt_str_view(self.technology),
            rsrp: crate::record::opt_str_view(self.rsrp),
            speed: crate::record::opt_str_view(self.speed),
            altitude: crate::record::opt_str_view(self.altitude),
            time: crate::record::opt_str_view(self.time),
            coordinates: crate::record::opt_str_view(self.coordinates),
        }
    }
}

/// How one data field routes into the accumulator: the attribute's literal
/// name is matched against the small fixed label set (technology, signal
/// level, speed, altitude, time); unrecognized names are dropped.
pub open spec fn spec_add_data(
    pm: PlacemarkModel,
    name: Seq<char>,
    value: Seq<char>,
) -> PlacemarkModel {
    if name == "技術"@ {
        PlacemarkModel { technology: Some(value), ..pm }
    } else if name == "RSRP"@ {
        PlacemarkModel { rsrp: Some(value), ..pm }
    } else if name == "速度"@ {
        PlacemarkModel { speed: Some(value), ..pm }
    } else if name == "高度"@ {
        PlacemarkModel { altitude: Some(value), ..pm }
    } else if name == "時間"@ {
        PlacemarkModel { time: Some(value), ..pm }
    } else {
        pm
    }
}

impl PlacemarkData {
    /// An accumulator with nothing gathered yet.
    pub fn new() -> (r: PlacemarkData)
        ensures
            r@ == spec_empty_placemark(),
    {
        PlacemarkData {
            technology: None,
            rsrp: None,
            speed: None,
            altitude: None,
            time: None,
            coordinates: None,
        }
    }

    /// Routes one data field into the accumulator by its literal name.
    pub fn add_data(&mut self, name: &str, value: &str)
        ensures
            final(self)@ == spec_add_data(old(self)@, name@, value@),
    {
        if str_eq(name, "技術") {
            self.technology = Some(value.to_owned());
        } else if str_eq(name, "RSRP") {
            self.rsrp = Some(value.to_owned());
        } else if str_eq(name, "速度") {
            self.speed = Some(value.to_owned());
        } else if str_eq(name, "高度") {
            self.altitude = Some(value.to_owned());
        } else if str_eq(name, "時間") {
            self.time = Some(value.to_owned());
        }
    }

    /// Stores the placemark's coordinate string verbatim.
    pub fn set_coordinates(&mut self, coords: &str)
        ensures
            final(self)@ == (PlacemarkModel { coordinates: Some(coords@), ..old(self)@ }),
    {
        self.coordinates = Some(coords.to_owned());
    }
}

/// A present text kept exactly when the float grammar accepts it.
pub open spec fn spec_float_direct(v: Seq<char>) -> Option<Seq<char>> {
    if is_float_text(v) {
        Some(v)
    } else {
        None
    }
}

fn parse_float_direct(v: &str) -> (r: Option<String>)
    ensures
        ({
            let m = spec_float_direct(v@);
            match r {
                Some(s) => m == Some(s@),
                None => m is None,
            }
        }),
{
    if check_float_text(v) {
        Some(v.to_owned())
    } else {
        None
    }
}

/// Longitude and latitude as the first two comma-separated tokens of the
/// trimmed coordinate string; each defaults to absent where its token is
/// no float text, and both where there are fewer than two tokens.
pub open spec fn spec_coords(c: Option<Seq<char>>) -> (Option<Seq<char>>, Option<Seq<char>>) {
    match c {
        Some(cs) => {
            let parts = spec_split(spec_trim(cs), ',');
            if parts.len() >= 2 {
                (spec_float_direct(parts[0]), spec_float_direct(parts[1]))
            } else {
                (None, None)
            }
        },
        None => (None, None),
    }
}

/// A measurement text with its unit suffix (with or without a leading
/// space) removed and the rest trimmed.
pub open spec fn spec_unit_stripped(v: Seq<char>, unit_sp: Seq<char>, unit: Seq<char>) -> Seq<
    char,
> {
    spec_trim(spec_strip_all(spec_strip_all(v, unit_sp), unit))
}

pub open spec fn spec_speed_value(pm: PlacemarkModel) -> Option<Seq<char>> {
    match pm.speed {
        Some(s) => spec_float_direct(spec_unit_stripped(s, " km/h"@, "km/h"@)),
        None => None,
    }
}

pub open spec fn spec_level_value(pm: PlacemarkModel) -> Option<Seq<char>> {
    match pm.rsrp {
        Some(s) => spec_float_direct(spec_unit_stripped(s, " dBm"@, "dBm"@)),
        None => None,
    }
}

/// The record a placemark converts to, once its timestamp is settled.
/// The gathered altitude text is deliberately not attached: the canonical
/// schema carries no altitude attribute, so the accumulator's field ends
/// with the placemark.
pub open spec fn spec_kml_record(pm: PlacemarkModel, timestamp_ns: i64) -> RecordModel {
    let lonlat = spec_coords(pm.coordinates);
    RecordModel {
        timestamp_ns,
        longitude: lonlat.0,
        latitude: lonlat.1,
        speed: spec_speed_value(pm),
        operator_name: Some("KDDI"@),
        operator_code: None,
        cgi: None,
        cellname: None,
        node: None,
        cell_id: None,
        lac: None,
        network_tech: pm.technology,
        network_mode: None,
        level: spec_level_value(pm),
        qual: None,
        snr: None,
        cqi: None,
        arfcn: None,
        dl_bitrate: None,
        ul_bitrate: None,
    }
}

/// How a placemark converts: a present but unmatchable time text fails the
/// conversion with that text; an absent time falls back to "now". Nothing
/// else can fail.
pub open spec fn spec_to_record(pm: PlacemarkModel, now_ns: i64) -> Result<
    RecordModel,
    Seq<char>,
> {
    match pm.time {
        Some(t) => match spec_parse_kml_timestamp(t) {
            Some(n) => Ok(spec_kml_record(pm, n)),
            None => Err(t),
        },
        None => Ok(spec_kml_record(pm, now_ns)),
    }
}

impl PlacemarkData {
    /// Converts the gathered placemark to a record; `now_ns` stands in for
    /// the current instant where no time field was gathered. Fails exactly
    /// where a gathered time text matches none of the four patterns,
    /// returning that text.
    pub fn to_record(&self, now_ns: i64) -> (r: Result<NetworkMeasurement, String>)
        ensures
            ({
                let m = spec_to_record(self@, now_ns);
                match r {
                    Ok(rec) => m matches Ok(v) && rec@ == v,
                    Err(t) => m matches Err(e) && t@ == e,
                }
            }),
    {
        let timestamp_ns: i64 = match &self.time {
            Some(t) => match parse_kml_timestamp(t.as_str()) {
                Some(n) => n,
                None => {
                    return Err(t.clone());
                },
            },
            None => now_ns,
        };
        let (longitude, latitude) = match &self.coordinates {
            Some(c) => {
                let trimmed = trim_str(c.as_str());
                let parts = split_char(trimmed, ',');
                if parts.len() >= 2 {
                    (
                        parse_float_direct(parts[0].as_str()),
                        parse_float_direct(parts[1].as_str()),
                    )
                } else {
                    (None, None)
                }
            },
            None => (None, None),
        };
        let speed = match &self.speed {
            Some(s) => {
                proof {
                    reveal_strlit(" km/h");
                    reveal_strlit("km/h");
                }
                let s1 = strip_all(s.as_str(), " km/h");
                let s2 = strip_all(s1.as_str(), "km/h");
                parse_float_direct(trim_str(s2.as_str()))
            },
            None => None,
        };
        let level = match &self.rsrp {
            Some(s) => {
                proof {
                    reveal_strlit(" dBm");
                    reveal_strlit("dBm");
                }
                let s1 = strip_all(s.as_str(), " dBm");
                let s2 = strip_all(s1.as_str(), "dBm");
                parse_float_direct(trim_str(s2.as_str()))
            },
            None => None,
        };
        let network_tech = match &self.technology {
            Some(t) => Some(t.clone()),
            None => None,
        };
        Ok(
            NetworkMeasurement {
                timestamp_ns,
                longitude,
                latitude,
                speed,
                operator_name: Some("KDDI".to_owned()),
                operator_code: None,
                cgi: None,
                cellname: None,
                node: None,
                cell_id: None,
                lac: None,
                network_tech,
                network_mode: None,
                level,
                qual: None,
                snr: None,
                cqi: None,
                arfcn: None,
                dl_bitrate: None,
                ul_bitrate: None,
            },
        )
    }
}

/// Where the single pass stands: scanning for elements, looking for a data
/// field's `value` element, gathering a data field's text, or gathering a
/// coordinate string's text.
pub enum ScanMode {
    Scan,
    DataSeek { field: String },
    DataText { field: String, buf: String },
    CoordText { buf: String },
}

pub enum ScanModeModel {
    Scan,
    DataSeek { field: Seq<char> },
    DataText { field: Seq<char>, buf: Seq<char> },
    CoordText { buf: Seq<char> },
}

impl View for ScanMode {
    type V = ScanModeModel;

    open spec fn view(&self) -> ScanModeModel {
        match self {
            ScanMode::Scan => ScanModeModel::Scan,
            ScanMode::DataSeek { field } => ScanModeModel::DataSeek { field: field@ },
            ScanMode::DataText { field, buf } => ScanModeModel::DataText {
                field: field@,
                buf: buf@,
            },
            ScanMode::CoordText { buf } => ScanModeModel::CoordText { buf: buf@ },
        }
    }
}

/// Why a KML parse aborted (with skipping off): the reader could not
/// tokenize the markup, or a placemark's time text matched no pattern.
#[derive(Debug)]
pub enum KmlError {
    Xml { message: String },
    Placemark { time_value: String },
}

pub enum KmlErrorModel {
    Xml { message: Seq<char> },
    Placemark { time_value: Seq<char> },
}

impl View for KmlError {
    type V = KmlErrorModel;

    open spec fn view(&self) -> KmlErrorModel {
        match self {
            KmlError::Xml { message } => KmlErrorModel::Xml { message: message@ },
            KmlError::Placemark { time_value } => KmlErrorModel::Placemark {
                time_value: time_value@,
            },
        }
    }
}

/// The whole state of the single pass.
pub struct KmlStateModel {
    pub mode: ScanModeModel,
    pub in_placemark: bool,
    pub acc: PlacemarkModel,
    pub records: Seq<RecordModel>,
    pub errors: int,
}

pub open spec fn spec_kml_init() -> KmlStateModel {
    KmlStateModel {
        mode: ScanModeModel::Scan,
        in_placemark: false,
        acc: spec_empty_placemark(),
        records: Seq::empty(),
        errors: 0,
    }
}

/// One step of the placemark machine. A `Placemark` opening resets the
/// accumulator; a `Data` opening with a `name` attribute starts the hunt
/// for its `value`; a `coordinates` opening starts gathering text; a
/// `Placemark` closing converts the accumulator under the skip/abort
/// policy; a reader error counts (or aborts) under the same policy,
/// wherever it appears.
pub open spec fn spec_kml_step(
    st: KmlStateModel,
    e: XmlEvent,
    skip_invalid: bool,
    now_ns: i64,
) -> Result<KmlStateModel, KmlErrorModel> {
    match st.mode {
        ScanModeModel::Scan => match e {
            XmlEvent::Start { name, name_attr } => {
                if name@ == "Placemark"@ {
                    Ok(
                        KmlStateModel {
                            in_placemark: true,
                            acc: spec_empty_placemark(),
                            ..st
                        },
                    )
                } else if name@ == "Data"@ && st.in_placemark {
                    match name_attr {
                        Some(n) => Ok(
                            KmlStateModel {
                                mode: ScanModeModel::DataSeek { field: n@ },
                                ..st
                            },
                        ),
                        None => Ok(st),
                    }
                } else if name@ == "coordinates"@ && st.in_placemark {
                    Ok(
                        KmlStateModel {
                            mode: ScanModeModel::CoordText { buf: Seq::empty() },
                            ..st
                        },
                    )
                } else {
                    Ok(st)
                }
            },
            XmlEvent::End { name } => {
                if name@ == "Placemark"@ && st.in_placemark {
                    match spec_to_record(st.acc, now_ns) {
                        Ok(r) => Ok(
                            KmlStateModel {
                                records: st.records.push(r),
                                in_placemark: false,
                                ..st
                            },
                        ),
                        Err(t) => if skip_invalid {
                            Ok(
                                KmlStateModel {
                                    errors: st.errors + 1,
                                    in_placemark: false,
                                    ..st
                                },
                            )
                        } else {
                            Err(KmlErrorModel::Placemark { time_value: t })
                        },
                    }
                } else {
                    Ok(st)
                }
            },
            XmlEvent::Bad { message } => if skip_invalid {
                Ok(KmlStateModel { errors: st.errors + 1, ..st })
            } else {
                Err(KmlErrorModel::Xml { message: message@ })
            },
            _ => Ok(st),
        },
        ScanModeModel::DataSeek { field } => match e {
            XmlEvent::Start { name, .. } => {
                if name@ == "value"@ {
                    Ok(
                        KmlStateModel {
                            mode: ScanModeModel::DataText { field, buf: Seq::empty() },
                            ..st
                        },
                    )
                } else {
                    Ok(st)
                }
            },
            XmlEvent::End { name } => {
                if name@ == "Data"@ {
                    Ok(
                        KmlStateModel {
                            acc: spec_add_data(st.acc, field, Seq::empty()),
                            mode: ScanModeModel::Scan,
                            ..st
                        },
                    )
                } else {
                    Ok(st)
                }
            },
            XmlEvent::Bad { message } => if skip_invalid {
                Ok(KmlStateModel { errors: st.errors + 1, mode: ScanModeModel::Scan, ..st })
            } else {
                Err(KmlErrorModel::Xml { message: message@ })
            },
            _ => Ok(st),
        },
        ScanModeModel::DataText { field, buf } => match e {
            XmlEvent::Text { content } => Ok(
                KmlStateModel {
                    mode: ScanModeModel::DataText { field, buf: buf + content@ },
                    ..st
                },
            ),
            XmlEvent::End { name } => Ok(
                KmlStateModel {
                    acc: spec_add_data(st.acc, field, buf),
                    mode: ScanModeModel::Scan,
                    ..st
                },
            ),
            XmlEvent::Bad { message } => if skip_invalid {
                Ok(KmlStateModel { errors: st.errors + 1, mode: ScanModeModel::Scan, ..st })
            } else {
                Err(KmlErrorModel::Xml { message: message@ })
            },
            _ => Ok(st),
        },
        ScanModeModel::CoordText { buf } => match e {
            XmlEvent::Text { content } => Ok(
                KmlStateModel {
                    mode: ScanModeModel::CoordText { buf: buf + content@ },
                    ..st
                },
            ),
            XmlEvent::End { name } => Ok(
                KmlStateModel {
                    acc: PlacemarkModel { coordinates: Some(buf), ..st.acc },
                    mode: ScanModeModel::Scan,
                    ..st
                },
            ),
            XmlEvent::Bad { message } => if skip_invalid {
                Ok(KmlStateModel { errors: st.errors + 1, mode: ScanModeModel::Scan, ..st })
            } else {
                Err(KmlErrorModel::Xml { message: message@ })
            },
            _ => Ok(st),
        },
    }
}

/// The machine run over the events from position `i` on.
pub open spec fn spec_kml_fold(
    events: Seq<XmlEvent>,
    i: int,
    st: KmlStateModel,
    skip_invalid: bool,
    now_ns: i64,
) -> Result<KmlStateModel, KmlErrorModel>
    decreases events.len() - i,
{
    if i < 0 || i >= events.len() {
        Ok(st)
    } else {
        match spec_kml_step(st, events[i], skip_invalid, now_ns) {
            Ok(s2) => spec_kml_fold(events, i + 1, s2, skip_invalid, now_ns),
            Err(e) => Err(e),
        }
    }
}

/// What a whole KML parse yields for an event stream: the converted
/// placemark records in document order and the error count, or the error
/// that aborted the pass.
pub open spec fn spec_kml_outcome(
    events: Seq<XmlEvent>,
    skip_invalid: bool,
    now_ns: i64,
) -> Result<(Seq<RecordModel>, int), KmlErrorModel> {
    match spec_kml_fold(events, 0, spec_kml_init(), skip_invalid, now_ns) {
        Ok(st) => Ok((st.records, st.errors)),
        Err(e) => Err(e),
    }
}

/// Every record a placemark converts to is well-formed: its numeric
/// fields, where present, hold float-grammar text.
pub proof fn lemma_kml_record_wf(pm: PlacemarkModel, now_ns: i64)
    ensures
        spec_to_record(pm, now_ns) matches Ok(v) ==> v.wf(),
{
}

proof fn lemma_kml_fold_wf(
    events: Seq<XmlEvent>,
    i: int,
    st: KmlStateModel,
    skip_invalid: bool,
    now_ns: i64,
)
    requires
        forall|k: int| 0 <= k < st.records.len() ==> (#[trigger] st.records[k]).wf(),
    ensures
        spec_kml_fold(events, i, st, skip_invalid, now_ns) matches Ok(s) ==> forall|k: int|
            0 <= k < s.records.len() ==> (#[trigger] s.records[k]).wf(),
    decreases events.len() - i,
{
    if 0 <= i < events.len() {
        lemma_kml_record_wf(st.acc, now_ns);
        match spec_kml_step(st, events[i], skip_invalid, now_ns) {
            Ok(s2) => {
                assert forall|k: int|
                    0 <= k < s2.records.len() implies (#[trigger] s2.records[k]).wf() by {
                    if k < st.records.len() {
                        assert(st.records[k].wf());
                    } else {
                        assert(s2.records == st.records.push(
                            spec_to_record(st.acc, now_ns)->Ok_0,
                        ));
                    }
                }
                lemma_kml_fold_wf(events, i + 1, s2, skip_invalid, now_ns);
            },
            Err(e) => {
            },
        }
    }
}

/// Every record a KML parse yields is well-formed: its numeric fields,
/// where present, hold float-grammar text.
pub proof fn lemma_kml_records_wf(events: Seq<XmlEvent>, skip_invalid: bool, now_ns: i64)
    ensures
        spec_kml_outcome(events, skip_invalid, now_ns) matches Ok(p) ==> forall|k: int|
            0 <= k < p.0.len() ==> (#[trigger] p.0[k]).wf(),
{
    lemma_kml_fold_wf(events, 0, spec_kml_init(), skip_invalid, now_ns);
}

/// A placemark whose gathered time text matches no pattern never becomes a
/// record, whatever the policy: with skipping on its closing only counts
/// one more error, and with skipping off it aborts the pass, carrying that
/// text.
pub proof fn lemma_bad_time_placemark(
    st: KmlStateModel,
    name: String,
    t: Seq<char>,
    skip_invalid: bool,
    now_ns: i64,
)
    requires
        st.mode is Scan,
        st.in_placemark,
        name@ == "Placemark"@,
        st.acc.time == Some(t),
        spec_parse_kml_timestamp(t) is None,
    ensures
        skip_invalid ==> (spec_kml_step(st, XmlEvent::End { name }, skip_invalid, now_ns)
            matches Ok(s2) && s2.records == st.records && s2.errors == st.errors + 1
            && !s2.in_placemark),
        !skip_invalid ==> spec_kml_step(st, XmlEvent::End { name }, skip_invalid, now_ns)
            == Err::<KmlStateModel, KmlErrorModel>(
            KmlErrorModel::Placemark { time_value: t },
        ),
{
}

/// Reads KML placemark exports into canonical records under a skip/abort
/// policy for malformed placemarks and markup.
pub struct KmlParser {
    pub skip_invalid: bool,
}

impl KmlParser {
    pub fn new(skip_invalid: bool) -> (r: KmlParser)
        ensures
            r.skip_invalid == skip_invalid,
    {
        KmlParser { skip_invalid }
    }

    /// Parses a whole KML document: one streaming pass over its markup
    /// events, one record per placemark in document order, skipping or
    /// aborting on failures as configured. `now_ns` stands in for the
    /// current instant.
    pub fn parse_file(&self, content: &str, now_ns: i64) -> (r: Result<ParseOutcome, KmlError>)
        ensures
            ({
                let m = spec_kml_outcome(xml_events_of(content@), self.skip_invalid, now_ns);
                match r {
                    Ok(out) => m matches Ok(p) && records_view(out.records@) == p.0
                        && out.error_count == p.1,
                    Err(e) => m matches Err(me) && e@ == me,
                }
            }),
    {
        let mut tokens = xml_tokens_new(content);
        let ghost all_events = xml_events_of(content@);
        let mut events: Vec<XmlEvent> = Vec::new();
        let mut done = false;
        while !done
            invariant
                events@ + xml_remaining(tokens) == all_events,
                done ==> xml_remaining(tokens).len() == 0,
            decreases xml_remaining(tokens).len() + (if done {
                0int
            } else {
                1int
            }),
        {
            match xml_next(&mut tokens) {
                Some(e) => {
                    events.push(e);
                    proof {
                        assert(events@ + xml_remaining(tokens) =~= all_events);
                    }
                },
                None => {
                    done = true;
                },
            }
        }
        proof {
            assert(events@ =~= all_events);
        }
        let mut mode = ScanMode::Scan;
        let mut in_placemark = false;
        let mut acc = PlacemarkData::new();
        let mut records: Vec<NetworkMeasurement> = Vec::new();
        let mut errors: usize = 0;
        let mut j: usize = 0;
        proof {
            assert(records_view(records@) =~= Seq::<RecordModel>::empty());
        }
        while j < events.len()
            invariant
                0 <= j <= events@.len(),
                events@ == all_events,
                all_events == xml_events_of(content@),
                errors <= j,
                spec_kml_fold(events@, 0, spec_kml_init(), self.skip_invalid, now_ns)
                    == spec_kml_fold(
                    events@,
                    j as int,
                    (KmlStateModel {
                        mode: mode@,
                        in_placemark,
                        acc: acc@,
                        records: records_view(records@),
                        errors: errors as int,
                    }),
                    self.skip_invalid,
                    now_ns,
                ),
            decreases events@.len() - j,
        {
            let ghost st0 = KmlStateModel {
                mode: mode@,
                in_placemark,
                acc: acc@,
                records: records_view(records@),
                errors: errors as int,
            };
            let ev = &events[j];
            match &mode {
                ScanMode::Scan => match ev {
                    XmlEvent::Start { name, name_attr } => {
                        if str_eq(name.as_str(), "Placemark") {
                            in_placemark = true;
                            acc = PlacemarkData::new();
                        } else if str_eq(name.as_str(), "Data") && in_placemark {
                            if let Some(n) = name_attr {
                                mode = ScanMode::DataSeek { field: n.clone() };
                            }
                        } else if str_eq(name.as_str(), "coordinates") && in_placemark {
                            mode = ScanMode::CoordText { buf: String::new() };
                        }
                    },
                    XmlEvent::End { name } => {
                        if str_eq(name.as_str(), "Placemark") && in_placemark {
                            match acc.to_record(now_ns) {
                                Ok(rec) => {
                                    let ghost recs0 = records_view(records@);
                                    records.push(rec);
                                    proof {
                                        assert(records_view(records@) =~= recs0.push(rec@));
                                    }
                                },
                                Err(t) => {
                                    errors = errors + 1;
                                    if !self.skip_invalid {
                                        return Err(KmlError::Placemark { time_value: t });
                                    }
                                },
                            }
                            in_placemark = false;
                        }
                    },
                    XmlEvent::Bad { message } => {
                        errors = errors + 1;
                        if !self.skip_invalid {
                            return Err(KmlError::Xml { message: message.clone() });
                        }
                    },
                    _ => {},
                },
                ScanMode::DataSeek { field } => match ev {
                    XmlEvent::Start { name, .. } => {
                        if str_eq(name.as_str(), "value") {
                            let f = field.clone();
                            mode = ScanMode::DataText { field: f, buf: String::new() };
                        }
                    },
                    XmlEvent::End { name } => {
                        if str_eq(name.as_str(), "Data") {
                            let f = field.clone();
                            acc.add_data(f.as_str(), "");
                            proof {
                                reveal_strlit("");
                                assert(""@ =~= Seq::<char>::empty());
                            }
                            mode = ScanMode::Scan;
                        }
                    },
                    XmlEvent::Bad { message } => {
                        errors = errors + 1;
                        if !self.skip_invalid {
                            return Err(KmlError::Xml { message: message.clone() });
                        }
                        mode = ScanMode::Scan;
                    },
                    _ => {},
                },
                ScanMode::DataText { field, buf } => match ev {
                    XmlEvent::Text { content } => {
                        let f = field.clone();
                        let mut nb = buf.clone();
                        nb.append(content.as_str());
                        mode = ScanMode::DataText { field: f, buf: nb };
                    },
                    XmlEvent::End { .. } => {
                        let f = field.clone();
                        let b = buf.clone();
                        acc.add_data(f.as_str(), b.as_str());
                        mode = ScanMode::Scan;
                    },
                    XmlEvent::Bad { message } => {
                        errors = errors + 1;
                        if !self.skip_invalid {
                            return Err(KmlError::Xml { message: message.clone() });
                        }
                        mode = ScanMode::Scan;
                    },
                    _ => {},
                },
                ScanMode::CoordText { buf } => match ev {
                    XmlEvent::Text { content } => {
                        let mut nb = buf.clone();
                        nb.append(content.as_str());
                        mode = ScanMode::CoordText { buf: nb };
                    },
                    XmlEvent::End { .. } => {
                        let b = buf.clone();
                        acc.set_coordinates(b.as_str());
                        mode = ScanMode::Scan;
                    },
                    XmlEvent::Bad { message } => {
                        errors = errors + 1;
                        if !self.skip_invalid {
                            return Err(KmlError::Xml { message: message.clone() });
                        }
                        mode = ScanMode::Scan;
                    },
                    _ => {},
                },
            }
            proof {
                let st1 = KmlStateModel {
                    mode: mode@,
                    in_placemark,
                    acc: acc@,
                    records: records_view(records@),
                    errors: errors as int,
                };
                assert(spec_kml_step(st0, events@[j as int], self.skip_invalid, now_ns)
                    == Ok::<KmlStateModel, KmlErrorModel>(st1));
            }
            j = j + 1;
        }
        Ok(ParseOutcome { records, error_count: errors })
    }
}

} // verus!
