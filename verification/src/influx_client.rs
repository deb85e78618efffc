//! Protocol client model: the one-shot dialect decision (v1
//! username/password against a database, or v2 token/org against a
//! bucket), the exact tag and field sets of every point written, the
//! line-protocol preview text, and the chunking of batched writes. The
//! network calls themselves are the embedding program's; everything it
//! sends is fixed here.

use vstd::prelude::*;

use crate::config::InfluxDbConfig;
use crate::record::NetworkMeasurement;
use crate::record::RecordModel;
use crate::text::i64_dec;
use crate::text::append_i64_dec;

verus! {

/// Basic-auth credentials attached to a v1 connection.
pub struct BasicAuth {
    pub username: String,
    pub password: String,
}

/// The dialect decision, made once at construction and never re-evaluated.
pub enum InfluxClient {
    V1 { url: String, database: String, auth: Option<BasicAuth> },
    V2 { url: String, org: String, token: String, bucket: String },
}

/// The v2 dialect is selected exactly when a non-empty token and a
/// non-empty organization are both configured.
pub open spec fn spec_uses_v2(c: InfluxDbConfig) -> bool {
    &&& c.token matches Some(t) && t@.len() > 0
    &&& c.org matches Some(o) && o@.len() > 0
}

impl InfluxClient {
    /// Resolves the dialect from the connection settings: v2 with the
    /// configured database name reused as the bucket, where a non-empty
    /// token and organization are both present; otherwise v1, with basic
    /// auth attached exactly where the username is non-empty.
    pub fn new(config: &InfluxDbConfig) -> (r: InfluxClient)
        ensures
            spec_uses_v2(*config) ==> (r matches InfluxClient::V2 { url, org, token, bucket }
                && url@ == config.url@ && (config.org matches Some(o) && org@ == o@) && (
            config.token matches Some(t) && token@ == t@) && bucket@ == config.database@),
            !spec_uses_v2(*config) ==> (r matches InfluxClient::V1 { url, database, auth }
                && url@ == config.url@ && database@ == config.database@ && (if config.username@.len()
                > 0 {
                auth matches Some(a) && a.username@ == config.username@ && a.password@
                    == config.password@
            } else {
                auth is None
            })),
    {
        if let Some(token) = &config.token {
            if !token.as_str().is_empty() {
                if let Some(org) = &config.org {
                    if !org.as_str().is_empty() {
                        return InfluxClient::V2 {
                            url: config.url.clone(),
                            org: org.clone(),
                            token: token.clone(),
                            bucket: config.database.clone(),
                        };
                    }
                }
            }
        }
        let auth = if !config.username.as_str().is_empty() {
            Some(
                BasicAuth {
                    username: config.username.clone(),
                    password: config.password.clone(),
                },
            )
        } else {
            None
        };
        InfluxClient::V1 {
            url: config.url.clone(),
            database: config.database.clone(),
            auth,
        }
    }

    /// The statement a connectivity test issues: the v1 dialect lists
    /// databases; the v2 dialect has no statement — it calls the health
    /// endpoint instead.
    pub fn test_connection_query(&self) -> (r: Option<String>)
        ensures
            self is V1 ==> (r matches Some(q) && q@ == "SHOW DATABASES"@),
            self is V2 ==> r is None,
    {
        match self {
            InfluxClient::V1 { .. } => Some("SHOW DATABASES".to_owned()),
            InfluxClient::V2 { .. } => None,
        }
    }

    /// The statement that ensures the target container exists: the v1
    /// dialect creates its database (an "already exists" answer is
    /// success); the v2 dialect does nothing — bucket lifecycle is managed
    /// externally.
    pub fn create_database_query(&self) -> (r: Option<String>)
        ensures
            self matches InfluxClient::V1 { database, .. } ==> (r matches Some(q) && q@
                == "CREATE DATABASE \""@ + database@ + "\""@),
            self is V2 ==> r is None,
    {
        match self {
            InfluxClient::V1 { database, .. } => {
                let mut q = "CREATE DATABASE \"".to_owned();
                q.append(database.as_str());
                q.append("\"");
                proof {
                    assert(q@ =~= "CREATE DATABASE \""@ + database@ + "\""@);
                }
                Some(q)
            },
            InfluxClient::V2 { .. } => None,
        }
    }
}

/// The measurement every point is written under.
pub fn measurement_name() -> (r: &'static str)
    ensures
        r@ == "network_measurements"@,
{
    "network_measurements"
}

pub open spec fn pairs_view(v: Seq<(String, String)>) -> Seq<(Seq<char>, Seq<char>)> {
    v.map_values(|p: (String, String)| (p.0@, p.1@))
}

/// The view of one wire point: its timestamp and its exact tag and field
/// lists, in write order.
pub struct WirePointModel {
    pub timestamp_ns: i64,
    pub tags: Seq<(Seq<char>, Seq<char>)>,
    pub num_fields: Seq<(Seq<char>, Seq<char>)>,
    pub text_fields: Seq<(Seq<char>, Seq<char>)>,
}

/// One record as it goes on the wire, dialect-independently: the constant
/// source tag and the present text attributes as indexed tags, the present
/// numeric measurements as numeric fields (their value still as float
/// text), and the remaining present text attributes as text fields.
pub struct WirePoint {
    pub timestamp_ns: i64,
    pub tags: Vec<(String, String)>,
    pub num_fields: Vec<(String, String)>,
    pub text_fields: Vec<(String, String)>,
}

impl View for WirePoint {
    type V = WirePointModel;

    open spec fn view(&self) -> WirePointModel {
        WirePointModel {
            timestamp_ns: self.timestamp_ns,
            tags: pairs_view(self.tags@),
            num_fields: pairs_view(self.num_fields@),
            text_fields: pairs_view(self.text_fields@),
        }
    }
}

/// A one-entry list where the value is present, else an empty one.
pub open spec fn opt_entry(key: Seq<char>, v: Option<Seq<char>>) -> Seq<(Seq<char>, Seq<char>)> {
    match v {
        Some(s) => seq![(key, s)],
        None => Seq::empty(),
    }
}

/// The exact wire shape of one record: tags in the order
/// `measurement_type`, `operator_name`, `operator_code`, `cell_id`,
/// `network_tech`, `network_mode`, `lac`; numeric fields in the order
/// `longitude`, `latitude`, `speed`, `level`, `qual`, `snr`, `cqi`,
/// `dl_bitrate`, `ul_bitrate`; text fields in the order `cgi`, `cellname`,
/// `node`, `arfcn`. Absent attributes contribute nothing.
pub open spec fn spec_wire_point(r: RecordModel) -> WirePointModel {
    WirePointModel {
        timestamp_ns: r.timestamp_ns,
        tags: seq![("measurement_type"@, "gnettrack"@)] + opt_entry(
            "operator_name"@,
            r.operator_name,
        ) + opt_entry("operator_code"@, r.operator_code) + opt_entry("cell_id"@, r.cell_id)
            + opt_entry("network_tech"@, r.network_tech) + opt_entry(
            "network_mode"@,
            r.network_mode,
        ) + opt_entry("lac"@, r.lac),
        num_fields: opt_entry("longitude"@, r.longitude) + opt_entry("latitude"@, r.latitude)
            + opt_entry("speed"@, r.speed) + opt_entry("level"@, r.level) + opt_entry(
            "qual"@,
            r.qual,
        ) + opt_entry("snr"@, r.snr) + opt_entry("cqi"@, r.cqi) + opt_entry(
            "dl_bitrate"@,
            r.dl_bitrate,
        ) + opt_entry("ul_bitrate"@, r.ul_bitrate),
        text_fields: opt_entry("cgi"@, r.cgi) + opt_entry("cellname"@, r.cellname) + opt_entry(
            "node"@,
            r.node,
        ) + opt_entry("arfcn"@, r.arfcn),
    }
}

fn push_opt_pair(out: &mut Vec<(String, String)>, key: &str, v: &Option<String>)
    ensures
        pairs_view(final(out)@) == pairs_view(old(out)@) + opt_entry(
            key@,
            crate::record::opt_str_view(*v),
        ),
{
    let ghost before = pairs_view(out@);
    match v {
        Some(s) => {
            out.push((key.to_owned(), s.clone()));
            proof {
                assert(pairs_view(out@) =~= before + opt_entry(
                    key@,
                    crate::record::opt_str_view(*v),
                ));
            }
        },
        None => {
            proof {
                assert(pairs_view(out@) =~= before + opt_entry(
                    key@,
                    crate::record::opt_str_view(*v),
                ));
            }
        },
    }
}

/// Lays one record out as a wire point.
pub fn to_wire_point(r: &NetworkMeasurement) -> (p: WirePoint)
    ensures
        p@ == spec_wire_point(r@),
{
    let mut tags: Vec<(String, String)> = Vec::new();
    tags.push(("measurement_type".to_owned(), "gnettrack".to_owned()));
    proof {
        assert(pairs_view(tags@) =~= seq![("measurement_type"@, "gnettrack"@)]);
    }
    push_opt_pair(&mut tags, "operator_name", &r.operator_name);
    push_opt_pair(&mut tags, "operator_code", &r.operator_code);
    push_opt_pair(&mut tags, "cell_id", &r.cell_id);
    push_opt_pair(&mut tags, "network_tech", &r.network_tech);
    push_opt_pair(&mut tags, "network_mode", &r.network_mode);
    push_opt_pair(&mut tags, "lac", &r.lac);
    let mut num_fields: Vec<(String, String)> = Vec::new();
    proof {
        assert(pairs_view(num_fields@) =~= Seq::<(Seq<char>, Seq<char>)>::empty());
    }
    push_opt_pair(&mut num_fields, "longitude", &r.longitude);
    push_opt_pair(&mut num_fields, "latitude", &r.latitude);
    push_opt_pair(&mut num_fields, "speed", &r.speed);
    push_opt_pair(&mut num_fields, "level", &r.level);
    push_opt_pair(&mut num_fields, "qual", &r.qual);
    push_opt_pair(&mut num_fields, "snr", &r.snr);
    push_opt_pair(&mut num_fields, "cqi", &r.cqi);
    push_opt_pair(&mut num_fields, "dl_bitrate", &r.dl_bitrate);
    push_opt_pair(&mut num_fields, "ul_bitrate", &r.ul_bitrate);
    let mut text_fields: Vec<(String, String)> = Vec::new();
    proof {
        assert(pairs_view(text_fields@) =~= Seq::<(Seq<char>, Seq<char>)>::empty());
    }
    push_opt_pair(&mut text_fields, "cgi", &r.cgi);
    push_opt_pair(&mut text_fields, "cellname", &r.cellname);
    push_opt_pair(&mut text_fields, "node", &r.node);
    push_opt_pair(&mut text_fields, "arfcn", &r.arfcn);
    let p = WirePoint { timestamp_ns: r.timestamp_ns, tags, num_fields, text_fields };
    proof {
        assert(p@.tags =~= spec_wire_point(r@).tags);
        assert(p@.num_fields =~= spec_wire_point(r@).num_fields);
        assert(p@.text_fields =~= spec_wire_point(r@).text_fields);
    }
    p
}

/// Lays a whole batch out as wire points, in order.
pub fn to_wire_points(records: &Vec<NetworkMeasurement>) -> (r: Vec<WirePoint>)
    ensures
        r@.len() == records@.len(),
        forall|k: int| 0 <= k < r@.len() ==> #[trigger] r@[k]@ == spec_wire_point(records@[k]@),
{
    let mut out: Vec<WirePoint> = Vec::new();
    let mut i: usize = 0;
    while i < records.len()
        invariant
            0 <= i <= records@.len(),
            out@.len() == i,
            forall|k: int| 0 <= k < i ==> #[trigger] out@[k]@ == spec_wire_point(records@[k]@),
        decreases records@.len() - i,
    {
        out.push(to_wire_point(&records[i]));
        i = i + 1;
    }
    out
}

/// A `label=value` part where the value is present, else nothing.
pub open spec fn opt_part(label: Seq<char>, v: Option<Seq<char>>) -> Seq<Seq<char>> {
    match v {
        Some(s) => seq![label + s],
        None => Seq::empty(),
    }
}

/// The preview's field parts: the four position/signal measurements that
/// are present, in order.
pub open spec fn spec_preview_fields(r: RecordModel) -> Seq<Seq<char>> {
    opt_part("longitude="@, r.longitude) + opt_part("latitude="@, r.latitude) + opt_part(
        "speed="@,
        r.speed,
    ) + opt_part("level="@, r.level)
}

pub open spec fn spec_join_rest(parts: Seq<Seq<char>>, i: int) -> Seq<char>
    decreases parts.len() - i,
{
    if i < 1 || i >= parts.len() {
        Seq::empty()
    } else {
        ","@ + parts[i] + spec_join_rest(parts, i + 1)
    }
}

/// The parts joined with commas.
pub open spec fn spec_join_comma(parts: Seq<Seq<char>>) -> Seq<char> {
    if parts.len() == 0 {
        Seq::empty()
    } else {
        parts[0] + spec_join_rest(parts, 1)
    }
}

/// One record's line-protocol preview: the measurement with the constant
/// source tag, the present `operator_name` and `network_tech` tags, the
/// joined field parts, and the nanosecond timestamp.
pub open spec fn spec_line_of(r: RecordModel) -> Seq<char> {
    "network_measurements,measurement_type=gnettrack"@ + (match r.operator_name {
        Some(s) => ",operator_name="@ + s,
        None => Seq::empty(),
    }) + (match r.network_tech {
        Some(s) => ",network_tech="@ + s,
        None => Seq::empty(),
    }) + " "@ + spec_join_comma(spec_preview_fields(r)) + " "@ + i64_dec(r.timestamp_ns as int)
}

fn push_opt_part(parts: &mut Vec<String>, label: &str, v: &Option<String>)
    ensures
        crate::text::strs_view(final(parts)@) == crate::text::strs_view(old(parts)@) + opt_part(
            label@,
            crate::record::opt_str_view(*v),
        ),
{
    let ghost before = crate::text::strs_view(parts@);
    match v {
        Some(s) => {
            let mut p = label.to_owned();
            p.append(s.as_str());
            parts.push(p);
            proof {
                assert(crate::text::strs_view(parts@) =~= before + opt_part(
                    label@,
                    crate::record::opt_str_view(*v),
                ));
            }
        },
        None => {
            proof {
                assert(crate::text::strs_view(parts@) =~= before + opt_part(
                    label@,
                    crate::record::opt_str_view(*v),
                ));
            }
        },
    }
}

/// One record's preview line.
fn format_one_record(r: &NetworkMeasurement) -> (line: String)
    ensures
        line@ == spec_line_of(r@),
{
    let mut line = "network_measurements,measurement_type=gnettrack".to_owned();
    if let Some(s) = &r.operator_name {
        line.append(",operator_name=");
        line.append(s.as_str());
    }
    if let Some(s) = &r.network_tech {
        line.append(",network_tech=");
        line.append(s.as_str());
    }
    line.append(" ");
    let mut parts: Vec<String> = Vec::new();
    proof {
        assert(crate::text::strs_view(parts@) =~= Seq::<Seq<char>>::empty());
    }
    push_opt_part(&mut parts, "longitude=", &r.longitude);
    push_opt_part(&mut parts, "latitude=", &r.latitude);
    push_opt_part(&mut parts, "speed=", &r.speed);
    push_opt_part(&mut parts, "level=", &r.level);
    let ghost pv = crate::text::strs_view(parts@);
    proof {
        assert(pv =~= spec_preview_fields(r@));
    }
    let ghost base = line@;
    if parts.len() > 0 {
        line.append(parts[0].as_str());
        let mut i: usize = 1;
        while i < parts.len()
            invariant
                1 <= i <= parts@.len(),
                pv == crate::text::strs_view(parts@),
                pv.len() == parts@.len(),
                line@ + spec_join_rest(pv, i as int) == base + spec_join_comma(pv),
            decreases parts@.len() - i,
        {
            line.append(",");
            line.append(parts[i].as_str());
            proof {
                assert(pv[i as int] == parts@[i as int]@);
                assert((line@ + spec_join_rest(pv, i + 1)) =~= (base + spec_join_comma(pv)));
            }
            i = i + 1;
        }
    }
    proof {
        assert(line@ =~= base + spec_join_comma(pv));
    }
    line.append(" ");
    append_i64_dec(&mut line, r.timestamp_ns);
    proof {
        assert(line@ =~= spec_line_of(r@));
    }
    line
}

impl InfluxClient {
    /// The line-protocol preview of a batch, one line per record in order —
    /// what a dry run shows without sending anything.
    pub fn format_records_for_influx(&self, records: &Vec<NetworkMeasurement>) -> (r: Vec<
        String,
    >)
        ensures
            r@.len() == records@.len(),
            forall|k: int|
                0 <= k < r@.len() ==> #[trigger] r@[k]@ == spec_line_of(records@[k]@),
    {
        let mut out: Vec<String> = Vec::new();
        let mut i: usize = 0;
        while i < records.len()
            invariant
                0 <= i <= records@.len(),
                out@.len() == i,
                forall|k: int|
                    0 <= k < i ==> #[trigger] out@[k]@ == spec_line_of(records@[k]@),
            decreases records@.len() - i,
        {
            out.push(format_one_record(&records[i]));
            i = i + 1;
        }
        out
    }
}

/// Splits `total` records into consecutive spans of at most `batch_size`:
/// every span but the last is full, the last takes the remainder, and
/// together they cover `0..total` in order. Zero records make zero spans.
pub fn chunk_spans(total: usize, batch_size: usize) -> (r: Vec<(usize, usize)>)
    requires
        batch_size >= 1,
    ensures
        total == 0 ==> r@.len() == 0,
        total > 0 ==> r@.len() >= 1,
        forall|k: int| 0 <= k < r@.len() ==> (#[trigger] r@[k]).0 < r@[k].1 <= total,
        r@.len() > 0 ==> r@[0].0 == 0 && r@[r@.len() - 1].1 == total,
        forall|k: int| 0 <= k < r@.len() - 1 ==> (#[trigger] r@[k]).1 == r@[k + 1].0,
        forall|k: int|
            0 <= k < r@.len() - 1 ==> (#[trigger] r@[k]).1 - r@[k].0 == batch_size,
        forall|k: int| 0 <= k < r@.len() ==> (#[trigger] r@[k]).1 - r@[k].0 <= batch_size,
{
    let mut out: Vec<(usize, usize)> = Vec::new();
    let mut start: usize = 0;
    while start < total
        invariant
            batch_size >= 1,
            0 <= start <= total,
            out@.len() == 0 ==> start == 0,
            out@.len() > 0 ==> out@[0].0 == 0 && out@[out@.len() - 1].1 == start,
            forall|k: int| 0 <= k < out@.len() ==> (#[trigger] out@[k]).0 < out@[k].1 <= total,
            forall|k: int| 0 <= k < out@.len() - 1 ==> (#[trigger] out@[k]).1 == out@[k + 1].0,
            forall|k: int|
                0 <= k < out@.len() - 1 ==> (#[trigger] out@[k]).1 - out@[k].0 == batch_size,
            forall|k: int|
                0 <= k < out@.len() ==> (#[trigger] out@[k]).1 - out@[k].0 <= batch_size,
            start < total ==> (out@.len() == 0 || out@[out@.len() - 1].1 - out@[out@.len()
                - 1].0 == batch_size),
        decreases total - start,
    {
        let end: usize = if total - start > batch_size {
            start + batch_size
        } else {
            total
        };
        out.push((start, end));
        start = end;
    }
    out
}

/// The sequential chunked write, modelled on each call's outcome: calls
/// are made in order and the first failure stops the run — what was
/// already written stays written. Yields how many calls were attempted
/// and whether the whole run succeeded.
pub open spec fn spec_batch_run(outcomes: Seq<bool>) -> (int, bool)
    decreases outcomes.len(),
{
    if outcomes.len() == 0 {
        (0, true)
    } else if !outcomes[0] {
        (1, false)
    } else {
        let rest = spec_batch_run(outcomes.drop_first());
        (1 + rest.0, rest.1)
    }
}

/// Where call `k` is the first to fail, exactly `k + 1` calls are
/// attempted and the run reports failure; the `k` chunks already written
/// are not rolled back.
pub proof fn lemma_batch_stops_at_first_failure(outcomes: Seq<bool>, k: int)
    requires
        0 <= k < outcomes.len(),
        !outcomes[k],
        forall|j: int| 0 <= j < k ==> outcomes[j],
    ensures
        spec_batch_run(outcomes) == (k + 1, false),
    decreases outcomes.len(),
{
    if k > 0 {
        lemma_batch_stops_at_first_failure(outcomes.drop_first(), k - 1);
    }
}

/// Where every call succeeds, all are attempted and the run succeeds.
pub proof fn lemma_batch_all_succeed(outcomes: Seq<bool>)
    requires
        forall|j: int| 0 <= j < outcomes.len() ==> outcomes[j],
    ensures
        spec_batch_run(outcomes) == (outcomes.len() as int, true),
    decreases outcomes.len(),
{
    if outcomes.len() > 0 {
        lemma_batch_all_succeed(outcomes.drop_first());
    }
}

} // verus!
