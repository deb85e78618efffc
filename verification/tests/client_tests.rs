use gnt2influx::config::Config;
use gnt2influx::config::InfluxDbConfig;
use gnt2influx::influx_client::InfluxClient;
use gnt2influx::influx_client::chunk_spans;
use gnt2influx::influx_client::measurement_name;
use gnt2influx::influx_client::to_wire_point;
use gnt2influx::parser::LogParser;
use gnt2influx::pipeline::is_kml_path;
use gnt2influx::pipeline::parse_records;
use gnt2influx::pipeline::PipelineError;

fn now_ns() -> i64 {
    chrono::Utc::now().timestamp_nanos_opt().unwrap()
}

fn config_with(username: &str, org: Option<&str>, token: Option<&str>) -> InfluxDbConfig {
    InfluxDbConfig {
        url: "http://localhost:8086".to_string(),
        database: "gnettrack".to_string(),
        username: username.to_string(),
        password: "SECRET-REDACTED".to_string(),
        org: org.map(|s| s.to_string()),
        token: token.map(|s| s.to_string()),
    }
}

#[test]
fn token_and_org_select_v2() {
    let client = InfluxClient::new(&config_with("", Some("my-org"), Some("my-token")));
    match client {
        InfluxClient::V2 { url, org, token, bucket } => {
            assert_eq!(url, "http://localhost:8086");
            assert_eq!(org, "my-org");
            assert_eq!(token, "my-token");
            assert_eq!(bucket, "gnettrack");
        }
        InfluxClient::V1 { .. } => panic!("expected the v2 dialect"),
    }
}

#[test]
fn missing_or_empty_token_or_org_selects_v1() {
    for (user, org, token) in [
        ("", None, None),
        ("", Some("my-org"), None),
        ("", None, Some("my-token")),
        ("", Some("my-org"), Some("")),
        ("", Some(""), Some("my-token")),
    ] {
        match InfluxClient::new(&config_with(user, org, token)) {
            InfluxClient::V1 { auth, .. } => assert!(auth.is_none()),
            InfluxClient::V2 { .. } => panic!("expected the v1 dialect"),
        }
    }
}

#[test]
fn v1_basic_auth_follows_the_username() {
    match InfluxClient::new(&config_with("admin", None, None)) {
        InfluxClient::V1 { auth, database, .. } => {
            let a = auth.expect("auth expected with a username");
            assert_eq!(a.username, "admin");
            assert_eq!(a.password, "SECRET-REDACTED");
            assert_eq!(database, "gnettrack");
        }
        InfluxClient::V2 { .. } => panic!("expected the v1 dialect"),
    }
}

#[test]
fn probe_and_create_statements() {
    let v1 = InfluxClient::new(&config_with("", None, None));
    assert_eq!(v1.test_connection_query().as_deref(), Some("SHOW DATABASES"));
    assert_eq!(
        v1.create_database_query().as_deref(),
        Some("CREATE DATABASE \"gnettrack\"")
    );

    let v2 = InfluxClient::new(&config_with("", Some("o"), Some("t")));
    assert_eq!(v2.test_connection_query(), None);
    assert_eq!(v2.create_database_query(), None);
}

#[test]
fn defaults_match_the_documented_settings() {
    let c = Config::default();
    assert_eq!(c.influxdb.url, "http://localhost:8086");
    assert_eq!(c.influxdb.database, "gnettrack");
    assert_eq!(c.influxdb.username, "");
    assert!(c.influxdb.org.is_none());
    assert!(c.influxdb.token.is_none());
    assert_eq!(c.logging.level, "info");
    assert_eq!(c.processing.batch_size, 1000);
    assert!(c.processing.skip_invalid);
}

#[test]
fn chunking_is_exact() {
    assert_eq!(
        chunk_spans(2500, 1000),
        vec![(0, 1000), (1000, 2000), (2000, 2500)]
    );
    assert_eq!(chunk_spans(0, 1000), vec![]);
    assert_eq!(chunk_spans(1000, 1000), vec![(0, 1000)]);
    assert_eq!(chunk_spans(3, 1), vec![(0, 1), (1, 2), (2, 3)]);
}

#[test]
fn second_chunk_failure_stops_after_two_calls() {
    // The driver walks the spans in order and stops at the first failed
    // write; what the first call wrote stays written.
    let spans = chunk_spans(2500, 1000);
    let mut written: Vec<(usize, usize)> = Vec::new();
    let mut attempts = 0;
    let mut failed = false;
    for (i, span) in spans.iter().enumerate() {
        attempts += 1;
        let ok = i != 1; // the second call fails
        if !ok {
            failed = true;
            break;
        }
        written.push(*span);
    }
    assert!(failed);
    assert_eq!(attempts, 2);
    assert_eq!(written, vec![(0, 1000)]);
}

#[test]
fn wire_points_carry_exactly_the_present_attributes() {
    let now = now_ns();
    let content = "time,lon,lat,rsrp,cellid,cgi\n2025-10-03 10:20:09,139.5,35.25,-97.5,A1,X9\n";
    let out = LogParser::new(1000, true).parse_file(content, now).unwrap();
    let p = to_wire_point(&out.records[0]);
    assert_eq!(measurement_name(), "network_measurements");
    assert_eq!(
        p.tags,
        vec![
            ("measurement_type".to_string(), "gnettrack".to_string()),
            ("cell_id".to_string(), "A1".to_string()),
        ]
    );
    assert_eq!(
        p.num_fields,
        vec![
            ("longitude".to_string(), "139.5".to_string()),
            ("latitude".to_string(), "35.25".to_string()),
            ("level".to_string(), "-97.5".to_string()),
        ]
    );
    assert_eq!(p.text_fields, vec![("cgi".to_string(), "X9".to_string())]);
    assert_eq!(p.timestamp_ns, out.records[0].timestamp_ns);
}

#[test]
fn preview_lines_follow_the_wire_format() {
    let now = now_ns();
    let content = "time,lon,rsrp,operator,tech\n1700000000,139.5,-97.5,TestNet,LTE\n";
    let out = LogParser::new(1000, true).parse_file(content, now).unwrap();
    let client = InfluxClient::new(&config_with("", None, None));
    let lines = client.format_records_for_influx(&out.records);
    assert_eq!(lines.len(), 1);
    assert_eq!(
        lines[0],
        "network_measurements,measurement_type=gnettrack,operator_name=TestNet,network_tech=LTE \
         longitude=139.5,level=-97.5 1700000000000000000"
    );
}

#[test]
fn extension_selects_the_parser() {
    assert!(is_kml_path("track.kml"));
    assert!(is_kml_path("TRACK.KML"));
    assert!(is_kml_path("/a/b/c.Kml"));
    assert!(!is_kml_path("track.csv"));
    assert!(!is_kml_path("kml"));
    assert!(!is_kml_path("track.kml.txt"));

    let now = now_ns();
    let kml = parse_records("a.kml", "<kml></kml>", true, 1000, now).unwrap();
    assert_eq!(kml.records.len(), 0);
    let tab = parse_records("a.txt", "time,lon\n1700000000,1.5\n", true, 1000, now).unwrap();
    assert_eq!(tab.records.len(), 1);
}

#[test]
fn empty_parse_plans_no_write() {
    let now = now_ns();
    let out = parse_records("a.txt", "", true, 1000, now).unwrap();
    assert_eq!(out.records.len(), 0);
    assert_eq!(chunk_spans(out.records.len(), 1000), vec![]);
}

#[test]
fn pipeline_errors_name_their_parser() {
    let now = now_ns();
    let tab = parse_records("a.csv", "t,l\nx,y\n1,2,3\n", false, 1000, now);
    assert!(matches!(tab, Err(PipelineError::Tabular { .. })));
    let kml = parse_records(
        "a.kml",
        "<kml><Placemark><Data name=\"\u{6642}\u{9593}\"><value>bad</value></Data></Placemark></kml>",
        false,
        1000,
        now,
    );
    assert!(matches!(kml, Err(PipelineError::Kml { .. })));
}

#[test]
fn preview_renders_negative_timestamps() {
    let now = now_ns();
    let content = "time,lon\n-1,1.5\n";
    let out = LogParser::new(1000, true).parse_file(content, now).unwrap();
    let client = InfluxClient::new(&config_with("", None, None));
    let lines = client.format_records_for_influx(&out.records);
    assert_eq!(
        lines[0],
        "network_measurements,measurement_type=gnettrack longitude=1.5 -1000000000"
    );
}
