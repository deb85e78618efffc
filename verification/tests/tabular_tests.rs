use gnt2influx::parser::LogParser;
use gnt2influx::parser::RowIssue;
use gnt2influx::parser::TabError;
use gnt2influx::parser::parse_float_optional;
use gnt2influx::timestamp::parse_timestamp;

fn now_ns() -> i64 {
    chrono::Utc::now().timestamp_nanos_opt().unwrap()
}

fn expected_ns(s: &str, fmt: &str) -> i64 {
    chrono::NaiveDateTime::parse_from_str(s, fmt)
        .unwrap()
        .and_utc()
        .timestamp_nanos_opt()
        .unwrap()
}

#[test]
fn empty_timestamp_is_now_not_an_error() {
    let before = chrono::Utc::now().timestamp_nanos_opt().unwrap();
    let now = now_ns();
    assert!(now >= before);
    assert_eq!(parse_timestamp("", now), Some(now));

    let parser = LogParser::new(1000, true);
    let out = parser
        .parse_file("timestamp,level\n,-95.5\n", now)
        .unwrap();
    assert_eq!(out.records.len(), 1);
    assert_eq!(out.error_count, 0);
    assert_eq!(out.records[0].timestamp_ns, now);
    assert!(out.records[0].timestamp_ns >= before);
}

#[test]
fn timestamp_formats_resolve_in_order() {
    let now = now_ns();
    assert_eq!(
        parse_timestamp("2025-10-03 10:20:09", now),
        Some(expected_ns("2025-10-03 10:20:09", "%Y-%m-%d %H:%M:%S"))
    );
    assert_eq!(
        parse_timestamp("2025/10/03 10:20:09", now),
        Some(expected_ns("2025-10-03 10:20:09", "%Y-%m-%d %H:%M:%S"))
    );
    assert_eq!(
        parse_timestamp("03.10.2025 10:20:09", now),
        Some(expected_ns("2025-10-03 10:20:09", "%Y-%m-%d %H:%M:%S"))
    );
    assert_eq!(
        parse_timestamp("2025-10-03T10:20:09", now),
        Some(expected_ns("2025-10-03 10:20:09", "%Y-%m-%d %H:%M:%S"))
    );
    assert_eq!(
        parse_timestamp("2025-10-03T10:20:09Z", now),
        Some(expected_ns("2025-10-03 10:20:09", "%Y-%m-%d %H:%M:%S"))
    );
    assert_eq!(parse_timestamp("not-a-date", now), None);
}

#[test]
fn unix_epoch_seconds_are_a_fallback() {
    let now = now_ns();
    assert_eq!(
        parse_timestamp("1700000000", now),
        Some(1_700_000_000_000_000_000)
    );
    assert_eq!(parse_timestamp("-1", now), Some(-1_000_000_000));
}

#[test]
fn numeric_sentinels_and_junk_become_absent() {
    assert_eq!(parse_float_optional(""), None);
    assert_eq!(parse_float_optional("N/A"), None);
    assert_eq!(parse_float_optional("null"), None);
    assert_eq!(parse_float_optional("abc"), None);
    assert_eq!(parse_float_optional("12,5"), None);
    assert_eq!(parse_float_optional("42.5").as_deref(), Some("42.5"));
}

#[test]
fn numeric_text_round_trips_exactly() {
    for text in ["42.5", "-95", "1e5", ".5", "5.", "+3.25e-2", "0012"] {
        let kept = parse_float_optional(text).expect(text);
        let direct: f64 = text.parse().unwrap();
        let round: f64 = kept.parse().unwrap();
        assert_eq!(direct, round);
    }
}

#[test]
fn float_acceptance_agrees_with_std() {
    for text in [
        "1", "1.", ".5", "1.5", "1e5", "1E5", "1e+5", "1e-5", ".5e1", "5.e2", "inf", "INF",
        "infinity", "nan", "NaN", "-inf", "+42", "-0.0", "1e999",
        "", ".", "e5", "1e", "1e+", "+", "-", "1.2.3", "0x10", "1_000", " 1", "1 ", "--1",
        "1e5.5", "in", "infinit",
    ] {
        let ours = parse_float_optional(text).is_some();
        let sentinel = text.is_empty() || text == "N/A" || text == "null";
        let std_says = !sentinel && text.parse::<f64>().is_ok();
        assert_eq!(ours, std_says, "disagreement on {:?}", text);
    }
}

#[test]
fn integer_parse_agrees_with_std() {
    for text in [
        "0", "7", "-7", "+7", "007", "9223372036854775807", "-9223372036854775808",
        "9223372036854775808", "-9223372036854775809", "99999999999999999999999999",
        "", "+", "-", "1.5", " 1", "1 ", "abc", "--1",
    ] {
        assert_eq!(
            gnt2influx::text::parse_i64(text),
            text.parse::<i64>().ok(),
            "disagreement on {:?}",
            text
        );
    }
}

#[test]
fn first_line_tab_selects_tab_for_the_whole_file() {
    let parser = LogParser::new(1000, true);
    assert_eq!(parser.detect_delimiter("a\tb\nc,d\n"), b'\t');
    assert_eq!(parser.detect_delimiter("a,b\nc\td\n"), b',');

    // The second line holds commas, but the file stays tab-delimited: the
    // whole cell "-9,5" is one level value, and no float.
    let now = now_ns();
    let out = parser
        .parse_file("timestamp\tlevel\n2025-10-03 10:20:09\t-9,5\n", now)
        .unwrap();
    assert_eq!(out.records.len(), 1);
    assert_eq!(out.records[0].level, None);
}

#[test]
fn third_bad_row_aborts_with_line_four() {
    let content = "timestamp,level\n\
                   2025-10-03 10:20:09,-90\n\
                   2025-10-03 10:20:10,-91\n\
                   not-a-date,-92\n\
                   2025-10-03 10:20:12,-93\n";
    let now = now_ns();

    let strict = LogParser::new(1000, false);
    match strict.parse_file(content, now) {
        Err(TabError::Row { line, issue }) => {
            assert_eq!(line, 4);
            match issue {
                RowIssue::BadTimestamp { value } => assert_eq!(value, "not-a-date"),
                RowIssue::Malformed { .. } => panic!("expected a timestamp failure"),
            }
        }
        other => panic!("expected a row error, got {:?}", other.is_ok()),
    }

    let tolerant = LogParser::new(1000, true);
    let out = tolerant.parse_file(content, now).unwrap();
    assert_eq!(out.records.len(), 3);
    assert_eq!(out.error_count, 1);
    assert_eq!(
        out.records[2].timestamp_ns,
        expected_ns("2025-10-03 10:20:12", "%Y-%m-%d %H:%M:%S")
    );
}

#[test]
fn uneven_row_counts_follow_the_policy() {
    let content = "timestamp,level\n2025-10-03 10:20:09,-90\nonly-one-cell\n";
    let now = now_ns();

    let tolerant = LogParser::new(1000, true);
    let out = tolerant.parse_file(content, now).unwrap();
    assert_eq!(out.records.len(), 1);
    assert_eq!(out.error_count, 1);

    let strict = LogParser::new(1000, false);
    match strict.parse_file(content, now) {
        Err(TabError::Row { line, issue }) => {
            assert_eq!(line, 3);
            assert!(matches!(issue, RowIssue::Malformed { .. }));
        }
        _ => panic!("expected a malformed-row error"),
    }
}

#[test]
fn header_aliases_are_case_insensitive() {
    let content = "TIME,Lon,LAT,RSRP,CellID,Operator\n\
                   2025-10-03 10:20:09,139.5,35.25,-97.5,A1,TestNet\n";
    let now = now_ns();
    let out = LogParser::new(1000, true).parse_file(content, now).unwrap();
    assert_eq!(out.records.len(), 1);
    let r = &out.records[0];
    assert_eq!(r.longitude.as_deref(), Some("139.5"));
    assert_eq!(r.latitude.as_deref(), Some("35.25"));
    assert_eq!(r.level.as_deref(), Some("-97.5"));
    assert_eq!(r.cell_id.as_deref(), Some("A1"));
    assert_eq!(r.operator_name.as_deref(), Some("TestNet"));
    assert_eq!(
        r.timestamp_ns,
        expected_ns("2025-10-03 10:20:09", "%Y-%m-%d %H:%M:%S")
    );
    assert_eq!(r.speed, None);
    assert_eq!(r.cgi, None);
}

#[test]
fn unknown_columns_are_ignored() {
    let content = "timestamp,mystery\n2025-10-03 10:20:09,whatever\n";
    let now = now_ns();
    let out = LogParser::new(1000, true).parse_file(content, now).unwrap();
    assert_eq!(out.records.len(), 1);
    assert_eq!(out.error_count, 0);
}

#[test]
fn empty_input_yields_zero_records() {
    let now = now_ns();
    let out = LogParser::new(1000, true).parse_file("", now).unwrap();
    assert_eq!(out.records.len(), 0);
    assert_eq!(out.error_count, 0);

    let header_only = LogParser::new(1000, true)
        .parse_file("timestamp,level\n", now)
        .unwrap();
    assert_eq!(header_only.records.len(), 0);
    assert_eq!(header_only.error_count, 0);
}
