use gnt2influx::kml_parser::KmlError;
use gnt2influx::kml_parser::KmlParser;
use gnt2influx::kml_parser::PlacemarkData;
use gnt2influx::timestamp::parse_kml_timestamp;

fn now_ns() -> i64 {
    chrono::Utc::now().timestamp_nanos_opt().unwrap()
}

fn placemark(time: &str, coords: &str, rsrp: &str, speed: &str, tech: &str) -> String {
    let mut s = String::new();
    s.push_str("<Placemark><ExtendedData>");
    for (name, value) in [
        ("時間", time),
        ("RSRP", rsrp),
        ("速度", speed),
        ("技術", tech),
    ] {
        s.push_str("<Data name=\"");
        s.push_str(name);
        s.push_str("\"><value>");
        s.push_str(value);
        s.push_str("</value></Data>");
    }
    s.push_str("</ExtendedData><Point><coordinates>");
    s.push_str(coords);
    s.push_str("</coordinates></Point></Placemark>");
    s
}

fn document(placemarks: &[String]) -> String {
    let mut s = String::from("<kml><Document>");
    for p in placemarks {
        s.push_str(p);
    }
    s.push_str("</Document></kml>");
    s
}

#[test]
fn kml_round_trip() {
    let doc = document(&[placemark(
        "2025.10.03_10.20.09",
        "139.123,35.456,10",
        "-95 dBm",
        "42 km/h",
        "LTE",
    )]);
    let now = now_ns();
    let out = KmlParser::new(true).parse_file(&doc, now).unwrap();
    assert_eq!(out.records.len(), 1);
    assert_eq!(out.error_count, 0);
    let r = &out.records[0];
    assert_eq!(r.longitude.as_ref().unwrap().parse::<f64>().unwrap(), 139.123);
    assert_eq!(r.latitude.as_ref().unwrap().parse::<f64>().unwrap(), 35.456);
    assert_eq!(r.level.as_ref().unwrap().parse::<f64>().unwrap(), -95.0);
    assert_eq!(r.speed.as_ref().unwrap().parse::<f64>().unwrap(), 42.0);
    assert_eq!(r.operator_name.as_deref(), Some("KDDI"));
    assert_eq!(r.network_tech.as_deref(), Some("LTE"));
    let expected = chrono::NaiveDateTime::parse_from_str("2025-10-03 10:20:09", "%Y-%m-%d %H:%M:%S")
        .unwrap()
        .and_utc()
        .timestamp_nanos_opt()
        .unwrap();
    assert_eq!(r.timestamp_ns, expected);
}

#[test]
fn kml_time_patterns() {
    let expected = chrono::NaiveDateTime::parse_from_str("2025-10-03 10:20:09", "%Y-%m-%d %H:%M:%S")
        .unwrap()
        .and_utc()
        .timestamp_nanos_opt()
        .unwrap();
    assert_eq!(parse_kml_timestamp("2025.10.03_10.20.09"), Some(expected));
    assert_eq!(parse_kml_timestamp("2025-10-03 10:20:09"), Some(expected));
    assert_eq!(parse_kml_timestamp("2025/10/03 10:20:09"), Some(expected));
    assert_eq!(parse_kml_timestamp("not-a-date"), None);
}

#[test]
fn unparseable_time_fails_that_placemark_under_either_policy() {
    let good = placemark(
        "2025.10.03_10.20.09",
        "139.0,35.0",
        "-90 dBm",
        "10 km/h",
        "LTE",
    );
    let bad = placemark("not-a-date", "139.5,35.5", "-91 dBm", "11 km/h", "LTE");
    let doc = document(&[good.clone(), bad.clone(), good.clone()]);

    let tolerant = KmlParser::new(true);
    let now = now_ns();
    let out = tolerant.parse_file(&doc, now).unwrap();
    assert_eq!(out.records.len(), 2);
    assert_eq!(out.error_count, 1);

    let strict = KmlParser::new(false);
    match strict.parse_file(&doc, now) {
        Err(KmlError::Placemark { time_value }) => assert_eq!(time_value, "not-a-date"),
        _ => panic!("expected the bad placemark to abort the parse"),
    }
}

#[test]
fn absent_time_falls_back_to_now() {
    let doc = "<kml><Placemark><Point><coordinates>1.5,2.5</coordinates></Point></Placemark></kml>";
    let now = now_ns();
    let out = KmlParser::new(true).parse_file(doc, now).unwrap();
    assert_eq!(out.records.len(), 1);
    assert_eq!(out.records[0].timestamp_ns, now);
}

#[test]
fn units_strip_with_or_without_space() {
    let mut pm = PlacemarkData::new();
    pm.add_data("RSRP", "-95dBm");
    pm.add_data("速度", "42km/h");
    let rec = pm.to_record(5).unwrap();
    assert_eq!(rec.level.as_deref(), Some("-95"));
    assert_eq!(rec.speed.as_deref(), Some("42"));
    assert_eq!(rec.timestamp_ns, 5);
}

#[test]
fn short_or_junk_coordinates_leave_position_absent() {
    let mut pm = PlacemarkData::new();
    pm.set_coordinates("139.5");
    let rec = pm.to_record(0).unwrap();
    assert_eq!(rec.longitude, None);
    assert_eq!(rec.latitude, None);

    let mut pm2 = PlacemarkData::new();
    pm2.set_coordinates("abc, 35.5 ,1");
    let rec2 = pm2.to_record(0).unwrap();
    assert_eq!(rec2.longitude, None);
    // the second token keeps its inner space and is no float text
    assert_eq!(rec2.latitude, None);
}

#[test]
fn unknown_data_names_are_dropped() {
    let mut pm = PlacemarkData::new();
    pm.add_data("mystery", "value");
    pm.add_data("技術", "NR");
    let rec = pm.to_record(0).unwrap();
    assert_eq!(rec.network_tech.as_deref(), Some("NR"));
    assert_eq!(rec.operator_name.as_deref(), Some("KDDI"));
    assert_eq!(rec.cgi, None);
}

#[test]
fn malformed_markup_follows_the_policy() {
    // An end tag that matches no start tag is a reader-level error.
    let doc = "<kml><Placemark></Wrong></Placemark></kml>";
    let now = now_ns();

    let tolerant = KmlParser::new(true);
    let out = tolerant.parse_file(doc, now).unwrap();
    assert!(out.error_count >= 1);

    let strict = KmlParser::new(false);
    match strict.parse_file(doc, now) {
        Err(KmlError::Xml { message }) => assert!(!message.is_empty()),
        Err(KmlError::Placemark { .. }) => panic!("expected a reader-level error"),
        Ok(_) => panic!("expected the malformed markup to abort the parse"),
    }
}

#[test]
fn empty_document_yields_zero_records() {
    let now = now_ns();
    let out = KmlParser::new(true).parse_file("<kml></kml>", now).unwrap();
    assert_eq!(out.records.len(), 0);
    assert_eq!(out.error_count, 0);
}
