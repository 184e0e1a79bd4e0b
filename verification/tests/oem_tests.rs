use orbital_ephemeris_message::chars_of;
use orbital_ephemeris_message::construct_oem;
use orbital_ephemeris_message::is_numeric;
use orbital_ephemeris_message::parse_timestamp;
use orbital_ephemeris_message::scan_document;
use orbital_ephemeris_message::string_of;
use orbital_ephemeris_message::strip_pattern;
use orbital_ephemeris_message::tokenize;
use orbital_ephemeris_message::Section;
use orbital_ephemeris_message::VectorError;

const VEC_LINE_1: &str = "2022-02-18T12:00:00.000 6432.338357027310 1810.414013580070 1210.742166479110 -0.28169387337306 4.94773870038605 -5.85002385833392";
const VEC_LINE_2: &str = "2022-02-18T12:04:00.000 6130.995481102160 2917.381297198860 -220.384941250909 -2.21387475002967 4.22061672892853 -6.00280929188885";

fn synthetic_document() -> String {
    let mut doc = String::new();
    doc.push_str("META_START\n");
    doc.push_str("OBJECT_NAME TEST\n");
    doc.push_str("META_END\n");
    doc.push_str("COMMENT TRAJECTORY test segment\n");
    doc.push_str("COMMENT End\n");
    doc.push_str(VEC_LINE_1);
    doc.push('\n');
    doc.push_str(VEC_LINE_2);
    doc.push('\n');
    doc
}

#[test]
fn no_markers_yields_empty_record() {
    let content = String::from("hello world\nthis line is noise\n42 is not a marker\n");
    let out = scan_document(&content, None);
    assert!(out.empty_document());
    assert_eq!(out.last_section, Section::Unknown);
    assert_eq!(out.record.meta_summary, "");
    assert_eq!(out.record.trajectory_summary, "");
    assert_eq!(out.record.vectors.len(), 0);
    assert_eq!(out.issues.len(), 0);
}

#[test]
fn empty_input_yields_empty_record() {
    let content = String::new();
    let out = scan_document(&content, None);
    assert!(out.empty_document());
    assert_eq!(out.record.vectors.len(), 0);
}

#[test]
fn round_trip_synthetic_document() {
    let content = synthetic_document();
    let sat = construct_oem(&content);
    assert_eq!(sat.vectors.len(), 2);
    assert_eq!(sat.vectors[0].sequence_number, 1);
    assert_eq!(sat.vectors[1].sequence_number, 2);
    assert_eq!(sat.vectors[0].x.parse::<f64>().unwrap(), 6432.338357027310);
    assert_eq!(sat.vectors[1].x.parse::<f64>().unwrap(), 6130.995481102160);
    let e0 = sat.vectors[0].epoch;
    let e1 = sat.vectors[1].epoch;
    assert_eq!((e0.year, e0.month, e0.day), (2022, 2, 18));
    assert_eq!((e1.year, e1.month, e1.day), (2022, 2, 18));
    assert_eq!((e0.hour, e0.minute, e0.second), (12, 0, 0));
    assert_eq!((e1.hour, e1.minute, e1.second), (12, 4, 0));
    assert_eq!(sat.meta_summary, "META_START\nOBJECT_NAME TEST\nMETA_END\n");
    assert_eq!(sat.trajectory_summary, " TRAJECTORY test segment\n");
}

#[test]
fn tabular_projection_matches_vectors() {
    let content = synthetic_document();
    let sat = construct_oem(&content);
    let counts = sat.sequence_numbers();
    let xs = sat.x_coord_vec();
    let ys = sat.y_coord_vec();
    let zs = sat.z_coord_vec();
    assert_eq!(counts, vec![1, 2]);
    assert_eq!(xs.len(), 2);
    assert_eq!(ys[0].parse::<f64>().unwrap(), 1810.414013580070);
    assert_eq!(zs[1].parse::<f64>().unwrap(), -220.384941250909);
}

#[test]
fn malformed_number_is_reported_and_scan_continues() {
    let mut content = synthetic_document();
    content.push_str("2022-02-18T12:08:00.000 abc 0 0 -0.1 0.1 0.1\n");
    let out = scan_document(&content, None);
    assert_eq!(out.record.vectors.len(), 2);
    assert_eq!(out.record.vectors[0].sequence_number, 1);
    assert_eq!(out.record.vectors[1].sequence_number, 2);
    assert_eq!(out.record.vectors[0].x.parse::<f64>().unwrap(), 6432.338357027310);
    assert_eq!(out.issues.len(), 1);
    assert_eq!(out.issues[0].error, VectorError::MalformedNumber);
    assert_eq!(out.issues[0].line_index, 7);
}

#[test]
fn insufficient_fields_is_reported() {
    let content = String::from("COMMENT End\n2022-02-18T12:00:00.000 1 2\n");
    let out = scan_document(&content, None);
    assert_eq!(out.record.vectors.len(), 0);
    assert_eq!(out.issues.len(), 1);
    assert_eq!(out.issues[0].error, VectorError::InsufficientFields);
    assert_eq!(out.issues[0].line_index, 1);
}

#[test]
fn malformed_timestamp_is_reported() {
    let content = String::from("COMMENT End\ngarbage 1 2 3\n");
    let out = scan_document(&content, None);
    assert_eq!(out.record.vectors.len(), 0);
    assert_eq!(out.issues.len(), 1);
    assert_eq!(out.issues[0].error, VectorError::MalformedTimestamp);
}

#[test]
fn metadata_never_contains_comment_keyword() {
    let content = String::from(
        "META_START\nCOMMENT sneaky COMMENT text\nCOMCOMMENTMENT data\nMETA_END\n",
    );
    let sat = construct_oem(&content);
    assert!(!sat.meta_summary.contains("COMMENT"));
    assert!(sat.meta_summary.contains("sneaky"));
    assert!(sat.meta_summary.contains("data"));
}

#[test]
fn trajectory_never_contains_comment_keyword() {
    let content = String::from("COMMENT TRAJECTORY first\nsecond COMMENT note\n");
    let sat = construct_oem(&content);
    assert!(!sat.trajectory_summary.contains("COMMENT"));
    assert_eq!(sat.trajectory_summary, " TRAJECTORY first\nsecond  note\n");
}

#[test]
fn parsing_twice_yields_equal_records() {
    let content = synthetic_document();
    let a = construct_oem(&content);
    let b = construct_oem(&content);
    assert_eq!(a.meta_summary, b.meta_summary);
    assert_eq!(a.trajectory_summary, b.trajectory_summary);
    assert_eq!(a.vectors.len(), b.vectors.len());
    for i in 0..a.vectors.len() {
        assert_eq!(a.vectors[i].sequence_number, b.vectors[i].sequence_number);
        assert_eq!(a.vectors[i].epoch, b.vectors[i].epoch);
        assert_eq!(a.vectors[i].x, b.vectors[i].x);
        assert_eq!(a.vectors[i].y, b.vectors[i].y);
        assert_eq!(a.vectors[i].z, b.vectors[i].z);
    }
}

#[test]
fn sequence_numbers_stay_dense_across_gaps_and_disorder() {
    let mut content = String::from("COMMENT End\n");
    content.push_str("2022-02-18T12:08:00.000 1.0 2.0 3.0 0.1 0.2 0.3\n");
    content.push_str("2022-02-18T12:00:00.000 4.0 5.0 6.0 0.1 0.2 0.3\n");
    content.push_str("1999-12-31T23:59:59.999 7.0 8.0 9.0 0.1 0.2 0.3\n");
    let sat = construct_oem(&content);
    assert_eq!(sat.vectors.len(), 3);
    for i in 0..sat.vectors.len() {
        assert_eq!(sat.vectors[i].sequence_number, i + 1);
    }
}

#[test]
fn coordinate_block_opens_on_structural_match_alone() {
    let mut content = String::from("noise before\n");
    content.push_str(VEC_LINE_1);
    content.push('\n');
    let sat = construct_oem(&content);
    assert_eq!(sat.vectors.len(), 1);
    assert_eq!(sat.vectors[0].sequence_number, 1);
    assert_eq!(sat.vectors[0].epoch.minute, 0);
}

#[test]
fn scan_limit_caps_the_scanned_lines() {
    let content = synthetic_document();
    let out = scan_document(&content, Some(1));
    assert_eq!(out.record.meta_summary, "META_START\n");
    assert_eq!(out.record.vectors.len(), 0);
    let none = scan_document(&content, Some(0));
    assert!(none.empty_document());
    let all = scan_document(&content, Some(1000));
    assert_eq!(all.record.vectors.len(), 2);
}

#[test]
fn timestamp_accepts_the_fixed_pattern() {
    let e = parse_timestamp(&chars_of("2022-02-18T12:04:00.123")).unwrap();
    assert_eq!(e.year, 2022);
    assert_eq!(e.month, 2);
    assert_eq!(e.day, 18);
    assert_eq!(e.hour, 12);
    assert_eq!(e.minute, 4);
    assert_eq!(e.second, 0);
    assert_eq!(e.millisecond, 123);
}

#[test]
fn timestamp_rejects_bad_shapes_and_dates() {
    assert!(parse_timestamp(&chars_of("2022-02-18 12:04:00.123")).is_none());
    assert!(parse_timestamp(&chars_of("2022-02-18T12:04:00")).is_none());
    assert!(parse_timestamp(&chars_of("2022-13-18T12:04:00.123")).is_none());
    assert!(parse_timestamp(&chars_of("2022-00-18T12:04:00.123")).is_none());
    assert!(parse_timestamp(&chars_of("2022-02-18T24:04:00.123")).is_none());
    assert!(parse_timestamp(&chars_of("2023-02-29T00:00:00.000")).is_none());
    assert!(parse_timestamp(&chars_of("2024-02-29T00:00:00.000")).is_some());
    assert!(parse_timestamp(&chars_of("2000-02-29T00:00:00.000")).is_some());
    assert!(parse_timestamp(&chars_of("1900-02-29T00:00:00.000")).is_none());
}

#[test]
fn numeric_grammar_matches_the_field_forms() {
    assert!(is_numeric(&chars_of("-0.28169387337306")));
    assert!(is_numeric(&chars_of("6432.338357027310")));
    assert!(is_numeric(&chars_of("42")));
    assert!(is_numeric(&chars_of("+.5")));
    assert!(is_numeric(&chars_of("1.")));
    assert!(is_numeric(&chars_of("1e10")));
    assert!(is_numeric(&chars_of("-1.5E-3")));
    assert!(!is_numeric(&chars_of("")));
    assert!(!is_numeric(&chars_of("-")));
    assert!(!is_numeric(&chars_of("abc")));
    assert!(!is_numeric(&chars_of("1.2.3")));
    assert!(!is_numeric(&chars_of("1e")));
    assert!(!is_numeric(&chars_of("e5")));
}

#[test]
fn tokenizer_splits_on_whitespace_runs() {
    let toks = tokenize(&chars_of("  alpha  bb\tccc \r"));
    let words: Vec<String> = toks.iter().map(|t| string_of(t)).collect();
    assert_eq!(words, vec!["alpha".to_string(), "bb".to_string(), "ccc".to_string()]);
    assert_eq!(tokenize(&chars_of("")).len(), 0);
    assert_eq!(tokenize(&chars_of("   ")).len(), 0);
}

#[test]
fn stripping_removes_nested_occurrences() {
    let out = strip_pattern(&chars_of("COMCOMMENTMENT"), &chars_of("COMMENT"));
    assert_eq!(out.len(), 0);
    let out2 = strip_pattern(&chars_of("a COMMENT b"), &chars_of("COMMENT"));
    assert_eq!(string_of(&out2), "a  b");
}

#[test]
fn carriage_returns_are_dropped_from_lines() {
    let content = String::from("META_START\r\nOBJECT_NAME TEST\r\nMETA_END\r\n");
    let sat = construct_oem(&content);
    assert_eq!(sat.meta_summary, "META_START\nOBJECT_NAME TEST\nMETA_END\n");
}
