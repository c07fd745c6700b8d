use lightspeed::json::{parse, Value};
use lightspeed::numbers::{is_number_text, Double};

fn double(x: f64) -> Double {
    Double { bits: x.to_bits() }
}

#[test]
fn round_trips_a_flat_object() {
    let value = Value::object(vec![("a", Value::integer(1)), ("b", Value::Bool(true))]);
    let text = value.to_json_string();
    let parsed = parse(&text).unwrap();
    assert_eq!(parsed.get("a").unwrap().as_f64(), Some(double(1.0)));
    assert_eq!(parsed.get("b").unwrap(), &Value::Bool(true));
    assert_eq!(parsed, value);
}

#[test]
fn parses_nested_arrays_and_objects() {
    let text = r#"{"items":[{"n":1},{"n":2}],"ok":null}"#;
    let value = parse(text).unwrap();
    let items = value.get("items").unwrap().as_array().unwrap();
    assert_eq!(items.len(), 2);
    assert_eq!(items[1].get("n").unwrap().as_f64(), Some(double(2.0)));
    assert_eq!(value.get("ok").unwrap(), &Value::Null);
}

#[test]
fn parses_escaped_strings() {
    let value = parse(r#"{"s":"line1\nline2 \"quoted\""}"#).unwrap();
    assert_eq!(value.get("s").unwrap().as_str().unwrap(), "line1\nline2 \"quoted\"");
}

#[test]
fn a_realistic_publish_diagnostics_notification_parses() {
    let text = r#"{
            "jsonrpc": "2.0",
            "method": "textDocument/publishDiagnostics",
            "params": {
                "uri": "file:///C:/proj/src/main.rs",
                "diagnostics": [
                    {"range": {"start": {"line": 3, "character": 4}, "end": {"line": 3, "character": 9}},
                     "severity": 1, "message": "unused variable"}
                ]
            }
        }"#;
    let value = parse(text).unwrap();
    assert_eq!(value.get("method").unwrap().as_str(), Some("textDocument/publishDiagnostics"));
    let params = value.get("params").unwrap();
    assert_eq!(params.get("uri").unwrap().as_str(), Some("file:///C:/proj/src/main.rs"));
    let diagnostics = params.get("diagnostics").unwrap().as_array().unwrap();
    assert_eq!(diagnostics.len(), 1);
    let range = diagnostics[0].get("range").unwrap();
    assert_eq!(range.get("start").unwrap().get("line").unwrap().as_usize(), Some(3));
}

#[test]
fn escaping_round_trips_through_the_writer() {
    let value = Value::Text("a\"b\\c\nd".to_string());
    let text = value.to_json_string();
    assert_eq!(text, r#""a\"b\\c\nd""#);
    assert_eq!(parse(&text).unwrap(), value);
}

#[test]
fn an_escape_by_code_is_the_character_with_that_code() {
    assert_eq!(parse(r#""\u0041\u00e9""#).unwrap(), Value::Text("A\u{e9}".to_string()));
    assert_eq!(parse(r#""\u+041""#).unwrap(), Value::Text("A".to_string()));
}

#[test]
fn half_a_surrogate_pair_is_the_replacement_character() {
    assert_eq!(parse(r#""\ud800""#).unwrap(), Value::Text("\u{fffd}".to_string()));
    assert_eq!(parse(r#""\udfff!""#).unwrap(), Value::Text("\u{fffd}!".to_string()));
}

#[test]
fn a_number_is_read_as_the_nearest_double() {
    let read = |text: &str| parse(text).unwrap().as_u64();
    for text in [
        "0", "1.5", "0.5", "0.9999999999999999", "0.99999999999999994448", "0.99999999999999995",
        "0.99999999999999999999", "1e-400", "1e400", "9007199254740991.5", "9007199254740992.5",
        "9007199254740993", "9007199254740993.0000000000000000001", "9007199254740995",
        "4503599627370495.75", "4503599627370496.5", "123456789.99999999999", "2.5e3",
        "18446744073709550591", "18446744073709550592", "18446744073709551615",
        "18446744073709551616", "36893488147419103233", "0.000000000000000000001e21", "-3",
    ] {
        let expected = text.parse::<f64>().unwrap().max(0.0);
        assert_eq!(read(text), Some(expected as u64), "{text}");
        assert_eq!(parse(text).unwrap().as_usize(), Some(expected as usize), "{text}");
    }
    assert_eq!(read("9007199254740993"), Some(9007199254740992));
    assert_eq!(read("0.99999999999999999999"), Some(1));
    assert_eq!(read("1e400"), Some(u64::MAX));
}

#[test]
fn a_number_is_written_as_the_shortest_text_that_reads_as_it() {
    let value = parse("[1.50, -2e3, 1e2, 12, 1.0]").unwrap();
    let items = value.as_array().unwrap();
    assert_eq!(items[0], Value::Number(double(1.5)));
    assert_eq!(items[1].as_u64(), Some(0), "no less than nothing");
    assert_eq!(items[3].as_usize(), Some(12));
    assert_eq!(parse("1").unwrap(), parse("1.0").unwrap());
    assert_eq!(items[4], Value::integer(1));
    assert_eq!(value.to_json_string(), "[1.5,-2000,100,12,1]");
    assert_eq!(parse("1e400").unwrap().to_json_string(), "inf");
}

#[test]
fn numbers_are_told_from_other_words() {
    let is = |text: &str| is_number_text(&text.chars().collect());
    assert!(is("0") && is("-1.5") && is("2e10") && is("3.E-4"));
    assert!(!is("") && !is("-") && !is("e5") && !is("1e") && !is("1.2.3"));
}

#[test]
fn text_that_is_not_json_is_refused() {
    assert_eq!(parse(""), None);
    assert_eq!(parse("{"), None);
    assert_eq!(parse("[1,"), None);
    assert_eq!(parse("\"open"), None);
    assert_eq!(parse("nothing"), None);
}
