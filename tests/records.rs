use trace_json::json::{
    check_fields, FieldRecord, Json, Level, MalformedFields, SpanSnapshot, WriteAdaptor, WriteError,
};
use trace_json::json::span_object;
use trace_json::trace::TraceInfo;

const TS: &str = "2024-01-01T00:00:00+00:00";

fn snapshot(blob: &str, ids: Option<(u128, u64, Option<u64>)>) -> SpanSnapshot {
    SpanSnapshot::new("work".to_string(), blob, ids)
}

#[test]
fn object_fields_are_flattened() {
    let f = FieldRecord::parse(r#"{"a":1}"#);
    assert_eq!(f, FieldRecord::Object(vec![("a".to_string(), "1".to_string())]));
    assert_eq!(span_object(&f, "work"), r#"{"a":1,"name":"work"}"#);
}

#[test]
fn empty_object_gives_only_the_name() {
    let f = FieldRecord::parse("{}");
    assert_eq!(span_object(&f, "work"), r#"{"name":"work"}"#);
}

#[test]
fn invalid_fields_are_reported() {
    let f = FieldRecord::parse("{not json");
    assert!(matches!(f, FieldRecord::Invalid(_)));
    assert!(!f.is_object());
    assert!(!FieldRecord::parse("42").is_object());
    assert!(FieldRecord::parse("{}").is_object());
    let obj = span_object(&f, "work");
    let v: serde_json::Value = serde_json::from_str(&obj).unwrap();
    assert!(v["field_error"].is_string());
    assert_eq!(v["name"], "work");
    assert_eq!(v.as_object().unwrap().len(), 2);
    let line = Json.format_record(TS, Level::Info, "{}", "app", &Some(snapshot("{not json", None)));
    assert!(line.ends_with("}\n"));
    assert_eq!(line.matches('\n').count(), 1);
    let whole: serde_json::Value = serde_json::from_str(line.trim_end()).unwrap();
    assert!(whole["span"]["field_error"].is_string());
}

#[test]
fn scalar_fields_are_kept_with_an_error() {
    let f = FieldRecord::parse("42");
    assert_eq!(f, FieldRecord::Other("42".to_string()));
    assert_eq!(
        span_object(&f, "work"),
        r#"{"field":42,"field_error":"field was no a valid object","name":"work"}"#
    );
}

#[test]
fn record_without_span() {
    let line = Json.format_record(TS, Level::Info, r#"{"message":"hi"}"#, "app", &None);
    assert_eq!(
        line,
        "{\"timestamp\":\"2024-01-01T00:00:00+00:00\",\"level\":\"INFO\",\"fields\":{\"message\":\"hi\"},\"target\":\"app\"}\n"
    );
}

#[test]
fn record_with_span_and_trace() {
    let sp = snapshot(r#"{"a":1}"#, Some((0x9d96f6d506048d33796d850a09797e55, 0x0db1818f6e5514ee, None)));
    let line = Json.format_record(TS, Level::Error, "{}", "app::db", &Some(sp));
    assert_eq!(
        line,
        "{\"timestamp\":\"2024-01-01T00:00:00+00:00\",\"level\":\"ERROR\",\"fields\":{},\"target\":\"app::db\",\"span\":{\"a\":1,\"name\":\"work\"},\"span_id\":\"0db1818f6e5514ee\",\"trace_id\":\"9d96f6d506048d33796d850a09797e55\"}\n"
    );
}

#[test]
fn record_with_span_but_zero_trace() {
    let sp = snapshot("{}", Some((0, 0x0db1818f6e5514ee, None)));
    assert_eq!(sp.trace, None);
    let line = Json.format_record(TS, Level::Warn, "{}", "app", &Some(sp));
    assert!(!line.contains("trace_id"));
    assert!(!line.contains("span_id"));
    assert!(line.contains(r#""span":{"name":"work"}"#));
}

#[test]
fn record_uses_export_span_id() {
    let sp = snapshot("{}", Some((1, 0xaaaaaaaaaaaaaaaa, Some(0xbbbbbbbbbbbbbbbb))));
    assert_eq!(
        sp.trace,
        Some(TraceInfo {
            trace_id: "00000000000000000000000000000001".to_string(),
            span_id: "bbbbbbbbbbbbbbbb".to_string(),
        })
    );
    let line = Json.format_record(TS, Level::Debug, "{}", "app", &Some(sp));
    assert!(line.contains(r#""span_id":"bbbbbbbbbbbbbbbb","trace_id":"00000000000000000000000000000001"}"#));
}

#[test]
fn strings_are_escaped() {
    let line = Json.format_record(TS, Level::Trace, "{}", "a\"b\\c\n\u{1}", &None);
    assert!(line.contains(r#""target":"a\"b\\c\n\u0001"}"#));
}

#[test]
fn level_names() {
    assert_eq!(Level::Trace.name(), "TRACE");
    assert_eq!(Level::Debug.name(), "DEBUG");
    assert_eq!(Level::Info.name(), "INFO");
    assert_eq!(Level::Warn.name(), "WARN");
    assert_eq!(Level::Error.name(), "ERROR");
}

#[test]
fn event_is_stamped_now() {
    let line = Json.format_event(Level::Info, r#"{"message":"m"}"#, "app", &None);
    assert!(line.ends_with("}\n"));
    let v: serde_json::Value = serde_json::from_str(line.trim_end()).unwrap();
    let ts = v["timestamp"].as_str().unwrap();
    assert!(chrono::DateTime::parse_from_rfc3339(ts).is_ok());
    let keys: Vec<&String> = v.as_object().unwrap().keys().collect();
    assert_eq!(keys.len(), 4);
    assert!(line.starts_with("{\"timestamp\":"));
    assert!(line.contains(",\"level\":\"INFO\",\"fields\":{\"message\":\"m\"},\"target\":\"app\"}"));
}

#[test]
fn independent_sinks_each_hold_one_line() {
    let mut sinks: Vec<WriteAdaptor> = (0..8).map(|_| WriteAdaptor::new(String::new())).collect();
    for (i, sink) in sinks.iter_mut().enumerate() {
        let fields = format!("{{\"n\":{}}}", i);
        let sp = snapshot("{\"k\":\"v\"}", Some((i as u128 + 1, 7, None)));
        let line = Json.format_record(TS, Level::Info, &fields, "app", &Some(sp));
        assert_eq!(sink.write(line.as_bytes()), Ok(line.len()));
    }
    for (i, sink) in sinks.into_iter().enumerate() {
        let text = sink.into_text();
        assert_eq!(text.matches('\n').count(), 1);
        let v: serde_json::Value = serde_json::from_str(text.trim_end()).unwrap();
        assert_eq!(v["fields"]["n"], i as u64);
    }
}

#[test]
fn adaptor_takes_utf8_only() {
    let mut w = WriteAdaptor::new("x".to_string());
    assert_eq!(w.write("aé".as_bytes()), Ok(3));
    assert_eq!(w.write(&[0xff, 0x41]), Err(WriteError::InvalidData));
    assert_eq!(w.flush(), Ok(()));
    assert_eq!(w.into_text(), "xaé");
}

#[test]
fn members_keep_compact_value_text() {
    let f = FieldRecord::parse(r#"{ "b" : [1, 2], "a" : {"x": "y"} }"#);
    match f {
        FieldRecord::Object(m) => {
            assert_eq!(m.len(), 2);
            assert!(m.contains(&("b".to_string(), "[1,2]".to_string())));
            assert!(m.contains(&("a".to_string(), r#"{"x":"y"}"#.to_string())));
        }
        other => panic!("expected an object, got {:?}", other),
    }
    assert_eq!(FieldRecord::parse(r#" "s" "#), FieldRecord::Other(r#""s""#.to_string()));
}

#[test]
fn strict_handling_refuses_malformed_fields() {
    let obj = FieldRecord::parse("{}");
    let scalar = FieldRecord::parse("42");
    let bad = FieldRecord::parse("{not json");
    assert_eq!(check_fields(true, &obj), Ok(()));
    assert_eq!(check_fields(true, &scalar), Err(MalformedFields::NotAnObject));
    assert_eq!(check_fields(true, &bad), Err(MalformedFields::Unreadable));
    assert_eq!(check_fields(false, &scalar), Ok(()));
    assert_eq!(check_fields(false, &bad), Ok(()));
}
