use serde_json::Value;
use streams::json::{find, read_entries, read_value, Json};
use streams::pipeline::{MetricPipeline, MetricRecord};
use streams::samples::{flatten, MetricSample, MetricValue};
use streams::schedule::Timestamp;

const NOW: Timestamp = Timestamp { seconds: 1_700_000_000, nanos: 5 };

fn object(text: &str) -> serde_json::Map<String, Value> {
    match serde_json::from_str(text).unwrap() {
        Value::Object(map) => map,
        _ => panic!("not an object"),
    }
}

fn shown(value: &MetricValue) -> String {
    match value {
        MetricValue::Double(d) => format!("d{}", d.text),
        MetricValue::Integer(i) => format!("i{i}"),
        MetricValue::Text(s) => format!("t{s}"),
        MetricValue::Bool(b) => format!("b{b}"),
        MetricValue::Null => "null".to_string(),
    }
}

fn line(sample: &MetricSample) -> String {
    let tags = match &sample.tags {
        Some(list) => {
            let pairs: Vec<String> = list.iter().map(|(k, v)| format!("{k}={v}")).collect();
            format!("[{}]", pairs.join(","))
        }
        None => String::new(),
    };
    format!("{}{} {}", sample.path, tags, shown(&sample.value))
}

fn changed(record: &MetricRecord) -> Vec<String> {
    record.samples.iter().filter(|s| s.changed).map(|s| s.path.clone()).collect()
}

#[test]
fn values_keep_their_kind() {
    let map = object(r#"{"a":1,"b":-2,"c":1.5,"d":"x","e":true,"f":null,"g":18446744073709551615,"h":2.0}"#);
    let shown_values: Vec<String> = read_entries(&map)
        .iter()
        .map(|(k, v)| format!("{k}:{}", shown(&MetricValue::from_json(v))))
        .collect();
    assert_eq!(
        shown_values,
        vec!["a:i1", "b:i-2", "c:d1.5", "d:tx", "e:btrue", "f:null", "g:d18446744073709552000", "h:d2"]
    );
}

#[test]
fn numbers_are_read_in_every_form() {
    let value: Value = serde_json::from_str("[7, -7, 0.25]").unwrap();
    let Json::Array(items) = read_value(&value) else { panic!("no array") };
    let Json::Number(seven) = &items[0] else { panic!("no number") };
    assert_eq!(seven.signed, Some(7));
    assert_eq!(seven.unsigned, Some(7));
    assert_eq!(seven.double.as_ref().unwrap().bits, 7.0f64.to_bits());
    let Json::Number(minus) = &items[1] else { panic!("no number") };
    assert_eq!(minus.unsigned, None);
    let Json::Number(quarter) = &items[2] else { panic!("no number") };
    assert_eq!(quarter.signed, None);
    assert_eq!(quarter.double.as_ref().unwrap().text, "0.25");
    assert_eq!(quarter.double.as_ref().unwrap().tenths, format!("{:.1}", 0.25f64));
}

#[test]
fn entries_stand_in_the_order_of_their_keys() {
    let entries = read_entries(&object(r#"{"b":1,"a":2,"C":3}"#));
    let keys: Vec<&str> = entries.iter().map(|(k, _)| k.as_str()).collect();
    assert_eq!(keys, vec!["C", "a", "b"]);
    assert!(find(&entries, "a").is_some());
    assert!(find(&entries, "c").is_none());
}

#[test]
fn objects_and_arrays_are_flattened() {
    let value: Value =
        serde_json::from_str(r#"{"x":{"y":1},"list":[{"p":2,"q":[3]},4,{"p":5}],"none":[],"empty":{}}"#)
            .unwrap();
    let mut out = Vec::new();
    flatten("sat", &read_value(&value), &mut out);
    let lines: Vec<String> = out.iter().map(line).collect();
    assert_eq!(
        lines,
        vec![
            "sat.list.0.p i2",
            "sat.list.0.q.0 i3",
            "sat.list.p[index=0] i2",
            "sat.list.q.0[index=0] i3",
            "sat.list.1 i4",
            "sat.list.2.p i5",
            "sat.list.p[index=2] i5",
            "sat.x.y i1",
        ]
    );
    assert!(out.iter().all(|s| s.changed));
}

#[test]
fn headers_are_read_and_left_out_of_the_samples() {
    let mut pipeline = MetricPipeline::new(100);
    let record = pipeline.process(
        object(r#"{"timestamp":"2024-01-01T00:00:00Z","interval_ms":250,"collect_ms":1.26,"sat_a":{"v":1},"sat_b":{"v":2}}"#),
        NOW,
    );
    assert_eq!(record.timestamp_iso, "2024-01-01T00:00:00Z");
    assert_eq!(record.interval_ms, 250);
    assert_eq!(record.collect_ms.bits, 1.26f64.to_bits());
    assert_eq!(record.timestamp, NOW);
    assert!(record.snapshot);
    assert_eq!(record.raw.len(), 5);
    let paths: Vec<&str> = record.samples.iter().map(|s| s.path.as_str()).collect();
    assert_eq!(paths, vec!["sat_a.v", "sat_b.v"]);
}

#[test]
fn missing_headers_have_defaults() {
    let mut pipeline = MetricPipeline::new(100);
    let record = pipeline.process(object(r#"{"timestamp":5,"interval_ms":-1,"collect_ms":"x"}"#), NOW);
    assert_eq!(record.timestamp_iso, "");
    assert_eq!(record.interval_ms, 0);
    assert_eq!(record.collect_ms.bits, 0);
    assert!(record.samples.is_empty());
}

#[test]
fn cycles_are_logged() {
    let mut pipeline = MetricPipeline::new(100);
    let text = r#"{"collect_ms":1.26,"sat_a":{"v":1},"sat_b":{"v":2}}"#;
    let first = pipeline.process(object(text), NOW);
    assert_eq!(first.logs.len(), 1);
    assert_eq!(first.logs[0].channel, "log.system");
    assert_eq!(
        first.logs[0].message,
        format!("snapshot cycle=0 collectors=[sat_a,sat_b] changed=2 collect_ms=1.3 {text}")
    );
    let second = pipeline.process(object(r#"{"collect_ms":2,"sat_a":{"v":1},"sat_b":{"v":3}}"#), NOW);
    assert_eq!(
        second.logs[0].message,
        r#"delta cycle=1 collectors=[sat_a,sat_b] changed=1/2 collect_ms=2.0 {"collect_ms":2,"sat_a":{"v":1},"sat_b":{"v":3}}"#
    );
    let expected: Vec<(&str, &str)> = vec![
        ("cycle", "1"),
        ("kind", "delta"),
        ("changed", "1/2"),
        ("collectors", "sat_a,sat_b"),
        ("collect_ms", "2.0"),
        ("data", r#"{"collect_ms":2,"sat_a":{"v":1},"sat_b":{"v":3}}"#),
    ];
    let args: Vec<(&str, &str)> =
        second.logs[0].args.iter().map(|(k, v)| (k.as_str(), v.as_str())).collect();
    assert_eq!(args, expected);
}

#[test]
fn deltas_mark_what_has_changed() {
    let mut pipeline = MetricPipeline::new(100);
    pipeline.process(object(r#"{"s":{"a":1,"b":"x","c":1.5}}"#), NOW);
    let second = pipeline.process(object(r#"{"s":{"a":1,"b":"y","c":1.5,"d":null}}"#), NOW);
    assert!(!second.snapshot);
    assert_eq!(changed(&second), vec!["s.b", "s.d"]);
    // Another kind of number is another value, and what is missing is remembered.
    let third = pipeline.process(object(r#"{"s":{"a":1.0,"d":null}}"#), NOW);
    assert_eq!(changed(&third), vec!["s.a"]);
    let fourth = pipeline.process(object(r#"{"s":{"b":"y","c":1.5}}"#), NOW);
    assert!(changed(&fourth).is_empty());
}

#[test]
fn repeated_records_are_unchanged() {
    let mut pipeline = MetricPipeline::new(100);
    let text = r#"{"s":{"list":[{"p":1},{"p":2}],"z":-0.0}}"#;
    pipeline.process(object(text), NOW);
    let again = pipeline.process(object(text), NOW);
    assert_eq!(again.samples.len(), 5);
    assert!(changed(&again).is_empty());
}

#[test]
fn snapshots_come_at_the_interval() {
    let mut pipeline = MetricPipeline::new(3);
    let kinds: Vec<bool> =
        (0..7).map(|_| pipeline.process(object(r#"{"s":{"a":1}}"#), NOW).snapshot).collect();
    assert_eq!(kinds, vec![true, false, false, true, false, false, true]);
    let mut never = MetricPipeline::new(0);
    let kinds: Vec<bool> =
        (0..3).map(|_| never.process(object(r#"{"s":{"a":1}}"#), NOW).snapshot).collect();
    assert_eq!(kinds, vec![true, false, false]);
    let mut always = MetricPipeline::new(1);
    for _ in 0..3 {
        let record = always.process(object(r#"{"s":{"a":1}}"#), NOW);
        assert!(record.snapshot);
        assert_eq!(changed(&record), vec!["s.a"]);
    }
}

#[test]
fn given_entries_are_processed_without_json() {
    let mut pipeline = MetricPipeline::new(10);
    let entries = vec![
        ("sat".to_string(), Json::Object(vec![("on".to_string(), Json::Bool(true))])),
        ("timestamp".to_string(), Json::Text("now".to_string())),
    ];
    let record = pipeline.process_entries(serde_json::Map::new(), &entries, "{}".to_string(), NOW);
    assert_eq!(record.timestamp_iso, "now");
    assert_eq!(record.samples.len(), 1);
    assert_eq!(line(&record.samples[0]), "sat.on btrue");
    assert_eq!(record.logs[0].message, "snapshot cycle=0 collectors=[sat] changed=1 collect_ms=0.0 {}");
}
