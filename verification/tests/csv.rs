use streams::csv::{escape_csv, CsvSink};
use streams::double::Double;
use streams::pipeline::{LogEntry, MetricRecord};
use streams::samples::{MetricSample, MetricValue};
use streams::schedule::Timestamp;

const NOW: Timestamp = Timestamp { seconds: 0, nanos: 0 };

fn sample(path: &str, value: MetricValue) -> MetricSample {
    MetricSample { path: path.to_string(), tags: None, value, changed: true }
}

fn record(samples: Vec<MetricSample>, logs: Vec<LogEntry>) -> MetricRecord {
    MetricRecord {
        timestamp: NOW,
        timestamp_iso: "2024".to_string(),
        interval_ms: 1000,
        collect_ms: Double { bits: 2.5f64.to_bits(), text: "2.5".to_string(), tenths: "2.5".to_string() },
        snapshot: true,
        raw: serde_json::Map::new(),
        samples,
        logs,
    }
}

fn log(channel: &str, message: &str) -> LogEntry {
    LogEntry {
        timestamp: NOW,
        channel: channel.to_string(),
        message: message.to_string(),
        args: vec![],
    }
}

#[test]
fn fields_are_quoted_where_needed() {
    assert_eq!(escape_csv("plain"), "plain");
    assert_eq!(escape_csv(""), "");
    assert_eq!(escape_csv("a,b"), "\"a,b\"");
    assert_eq!(escape_csv("say \"hi\""), "\"say \"\"hi\"\"\"");
    assert_eq!(escape_csv("two\nlines"), "\"two\nlines\"");
    assert_eq!(escape_csv("tab\tand; semicolon"), "tab\tand; semicolon");
}

#[test]
fn values_have_their_fields() {
    let half = Double { bits: 0.5f64.to_bits(), text: "0.5".to_string(), tenths: "0.5".to_string() };
    assert_eq!(CsvSink::format_value(&MetricValue::Double(half)), "0.5");
    assert_eq!(CsvSink::format_value(&MetricValue::Integer(-3)), "-3");
    assert_eq!(CsvSink::format_value(&MetricValue::Text("a,b".to_string())), "\"a,b\"");
    assert_eq!(CsvSink::format_value(&MetricValue::Bool(true)), "true");
    assert_eq!(CsvSink::format_value(&MetricValue::Bool(false)), "false");
    assert_eq!(CsvSink::format_value(&MetricValue::Null), "");
}

#[test]
fn the_header_comes_once() {
    let mut sink = CsvSink::new();
    assert_eq!(sink.name(), "csv");
    let first = sink.consume(&record(
        vec![sample("a", MetricValue::Integer(1)), sample("b", MetricValue::Null)],
        vec![log("log.system", "one"), log("other", "two, three")],
    ));
    assert_eq!(
        first,
        "timestamp,interval_ms,collect_ms,a,b,log\n2024,1000,2.5,1,,\"[log.system] one; [other] two, three\"\n"
    );
    let second = sink.consume(&record(vec![sample("b", MetricValue::Bool(true))], vec![]));
    assert_eq!(second, "2024,1000,2.5,1,true,\n");
}

#[test]
fn columns_are_those_of_the_first_record() {
    let mut sink = CsvSink::new();
    let tagged = MetricSample {
        path: "t".to_string(),
        tags: Some(vec![("satellite".to_string(), "x".to_string())]),
        value: MetricValue::Integer(9),
        changed: true,
    };
    let first = sink.consume(&record(vec![tagged, sample("a", MetricValue::Integer(1))], vec![]));
    assert_eq!(first, "timestamp,interval_ms,collect_ms,a,log\n2024,1000,2.5,1,\n");
    let second = sink.consume(&record(
        vec![sample("new", MetricValue::Integer(5)), sample("a", MetricValue::Integer(2))],
        vec![],
    ));
    assert_eq!(second, "2024,1000,2.5,2,\n");
}

#[test]
fn an_empty_first_record_has_no_columns() {
    let mut sink = CsvSink::new();
    assert_eq!(
        sink.consume(&record(vec![], vec![])),
        "timestamp,interval_ms,collect_ms,,log\n2024,1000,2.5,,\n"
    );
}
