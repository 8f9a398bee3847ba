use streams::dispatch::{add_mirrors, DropTracker};
use streams::double::Double;
use streams::pipeline::MetricRecord;
use streams::samples::{MetricSample, MetricValue};
use streams::schedule::Timestamp;

const NOW: Timestamp = Timestamp { seconds: 9, nanos: 0 };

fn record(samples: Vec<MetricSample>) -> MetricRecord {
    MetricRecord {
        timestamp: NOW,
        timestamp_iso: String::new(),
        interval_ms: 0,
        collect_ms: Double::zero(),
        snapshot: false,
        raw: serde_json::Map::new(),
        samples,
        logs: vec![],
    }
}

fn sample(path: &str, tagged: bool, changed: bool) -> MetricSample {
    MetricSample {
        path: path.to_string(),
        tags: if tagged { Some(vec![]) } else { None },
        value: MetricValue::Integer(path.len() as i64),
        changed,
    }
}

#[test]
fn samples_of_satellites_are_mirrored() {
    let mut r = record(vec![
        sample("iss.temp.core", false, true),
        sample("gps_1.v", false, false),
        sample("other.v", false, true),
        sample("iss", false, true),
        sample("iss.v", true, true),
        sample(".v", false, true),
    ]);
    add_mirrors(&mut r, &vec!["iss".to_string(), "gps_1".to_string()]);
    assert_eq!(r.samples.len(), 8);
    let first = &r.samples[6];
    assert_eq!(first.path, "temp.core");
    assert_eq!(first.tags, Some(vec![("satellite".to_string(), "iss".to_string())]));
    assert!(matches!(first.value, MetricValue::Integer(13)));
    assert!(first.changed);
    let second = &r.samples[7];
    assert_eq!(second.path, "v");
    assert_eq!(second.tags, Some(vec![("satellite".to_string(), "gps_1".to_string())]));
    assert!(!second.changed);
    assert_eq!(r.samples[0].path, "iss.temp.core");
}

#[test]
fn drops_are_reported_after_five_seconds() {
    let mut tracker = DropTracker::new(1_000);
    assert!(tracker.report(9_000_000_000, NOW).is_none());
    tracker.on_full();
    tracker.on_full();
    assert!(tracker.report(5_000_000_999, NOW).is_none());
    assert_eq!(tracker.count, 2);
    let entry = tracker.report(5_000_001_000, NOW).unwrap();
    assert_eq!(entry.channel, "log.system");
    assert_eq!(entry.message, "dropped 2 records (dispatcher behind)");
    assert_eq!(entry.args, vec![("dropped".to_string(), "2".to_string())]);
    assert_eq!(entry.timestamp, NOW);
    assert_eq!(tracker, DropTracker { count: 0, last_report: 5_000_001_000 });
    assert!(tracker.report(u64::MAX, NOW).is_none());
}
