use streams::config::{OrbitWeights, Preset};
use streams::double::Double;
use streams::nominal::{EnvConfig, NominalApi};
use streams::provision::AssetSearch;
use streams::requests::{log_refusal, LogWriter};
use streams::satgen::build_sat;
use streams::schedule::Timestamp;

fn pair(a: &str, b: &str) -> (String, String) {
    (a.to_string(), b.to_string())
}

fn api() -> NominalApi {
    NominalApi::new(&EnvConfig {
        token: "t".to_string(),
        dataset: "ri.a.b.c.d".to_string(),
        base_url: "https://host".to_string(),
    })
    .unwrap()
}

fn preset() -> Preset {
    Preset {
        name: "rc-10k".to_string(),
        label: "RC 10k".to_string(),
        sat_prefix: "RC10K".to_string(),
        count: 10_000,
        rate_hz: Double { bits: 2.5f64.to_bits(), text: "2.5".to_string(), tenths: "2.5".to_string() },
    }
}

#[test]
fn searches_ask_for_the_batch() {
    let first = api().search_batch_assets("rc-10k", None);
    assert_eq!((first.property.as_str(), first.value.as_str()), ("batch", "rc-10k"));
    assert_eq!(first.page_size, 500);
    assert!(!first.descending);
    assert_eq!(first.page_token, None);
    assert_eq!(api().search_batch_assets("b", Some("p2".to_string())).page_token, Some("p2".to_string()));
}

#[test]
fn satellite_assets_are_scoped_by_their_tag() {
    let sat = build_sat("RC10K-00042".to_string(), &OrbitWeights::default());
    let request = api().create_asset("rc-10k", "RC 10k", "RC sats", &sat);
    assert_eq!(request.title, "RC10K-00042");
    assert_eq!(
        request.properties,
        vec![
            pair("batch", "rc-10k"),
            pair("norad_id", &sat.norad_id.to_string()),
            pair("category", sat.category.as_str()),
        ]
    );
    assert_eq!(request.labels, vec!["RC sats", "RC 10k"]);
    assert_eq!(request.scope_name, "telemetry");
    assert_eq!(request.dataset, "ri.a.b.c.d");
    assert_eq!(request.series_tags, vec![pair("satellite", "RC10K-00042")]);
}

#[test]
fn logs_assets_see_the_whole_dataset() {
    let request = api().create_logs_asset("rc-10k", "RC 10k", "RC sats", "RC10K logs");
    assert_eq!(request.title, "RC10K logs");
    assert_eq!(request.properties, vec![pair("batch", "rc-10k"), pair("role", "logs")]);
    assert_eq!(request.labels, vec!["RC sats", "RC 10k"]);
    assert_eq!(request.scope_name, "logs");
    assert_eq!(request.dataset, "ri.a.b.c.d");
    assert!(request.series_tags.is_empty());
}

#[test]
fn runs_describe_their_session() {
    let run = api().create_run(
        &preset(),
        "RC sats",
        vec!["ri.a".to_string(), "ri.b".to_string()],
        1_753_600_000,
        false,
        "2025-07-27 10:00:00",
    )
    .unwrap();
    assert_eq!(run.title, "rc-10k @ 2025-07-27 10:00:00");
    assert_eq!(run.description, "sat-fleet streaming session: 10000 satellites @ 2.5 Hz");
    assert_eq!(run.start_unix, 1_753_600_000);
    assert_eq!(
        run.properties,
        vec![
            pair("batch", "rc-10k"),
            pair("satellites", "10000"),
            pair("rate_hz", "2.5"),
            pair("debug", "false"),
        ]
    );
    assert_eq!(run.labels, vec!["RC sats", "RC 10k"]);
    assert_eq!(run.assets, vec!["ri.a", "ri.b"]);
    let opened = run.opened("ri.run".to_string());
    assert_eq!((opened.rid, opened.title), ("ri.run".to_string(), run.title));
    assert_eq!(opened.start_unix, 1_753_600_000);
}

#[test]
fn debug_runs_say_so() {
    let run = api().create_run(&preset(), "c", vec![], 0, true, "now").unwrap();
    assert_eq!(run.title, "rc-10k [debug] @ now");
    assert_eq!(run.properties[3], pair("debug", "true"));
}

#[test]
fn times_must_be_safe() {
    let limit = 1i64 << 53;
    assert!(api().create_run(&preset(), "c", vec![], limit, false, "").is_none());
    assert!(api().create_run(&preset(), "c", vec![], -limit, false, "").is_none());
    assert!(api().create_run(&preset(), "c", vec![], limit - 1, false, "").is_some());
    let end = api().end_run("ri.run", 1 - limit).unwrap();
    assert_eq!((end.rid.as_str(), end.end_unix), ("ri.run", 1 - limit));
    assert!(api().end_run("ri.run", i64::MAX).is_none());
    assert!(api().end_run("ri.run", i64::MIN).is_none());
}

#[test]
fn logs_go_to_the_dataset() {
    let env = EnvConfig {
        token: "secret".to_string(),
        dataset: "ri.d".to_string(),
        base_url: "https://host/api".to_string(),
    };
    let writer = LogWriter::new(&env);
    assert_eq!(writer.url, "https://host/api/storage/writer/v1/logs/ri.d");
    assert_eq!(writer.authorization, "Bearer secret");
    let now = Timestamp { seconds: 4, nanos: 2 };
    let request = writer.write("hello".to_string(), vec![pair("batch", "b")], now);
    assert_eq!(request.channel, "log.system");
    assert_eq!(request.message, "hello");
    assert_eq!(request.timestamp, now);
    assert_eq!(request.args, vec![pair("batch", "b")]);
    assert_eq!(log_refusal("403 Forbidden", "no"), "log write failed (403 Forbidden): no");
}

#[test]
fn provisioning_begins_with_the_satellites() {
    let weights = OrbitWeights::default();
    let sats = vec![
        build_sat("RC10K-00001".to_string(), &weights),
        build_sat("RC10K-00002".to_string(), &weights),
    ];
    let mut search = AssetSearch::new();
    search.absorb(&vec![pair("RC10K-00001", "ri.1")], None);
    let (provisioning, missing) = api().provision_assets(&preset(), &sats, search);
    assert_eq!(missing, vec![1]);
    assert_eq!(provisioning.progress().existing, 1);
    assert_eq!(provisioning.missing_logs(), Some("RC10K logs".to_string()));
}
