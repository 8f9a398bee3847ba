use std::collections::VecDeque;
use streams::config::{FleetConfig, GroundStationConfig, OrbitWeights, Preset};
use streams::double::Double;
use streams::engine::EngineStats;
use streams::panels::{
    format_duration, group_thousands, kv_label, progress_label, progress_ratio, provision_title,
    select_line, select_title, session_lines, stats_lines,
};
use streams::provision::ProvisionProgress;
use streams::telemetry::{figures, Figures};
use streams::satgen::SatelliteCategory;
use streams::tui::{RunInfo, Screen, Session};

fn double(x: f64) -> Double {
    Double { bits: x.to_bits(), text: x.to_string(), tenths: format!("{x:.1}") }
}

fn preset() -> Preset {
    Preset {
        name: "rc-5k".to_string(),
        label: "RC 5k".to_string(),
        sat_prefix: "RC5K".to_string(),
        count: 5000,
        rate_hz: double(2.0),
    }
}

fn session() -> Session {
    Session {
        preset: preset(),
        debug: false,
        sats: vec![],
        asset_rids: vec![],
        run: None,
        engine: true,
        stream_started: 0,
        samples: VecDeque::new(),
        logging: true,
        cutover_pending: false,
    }
}

fn fleet() -> FleetConfig {
    FleetConfig {
        common_label: "RC sats".to_string(),
        ground_station: None,
        orbits: OrbitWeights::default(),
        presets: vec![preset()],
    }
}

#[test]
fn thousands_are_grouped() {
    assert_eq!(group_thousands(0), "0");
    assert_eq!(group_thousands(999), "999");
    assert_eq!(group_thousands(1000), "1,000");
    assert_eq!(group_thousands(1_020_003), "1,020,003");
    assert_eq!(group_thousands(123_456_789), "123,456,789");
    assert_eq!(group_thousands(u64::MAX), "18,446,744,073,709,551,615");
    assert_eq!(group_thousands(u64::MAX).replace(',', ""), u64::MAX.to_string());
}

#[test]
fn durations_are_clock_times() {
    assert_eq!(format_duration(0), "00:00:00");
    assert_eq!(format_duration(3_661), "01:01:01");
    assert_eq!(format_duration(360_000 + 59), "100:00:59");
}

#[test]
fn labels_are_aligned() {
    assert_eq!(kv_label("run"), format!("{:>18}  ", "run"));
    assert_eq!(kv_label("backlog (buffered)"), "backlog (buffered)  ");
}

#[test]
fn presets_are_listed() {
    assert_eq!(
        select_line(&preset()),
        format!(
            "{:<14} {:>6} sats @ {:>5.1} Hz  ≈ {:>9} pts/s   label: {}",
            "rc-5k", 5000, 2.0f64, "100,000", "RC 5k"
        )
    );
    assert_eq!(select_title(false), " sat-fleet — select batch preset ");
    assert_eq!(select_title(true), " sat-fleet — select batch preset [DEBUG: 1 Hz] ");
}

#[test]
fn progress_is_shown() {
    let p = Some(ProvisionProgress { total: 10, existing: 2, created: 3, failed: 1 });
    assert_eq!(progress_label(&p), "total 10 · existing 2 · created 3 · failed 1");
    assert_eq!(progress_ratio(&p), (6, 10));
    assert_eq!(progress_label(&None), "searching for existing batch assets…");
    assert_eq!(progress_ratio(&None), (0, 1));
    assert_eq!(progress_ratio(&Some(ProvisionProgress { total: 0, existing: 0, created: 0, failed: 0 })), (1, 1));
    assert_eq!(progress_ratio(&Some(ProvisionProgress { total: 2, existing: 2, created: 1, failed: 0 })), (2, 2));
    assert_eq!(provision_title("rc"), " provisioning assets — rc ");
}

#[test]
fn the_session_panel_describes_the_session() {
    let lines = session_lines(&session(), Screen::Streaming, &fleet(), "ri.d", "");
    let values: Vec<(&str, &str)> = lines.iter().map(|(k, v)| (*k, v.as_str())).collect();
    assert_eq!(
        values,
        vec![
            ("batch", "rc-5k"),
            ("satellites", "5000 @ 2 Hz · 10 channels · ≈100,000 pts/s target"),
            ("labels", "RC sats · RC 5k"),
            ("dataset", "ri.d"),
            ("ground station", "none"),
            ("run", "—"),
            ("run rid", "—"),
            ("run status", "live"),
        ]
    );
}

#[test]
fn the_session_panel_follows_the_run() {
    let mut s = session();
    s.debug = true;
    s.run = Some(RunInfo { rid: "ri.run".to_string(), title: "rc @ now".to_string(), start_unix: 5 });
    let mut f = fleet();
    f.ground_station = Some(GroundStationConfig {
        name: "GSFC".to_string(),
        latitude_deg: double(1.0),
        longitude_deg: double(2.0),
        altitude_m: double(3.0),
    });
    let lines = session_lines(&s, Screen::Stopping, &f, "ri.d", "10:11:12");
    assert_eq!(lines[0].1, "rc-5k [debug: rate forced to 1 Hz]");
    assert_eq!(lines[4].1, "GSFC");
    assert_eq!(lines[5].1, "rc @ now (started 10:11:12)");
    assert_eq!(lines[6].1, "ri.run");
    assert_eq!(lines[7].1, "stopping…");
    s.cutover_pending = true;
    let lines = session_lines(&s, Screen::Stopping, &f, "ri.d", "10:11:12");
    assert_eq!(lines[7].1, "cutting over to a new run…");
}

#[test]
fn the_statistics_panel_counts() {
    let stats = EngineStats {
        enqueued: 12_000,
        sent: 9_000,
        failed_requests: 2,
        failed_points: 1_000,
        ticks: 1_234,
        skipped_ticks: 5,
        log_failures: 1,
    };
    let second = 1_000_000_000;
    let samples = VecDeque::from(vec![(0, 0), (10 * second, 8_000), (12 * second, 9_000)]);
    let lines = stats_lines(&stats, &samples, 3_725);
    let values: Vec<(&str, &str)> = lines.iter().map(|(k, v)| (*k, v.as_str())).collect();
    assert_eq!(
        values,
        vec![
            ("uptime", "01:02:05"),
            ("points sent", "9,000"),
            ("points enqueued", "12,000"),
            ("send rate", "500/s (5s avg) · 45,000/min (60s avg)"),
            ("backlog (buffered)", "2,000"),
            ("failures", "1,000 points across 2 requests · 1 log writes"),
            ("ticks", "1,234 (5 skipped)"),
        ]
    );
}

#[test]
fn categories_fix_their_figures() {
    assert_eq!(
        figures(SatelliteCategory::Communications),
        Figures { carrier_mhz: 12_000, max_power_w: 3000, hot_c: 55, cold_c: -25, max_throughput_mbps: 150 }
    );
    assert_eq!(
        figures(SatelliteCategory::Navigation),
        Figures { carrier_mhz: 1575, max_power_w: 1500, hot_c: 45, cold_c: -40, max_throughput_mbps: 2 }
    );
    assert_eq!(
        figures(SatelliteCategory::Weather),
        Figures { carrier_mhz: 8000, max_power_w: 1200, hot_c: 45, cold_c: -40, max_throughput_mbps: 20 }
    );
    assert_eq!(
        figures(SatelliteCategory::EarthObservation),
        Figures { carrier_mhz: 8200, max_power_w: 800, hot_c: 45, cold_c: -40, max_throughput_mbps: 800 }
    );
    assert_eq!(
        figures(SatelliteCategory::Science),
        Figures { carrier_mhz: 2250, max_power_w: 600, hot_c: 35, cold_c: -60, max_throughput_mbps: 10 }
    );
}
