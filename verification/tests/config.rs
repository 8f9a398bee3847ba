use streams::config::{ConfigError, FleetConfig, OrbitWeights, Preset};
use streams::double::Double;

fn double(x: f64) -> Double {
    Double { bits: x.to_bits(), text: x.to_string(), tenths: format!("{x:.1}") }
}

fn preset(name: &str, prefix: &str, label: &str, count: u32, rate: f64) -> Preset {
    Preset {
        name: name.to_string(),
        label: label.to_string(),
        sat_prefix: prefix.to_string(),
        count,
        rate_hz: double(rate),
    }
}

fn fleet(presets: Vec<Preset>) -> FleetConfig {
    FleetConfig {
        common_label: "RC sats".to_string(),
        ground_station: None,
        orbits: OrbitWeights::default(),
        presets,
    }
}

fn error(presets: Vec<Preset>) -> String {
    match fleet(presets).validate() {
        Ok(()) => "valid".to_string(),
        Err(e) => e.message("101000"),
    }
}

#[test]
fn the_documented_presets_are_valid() {
    let list = vec![
        preset("rc-10", "RC10", "a", 10, 100.0),
        preset("rc-50", "RC50", "b", 50, 100.0),
        preset("rc-100", "RC100", "c", 100, 50.0),
        preset("rc-500", "RC500", "d", 500, 20.0),
        preset("rc-1k", "RC1K", "e", 1000, 10.0),
        preset("rc-5k", "RC5K", "f", 5000, 2.0),
        preset("rc-10k", "RC10K", "g", 10_000, 1.0),
    ];
    assert!(fleet(list).validate().is_ok());
}

#[test]
fn every_fault_has_its_message() {
    assert_eq!(error(vec![]), "fleet config has no presets");
    assert_eq!(error(vec![preset("p", "P", "l", 0, 1.0)]), "preset 'p' has count 0");
    assert_eq!(error(vec![preset("p", "P", "l", 1, 0.0)]), "preset 'p' has non-positive rate_hz");
    assert_eq!(error(vec![preset("p", "P", "l", 1, -2.0)]), "preset 'p' has non-positive rate_hz");
    assert_eq!(
        error(vec![preset("p", "P", "l", 10_100, 1.0)]),
        "preset 'p' targets 101000 pts/s, above the 100000 pts/s cap (10100 sats x 10 channels x 1 Hz)"
    );
    assert_eq!(
        error(vec![preset("p", "P", "l", 1, 1.0), preset("p", "Q", "m", 1, 1.0)]),
        "duplicate preset name 'p'"
    );
    assert_eq!(
        error(vec![preset("p", "P", "l", 1, 1.0), preset("q", "P", "m", 1, 1.0)]),
        "duplicate sat_prefix 'P'"
    );
    assert_eq!(
        error(vec![preset("p", "P", "l", 1, 1.0), preset("q", "Q", "l", 1, 1.0)]),
        "duplicate preset label 'l'"
    );
}

#[test]
fn weights_must_sum_to_something() {
    let mut config = fleet(vec![preset("p", "P", "l", 1, 1.0)]);
    config.orbits = OrbitWeights { leo: 0, meo: 0, geo: 0, heo: 0 };
    let e = config.validate().unwrap_err();
    assert!(matches!(e, ConfigError::NoOrbitWeight));
    assert_eq!(e.message(""), "orbit weights must sum to a positive value");
    config.orbits.leo = (-1.0f64).to_bits();
    assert!(config.validate().is_err());
    config.orbits.meo = 1.5f64.to_bits();
    assert!(config.validate().is_ok());
    // A sum that is not a number is not found to be at most zero.
    config.orbits.geo = f64::NAN.to_bits();
    assert!(config.validate().is_ok());
}

#[test]
fn the_first_fault_is_reported() {
    let list = vec![preset("p", "P", "l", 1, 1.0), preset("p", "P", "l", 0, 0.0)];
    assert_eq!(error(list), "preset 'p' has count 0");
}

#[test]
fn targets_at_the_cap_are_allowed() {
    assert_eq!(error(vec![preset("p", "P", "l", 10_000, 1.0)]), "valid");
    assert_eq!(error(vec![preset("p", "P", "l", 100, 100.0)]), "valid");
    assert_ne!(error(vec![preset("p", "P", "l", 100, 100.00000000000003)]), "valid");
}

#[test]
fn targets_multiply_satellites_channels_and_rate() {
    assert_eq!(preset("p", "P", "l", 50, 100.0).points_per_sec(), 50_000);
    assert_eq!(preset("p", "P", "l", 3, 0.1).points_per_sec(), (3.0 * 10.0 * 0.1f64) as u64);
}
