use streams::collectors::{
    matching, octave_channel, snapshot_interval, underscore, ConstellationConfig,
    SatelliteCollector, SatelliteConfig, Tier,
};
use streams::double::Double;
use streams::satgen::SatelliteCategory;

fn names(list: &[&str]) -> Vec<String> {
    list.iter().map(|s| s.to_string()).collect()
}

fn satellite(name: &str) -> SatelliteConfig {
    SatelliteConfig {
        name: name.to_string(),
        norad_id: 33591,
        category: SatelliteCategory::Weather,
        semi_major_axis_km: Double::one(),
        eccentricity: Double::zero(),
        inclination_deg: Double::zero(),
        raan_deg: Double::zero(),
        arg_perigee_deg: Double::zero(),
        mean_anomaly_epoch_deg: Double::zero(),
        epoch_unix: Double::zero(),
    }
}

fn constellation(list: &[&str]) -> ConstellationConfig {
    ConstellationConfig {
        ground_station: None,
        satellites: list.iter().map(|n| satellite(n)).collect(),
    }
}

#[test]
fn names_become_keys() {
    let collector = SatelliteCollector::new(satellite("NOAA-19 (Ä)"), None);
    assert_eq!(collector.name(), "noaa_19__ä_");
    assert_eq!(collector.config.name, "NOAA-19 (Ä)");
    assert_eq!(collector.config.norad_id, 33591);
    assert!(collector.ground_station.is_none());
    assert_eq!(collector.tier(), Tier::Fast);
    assert_eq!(underscore("a b-c.d"), "a_b_c_d");
    assert_eq!(underscore("İ1"), "İ1");
}

#[test]
fn filters_ignore_case() {
    let all = constellation(&["ISS", "Hubble", "GOES-16"]);
    assert_eq!(all.choose_satellites(&names(&["hubble", "goes-16", "none"])), vec![1, 2]);
    assert_eq!(all.choose_satellites(&names(&["iSs"])), vec![0]);
    assert_eq!(all.choose_satellites(&names(&["HUB"])), Vec::<usize>::new());
}

#[test]
fn no_filter_takes_everything() {
    let all = names(&["ISS", "Hubble", "ISS"]);
    assert_eq!(constellation(&["ISS", "Hubble", "ISS"]).choose_satellites(&vec![]), vec![0, 1, 2]);
    assert_eq!(matching(&all, &names(&["ISS"])), vec![0, 2]);
    assert_eq!(matching(&all, &names(&["iss"])), Vec::<usize>::new());
}

#[test]
fn deltas_can_be_switched_off() {
    assert_eq!(snapshot_interval(true, 100), 1);
    assert_eq!(snapshot_interval(false, 100), 100);
}

#[test]
fn octaves_have_their_own_channels() {
    assert_eq!(octave_channel("signal", 0), "signal");
    assert_eq!(octave_channel("signal", 1), "signal.oct1");
    assert_eq!(octave_channel("signal", 12), "signal.oct12");
}
