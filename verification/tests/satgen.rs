use streams::config::{OrbitWeights, Preset};
use streams::double::Double;
use streams::satgen::{
    build_sat, fnv1a64, generate, in_range, pick_category, pick_shell, total, unit, Quantity,
    SatelliteCategory, Shell,
};

const STEPS: f64 = 9007199254740992.0;

fn value(q: &Quantity) -> f64 {
    let lo = q.lo as f64 / q.per as f64;
    let hi = q.hi as f64 / q.per as f64;
    lo + q.steps as f64 / STEPS * (hi - lo)
}

fn preset(count: u32) -> Preset {
    Preset {
        name: "test-batch".into(),
        label: "test-label".into(),
        sat_prefix: "RCT".into(),
        count,
        rate_hz: Double::one(),
    }
}

fn weights(leo: f64, meo: f64, geo: f64, heo: f64) -> OrbitWeights {
    OrbitWeights {
        leo: leo.to_bits(),
        meo: meo.to_bits(),
        geo: geo.to_bits(),
        heo: heo.to_bits(),
    }
}

#[test]
fn generation_is_deterministic_and_prefix_stable() {
    let w = OrbitWeights::default();
    let a = generate(&preset(1000), &w);
    let b = generate(&preset(1000), &w);
    assert_eq!(a.len(), 1000);
    for (x, y) in a.iter().zip(&b) {
        assert_eq!(x.name, y.name);
        assert_eq!(x.norad_id, y.norad_id);
        assert_eq!(x.semi_major_axis_km, y.semi_major_axis_km);
        assert_eq!(x.inclination_deg, y.inclination_deg);
    }
    // Smaller batches are strict prefixes of larger ones.
    let small = generate(&preset(10), &w);
    for (x, y) in small.iter().zip(&a) {
        assert_eq!(x.name, y.name);
        assert_eq!(x.semi_major_axis_km, y.semi_major_axis_km);
    }
    assert_eq!(a[0].name, "RCT-00001");
    assert_eq!(a[999].name, "RCT-01000");
}

#[test]
fn orbits_are_physically_sane() {
    let w = OrbitWeights::default();
    let sats = generate(&preset(2000), &w);
    let mut leo = 0;
    for s in &sats {
        let axis = value(&s.semi_major_axis_km);
        let eccentricity = value(&s.eccentricity);
        assert!(axis > 6640.0, "{} below LEO", s.name);
        assert!(axis < 42200.0, "{} above GEO", s.name);
        assert!(eccentricity >= 0.0 && eccentricity < 0.75);
        // Perigee stays above the atmosphere.
        let perigee = axis * (1.0 - eccentricity);
        assert!(perigee > 6550.0, "{} perigee too low: {perigee}", s.name);
        if axis < 8000.0 {
            leo += 1;
        }
    }
    // ~70% LEO by default weights; allow generous tolerance.
    assert!((0.6..0.8).contains(&(leo as f64 / sats.len() as f64)));
}

#[test]
fn hashes_are_the_published_ones() {
    assert_eq!(fnv1a64(b""), 0xcbf29ce484222325);
    assert_eq!(fnv1a64(b"a"), 0xaf63dc4c8601ec8c);
    assert_eq!(fnv1a64(b"foobar"), 0x85944171f73967e8);
}

#[test]
fn draws_come_from_name_and_key() {
    let h = fnv1a64(b"RCT-00001:shell");
    assert_eq!(unit("RCT-00001", "shell"), h >> 11);
    assert_ne!(unit("RCT-00001", "shell"), unit("RCT-00001", "cat"));
    let q = in_range("RCT-00001", "sma", 6771, 7571, 1);
    assert_eq!(q, Quantity { lo: 6771, hi: 7571, per: 1, steps: unit("RCT-00001", "sma") });
}

#[test]
fn default_weights_are_the_documented_ones() {
    assert_eq!(OrbitWeights::default(), weights(0.70, 0.15, 0.10, 0.05));
    assert!(!total(&OrbitWeights::default()).is_not_positive());
}

#[test]
fn shells_follow_double_arithmetic() {
    let mixes = [
        (0.70, 0.15, 0.10, 0.05),
        (1.0, 1.0, 1.0, 1.0),
        (0.0, 3.5, 0.0, 1.25),
        (1e-3, 1e3, 7.0, 0.3),
        (f64::NAN, 1.0, 1.0, 1.0),
        (f64::INFINITY, 1.0, 1.0, 1.0),
        (-1.0, 2.0, 0.5, 0.25),
    ];
    for (leo, meo, geo, heo) in mixes {
        let w = weights(leo, meo, geo, heo);
        let mut draws = vec![0u64, 1, (1 << 53) - 1, 6_305_039_478_318_693, 6_305_039_478_318_694];
        for i in 1..200u64 {
            draws.push(unit(&format!("SAT-{i}"), "shell"));
        }
        for steps in draws {
            let shell = steps as f64 / STEPS * (leo + meo + geo + heo);
            let expected = if shell < leo {
                Shell::Leo
            } else if shell < leo + meo {
                Shell::Meo
            } else if shell < leo + meo + geo {
                Shell::Geo
            } else {
                Shell::Heo
            };
            assert_eq!(pick_shell(steps, &w), expected, "{steps} {leo} {meo} {geo} {heo}");
        }
    }
}

#[test]
fn regions_without_weight_stay_empty() {
    let w = weights(0.0, 1.0, 0.0, 0.0);
    for sat in generate(&preset(300), &w) {
        assert_eq!(sat.semi_major_axis_km.lo, 24_000, "{}", sat.name);
    }
}

#[test]
fn categories_follow_double_arithmetic() {
    let mut draws = vec![0u64, (1 << 53) - 1];
    for edge in [0.30f64, 0.55, 0.75, 0.90] {
        let at = (edge * STEPS) as u64;
        draws.extend([at - 2, at - 1, at, at + 1, at + 2]);
    }
    for steps in draws {
        let cat = steps as f64 / STEPS;
        let expected = if cat < 0.30 {
            SatelliteCategory::Communications
        } else if cat < 0.55 {
            SatelliteCategory::EarthObservation
        } else if cat < 0.75 {
            SatelliteCategory::Science
        } else if cat < 0.90 {
            SatelliteCategory::Weather
        } else {
            SatelliteCategory::Navigation
        };
        assert_eq!(pick_category(steps), expected, "{steps}");
    }
}

#[test]
fn satellites_are_pinned_to_their_names() {
    let sat = build_sat("RC10K-00042".to_string(), &OrbitWeights::default());
    assert_eq!(sat.norad_id, 100_000 + (fnv1a64(b"RC10K-00042") % 900_000) as u32);
    assert_eq!(sat.epoch_unix, 1_700_000_000);
    assert_eq!(sat.raan_deg, in_range("RC10K-00042", "raan", 0, 360, 1));
    assert_eq!(sat.mean_anomaly_epoch_deg, in_range("RC10K-00042", "ma", 0, 360, 1));
    assert!(sat.norad_id >= 100_000 && sat.norad_id < 1_000_000);
}

#[test]
fn names_of_a_batch_differ() {
    let sats = generate(&preset(500), &OrbitWeights::default());
    let mut names: Vec<String> = sats.iter().map(|s| s.name.clone()).collect();
    names.sort();
    names.dedup();
    assert_eq!(names.len(), 500);
}

#[test]
fn categories_have_identifiers() {
    assert_eq!(SatelliteCategory::Communications.as_str(), "communications");
    assert_eq!(SatelliteCategory::EarthObservation.as_str(), "earth_observation");
    assert_eq!(SatelliteCategory::Navigation.as_str(), "navigation");
    assert_eq!(SatelliteCategory::Weather.as_str(), "weather");
    assert_eq!(SatelliteCategory::Science.as_str(), "science");
}
