use streams::engine::{
    channels, count_points, satellite_points, EngineStats, Pacer, PointsType, Series,
    StatsListener,
};
use streams::schedule::Timestamp;

fn series(kind: PointsType) -> Series {
    Series { points: Some(Some(kind)) }
}

#[test]
fn channels_stand_in_order() {
    assert_eq!(
        channels(),
        vec![
            "latitude_deg",
            "longitude_deg",
            "altitude_km",
            "elevation_deg",
            "signal_strength_dbm",
            "data_throughput_mbps",
            "battery_level_percent",
            "solar_panel_power_w",
            "temperature_c",
            "doppler_shift_khz",
        ]
    );
}

#[test]
fn points_are_counted_by_kind() {
    let request = vec![
        series(PointsType::DoublePoints(3)),
        series(PointsType::StringPoints(4)),
        series(PointsType::IntegerPoints(5)),
        series(PointsType::Uint64Points(6)),
        series(PointsType::StructPoints(7)),
        series(PointsType::ArrayPoints(100)),
        Series { points: Some(None) },
        Series { points: None },
    ];
    assert_eq!(count_points(&request), 25);
    assert_eq!(count_points(&vec![]), 0);
}

#[test]
fn counters_count() {
    let mut stats = EngineStats::default();
    stats.on_satellite();
    stats.on_satellite();
    stats.on_tick();
    stats.on_skip(3);
    stats.on_log_failure();
    let mut listener = StatsListener(stats);
    listener.on_success(&vec![series(PointsType::DoublePoints(4)), series(PointsType::StringPoints(3))]);
    listener.on_error(&vec![series(PointsType::IntegerPoints(2)), series(PointsType::ArrayPoints(9))]);
    let mut stats = listener.0;
    assert_eq!(
        stats,
        EngineStats {
            enqueued: 20,
            sent: 7,
            failed_requests: 1,
            failed_points: 2,
            ticks: 1,
            skipped_ticks: 3,
            log_failures: 1,
        }
    );
    assert_eq!(stats.backlog(), 11);
    stats.sent = u64::MAX;
    assert_eq!(stats.backlog(), 0);
    let mut listener = StatsListener(stats);
    listener.on_success(&vec![series(PointsType::DoublePoints(2))]);
    assert_eq!(listener.0.sent, 1);
}

#[test]
fn ticks_keep_their_interval() {
    let mut pacer = Pacer::new(100, 1000);
    assert_eq!(pacer.delay(900), 100);
    assert_eq!(pacer.delay(1000), 0);
    assert_eq!(pacer.delay(1200), 0);
    assert_eq!(pacer.advance(1050), 0);
    assert_eq!(pacer.next, 1100);
    assert_eq!(pacer.advance(1200), 0);
    assert_eq!(pacer.next, 1200);
}

#[test]
fn missed_ticks_are_skipped() {
    let mut pacer = Pacer::new(100, 1000);
    // Due at 1100; 1301 lies past the ticks at 1100, 1200 and 1300.
    assert_eq!(pacer.advance(1301), 3);
    assert_eq!(pacer.next, 1400);
    // Due at 1500; exactly on a tick nothing more is skipped.
    assert_eq!(pacer.advance(1700), 2);
    assert_eq!(pacer.next, 1700);
}

#[test]
fn every_tick_sends_every_channel() {
    let at = Timestamp { seconds: 7, nanos: 8 };
    let mut stats = EngineStats::default();
    let mut handed = 0;
    for tick in 0..3u64 {
        for name in ["A-00001", "A-00002"] {
            let values: Vec<u64> = (0..10).map(|c| (tick as f64 + c as f64).to_bits()).collect();
            let points = satellite_points(name, at, &values);
            assert_eq!(points.iter().map(|p| p.channel).collect::<Vec<_>>(), channels());
            for (c, point) in points.iter().enumerate() {
                assert_eq!(point.tag, ("satellite", name.to_string()));
                assert_eq!(point.timestamp, at);
                assert_eq!(f64::from_bits(point.bits), tick as f64 + c as f64);
            }
            handed += points.len() as u64;
            stats.on_satellite();
        }
        stats.on_tick();
    }
    assert_eq!((stats.ticks, stats.enqueued, handed), (3, 60, 60));
}

#[test]
fn a_whole_tick_hands_over_and_counts() {
    let at = Timestamp { seconds: 1, nanos: 2 };
    let names = vec!["A-00001".to_string(), "A-00002".to_string()];
    let readings: Vec<Vec<u64>> = vec![(0..10).collect(), (100..110).collect()];
    let mut stats = EngineStats::default();
    let points = stats.tick(&names, at, &readings);
    assert_eq!(points.len(), 20);
    for (i, point) in points.iter().enumerate() {
        assert_eq!(point.channel, channels()[i % 10]);
        assert_eq!(point.tag, ("satellite", names[i / 10].clone()));
        assert_eq!(point.timestamp, at);
        assert_eq!(point.bits, (i / 10 * 100 + i % 10) as u64);
    }
    assert_eq!((stats.enqueued, stats.ticks), (20, 1));
    assert!(stats.tick(&vec![], at, &vec![]).is_empty());
    assert_eq!((stats.enqueued, stats.ticks), (20, 2));
}
