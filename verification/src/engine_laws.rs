//! What the engine hands to the stream, and how its counters relate.
use crate::engine::{
    after_satellites, backlog_of, channels, missed_ticks, point_trees, points_of, reading_values,
    request_points, series_points, tick_points, EngineStats, Pacer, Point, PointsType, Series,
    StatsListener,
};
use crate::rounding_laws::whole_seconds_are_exact;
use crate::schedule::Timestamp;
use crate::text::texts;
use vstd::arithmetic::power2::{lemma_pow2_pos, pow2};
use vstd::prelude::*;
use vstd::string::*;

verus! {

/// Ten channels are sent in this order: where the satellite is, how it is heard, and how it fares.
pub proof fn channels_stand_in_order(names: Vec<&'static str>)
    requires
        call_ensures(channels, (), names),
    ensures
        names@.len() == 10,
        names@[0]@ == "latitude_deg"@,
        names@[1]@ == "longitude_deg"@,
        names@[2]@ == "altitude_km"@,
        names@[3]@ == "elevation_deg"@,
        names@[4]@ == "signal_strength_dbm"@,
        names@[5]@ == "data_throughput_mbps"@,
        names@[6]@ == "battery_level_percent"@,
        names@[7]@ == "solar_panel_power_w"@,
        names@[8]@ == "temperature_c"@,
        names@[9]@ == "doppler_shift_khz"@,
{
    let views = names@.map_values(|s: &'static str| s@);
    assert(forall|i: int| 0 <= i < 10 ==> #[trigger] views[i] == names@[i]@);
}

/// The points of a satellite carry its readings one for one: each its own channel, the satellite's
/// name as the one tag, and the time of the tick.
pub proof fn points_carry_their_readings(
    name: Seq<char>,
    at: Timestamp,
    values: Seq<u64>,
    names: Vec<&'static str>,
    c: int,
)
    requires
        call_ensures(channels, (), names),
        0 <= c < 10,
    ensures
        points_of(name, at, values).len() == 10,
        points_of(name, at, values)[c].channel == names@[c]@,
        points_of(name, at, values)[c].tag == ("satellite"@, name),
        points_of(name, at, values)[c].timestamp == at,
        points_of(name, at, values)[c].bits == values[c],
{
    let views = names@.map_values(|s: &'static str| s@);
    assert(views[c] == names@[c]@);
}

/// One more satellite adds its points behind those of the satellites before it.
pub proof fn satellites_send_in_order(
    names: Seq<Seq<char>>,
    name: Seq<char>,
    at: Timestamp,
    readings: Seq<Seq<u64>>,
)
    ensures
        tick_points(Seq::empty(), at, readings).len() == 0,
        tick_points(names.push(name), at, readings) == tick_points(names, at, readings) + points_of(
            name,
            at,
            readings[names.len() as int],
        ),
{
    assert(names.push(name).drop_last() =~= names);
}

/// What was handed over is accepted, rejected or still to come: the three add up to it.
pub proof fn the_backlog_is_what_is_left(stats: EngineStats)
    ensures
        stats.sent + stats.failed_points <= stats.enqueued ==> stats.sent + stats.failed_points
            + backlog_of(stats) == stats.enqueued,
        stats.sent + stats.failed_points > stats.enqueued ==> backlog_of(stats) == 0,
{
}

/// A count as its counter shows it: counters start again at zero after 2^64.
pub open spec fn shown(count: int) -> u64 {
    (count % 0x1_0000_0000_0000_0000) as u64
}

/// A satellite adds ten points to what was handed over, a tick one to the ticks, and neither
/// touches another counter.
pub proof fn counters_move_one_at_a_time(
    satellite: &mut EngineStats,
    tick: &mut EngineStats,
)
    requires
        call_ensures(EngineStats::on_satellite, (satellite,), ()),
        call_ensures(EngineStats::on_tick, (tick,), ()),
    ensures
        *final(satellite) == (EngineStats {
            enqueued: shown(old(satellite).enqueued + 10),
            ..*old(satellite)
        }),
        *final(tick) == (EngineStats { ticks: shown(old(tick).ticks + 1), ..*old(tick) }),
{
}

/// A series counts for its points, whatever their kind, except that arrays and what is absent
/// count for nothing. A request counts for all its series.
pub proof fn requests_count_their_points(request: Seq<Series>, series: Series, n: u64)
    ensures
        request_points(Seq::empty()) == 0,
        request_points(request.push(series)) == request_points(request) + series_points(series),
        series_points(Series { points: Some(Some(PointsType::DoublePoints(n))) }) == n,
        series_points(Series { points: Some(Some(PointsType::StringPoints(n))) }) == n,
        series_points(Series { points: Some(Some(PointsType::IntegerPoints(n))) }) == n,
        series_points(Series { points: Some(Some(PointsType::Uint64Points(n))) }) == n,
        series_points(Series { points: Some(Some(PointsType::StructPoints(n))) }) == n,
        series_points(Series { points: Some(Some(PointsType::ArrayPoints(n))) }) == 0,
        series_points(Series { points: Some(None) }) == 0,
        series_points(Series { points: None }) == 0,
{
    assert(request.push(series).drop_last() =~= request);
}

/// A pacer's first tick is due at once, and before a tick it waits exactly until the tick is due.
pub proof fn pacers_wait_for_the_tick(
    interval: u64,
    now: u64,
    pacer: Pacer,
    later: u64,
    nanos: u64,
)
    requires
        call_ensures(Pacer::new, (interval, now), pacer),
        call_ensures(Pacer::delay, (&pacer, later), nanos),
    ensures
        pacer.interval == interval,
        pacer.next == now,
        later >= now ==> nanos == 0,
        later < now ==> later + nanos == now,
{
}

/// An accepted request adds its points to what was sent; a rejected one adds its points to what
/// failed, and itself to the rejected requests. Nothing else changes.
pub proof fn replies_move_their_counters(
    accepted: &mut StatsListener,
    rejected: &mut StatsListener,
    request: Vec<Series>,
)
    requires
        call_ensures(StatsListener::on_success, (accepted, &request), ()),
        call_ensures(StatsListener::on_error, (rejected, &request), ()),
        request_points(request@) <= u64::MAX,
    ensures
        final(accepted).0 == (EngineStats {
            sent: shown(old(accepted).0.sent + request_points(request@)),
            ..old(accepted).0
        }),
        final(rejected).0 == (EngineStats {
            failed_points: shown(old(rejected).0.failed_points + request_points(request@)),
            failed_requests: shown(old(rejected).0.failed_requests + 1),
            ..old(rejected).0
        }),
{
}

/// Ticks that are left out and log entries that cannot be written are counted, each by its own
/// counter.
pub proof fn losses_are_counted(skipped: &mut EngineStats, unlogged: &mut EngineStats, missed: u32)
    requires
        call_ensures(EngineStats::on_skip, (skipped, missed), ()),
        call_ensures(EngineStats::on_log_failure, (unlogged,), ()),
    ensures
        *final(skipped) == (EngineStats {
            skipped_ticks: shown(old(skipped).skipped_ticks + missed),
            ..*old(skipped)
        }),
        *final(unlogged) == (EngineStats {
            log_failures: shown(old(unlogged).log_failures + 1),
            ..*old(unlogged)
        }),
{
}

/// A session begins with all counters at zero.
pub proof fn sessions_begin_at_zero(stats: EngineStats)
    requires
        call_ensures(EngineStats::default, (), stats),
    ensures
        stats.enqueued == 0,
        stats.sent == 0,
        stats.failed_requests == 0,
        stats.failed_points == 0,
        stats.ticks == 0,
        stats.skipped_ticks == 0,
        stats.log_failures == 0,
{
}

/// A tick that ends before the next one is due leaves nothing out and is followed one interval
/// later.
pub proof fn ticks_in_time_follow_one_another(pacer: &mut Pacer, now: u64, missed: u32)
    requires
        call_ensures(Pacer::advance, (pacer, now), missed),
        now <= old(pacer).next + old(pacer).interval,
    ensures
        missed == 0,
        final(pacer).interval == old(pacer).interval,
        final(pacer).next == old(pacer).next + old(pacer).interval,
{
    let interval = old(pacer).interval;
    assert((1 + 0) * interval == interval) by (nonlinear_arith);
}

/// A whole tick hands over the points of all satellites and counts ten for each of them and one
/// tick.
pub proof fn whole_ticks_are_counted(
    stats: &mut EngineStats,
    names: Vec<String>,
    at: Timestamp,
    readings: Vec<Vec<u64>>,
    points: Vec<Point>,
)
    requires
        call_ensures(EngineStats::tick, (stats, &names, at, &readings), points),
    ensures
        point_trees(points@) == tick_points(texts(names@), at, reading_values(readings@)),
        *final(stats) == (EngineStats {
            enqueued: shown(old(stats).enqueued + 10 * names@.len()),
            ticks: shown(old(stats).ticks + 1),
            ..*old(stats)
        }),
{
    lemma_satellites_are_counted(*old(stats), names@.len());
}

proof fn lemma_satellites_are_counted(stats: EngineStats, sats: nat)
    ensures
        after_satellites(stats, sats) == (EngineStats {
            enqueued: shown(stats.enqueued + 10 * sats),
            ..stats
        }),
    decreases sats,
{
    if sats > 0 {
        lemma_satellites_are_counted(stats, (sats - 1) as nat);
    }
}

/// The backlog shown is what was handed over and neither accepted nor rejected.
pub proof fn backlogs_are_shown(stats: EngineStats, points: u64)
    requires
        call_ensures(EngineStats::backlog, (&stats,), points),
    ensures
        points == backlog_of(stats),
{
}

/// A tick that is late by so many intervals has missed as many ticks, where intervals are whole
/// seconds: none is left out too many.
pub proof fn whole_intervals_are_missed_ticks(due: int, count: nat, each: nat)
    requires
        0 < each,
        0 < count,
        count * each < 0x8_0000_0000,
        count <= u32::MAX,
    ensures
        missed_ticks(
            due,
            due + (count * each) * 1_000_000_000,
            (each * 1_000_000_000) as int,
        ) == count,
        missed_ticks(due, due, (each * 1_000_000_000) as int) == 0,
{
    whole_seconds_are_exact(count, each);
    assert(count * each > 0) by (nonlinear_arith)
        requires
            count > 0,
            each > 0,
    ;
    lemma_pow2_pos(1074);
    vstd::arithmetic::div_mod::lemma_fundamental_div_mod_converse(
        (count * pow2(1074)) as int,
        pow2(1074) as int,
        count as int,
        0,
    );
}

} // verus!
