//! The streaming engine's bookkeeping: channels, counters and tick pacing.
use crate::quotient::{
    capped, ceiling_of, one, quotient, quotients_of_seconds_are_close, seconds, Positive,
};
use crate::schedule::Timestamp;
use crate::text::texts;
use vstd::prelude::*;
use vstd::string::*;

verus! {

/// Values that every satellite sends on every tick.
pub const CHANNEL_COUNT: u64 = 10;

/// The channel names, in sending order.
pub open spec fn channel_names() -> Seq<Seq<char>> {
    seq![
        "latitude_deg"@,
        "longitude_deg"@,
        "altitude_km"@,
        "elevation_deg"@,
        "signal_strength_dbm"@,
        "data_throughput_mbps"@,
        "battery_level_percent"@,
        "solar_panel_power_w"@,
        "temperature_c"@,
        "doppler_shift_khz"@,
    ]
}

/// The channel names, in sending order.
pub fn channels() -> (names: Vec<&'static str>)
    ensures
        names@.map_values(|s: &'static str| s@) == channel_names(),
        names@.len() == CHANNEL_COUNT,
{
    let names: Vec<&'static str> = vec![
        "latitude_deg",
        "longitude_deg",
        "altitude_km",
        "elevation_deg",
        "signal_strength_dbm",
        "data_throughput_mbps",
        "battery_level_percent",
        "solar_panel_power_w",
        "temperature_c",
        "doppler_shift_khz",
    ];
    assert(names@.map_values(|s: &'static str| s@) =~= channel_names());
    names
}

/// A point as it is handed to the stream: its channel, its tag, its time and the double that it
/// carries, by its bit pattern.
#[derive(Debug)]
pub struct Point {
    pub channel: &'static str,
    pub tag: (&'static str, String),
    pub timestamp: Timestamp,
    pub bits: u64,
}

/// A point, with texts as characters.
pub struct PointTree {
    pub channel: Seq<char>,
    pub tag: (Seq<char>, Seq<char>),
    pub timestamp: Timestamp,
    pub bits: u64,
}

impl View for Point {
    type V = PointTree;

    open spec fn view(&self) -> PointTree {
        PointTree {
            channel: self.channel@,
            tag: (self.tag.0@, self.tag.1@),
            timestamp: self.timestamp,
            bits: self.bits,
        }
    }
}

/// The views of a list of points.
pub open spec fn point_trees(points: Seq<Point>) -> Seq<PointTree> {
    points.map_values(|p: Point| p@)
}

/// The point of a satellite on one channel.
pub open spec fn channel_point(
    name: Seq<char>,
    at: Timestamp,
    values: Seq<u64>,
    channel: int,
) -> PointTree {
    PointTree {
        channel: channel_names()[channel],
        tag: ("satellite"@, name),
        timestamp: at,
        bits: values[channel],
    }
}

/// The points of a satellite in one tick: one for each channel, in order, tagged with its name.
pub open spec fn points_of(name: Seq<char>, at: Timestamp, values: Seq<u64>) -> Seq<PointTree> {
    Seq::new(CHANNEL_COUNT as nat, |c: int| channel_point(name, at, values, c))
}

/// The points of a satellite in one tick. The values stand in the order of the channels.
pub fn satellite_points(name: &str, at: Timestamp, values: &Vec<u64>) -> (points: Vec<Point>)
    requires
        values@.len() == CHANNEL_COUNT,
    ensures
        point_trees(points@) == points_of(name@, at, values@),
{
    let names = channels();
    let ghost goal = points_of(name@, at, values@);
    let mut points: Vec<Point> = Vec::new();
    for c in 0..names.len()
        invariant
            names@.map_values(|s: &'static str| s@) == channel_names(),
            names@.len() == CHANNEL_COUNT,
            values@.len() == CHANNEL_COUNT,
            goal == points_of(name@, at, values@),
            points@.len() == c,
            forall|k: int| 0 <= k < c ==> (#[trigger] points@[k])@ == goal[k],
    {
        assert(names@[c as int]@ == names@.map_values(|s: &'static str| s@)[c as int]);
        points.push(
            Point {
                channel: names[c],
                tag: ("satellite", name.to_owned()),
                timestamp: at,
                bits: values[c],
            },
        );
    }
    assert(point_trees(points@) =~= goal);
    points
}

/// The values of a list of readings.
pub open spec fn reading_values(readings: Seq<Vec<u64>>) -> Seq<Seq<u64>> {
    readings.map_values(|r: Vec<u64>| r@)
}

/// The points of a tick: those of every satellite, in order, all with one time.
pub open spec fn tick_points(
    names: Seq<Seq<char>>,
    at: Timestamp,
    readings: Seq<Seq<u64>>,
) -> Seq<PointTree>
    decreases names.len(),
{
    if names.len() == 0 {
        Seq::empty()
    } else {
        tick_points(names.drop_last(), at, readings) + points_of(
            names.last(),
            at,
            readings[names.len() - 1],
        )
    }
}

/// In every tick each satellite sends one point on each channel: satellite by satellite, channel by
/// channel, tagged with the satellite's name, and all of them at one time.
pub proof fn ticks_send_every_channel(
    names: Seq<Seq<char>>,
    at: Timestamp,
    readings: Seq<Seq<u64>>,
)
    ensures
        tick_points(names, at, readings).len() == CHANNEL_COUNT * names.len(),
        forall|i: int, c: int|
            0 <= i < names.len() && 0 <= c < CHANNEL_COUNT ==> tick_points(
                names,
                at,
                readings,
            )[CHANNEL_COUNT * i + c] == #[trigger] channel_point(names[i], at, readings[i], c),
    decreases names.len(),
{
    if names.len() > 0 {
        let fewer = names.drop_last();
        let before = tick_points(fewer, at, readings);
        let points = tick_points(names, at, readings);
        let last = names.len() - 1;
        ticks_send_every_channel(fewer, at, readings);
        assert forall|i: int, c: int| 0 <= i < names.len() && 0 <= c < CHANNEL_COUNT implies points[
        CHANNEL_COUNT * i + c] == #[trigger] channel_point(names[i], at, readings[i], c) by {
            if i < last {
                assert(fewer[i] == names[i]);
                assert(before[CHANNEL_COUNT * i + c] == channel_point(fewer[i], at, readings[i], c));
            } else {
                assert(points[CHANNEL_COUNT * i + c] == points_of(names.last(), at, readings[last])[c]);
            }
        }
    }
}

/// Counters of a streaming session. They wrap around at the end of their range.
#[derive(Clone, Copy, PartialEq, Eq, Structural, Debug)]
pub struct EngineStats {
    /// Points handed to the stream.
    pub enqueued: u64,
    /// Points that the service accepted.
    pub sent: u64,
    /// Requests that the service rejected.
    pub failed_requests: u64,
    /// Points in rejected requests.
    pub failed_points: u64,
    /// Ticks done.
    pub ticks: u64,
    /// Ticks left out because the engine fell behind.
    pub skipped_ticks: u64,
    /// Log entries that could not be written.
    pub log_failures: u64,
}

/// The counters of a session that has done nothing yet.
pub open spec fn no_counts() -> EngineStats {
    EngineStats {
        enqueued: 0,
        sent: 0,
        failed_requests: 0,
        failed_points: 0,
        ticks: 0,
        skipped_ticks: 0,
        log_failures: 0,
    }
}

impl Default for EngineStats {
    fn default() -> (stats: Self)
        ensures
            stats == no_counts(),
    {
        EngineStats {
            enqueued: 0,
            sent: 0,
            failed_requests: 0,
            failed_points: 0,
            ticks: 0,
            skipped_ticks: 0,
            log_failures: 0,
        }
    }
}

/// The counters once the values of one more satellite were handed to the stream.
pub open spec fn with_satellite(stats: EngineStats) -> EngineStats {
    EngineStats { enqueued: stats.enqueued.wrapping_add(CHANNEL_COUNT), ..stats }
}

/// The counters once one more tick is done.
pub open spec fn with_tick(stats: EngineStats) -> EngineStats {
    EngineStats { ticks: stats.ticks.wrapping_add(1), ..stats }
}

/// The counters once the values of so many satellites were handed to the stream.
pub open spec fn after_satellites(stats: EngineStats, sats: nat) -> EngineStats
    decreases sats,
{
    if sats == 0 {
        stats
    } else {
        with_satellite(after_satellites(stats, (sats - 1) as nat))
    }
}

/// The counters after so many ticks of a fleet with so many satellites.
pub open spec fn after_ticks(stats: EngineStats, sats: nat, ticks: nat) -> EngineStats
    decreases ticks,
{
    if ticks == 0 {
        stats
    } else {
        with_tick(after_satellites(after_ticks(stats, sats, (ticks - 1) as nat), sats))
    }
}

proof fn lemma_satellites_add_up(stats: EngineStats, sats: nat)
    requires
        stats.enqueued + CHANNEL_COUNT * sats <= u64::MAX,
    ensures
        after_satellites(stats, sats) == (EngineStats {
            enqueued: (stats.enqueued + CHANNEL_COUNT * sats) as u64,
            ..stats
        }),
    decreases sats,
{
    if sats > 0 {
        lemma_satellites_add_up(stats, (sats - 1) as nat);
    }
}

/// A tick keeps the points handed over in step with satellites and ticks: ten for each satellite
/// and tick, as long as the number fits.
pub proof fn ticks_keep_the_count(stats: EngineStats, sats: nat)
    requires
        stats.enqueued == CHANNEL_COUNT * sats * stats.ticks,
        CHANNEL_COUNT * sats * (stats.ticks + 1) <= u64::MAX,
        stats.ticks < u64::MAX,
    ensures
        ({
            let after = with_tick(after_satellites(stats, sats));
            &&& after.ticks == stats.ticks + 1
            &&& after.enqueued == CHANNEL_COUNT * sats * after.ticks
        }),
{
    let each = CHANNEL_COUNT * sats;
    let ticks = stats.ticks as int;
    assert(each * (ticks + 1) == each * ticks + each) by (nonlinear_arith);
    lemma_satellites_add_up(stats, sats);
}

/// Over a whole session the points handed over are ten for each satellite and tick, which is how
/// many the ticks have sent, as long as the numbers fit.
pub proof fn sessions_count_every_point(
    names: Seq<Seq<char>>,
    at: Timestamp,
    readings: Seq<Seq<u64>>,
    ticks: nat,
)
    requires
        CHANNEL_COUNT * names.len() * ticks <= u64::MAX,
        ticks <= u64::MAX,
    ensures
        ({
            let after = after_ticks(no_counts(), names.len(), ticks);
            &&& after.ticks == ticks
            &&& after.enqueued == CHANNEL_COUNT * names.len() * ticks
            &&& after.enqueued == tick_points(names, at, readings).len() * ticks
        }),
    decreases ticks,
{
    ticks_send_every_channel(names, at, readings);
    let each = CHANNEL_COUNT * names.len();
    if ticks > 0 {
        let fewer = (ticks - 1) as nat;
        assert(each * fewer + each == each * ticks) by (nonlinear_arith)
            requires
                fewer + 1 == ticks,
        ;
        sessions_count_every_point(names, at, readings, fewer);
        ticks_keep_the_count(after_ticks(no_counts(), names.len(), fewer), names.len());
    } else {
        assert(each * 0 == 0) by (nonlinear_arith);
    }
}

impl EngineStats {
    /// One satellite's values were handed to the stream.
    pub fn on_satellite(&mut self)
        ensures
            *final(self) == with_satellite(*old(self)),
    {
        self.enqueued = self.enqueued.wrapping_add(CHANNEL_COUNT);
    }

    /// A tick is done.
    pub fn on_tick(&mut self)
        ensures
            *final(self) == with_tick(*old(self)),
    {
        self.ticks = self.ticks.wrapping_add(1);
    }

    /// A whole tick: hands over the points of every satellite, in order, and counts them and the
    /// tick. The readings stand in the order of the satellites, each in the order of the channels.
    pub fn tick(
        &mut self,
        names: &Vec<String>,
        at: Timestamp,
        readings: &Vec<Vec<u64>>,
    ) -> (points: Vec<Point>)
        requires
            readings@.len() == names@.len(),
            forall|i: int| 0 <= i < readings@.len() ==> (#[trigger] readings@[i])@.len() == CHANNEL_COUNT,
        ensures
            point_trees(points@) == tick_points(texts(names@), at, reading_values(readings@)),
            *final(self) == with_tick(after_satellites(*old(self), names@.len())),
    {
        let ghost all = texts(names@);
        let ghost values = reading_values(readings@);
        let mut points: Vec<Point> = Vec::new();
        assert(point_trees(points@) =~= tick_points(all.take(0), at, values));
        for i in 0..names.len()
            invariant
                readings@.len() == names@.len(),
                forall|k: int|
                    0 <= k < readings@.len() ==> (#[trigger] readings@[k])@.len() == CHANNEL_COUNT,
                all == texts(names@),
                values == reading_values(readings@),
                point_trees(points@) == tick_points(all.take(i as int), at, values),
                *self == after_satellites(*old(self), i as nat),
        {
            let mut more = satellite_points(names[i].as_str(), at, &readings[i]);
            proof {
                assert(all.take(i + 1).drop_last() =~= all.take(i as int));
                assert(all.take(i + 1).last() == names@[i as int]@);
                assert(values[i as int] == readings@[i as int]@);
            }
            let ghost before = point_trees(points@);
            let ghost added = point_trees(more@);
            points.append(&mut more);
            assert(point_trees(points@) =~= before + added);
            self.on_satellite();
        }
        assert(all.take(names.len() as int) =~= all);
        self.on_tick();
        points
    }

    /// Ticks were left out.
    pub fn on_skip(&mut self, missed: u32)
        ensures
            *final(self) == (EngineStats {
                skipped_ticks: old(self).skipped_ticks.wrapping_add(missed as u64),
                ..*old(self)
            }),
    {
        self.skipped_ticks = self.skipped_ticks.wrapping_add(missed as u64);
    }

    /// A log entry could not be written.
    pub fn on_log_failure(&mut self)
        ensures
            *final(self) == (EngineStats {
                log_failures: old(self).log_failures.wrapping_add(1),
                ..*old(self)
            }),
    {
        self.log_failures = self.log_failures.wrapping_add(1);
    }

    /// Points handed to the stream that the service has neither accepted nor rejected yet.
    pub fn backlog(&self) -> (points: u64)
        ensures
            points == backlog_of(*self),
    {
        self.enqueued.saturating_sub(self.sent).saturating_sub(self.failed_points)
    }
}

/// Points that were handed to the stream and are neither accepted nor rejected.
pub open spec fn backlog_of(stats: EngineStats) -> nat {
    if stats.enqueued >= stats.sent + stats.failed_points {
        (stats.enqueued - (stats.sent + stats.failed_points)) as nat
    } else {
        0
    }
}

/// The points of one series of a write request: which kind, and how many.
#[derive(Clone, Copy, PartialEq, Eq, Structural, Debug)]
pub enum PointsType {
    DoublePoints(u64),
    StringPoints(u64),
    IntegerPoints(u64),
    Uint64Points(u64),
    StructPoints(u64),
    ArrayPoints(u64),
}

/// One series of a write request; points and their kind may both be absent.
#[derive(Clone, Copy, PartialEq, Eq, Structural, Debug)]
pub struct Series {
    pub points: Option<Option<PointsType>>,
}

/// How many points a series counts for. Array points are never sent and count for nothing.
pub open spec fn series_points(series: Series) -> nat {
    match series.points {
        Some(Some(PointsType::DoublePoints(n))) => n as nat,
        Some(Some(PointsType::StringPoints(n))) => n as nat,
        Some(Some(PointsType::IntegerPoints(n))) => n as nat,
        Some(Some(PointsType::Uint64Points(n))) => n as nat,
        Some(Some(PointsType::StructPoints(n))) => n as nat,
        _ => 0,
    }
}

/// How many points a request counts for.
pub open spec fn request_points(request: Seq<Series>) -> nat
    decreases request.len(),
{
    if request.len() == 0 {
        0
    } else {
        request_points(request.drop_last()) + series_points(request.last())
    }
}

proof fn lemma_prefix_counts_no_more(request: Seq<Series>, k: int)
    requires
        0 <= k <= request.len(),
    ensures
        request_points(request.take(k)) <= request_points(request),
    decreases request.len(),
{
    if k < request.len() {
        lemma_prefix_counts_no_more(request.drop_last(), k);
        assert(request.drop_last().take(k) =~= request.take(k));
    } else {
        assert(request.take(k) =~= request);
    }
}

/// How many points a write request counts for.
pub fn count_points(request: &Vec<Series>) -> (points: u64)
    requires
        request_points(request@) <= u64::MAX,
    ensures
        points == request_points(request@),
{
    let mut total: u64 = 0;
    let mut i: usize = 0;
    assert(request@.take(0).len() == 0);
    while i < request.len()
        invariant
            i <= request.len(),
            request_points(request@) <= u64::MAX,
            total == request_points(request@.take(i as int)),
        decreases request.len() - i,
    {
        proof {
            lemma_prefix_counts_no_more(request@, i + 1);
            assert(request@.take(i + 1).drop_last() =~= request@.take(i as int));
        }
        let count: u64 = match request[i].points {
            Some(Some(PointsType::DoublePoints(n))) => n,
            Some(Some(PointsType::StringPoints(n))) => n,
            Some(Some(PointsType::IntegerPoints(n))) => n,
            Some(Some(PointsType::Uint64Points(n))) => n,
            Some(Some(PointsType::StructPoints(n))) => n,
            _ => 0,
        };
        total = total + count;
        i = i + 1;
    }
    assert(request@.take(request.len() as int) =~= request@);
    total
}

/// Counts the points that the service has accepted or rejected.
#[derive(Clone, Copy, PartialEq, Eq, Structural, Debug)]
pub struct StatsListener(pub EngineStats);

impl StatsListener {
    /// A request was rejected.
    pub fn on_error(&mut self, request: &Vec<Series>)
        requires
            request_points(request@) <= u64::MAX,
        ensures
            final(self).0 == (EngineStats {
                failed_requests: old(self).0.failed_requests.wrapping_add(1),
                failed_points: old(self).0.failed_points.wrapping_add(
                    request_points(request@) as u64,
                ),
                ..old(self).0
            }),
    {
        let points: u64 = count_points(request);
        self.0.failed_requests = self.0.failed_requests.wrapping_add(1);
        self.0.failed_points = self.0.failed_points.wrapping_add(points);
    }

    /// A request was accepted.
    pub fn on_success(&mut self, request: &Vec<Series>)
        requires
            request_points(request@) <= u64::MAX,
        ensures
            final(self).0 == (EngineStats {
                sent: old(self).0.sent.wrapping_add(request_points(request@) as u64),
                ..old(self).0
            }),
    {
        let points: u64 = count_points(request);
        self.0.sent = self.0.sent.wrapping_add(points);
    }
}

/// Clock readings and intervals of the engine stay below this many nanoseconds, so that sums of two
/// of them fit.
pub const CLOCK_LIMIT: u64 = 0x7FFF_FFFF_FFFF_0000;

/// Keeps the ticks of the engine apart. Times are nanoseconds on a monotonic clock.
#[derive(Clone, Copy, PartialEq, Eq, Structural, Debug)]
pub struct Pacer {
    /// Time between two ticks.
    pub interval: u64,
    /// When the next tick is due.
    pub next: u64,
}

/// How many ticks were missed when it is `now` and a tick was due at `due`: the time since then over
/// the interval, both in seconds as doubles, brought up to a whole number that fits the counter.
pub open spec fn missed_ticks(due: int, now: int, interval: int) -> int {
    if now <= due {
        0
    } else {
        capped(
            ceiling_of(quotient(seconds((now - due) as nat), seconds(interval as nat))),
            u32::MAX as nat,
        ) as int
    }
}

impl Pacer {
    /// A pacer whose first tick is due at once.
    pub fn new(interval: u64, now: u64) -> (pacer: Pacer)
        ensures
            pacer == (Pacer { interval, next: now }),
    {
        Pacer { interval, next: now }
    }

    /// How long to sleep before the tick.
    pub fn delay(&self, now: u64) -> (nanos: u64)
        ensures
            nanos == if now < self.next {
                self.next - now
            } else {
                0
            },
    {
        if now < self.next {
            self.next - now
        } else {
            0
        }
    }

    /// Moves on after a tick that ended at `now`. If the next tick is overdue, the missed ones are
    /// left out instead of being caught up in a burst.
    pub fn advance(&mut self, now: u64) -> (missed: u32)
        requires
            0 < old(self).interval <= CLOCK_LIMIT,
            old(self).next <= CLOCK_LIMIT,
            now <= CLOCK_LIMIT,
        ensures
            final(self).interval == old(self).interval,
            missed == missed_ticks(
                old(self).next + old(self).interval,
                now as int,
                old(self).interval as int,
            ),
            final(self).next == old(self).next + (1 + missed) * old(self).interval,
    {
        let due: u64 = self.next + self.interval;
        let interval: u64 = self.interval;
        self.next = due;
        if now > due {
            let missed: u32 = Positive::seconds(now - due).over(&Positive::seconds(interval)).ceiling();
            proof {
                missed_ticks_fill_the_delay(due as int, now as int, interval as int);
            }
            self.next = due + (missed as u64) * interval;
            assert((1 + missed) * interval == interval + missed * interval) by (nonlinear_arith);
            missed
        } else {
            assert((1 + 0) * interval == interval) by (nonlinear_arith);
            0
        }
    }
}

/// The ticks that were missed fill the time since the first of them, give or take what rounding to
/// doubles moves, and one interval more at most.
pub proof fn missed_ticks_fill_the_delay(due: int, now: int, interval: int)
    requires
        0 < interval <= CLOCK_LIMIT,
        0 <= due < now <= CLOCK_LIMIT,
    ensures
        ({
            let missed = missed_ticks(due, now, interval);
            let gap = now - due;
            &&& 0 < missed
            &&& 0x2_0000_0000_0000 * ((missed - 1) * interval) <= 0x2_0000_0000_0001 * gap
            &&& missed < u32::MAX ==> 0x2_0000_0000_0000 * (missed * interval) >= 0x1_FFFF_FFFF_FFFF
                * gap
            &&& missed * interval == (missed - 1) * interval + interval
        }),
{
    let gap = (now - due) as nat;
    let unit = one();
    let ratio = quotient(seconds(gap), seconds(interval as nat));
    let full = ceiling_of(ratio) as int;
    let missed = missed_ticks(due, now, interval);
    quotients_of_seconds_are_close(gap, interval as nat);
    vstd::arithmetic::power2::lemma_pow2_pos(1074);
    vstd::arithmetic::div_mod::lemma_fundamental_div_mod(ratio as int, unit as int);
    let q = (ratio / unit) as int;
    let rest = (ratio % unit) as int;
    let gu = gap * unit;
    let rb = ratio * interval;
    assert(gu > 0) by (nonlinear_arith)
        requires
            gu == gap * unit,
            gap > 0,
            unit > 0,
    ;
    if ratio == 0 {
        assert(0 * interval == 0) by (nonlinear_arith);
        assert(false);
    }
    assert(full > 0 && (full - 1) * unit <= ratio <= full * unit) by (nonlinear_arith)
        requires
            ratio == unit * q + rest,
            0 <= rest < unit,
            q >= 0,
            ratio > 0,
            full == if rest == 0 {
                q
            } else {
                q + 1
            },
    ;
    let below = (missed - 1) * interval;
    assert(below * unit <= rb) by (nonlinear_arith)
        requires
            below == (missed - 1) * interval,
            rb == ratio * interval,
            (full - 1) * unit <= ratio,
            missed <= full,
            interval > 0,
            unit > 0,
    ;
    assert(0x2_0000_0000_0000 * below <= 0x2_0000_0000_0001 * gap) by (nonlinear_arith)
        requires
            0x2_0000_0000_0000 * (below * unit) <= 0x2_0000_0000_0001 * (gap * unit),
            unit > 0,
    ;
    assert(missed * interval == (missed - 1) * interval + interval) by (nonlinear_arith);
    if missed < u32::MAX {
        let filled = missed * interval;
        assert(filled * unit >= rb) by (nonlinear_arith)
            requires
                filled == missed * interval,
                rb == ratio * interval,
                ratio <= missed * unit,
                interval > 0,
        ;
        assert(0x2_0000_0000_0000 * filled >= 0x1_FFFF_FFFF_FFFF * gap) by (nonlinear_arith)
            requires
                0x2_0000_0000_0000 * (filled * unit) >= 0x1_FFFF_FFFF_FFFF * (gap * unit),
                unit > 0,
        ;
    }
}

/// After a late tick the next one lies at or after the present and at most one interval away from
/// it, unless more ticks were missed than can be counted or the tick is six days late.
pub proof fn late_ticks_are_skipped(next: int, now: int, interval: int)
    requires
        0 < interval <= CLOCK_LIMIT,
        0 <= next,
        next + interval < now <= CLOCK_LIMIT,
        now - (next + interval) < 0x2_0000_0000_0000,
        missed_ticks(next + interval, now, interval) < u32::MAX,
    ensures
        now <= next + (1 + missed_ticks(next + interval, now, interval)) * interval <= now + interval,
{
    let due = next + interval;
    let missed = missed_ticks(due, now, interval);
    missed_ticks_fill_the_delay(due, now, interval);
    assert((1 + missed) * interval == interval + missed * interval) by (nonlinear_arith);
}

/// Whether the next tick lies on the grid that a pacer started at `start` has kept through so many
/// ticks done and so many left out.
pub open spec fn on_grid(pacer: Pacer, start: int, ticks: int, skipped: int) -> bool {
    pacer.next == start + (ticks + skipped) * pacer.interval
}

/// A new pacer is on its grid, and moving on after a tick keeps it there: one place further for the
/// tick and one for each tick that was missed.
pub proof fn pacing_keeps_the_grid(
    before: Pacer,
    after: Pacer,
    start: int,
    ticks: int,
    skipped: int,
    missed: int,
)
    requires
        on_grid(before, start, ticks, skipped),
        after.interval == before.interval,
        after.next == before.next + (1 + missed) * before.interval,
    ensures
        on_grid(Pacer { interval: before.interval, next: before.next }, before.next as int, 0, 0),
        on_grid(after, start, ticks + 1, skipped + missed),
{
    let interval = before.interval as int;
    assert((ticks + skipped) * interval + (1 + missed) * interval == ((ticks + 1) + (skipped
        + missed)) * interval) by (nonlinear_arith);
}

} // verus!
