//! What the rates and the statistics of a stream say of the points that were sent.
use crate::double::double_rounded;
use crate::quotient::{
    ceiling_of, floor_of, lemma_far_from_zero, lemma_ratio_close, lemma_seconds_least,
    nothing_over_a_duration, one, seconds, seconds_are_close, whole,
};
use crate::rates::{
    due_in, fresh, line_for, minute_points, rate_in, rate_units, rounded_rate, sample,
    second_points, the_newest_sample_is_kept, window_rate, window_start, windows_start_within,
    Counters, LogLine, LogMsg, LogMsgTree, LogStats, Rate,
};
use crate::rounding_laws::{quotients_are_rounded_to_the_nearest, rounding_is_close};
use crate::text::decimal;
use vstd::arithmetic::div_mod::lemma_fundamental_div_mod;
use vstd::arithmetic::power2::{lemma_pow2_pos, pow2};
use std::collections::VecDeque;
use vstd::prelude::*;
use vstd::string::*;

verus! {

/// A double cut down or brought up to a whole number is the whole number just below or just above
/// it, or itself.
pub proof fn whole_parts_are_next_to_the_double(units: nat)
    ensures
        floor_of(units) * pow2(1074) <= units < (floor_of(units) + 1) * pow2(1074),
        ceiling_of(units) * pow2(1074) >= units,
        units > 0 ==> (ceiling_of(units) - 1) * pow2(1074) < units,
        units == 0 ==> ceiling_of(units) == 0,
{
    let one = pow2(1074) as int;
    lemma_pow2_pos(1074);
    lemma_fundamental_div_mod(units as int, one);
    let q = units as int / one;
    assert(q * one == one * q && (q + 1) * one == one * q + one && (q - 1) * one == one * q - one)
        by (nonlinear_arith);
    if units == 0 {
        vstd::arithmetic::div_mod::lemma_fundamental_div_mod_converse(0, one, 0, 0);
    }
}

/// The rate spans the time from the oldest sample in the window to the newest one: so many points
/// more were sent in so many nanoseconds. Older samples do not count.
pub proof fn rates_span_the_window(samples: Seq<(u64, u64)>, window: u64, i: int)
    requires
        0 <= i < samples.len(),
        samples[i].0 + window >= samples.last().0,
        forall|j: int| 0 <= j < i ==> (#[trigger] samples[j]).0 + window < samples.last().0,
    ensures
        samples.last().1 >= samples[i].1 ==> rate_in(samples, window).points == samples.last().1
            - samples[i].1,
        samples.last().1 < samples[i].1 ==> rate_in(samples, window).points == 0,
        samples.last().0 >= samples[i].0 ==> rate_in(samples, window).nanos == samples.last().0
            - samples[i].0,
        rate_in(Seq::empty(), window) == (Rate { points: 0, nanos: 0 }),
{
    windows_start_within(samples, window, 0);
    let start = window_start(samples, window, 0);
    assert(samples[start].0 + window >= samples.last().0);
}

/// Samples of more than 61 seconds ago are forgotten from the front, and no others.
pub proof fn samples_last_for_a_minute(samples: Seq<(u64, u64)>, now: u64)
    ensures
        samples.len() == 0 ==> fresh(samples, now).len() == 0,
        samples.len() > 0 && now > samples[0].0 + 61_000_000_000 ==> fresh(samples, now) == fresh(
            samples.skip(1),
            now,
        ),
        samples.len() > 0 && now <= samples[0].0 + 61_000_000_000 ==> fresh(samples, now)
            == samples,
{
}

/// Points per second are the points over the seconds, but for one part in 2^49.
pub proof fn rates_are_close(points: nat, nanos: nat)
    requires
        points <= u64::MAX,
        0 < nanos <= u64::MAX,
    ensures
        0x2_0000_0000_0000 * (rate_units(points, nanos) * nanos) <= 0x2_0000_0000_0001 * (points
            * 1_000_000_000 * pow2(1074)),
        0x2_0000_0000_0000 * (rate_units(points, nanos) * nanos) >= 0x1_FFFF_FFFF_FFFF * (points
            * 1_000_000_000 * pow2(1074)),
{
    let unit = one() as int;
    lemma_pow2_pos(1074);
    let c51 = 0x8_0000_0000_0000int;
    let c53 = 0x20_0000_0000_0000int;
    let second = 1_000_000_000int;
    let target = points * 1_000_000_000 * pow2(1074);
    if points == 0 {
        nothing_over_a_duration(nanos);
        assert(0 * nanos == 0 && 0 * pow2(1074) == 0) by (nonlinear_arith);
    } else {
        let d = double_rounded(points) as int;
        rounding_is_close(points);
        let p = whole(points) as int;
        let s = seconds(nanos) as int;
        let r = rate_units(points, nanos) as int;
        seconds_are_close(nanos);
        lemma_seconds_least(nanos);
        lemma_pow2_pos(1043);
        lemma_far_from_zero();
        let nu = nanos * unit;
        assert(nu <= 0x1_0000_0000_0000_0000 * unit) by (nonlinear_arith)
            requires
                nu == nanos * unit,
                nanos <= 0xFFFF_FFFF_FFFF_FFFF,
                unit > 0,
        ;
        assert(s <= 0x20_0000_0000_0000 * unit);
        assert(d >= 1) by {
            if points < 0x20_0000_0000_0000 {
            } else {
                assert(c53 * d >= (c53 - 1) * points);
            }
        }
        let pu = p * unit;
        assert(p >= unit) by (nonlinear_arith)
            requires
                p == d * unit,
                d >= 1,
                unit > 0,
        ;
        assert(pu >= 0x10_0000_0000_0000 * s) by (nonlinear_arith)
            requires
                pu == p * unit,
                p >= unit,
                unit >= 0x1000_0000_0000_0000_0000_0000_0000_0000,
                s <= 0x20_0000_0000_0000 * unit,
        ;
        lemma_ratio_close(pu as nat, s as nat);
        let a = second * pu;
        let t = target * unit;
        // The points, brought to a double.
        assert(c53 * a <= (c53 + 1) * t && c53 * a >= (c53 - 1) * t) by (nonlinear_arith)
            requires
                a == second * pu,
                pu == p * unit,
                p == d * unit,
                t == target * unit,
                target == points * second * unit,
                c53 * d <= (c53 + 1) * points,
                c53 * d >= (c53 - 1) * points,
                unit > 0,
                second == 1_000_000_000,
        ;
        // The quotient of the doubles.
        let rs = r * s;
        assert(c53 * rs <= (c53 + 1) * pu && c53 * rs >= (c53 - 1) * pu);
        let b = second * rs;
        // The time, brought to a double.
        let x = r * nanos;
        let xu = r * nu;
        assert((c51 - 1) * xu <= c51 * b) by (nonlinear_arith)
            requires
                (c51 - 1) * nu <= c51 * (second * s),
                xu == r * nu,
                b == second * rs,
                rs == r * s,
                r >= 0,
        ;
        assert((c51 + 1) * xu >= c51 * b) by (nonlinear_arith)
            requires
                (c51 + 1) * nu >= c51 * (second * s),
                xu == r * nu,
                b == second * rs,
                rs == r * s,
                r >= 0,
        ;
        assert(t >= 0) by (nonlinear_arith)
            requires
                t == target * unit,
                target >= 0,
                unit > 0,
        ;
        assert(0x2_0000_0000_0000 * xu <= 0x2_0000_0000_0001 * t);
        assert(0x2_0000_0000_0000 * xu >= 0x1_FFFF_FFFF_FFFF * t);
        assert(xu == x * unit) by (nonlinear_arith)
            requires
                xu == r * nu,
                nu == nanos * unit,
                x == r * nanos,
        ;
        assert(0x2_0000_0000_0000 * x <= 0x2_0000_0000_0001 * target && 0x2_0000_0000_0000 * x
            >= 0x1_FFFF_FFFF_FFFF * target) by (nonlinear_arith)
            requires
                0x2_0000_0000_0000 * (x * unit) <= 0x2_0000_0000_0001 * (target * unit),
                0x2_0000_0000_0000 * (x * unit) >= 0x1_FFFF_FFFF_FFFF * (target * unit),
                unit > 0,
        ;
    }
}

/// Whole points per second are the whole part of the points over the seconds, but for one part in
/// 2^49. Without time they are zero.
pub proof fn seconds_count_their_points(rate: Rate)
    ensures
        rate.nanos == 0 ==> second_points(rate) == 0,
        rate.nanos > 0 ==> ({
            let exact = rate.points * 1_000_000_000;
            let shown = second_points(rate);
            &&& 0x2_0000_0000_0000 * (shown * rate.nanos) <= 0x2_0000_0000_0001 * exact
            &&& shown < u64::MAX ==> 0x2_0000_0000_0000 * ((shown + 1) * rate.nanos)
                > 0x1_FFFF_FFFF_FFFF * exact
        }),
{
    let units = rate_units(rate.points as nat, rate.nanos as nat);
    whole_parts_are_next_to_the_double(units);
    let unit = pow2(1074) as int;
    lemma_pow2_pos(1074);
    if rate.nanos > 0 {
        rates_are_close(rate.points as nat, rate.nanos as nat);
        let exact = rate.points * 1_000_000_000;
        lemma_whole_part(
            units as int,
            floor_of(units) as int,
            rate.nanos as int,
            exact,
            unit,
            0x2_0000_0000_0001,
            0x1_FFFF_FFFF_FFFF,
            0x2_0000_0000_0000,
        );
        lemma_less_is_below(
            second_points(rate) as int,
            floor_of(units) as int,
            rate.nanos as int,
        );
    } else {
        assert((floor_of(units) + 1) * unit > 0);
        assert(floor_of(0) == 0) by (nonlinear_arith)
            requires
                floor_of(0) * unit <= 0,
                unit > 0,
        ;
    }
}

proof fn lemma_less_is_below(a: int, b: int, nanos: int)
    requires
        0 <= a <= b,
        nanos >= 0,
    ensures
        a * nanos <= b * nanos,
{
    assert(a * nanos <= b * nanos) by (nonlinear_arith)
        requires
            0 <= a <= b,
            nanos >= 0,
    ;
}

proof fn lemma_whole_part(
    units: int,
    shown: int,
    nanos: int,
    exact: int,
    unit: int,
    above: int,
    below: int,
    scale: int,
)
    requires
        unit > 0,
        nanos > 0,
        scale > 0,
        shown * unit <= units < (shown + 1) * unit,
        scale * (units * nanos) <= above * (exact * unit),
        scale * (units * nanos) >= below * (exact * unit),
    ensures
        scale * (shown * nanos) <= above * exact,
        scale * ((shown + 1) * nanos) > below * exact,
{
    let low = shown * unit;
    let high = (shown + 1) * unit;
    assert(low * nanos <= units * nanos && units * nanos < high * nanos) by (nonlinear_arith)
        requires
            low <= units < high,
            nanos > 0,
    ;
    assert(low * nanos == (shown * nanos) * unit) by (nonlinear_arith)
        requires
            low == shown * unit,
    ;
    assert(high * nanos == ((shown + 1) * nanos) * unit) by (nonlinear_arith)
        requires
            high == (shown + 1) * unit,
    ;
    let a = shown * nanos;
    let b = (shown + 1) * nanos;
    let m = units * nanos;
    assert(scale * a <= above * exact) by (nonlinear_arith)
        requires
            a * unit <= m,
            scale * m <= above * (exact * unit),
            unit > 0,
            scale > 0,
    ;
    assert(scale * b > below * exact) by (nonlinear_arith)
        requires
            b * unit > m,
            scale * m >= below * (exact * unit),
            unit > 0,
            scale > 0,
    ;
}

/// Whole points per minute are the whole part of sixty times the points over the seconds, but for
/// one part in 2^48.
pub proof fn minutes_count_their_points(rate: Rate)
    requires
        rate.nanos > 0,
    ensures
        ({
            let exact = 60 * (rate.points * 1_000_000_000);
            let shown = minute_points(rate);
            &&& 0x1_0000_0000_0000 * (shown * rate.nanos) <= 0x1_0000_0000_0001 * exact
            &&& shown < u64::MAX ==> 0x1_0000_0000_0000 * ((shown + 1) * rate.nanos)
                > 0xFFFF_FFFF_FFFF * exact
        }),
{
    let units = rate_units(rate.points as nat, rate.nanos as nat);
    let sixty = double_rounded(60 * units);
    rounding_is_close(60 * units);
    whole_parts_are_next_to_the_double(sixty);
    rates_are_close(rate.points as nat, rate.nanos as nat);
    let unit = pow2(1074) as int;
    lemma_pow2_pos(1074);
    let exact = rate.points * 1_000_000_000;
    let nanos = rate.nanos as int;
    let c53 = 0x20_0000_0000_0000int;
    let x = units * nanos;
    let y = sixty * nanos;
    assert(c53 * y <= (c53 + 1) * (60 * x) && c53 * y >= (c53 - 1) * (60 * x))
        by (nonlinear_arith)
        requires
            x == units * nanos,
            y == sixty * nanos,
            c53 * sixty <= (c53 + 1) * (60 * units),
            c53 * sixty >= (c53 - 1) * (60 * units),
            nanos > 0,
    ;
    let t = exact * unit;
    assert(t >= 0) by (nonlinear_arith)
        requires
            t == exact * unit,
            exact >= 0,
            unit > 0,
    ;
    assert((60 * exact) * unit == 60 * t) by (nonlinear_arith)
        requires
            t == exact * unit,
    ;
    assert(0x1_0000_0000_0000 * y <= 0x1_0000_0000_0001 * (60 * t));
    assert(0x1_0000_0000_0000 * y >= 0xFFFF_FFFF_FFFF * (60 * t));
    lemma_whole_part(
        sixty as int,
        floor_of(sixty) as int,
        nanos,
        60 * exact,
        unit,
        0x1_0000_0000_0001,
        0xFFFF_FFFF_FFFF,
        0x1_0000_0000_0000,
    );
    lemma_less_is_below(minute_points(rate) as int, floor_of(sixty) as int, nanos);
}

/// The rate in the log is the number of points sent since the last statistics over the seconds
/// since then, rounded to the nearest whole number, but for one part in 2^49.
pub proof fn logged_rates_are_rounded(stats: LogStats, sent: u64, now: u64)
    requires
        stats.last_sent <= sent,
        stats.last_time < now,
    ensures
        ({
            let exact = (sent - stats.last_sent) * 1_000_000_000;
            let nanos = now - stats.last_time;
            let shown = rounded_rate(stats, sent, now);
            &&& 0x2_0000_0000_0000 * ((2 * shown - 1) * nanos) <= 0x2_0000_0000_0001 * (2 * exact)
            &&& 0x2_0000_0000_0000 * ((2 * shown + 1) * nanos) >= 0x1_FFFF_FFFF_FFFF * (2 * exact)
        }),
{
    let points = (sent - stats.last_sent) as nat;
    let nanos = (now - stats.last_time) as nat;
    let units = rate_units(points, nanos);
    rates_are_close(points, nanos);
    let unit = pow2(1074) as int;
    lemma_pow2_pos(1074);
    let shown = rounded_rate(stats, sent, now) as int;
    quotients_are_rounded_to_the_nearest(units, pow2(1074), 0);
    let exact = points * 1_000_000_000;
    let low = (2 * shown - 1) * unit;
    let high = (2 * shown + 1) * unit;
    assert(low == 2 * (shown * unit) - unit && high == 2 * (shown * unit) + unit)
        by (nonlinear_arith)
        requires
            low == (2 * shown - 1) * unit,
            high == (2 * shown + 1) * unit,
    ;
    assert(low <= 2 * units <= high);
    let m = units * nanos;
    assert(low * nanos <= 2 * m && 2 * m <= high * nanos) by (nonlinear_arith)
        requires
            low <= 2 * units <= high,
            m == units * nanos,
            nanos > 0,
    ;
    let a = (2 * shown - 1) * nanos;
    let b = (2 * shown + 1) * nanos;
    assert(low * nanos == a * unit && high * nanos == b * unit) by (nonlinear_arith)
        requires
            low == (2 * shown - 1) * unit,
            high == (2 * shown + 1) * unit,
            a == (2 * shown - 1) * nanos,
            b == (2 * shown + 1) * nanos,
    ;
    assert(0x2_0000_0000_0000 * a <= 0x2_0000_0000_0001 * (2 * exact)) by (nonlinear_arith)
        requires
            a * unit <= 2 * m,
            0x2_0000_0000_0000 * m <= 0x2_0000_0000_0001 * (exact * unit),
            unit > 0,
    ;
    assert(0x2_0000_0000_0000 * b >= 0x1_FFFF_FFFF_FFFF * (2 * exact)) by (nonlinear_arith)
        requires
            b * unit >= 2 * m,
            0x2_0000_0000_0000 * m >= 0x1_FFFF_FFFF_FFFF * (exact * unit),
            unit > 0,
    ;
}

/// Statistics are due ten seconds after the last ones, and on a clock that went back in ten
/// seconds.
pub proof fn statistics_come_every_ten_seconds(stats: LogStats, now: u64)
    ensures
        now >= stats.last_time + 10_000_000_000 ==> due_in(stats, now) == 0,
        stats.last_time <= now < stats.last_time + 10_000_000_000 ==> now + due_in(stats, now)
            == stats.last_time + 10_000_000_000,
        now < stats.last_time ==> due_in(stats, now) == 10_000_000_000,
{
}

/// An event is logged as it stands, with its batch. The last line of a session says how many points
/// were sent.
pub proof fn events_and_ends_are_logged(
    stats: LogStats,
    text: Seq<char>,
    batch: Seq<char>,
    sats: u32,
    counters: Counters,
    now: u64,
)
    ensures
        ({
            let line = line_for(stats, LogMsgTree::Event(text), batch, sats, counters, now);
            line.message == text && line.args == seq![("batch"@, batch)]
        }),
        ({
            let line = line_for(stats, LogMsgTree::Shutdown, batch, sats, counters, now);
            line.message == "stream stopped"@ && line.args == seq![
                ("batch"@, batch),
                ("points_sent"@, decimal(counters.sent as nat)),
            ]
        }),
{
}

/// The line of statistics names the batch, its satellites, the points sent, enqueued and failed,
/// and the rate, each under its own name, in the text and in the details.
pub proof fn statistics_name_every_counter(
    stats: LogStats,
    batch: Seq<char>,
    sats: u32,
    counters: Counters,
    now: u64,
)
    ensures
        ({
            let line = line_for(stats, LogMsgTree::Timeout, batch, sats, counters, now);
            let count = decimal(sats as nat);
            let sent = decimal(counters.sent as nat);
            let enqueued = decimal(counters.enqueued as nat);
            let failed = decimal(counters.failed as nat);
            let rate = decimal(rounded_rate(stats, counters.sent, now));
            &&& line.message == "stats batch="@ + batch + " sats="@ + count + " sent="@ + sent
                + " enqueued="@ + enqueued + " failed="@ + failed + " rate="@ + rate + "pts/s"@
            &&& line.args.len() == 6
            &&& line.args[0] == ("batch"@, batch)
            &&& line.args[1] == ("sats"@, count)
            &&& line.args[2] == ("points_sent"@, sent)
            &&& line.args[3] == ("points_enqueued"@, enqueued)
            &&& line.args[4] == ("points_failed"@, failed)
            &&& line.args[5] == ("rate_pts_per_sec"@, rate)
        }),
{
}

/// A sample is noted behind the others with its time and the points sent by then.
pub proof fn samples_are_noted(samples: &mut VecDeque<(u64, u64)>, now: u64, sent: u64)
    requires
        call_ensures(sample, (samples, now, sent), ()),
    ensures
        final(samples)@ == fresh(old(samples)@.push((now, sent)), now),
        final(samples)@.len() > 0,
        final(samples)@.last() == (now, sent),
{
    the_newest_sample_is_kept(old(samples)@, now, sent);
}

/// Only statistics move what the next ones start from, and only the end of a session is the last
/// line.
pub proof fn only_statistics_are_noted(
    stats: &mut LogStats,
    message: LogMsg,
    batch: &str,
    sats: u32,
    counters: Counters,
    now: u64,
    step: (LogLine, bool),
)
    requires
        call_ensures(LogStats::log_step, (stats, message, batch, sats, &counters, now), step),
    ensures
        step.0@ == line_for(*old(stats), message@, batch@, sats, counters, now),
        message is Timeout ==> final(stats).last_sent == counters.sent && final(stats).last_time
            == now && !step.1,
        message is Event ==> *final(stats) == *old(stats) && !step.1,
        message is Shutdown ==> *final(stats) == *old(stats) && step.1,
{
}

/// The rates shown are those of the window, by the second and by the minute.
pub proof fn rates_are_those_of_the_window(
    samples: VecDeque<(u64, u64)>,
    window: u64,
    rate: Rate,
    second: u64,
    minute: u64,
    stats: LogStats,
    now: u64,
    wait: u64,
)
    requires
        call_ensures(window_rate, (&samples, window), rate),
        call_ensures(Rate::per_second, (&rate,), second),
        call_ensures(Rate::per_minute, (&rate,), minute),
        call_ensures(LogStats::wait, (&stats, now), wait),
    ensures
        rate == rate_in(samples@, window),
        second == second_points(rate),
        minute == minute_points(rate),
        wait == due_in(stats, now),
{
}

} // verus!
