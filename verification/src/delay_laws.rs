//! What the scenarios of contrived lateness do, in seconds and draws.
use crate::double::double_rounded;
use crate::lateness::{
    all_scenarios, chaos_delay, chaos_steps, draw, event, name_of, period_of, scenario_named,
    scenario_order, select, xorshift, Ev, Rng, Scenario,
};
use crate::rounding_laws::{apart, quotients_are_rounded_to_the_nearest, rounding_is_close};
use crate::schedule::{
    delivery_time, event_of, precedes, same_place, stamp_of, state_before, tick_at, to_timestamp,
    Course, Runner, Sched, Timestamp,
};
use crate::text::{decimal, padded_right};
use vstd::prelude::*;
use vstd::string::*;

verus! {

/// A channel ticks as often a second as its listing says: fifty times for the fast sine and for
/// chaos, five times for every other one.
pub proof fn channels_tick_at_their_rate(scenario: Scenario, line: String)
    requires
        call_ensures(Scenario::list_line, (&scenario,), line),
    ensures
        ({
            let rate = if scenario == Scenario::Sine50Hz || scenario == Scenario::ChaosSine {
                50nat
            } else {
                5nat
            };
            let summary = match scenario {
                Scenario::Sine5Hz => "perfect sine, every point on time"@,
                Scenario::Sine50Hz => "perfect sine, every point on time"@,
                Scenario::ConstantDelay => "every point delivered 6 s after its timestamp"@,
                Scenario::SkewForward => "every point stamped 2 s in the future, delivered on time"@,
                Scenario::TailSwap => "the whole 1 -> 0 quarter of each wave is held and delivered 50 ms after the first point past the zero crossing"@,
                Scenario::ChaosSine => "delivery delay random: 95% uniform 0-10 s, 5% uniform 10-15 s"@,
                Scenario::FutureStamps => "every 4th point stamped 3 s in the future, delivered on time"@,
                Scenario::PairSwap => "pairs (t, t+0.2); the t+0.2 point is delivered 50 ms after the t+0.4 point"@,
            };
            &&& rate * period_of(scenario) == 1_000_000_000
            &&& line@ == padded_right(name_of(scenario), 18) + " "@ + decimal(rate) + " Hz  "@
                + summary
        }),
{
    if scenario == Scenario::Sine50Hz || scenario == Scenario::ChaosSine {
        assert(period_of(scenario) == 20_000_000);
        assert(1_000_000_000nat / 20_000_000nat == 50);
    } else {
        assert(period_of(scenario) == 200_000_000);
        assert(1_000_000_000nat / 200_000_000nat == 5);
    }
}

/// The channels come in one order and under these names.
pub proof fn channels_are_listed_in_order(list: Vec<Scenario>)
    requires
        call_ensures(all_scenarios, (), list),
    ensures
        list@.len() == 8,
        name_of(list@[0]) == "sine-5hz"@,
        name_of(list@[1]) == "sine-50hz"@,
        name_of(list@[2]) == "constant-delay"@,
        name_of(list@[3]) == "skew-forward"@,
        name_of(list@[4]) == "tail-swap"@,
        name_of(list@[5]) == "chaos-sine"@,
        name_of(list@[6]) == "future-stamps"@,
        name_of(list@[7]) == "pair-swap"@,
{
}

/// A name finds a scenario only if it is the scenario's own.
pub proof fn found_scenarios_have_the_name(name: Seq<char>)
    ensures
        scenario_named(name) matches Some(scenario) ==> name_of(scenario) == name
            && scenario_order().contains(scenario),
{
    if scenario_named(name) is Some {
        let order = scenario_order();
        match scenario_named(name)->0 {
            Scenario::Sine5Hz => assert(order[0] == Scenario::Sine5Hz),
            Scenario::Sine50Hz => assert(order[1] == Scenario::Sine50Hz),
            Scenario::ConstantDelay => assert(order[2] == Scenario::ConstantDelay),
            Scenario::SkewForward => assert(order[3] == Scenario::SkewForward),
            Scenario::TailSwap => assert(order[4] == Scenario::TailSwap),
            Scenario::ChaosSine => assert(order[5] == Scenario::ChaosSine),
            Scenario::FutureStamps => assert(order[6] == Scenario::FutureStamps),
            Scenario::PairSwap => assert(order[7] == Scenario::PairSwap),
        }
    }
}

/// Ticks come one period apart, and the point of a tick is stamped with the tick's multiple of the
/// period, plus what its scenario adds.
pub proof fn ticks_are_one_period_apart(course: Course, k: int)
    requires
        0 <= k,
    ensures
        tick_at(course, 0) == course.start,
        tick_at(course, k + 1) == tick_at(course, k) + if course.scenario == Scenario::Sine50Hz
            || course.scenario == Scenario::ChaosSine {
            20_000_000
        } else {
            200_000_000int
        },
        delivery_time(course, k) - tick_at(course, k) == event_of(course, k).deliver_after,
        stamp_of(course, k) - course.first_index * period_of(course.scenario) == tick_at(course, k)
            - course.start + event_of(course, k).ts_offset,
{
    let p = period_of(course.scenario) as int;
    assert((k + 1) * p == k * p + p) by (nonlinear_arith);
    assert((course.first_index + k) * p == course.first_index * p + k * p) by (nonlinear_arith);
    assert(0 * p == 0);
}

/// The generator starts from one seed and makes two draws for each point of the chaotic channel,
/// the first for the length of the delay and the second for its kind. Other channels draw nothing.
pub proof fn chaos_draws_two_numbers_for_a_point(course: Course, k: int)
    requires
        0 <= k,
    ensures
        state_before(course, 0) == 0x9E37_79B9_7F4A_7C15,
        course.scenario != Scenario::ChaosSine ==> state_before(course, k + 1) == state_before(
            course,
            k,
        ),
        course.scenario == Scenario::ChaosSine ==> ({
            let one = xorshift(state_before(course, k));
            let two = xorshift(one);
            &&& state_before(course, k + 1) == two
            &&& event_of(course, k).deliver_after == chaos_delay(
                (one / 2048) as nat,
                (two / 2048) as nat,
            ) as u64
            &&& event_of(course, k).ts_offset == 0
        }),
{
    let one = xorshift(state_before(course, k));
    let two = xorshift(one);
    assert(one >> 11u64 == one / 2048) by (bit_vector);
    assert(two >> 11u64 == two / 2048) by (bit_vector);
}

/// The generator mixes its state by three shifts: 13 to the left, 7 to the right, 17 to the left.
/// Two states are mixed apart as they are mixed together.
pub proof fn generators_mix_by_shifts(x: u64, y: u64)
    ensures
        xorshift(x) == ({
            let a = x ^ (x << 13u64);
            let b = a ^ (a >> 7u64);
            b ^ (b << 17u64)
        }),
        xorshift(x ^ y) == xorshift(x) ^ xorshift(y),
        draw(x) == x / 2048,
{
    assert(x >> 11u64 == x / 2048) by (bit_vector);
    let s = x ^ y;
    let a = x ^ (x << 13u64);
    let b = y ^ (y << 13u64);
    let c = s ^ (s << 13u64);
    assert((x ^ y) ^ ((x ^ y) << 13u64) == (x ^ (x << 13u64)) ^ (y ^ (y << 13u64)))
        by (bit_vector);
    assert(c == a ^ b);
    let d = a ^ (a >> 7u64);
    let e = b ^ (b >> 7u64);
    let f = c ^ (c >> 7u64);
    assert((a ^ b) ^ ((a ^ b) >> 7u64) == (a ^ (a >> 7u64)) ^ (b ^ (b >> 7u64))) by (bit_vector);
    assert(f == d ^ e);
    assert((d ^ e) ^ ((d ^ e) << 17u64) == (d ^ (d << 17u64)) ^ (e ^ (e << 17u64)))
        by (bit_vector);
}

/// A chaotic delay is ten seconds times the first draw for nineteen second draws in twenty, and ten
/// seconds plus five times the first draw for the others, rounded to a nanosecond but for a hair.
pub proof fn chaotic_delays_follow_their_draws(first: nat, second: nat)
    requires
        first < 0x20_0000_0000_0000,
        second < 0x20_0000_0000_0000,
    ensures
        ({
            let one = 0x20_0000_0000_0000int;
            let usual = 20 * (second + 1) <= 19 * one;
            let exact = if usual {
                10 * first as int
            } else {
                10 * one + 5 * first
            };
            2 * apart(chaos_delay(first, second) * one, exact * 1_000_000_000) <= one
                + 40_000_000_000
        }),
{
    let one = 0x20_0000_0000_0000nat;
    rounding_is_close(10 * first);
    rounding_is_close(5 * first);
    rounding_is_close(10 * one + double_rounded(5 * first));
    let steps = chaos_steps(first, second);
    quotients_are_rounded_to_the_nearest(steps * 1_000_000_000, one, 0);
}

/// What each scenario adds to a point: how long after its tick it comes, and how far ahead it is
/// stamped.
pub proof fn scenarios_differ_in_delay_and_stamp(n: nat, index: nat, state: u64)
    ensures
        ({
            let late = |scenario: Scenario| event(scenario, n, index, state).0.deliver_after;
            let ahead = |scenario: Scenario| event(scenario, n, index, state).0.ts_offset;
            &&& late(Scenario::Sine5Hz) == 0 && ahead(Scenario::Sine5Hz) == 0
            &&& late(Scenario::Sine50Hz) == 0 && ahead(Scenario::Sine50Hz) == 0
            &&& late(Scenario::ConstantDelay) == 6_000_000_000 && ahead(Scenario::ConstantDelay)
                == 0
            &&& late(Scenario::SkewForward) == 0 && ahead(Scenario::SkewForward) == 2_000_000_000
            &&& ahead(Scenario::TailSwap) == 0
            &&& late(Scenario::FutureStamps) == 0
            &&& ahead(Scenario::FutureStamps) == if n % 4 == 3 {
                3_000_000_000int
            } else {
                0
            }
            &&& ahead(Scenario::PairSwap) == 0
            &&& late(Scenario::PairSwap) == if n % 2 == 1 {
                250_000_000int
            } else {
                0
            }
        }),
{
}

/// A tick contributes what its scenario says and leaves the generator as the scenario does.
pub proof fn ticks_contribute_their_event(
    scenario: Scenario,
    n: u64,
    index: u64,
    rng: &mut Rng,
    ev: Ev,
)
    requires
        call_ensures(Scenario::emit, (&scenario, n, index, rng), ev),
    ensures
        ev == event(scenario, n as nat, index as nat, old(rng).0).0,
        final(rng).0 == event(scenario, n as nat, index as nat, old(rng).0).1,
{
}

/// A draw is the upper 53 bits of the generator's next state.
pub proof fn draws_advance_the_generator(rng: &mut Rng, steps: u64)
    requires
        call_ensures(Rng::next_steps, (rng,), steps),
    ensures
        final(rng).0 == xorshift(old(rng).0),
        steps == final(rng).0 / 2048,
        steps < 0x20_0000_0000_0000,
{
    generators_mix_by_shifts(final(rng).0, 0);
}

/// The channels asked for by name are those that run, in the order asked for, and all of them where
/// `all` is among the names. The first name that no channel has is the error.
pub proof fn named_channels_run(names: Vec<String>, selected: Result<Vec<Scenario>, String>, i: int)
    requires
        call_ensures(select, (&names,), selected),
        0 <= i < names@.len(),
    ensures
        names@[i]@ == "all"@ ==> selected is Ok && selected->Ok_0@ == scenario_order(),
        selected is Ok && (forall|j: int| 0 <= j < names@.len() ==> (#[trigger] names@[j])@ != "all"@)
            ==> selected->Ok_0@.len() == names@.len() && name_of(selected->Ok_0@[i]) == names@[i]@,
        selected is Err ==> names@[i]@ != "all"@ && scenario_named(selected->Err_0@) is None,
        scenario_named(names@[i]@) is None && (forall|j: int|
            0 <= j < names@.len() ==> (#[trigger] names@[j])@ != "all"@) && (forall|j: int|
            0 <= j < i ==> scenario_named((#[trigger] names@[j])@) is Some) ==> selected is Err
            && selected->Err_0@ == names@[i]@,
{
    found_scenarios_have_the_name(names@[i]@);
    if selected is Ok && scenario_named(names@[i]@) is None && (forall|j: int|
        0 <= j < names@.len() ==> (#[trigger] names@[j])@ != "all"@) {
        let list = selected->Ok_0@;
        assert(scenario_named(names@[i]@) == Some(list[i]));
    }
}

/// A run begins at the next multiple of its period on the wall clock, or at once on one.
pub proof fn runs_begin_on_the_grid(scenario: Scenario, wall: u64, now: u64, runner: Runner)
    requires
        call_ensures(Runner::new, (scenario, wall, now), runner),
    ensures
        ({
            let course = runner.course();
            let begin = course.first_index * period_of(scenario);
            &&& course.scenario == scenario
            &&& wall <= begin < wall + period_of(scenario)
            &&& course.start == now + (begin - wall)
            &&& runner.made() == 0
            &&& runner.handed_over() == 0
            &&& runner.waiting().len() == 0
        }),
{
    let first = runner.course().first_index;
    let p = period_of(scenario) as int;
    assert((first - 1) * p == first * p - p) by (nonlinear_arith);
}

/// A step hands over what has come due since the last one, each point with its own time and stamp,
/// by delivery time and, for equal times, in the order of the ticks.
pub proof fn steps_hand_over_what_is_due(
    runner: &mut Runner,
    now: u64,
    due: Vec<Sched>,
    i: int,
    k: int,
)
    requires
        call_ensures(Runner::step, (runner, now), due),
        0 <= i < due@.len(),
        0 <= k,
    ensures
        ({
            let course = old(runner).course();
            let point = due@[i];
            let tick = point.seq as int;
            &&& point.deliver_at == delivery_time(course, tick)
            &&& point.timestamp == stamp_of(course, tick)
            &&& old(runner).horizon() < point.deliver_at <= now
            &&& i + 1 < due@.len() ==> point.deliver_at < due@[i + 1].deliver_at
                || point.deliver_at == due@[i + 1].deliver_at && point.seq < due@[i + 1].seq
            &&& old(runner).horizon() < delivery_time(course, k) <= now ==> exists|j: int|
                0 <= j < due@.len() && (#[trigger] due@[j]).seq == k
            &&& final(runner).horizon() == now
            &&& final(runner).course() == course
            &&& final(runner).handed_over() == old(runner).handed_over() + due@.len()
        }),
{
}

/// A run sleeps until its next tick or its next delivery, whichever comes first, but never longer
/// than a fifth of a second.
pub proof fn runs_sleep_until_something_is_due(runner: Runner, now: u64, nanos: u64)
    requires
        call_ensures(Runner::wait, (&runner, now), nanos),
    ensures
        nanos <= 200_000_000,
        nanos > 0 ==> now + nanos <= tick_at(runner.course(), runner.made()),
        nanos > 0 && runner.waiting().len() > 0 ==> now + nanos <= runner.waiting()[0].deliver_at,
        0 < nanos < 200_000_000 ==> now + nanos == tick_at(runner.course(), runner.made()) || (
        runner.waiting().len() > 0 && now + nanos == runner.waiting()[0].deliver_at),
        nanos == 0 ==> tick_at(runner.course(), runner.made()) <= now || (runner.waiting().len() > 0
            && runner.waiting()[0].deliver_at <= now),
{
}

/// The end of a run is reported with its channel, the points handed over and those left behind.
pub proof fn ends_of_runs_are_reported(runner: Runner, line: String)
    requires
        call_ensures(Runner::stop_line, (&runner,), line),
    ensures
        line@ == "["@ + name_of(runner.course().scenario) + "] stopped after "@ + decimal(
            runner.handed_over() as nat,
        ) + " points ("@ + decimal(runner.waiting().len()) + " still scheduled, discarded)"@,
{
}

/// A time in nanoseconds splits into whole seconds and the nanoseconds that are left.
pub proof fn times_split_into_seconds(nanos: u64, stamp: Timestamp)
    requires
        call_ensures(to_timestamp, (nanos,), stamp),
    ensures
        stamp.seconds * 1_000_000_000 + stamp.nanos == nanos,
        0 <= stamp.nanos < 1_000_000_000,
{
}

/// Points are handed over by their delivery time and, where it is the same, in the order in which
/// they were made. Their stamps do not matter.
pub proof fn points_are_ordered_by_delivery(a: Sched, b: Sched)
    ensures
        a.deliver_at < b.deliver_at ==> precedes(a, b) && !precedes(b, a),
        a.deliver_at == b.deliver_at && a.seq < b.seq ==> precedes(a, b) && !precedes(b, a),
        a.deliver_at == b.deliver_at && a.seq == b.seq <==> same_place(a, b),
        same_place(a, b) ==> !precedes(a, b) && !precedes(b, a),
{
}

} // verus!
