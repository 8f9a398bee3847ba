//! What the scheduler and its scenarios promise of a whole run.
use crate::lateness::{
    chaos_delay_bounds, chaos_stays_below_its_bounds, draw, period_of, xorshift,
    xorshift_stays_nonzero, Scenario, MILLISECOND, SECOND, UNIT_STEPS,
};
use crate::schedule::{
    delivery_time, event_of, in_order, is_delivery, is_due_batch, precedes, same_place, stamp_of,
    state_before, tick_at, Course, Sched,
};
use vstd::prelude::*;

verus! {

/// Of two points either one is handed over first, or they have one place; and what comes before
/// something comes before all that follows it.
pub proof fn points_stand_in_one_order(a: Sched, b: Sched, c: Sched)
    ensures
        same_place(a, b) <==> !precedes(a, b) && !precedes(b, a),
        !(precedes(a, b) && precedes(b, a)),
        precedes(a, b) && precedes(b, c) ==> precedes(a, c),
{
}

/// What has come due between two moments is one sequence: the contract of a step leaves no choice.
pub proof fn due_batch_is_unique(
    course: Course,
    after: int,
    upto: int,
    a: Seq<Sched>,
    b: Seq<Sched>,
)
    requires
        is_due_batch(course, after, upto, a),
        is_due_batch(course, after, upto, b),
    ensures
        a == b,
{
    lemma_due_batch_covers(course, after, upto, a, b);
    lemma_due_batch_covers(course, after, upto, b, a);
    lemma_ordered_same_members(a, b);
}

proof fn lemma_due_batch_covers(
    course: Course,
    after: int,
    upto: int,
    a: Seq<Sched>,
    b: Seq<Sched>,
)
    requires
        is_due_batch(course, after, upto, a),
        is_due_batch(course, after, upto, b),
    ensures
        forall|i: int| 0 <= i < a.len() ==> b.contains(#[trigger] a[i]),
{
    assert forall|i: int| 0 <= i < a.len() implies b.contains(#[trigger] a[i]) by {
        let k = a[i].seq as int;
        assert(is_delivery(course, k, a[i]));
        assert(after < delivery_time(course, k) <= upto);
        let j = choose|j: int| 0 <= j < b.len() && #[trigger] b[j].seq == k;
        assert(is_delivery(course, b[j].seq as int, b[j]));
        assert(b[j] == a[i]);
    }
}

proof fn lemma_ordered_same_members(a: Seq<Sched>, b: Seq<Sched>)
    requires
        in_order(a),
        in_order(b),
        forall|i: int| 0 <= i < a.len() ==> b.contains(#[trigger] a[i]),
        forall|i: int| 0 <= i < b.len() ==> a.contains(#[trigger] b[i]),
    ensures
        a == b,
    decreases a.len(),
{
    if a.len() == 0 {
        if b.len() > 0 {
            assert(a.contains(b[0]));
        }
        assert(a =~= b);
    } else {
        assert(b.contains(a[0]));
        assert(b.len() > 0);
        assert(a.contains(b[0]));
        let i = choose|i: int| 0 <= i < b.len() && b[i] == a[0];
        let j = choose|j: int| 0 <= j < a.len() && a[j] == b[0];
        if i > 0 {
            assert(precedes(b[0], b[i]));
            if j > 0 {
                assert(precedes(a[0], a[j]));
            }
            assert(false);
        }
        assert(a[0] == b[0]);
        let at = a.skip(1);
        let bt = b.skip(1);
        assert forall|p: int| 0 <= p < at.len() implies bt.contains(#[trigger] at[p]) by {
            assert(at[p] == a[p + 1]);
            assert(b.contains(a[p + 1]));
            let q = choose|q: int| 0 <= q < b.len() && b[q] == a[p + 1];
            assert(precedes(a[0], a[p + 1]));
            assert(q > 0);
            assert(bt[q - 1] == at[p]);
        }
        assert forall|p: int| 0 <= p < bt.len() implies at.contains(#[trigger] bt[p]) by {
            assert(bt[p] == b[p + 1]);
            assert(a.contains(b[p + 1]));
            let q = choose|q: int| 0 <= q < a.len() && a[q] == b[p + 1];
            assert(precedes(b[0], b[p + 1]));
            assert(q > 0);
            assert(at[q - 1] == bt[p]);
        }
        assert forall|p: int, q: int| 0 <= p < q < at.len() implies precedes(
            #[trigger] at[p],
            #[trigger] at[q],
        ) by {
            assert(precedes(a[p + 1], a[q + 1]));
        }
        assert forall|p: int, q: int| 0 <= p < q < bt.len() implies precedes(
            #[trigger] bt[p],
            #[trigger] bt[q],
        ) by {
            assert(precedes(b[p + 1], b[q + 1]));
        }
        lemma_ordered_same_members(at, bt);
        assert(a =~= seq![a[0]] + at);
        assert(b =~= seq![b[0]] + bt);
    }
}

/// However a stretch of time is cut into steps, the points come out once each and in one order:
/// the batches of two steps in a row, put together, are the batch of one long step.
pub proof fn steps_compose(
    course: Course,
    after: int,
    middle: int,
    upto: int,
    first: Seq<Sched>,
    second: Seq<Sched>,
)
    requires
        after <= middle <= upto,
        is_due_batch(course, after, middle, first),
        is_due_batch(course, middle, upto, second),
    ensures
        is_due_batch(course, after, upto, first + second),
{
    let both = first + second;
    assert forall|i: int, j: int| 0 <= i < j < both.len() implies precedes(
        #[trigger] both[i],
        #[trigger] both[j],
    ) by {
        if j < first.len() {
            assert(both[i] == first[i] && both[j] == first[j]);
        } else if i >= first.len() {
            assert(both[i] == second[i - first.len()] && both[j] == second[j - first.len()]);
        } else {
            assert(both[i] == first[i] && both[j] == second[j - first.len()]);
        }
    }
    assert forall|i: int| 0 <= i < both.len() implies is_delivery(
        course,
        both[i].seq as int,
        #[trigger] both[i],
    ) && after < both[i].deliver_at <= upto by {
        if i < first.len() {
            assert(both[i] == first[i]);
        } else {
            assert(both[i] == second[i - first.len()]);
        }
    }
    assert forall|k: int|
        0 <= k && after < #[trigger] delivery_time(course, k) <= upto implies exists|i: int|
        0 <= i < both.len() && #[trigger] both[i].seq == k by {
        if delivery_time(course, k) <= middle {
            let i = choose|i: int| 0 <= i < first.len() && #[trigger] first[i].seq == k;
            assert(both[i].seq == k);
        } else {
            let i = choose|i: int| 0 <= i < second.len() && #[trigger] second[i].seq == k;
            assert(both[i + first.len()].seq == k);
        }
    }
}

/// The moment of the step before step `i`, or the moment at which a run begins.
pub open spec fn moment_before(start: int, times: Seq<int>, i: int) -> int {
    if i == 0 {
        start
    } else {
        times[i - 1]
    }
}

/// Whether the batches are those of steps at these moments, beginning after `start`.
pub open spec fn is_run(
    course: Course,
    start: int,
    times: Seq<int>,
    batches: Seq<Seq<Sched>>,
) -> bool {
    &&& times.len() == batches.len()
    &&& forall|i: int|
        0 <= i < times.len() ==> moment_before(start, times, i) <= #[trigger] times[i]
            && is_due_batch(course, moment_before(start, times, i), times[i], batches[i])
}

/// All points of the batches, in order.
pub open spec fn all_points(batches: Seq<Seq<Sched>>) -> Seq<Sched>
    decreases batches.len(),
{
    if batches.len() == 0 {
        Seq::empty()
    } else {
        all_points(batches.drop_last()) + batches.last()
    }
}

/// Over a whole run, however many steps it takes, the points that have come due are handed over in
/// one order, each of them once and none before its delivery time, and no point that has not come
/// due is handed over at all.
pub proof fn runs_hand_over_each_point_once(
    course: Course,
    start: int,
    times: Seq<int>,
    batches: Seq<Seq<Sched>>,
)
    requires
        is_run(course, start, times, batches),
    ensures
        is_due_batch(
            course,
            start,
            moment_before(start, times, times.len() as int),
            all_points(batches),
        ),
        forall|i: int, j: int|
            0 <= i < j < all_points(batches).len() ==> (#[trigger] all_points(batches)[i]).seq != (
            #[trigger] all_points(batches)[j]).seq,
        forall|i: int, j: int|
            0 <= i < batches.len() && 0 <= j < batches[i].len() ==> delivery_time(
                course,
                (#[trigger] batches[i][j]).seq as int,
            ) <= times[i],
    decreases times.len(),
{
    let all = all_points(batches);
    if times.len() == 0 {
        assert(all =~= Seq::empty());
    } else {
        let n = times.len() - 1;
        let fewer = times.drop_last();
        let earlier = batches.drop_last();
        assert forall|i: int| 0 <= i < fewer.len() implies moment_before(start, fewer, i)
            <= #[trigger] fewer[i] && is_due_batch(
            course,
            moment_before(start, fewer, i),
            fewer[i],
            earlier[i],
        ) by {
            assert(moment_before(start, times, i) == moment_before(start, fewer, i));
            assert(fewer[i] == times[i] && earlier[i] == batches[i]);
        }
        runs_hand_over_each_point_once(course, start, fewer, earlier);
        lemma_run_moves_on(course, start, fewer, earlier);
        assert(moment_before(start, fewer, n) == moment_before(start, times, n));
        assert(times[n] == moment_before(start, times, n + 1));
        steps_compose(
            course,
            start,
            moment_before(start, times, n),
            times[n],
            all_points(earlier),
            batches[n],
        );
    }
    assert forall|i: int, j: int| 0 <= i < j < all.len() implies (#[trigger] all[i]).seq != (
    #[trigger] all[j]).seq by {
        assert(precedes(all[i], all[j]));
        assert(is_delivery(course, all[i].seq as int, all[i]));
        assert(is_delivery(course, all[j].seq as int, all[j]));
    }
    assert forall|i: int, j: int|
        0 <= i < batches.len() && 0 <= j < batches[i].len() implies delivery_time(
        course,
        (#[trigger] batches[i][j]).seq as int,
    ) <= times[i] by {
        assert(is_due_batch(course, moment_before(start, times, i), times[i], batches[i]));
        assert(is_delivery(course, batches[i][j].seq as int, batches[i][j]));
    }
}

proof fn lemma_run_moves_on(course: Course, start: int, times: Seq<int>, batches: Seq<Seq<Sched>>)
    requires
        is_run(course, start, times, batches),
    ensures
        start <= moment_before(start, times, times.len() as int),
    decreases times.len(),
{
    if times.len() > 0 {
        let fewer = times.drop_last();
        let earlier = batches.drop_last();
        assert forall|i: int| 0 <= i < fewer.len() implies moment_before(start, fewer, i)
            <= #[trigger] fewer[i] && is_due_batch(
            course,
            moment_before(start, fewer, i),
            fewer[i],
            earlier[i],
        ) by {
            assert(moment_before(start, times, i) == moment_before(start, fewer, i));
            assert(fewer[i] == times[i] && earlier[i] == batches[i]);
        }
        lemma_run_moves_on(course, start, fewer, earlier);
        assert(moment_before(start, times, times.len() - 1) <= times[times.len() - 1]);
    }
}

/// The moments of neighbouring ticks lie one period apart.
proof fn lemma_tick_distance(course: Course, k: int, d: int)
    ensures
        tick_at(course, k + d) == tick_at(course, k) + d * period_of(course.scenario),
        (course.first_index + k + d) * period_of(course.scenario) == (course.first_index + k)
            * period_of(course.scenario) + d * period_of(course.scenario),
{
    let p = period_of(course.scenario) as int;
    assert((k + d) * p == k * p + d * p) by (nonlinear_arith);
    assert((course.first_index + k + d) * p == (course.first_index + k) * p + d * p)
        by (nonlinear_arith);
}

/// Every timestamp is a whole multiple of the channel's period.
pub proof fn stamps_sit_on_the_grid(course: Course, k: int)
    requires
        0 <= k,
        0 <= course.first_index,
    ensures
        stamp_of(course, k) % period_of(course.scenario) as int == 0,
{
    let p = period_of(course.scenario) as int;
    let offset = event_of(course, k).ts_offset as int;
    let steps = offset / p;
    assert(offset == steps * p);
    let total = course.first_index + k + steps;
    assert(stamp_of(course, k) == total * p) by (nonlinear_arith)
        requires
            stamp_of(course, k) == (course.first_index + k) * p + offset,
            offset == steps * p,
            total == course.first_index + k + steps,
    ;
    vstd::arithmetic::div_mod::lemma_mod_multiples_basic(total, p);
}

/// No point is handed over before its tick.
pub proof fn nothing_is_early(course: Course, k: int)
    requires
        0 <= k,
    ensures
        delivery_time(course, k) >= tick_at(course, k),
{
}

/// The control channels: every point carries its tick's time and is handed over at the tick.
pub proof fn control_channels_are_on_time(course: Course, k: int)
    requires
        0 <= k,
        course.scenario == Scenario::Sine5Hz || course.scenario == Scenario::Sine50Hz,
    ensures
        delivery_time(course, k) == tick_at(course, k),
        stamp_of(course, k) == (course.first_index + k) * period_of(course.scenario),
{
}

/// `constant-delay`: every point is handed over six seconds after its tick, and no point overtakes
/// another.
pub proof fn constant_delay_keeps_order(course: Course, j: int, k: int)
    requires
        0 <= j < k,
        course.scenario == Scenario::ConstantDelay,
    ensures
        delivery_time(course, k) == tick_at(course, k) + 6 * SECOND,
        stamp_of(course, k) == (course.first_index + k) * period_of(course.scenario),
        delivery_time(course, j) < delivery_time(course, k),
        stamp_of(course, j) < stamp_of(course, k),
{
    lemma_tick_distance(course, j, k - j);
}

/// `skew-forward`: every point is stamped two seconds ahead and handed over at its tick, and no
/// point overtakes another.
pub proof fn skew_forward_keeps_order(course: Course, j: int, k: int)
    requires
        0 <= j < k,
        course.scenario == Scenario::SkewForward,
    ensures
        delivery_time(course, k) == tick_at(course, k),
        stamp_of(course, k) == (course.first_index + k) * period_of(course.scenario) + 2 * SECOND,
        delivery_time(course, j) < delivery_time(course, k),
        stamp_of(course, j) < stamp_of(course, k),
{
    lemma_tick_distance(course, j, k - j);
}

/// `tail-swap`: the six samples from the peak to the zero crossing wait for the first sample past
/// the crossing and are handed over together fifty milliseconds after it, 0.2 to 1.2 seconds out of
/// order; the sample that releases them, and every other one, is on time.
pub proof fn tail_swap_holds_the_falling_quarter(course: Course, k: int)
    requires
        0 <= k,
        0 <= course.first_index,
        course.scenario == Scenario::TailSwap,
    ensures
        ({
            let sample = (course.first_index + k) % 25;
            if 7 <= sample <= 12 {
                let release = k + 13 - sample;
                &&& delivery_time(course, release) == tick_at(course, release)
                &&& delivery_time(course, k) == delivery_time(course, release) + 50 * MILLISECOND
                &&& 200 * MILLISECOND <= stamp_of(course, release) - stamp_of(course, k) <= 1_200
                    * MILLISECOND
            } else {
                delivery_time(course, k) == tick_at(course, k)
            }
        }),
{
    let sample = (course.first_index + k) % 25;
    if 7 <= sample <= 12 {
        let release = k + 13 - sample;
        assert((course.first_index + release) % 25 == 13);
        lemma_tick_distance(course, k, 13 - sample);
    }
}

/// `pair-swap`: the second point of each pair is handed over fifty milliseconds after the first
/// point of the next pair, 0.2 seconds out of order.
pub proof fn pair_swap_swaps_neighbours(course: Course, k: int)
    requires
        0 <= k,
        course.scenario == Scenario::PairSwap,
    ensures
        k % 2 == 1 ==> {
            &&& delivery_time(course, k + 1) == tick_at(course, k + 1)
            &&& delivery_time(course, k) == delivery_time(course, k + 1) + 50 * MILLISECOND
            &&& stamp_of(course, k + 1) - stamp_of(course, k) == 200 * MILLISECOND
        },
        k % 2 == 0 ==> delivery_time(course, k) == tick_at(course, k),
{
    lemma_tick_distance(course, k, 1);
}

/// `future-stamps`: every fourth point is stamped three seconds ahead; all are handed over at their
/// tick.
pub proof fn future_stamps_lead_every_fourth(course: Course, k: int)
    requires
        0 <= k,
        course.scenario == Scenario::FutureStamps,
    ensures
        delivery_time(course, k) == tick_at(course, k),
        stamp_of(course, k) - (course.first_index + k) * period_of(course.scenario) == if k % 4 == 3 {
            3 * SECOND as int
        } else {
            0
        },
{
}

/// `chaos-sine`: every point is handed over within fifteen seconds, carrying its tick's time; after
/// exactly fifteen only for draws so close to one that the delay rounds up to it.
pub proof fn chaos_delays_stay_in_bounds(course: Course, k: int)
    requires
        0 <= k,
        course.scenario == Scenario::ChaosSine,
    ensures
        tick_at(course, k) <= delivery_time(course, k) <= tick_at(course, k) + 15 * SECOND,
        draw(xorshift(state_before(course, k))) + 1_000_000 <= UNIT_STEPS ==> delivery_time(course, k)
            < tick_at(course, k) + 15 * SECOND,
        stamp_of(course, k) == (course.first_index + k) * period_of(course.scenario),
{
    let state = state_before(course, k);
    let one = xorshift(state);
    let two = xorshift(one);
    assert(one >> 11u64 < 0x20_0000_0000_0000u64) by (bit_vector);
    chaos_delay_bounds(draw(one) as nat, draw(two) as nat);
    chaos_stays_below_its_bounds(draw(one) as nat, draw(two) as nat);
}

/// How far behind the newest timestamp a point of the scenario may come in, in nanoseconds.
pub open spec fn enough_lateness(scenario: Scenario) -> int {
    match scenario {
        Scenario::Sine5Hz | Scenario::Sine50Hz | Scenario::ConstantDelay | Scenario::SkewForward
        => 0,
        Scenario::PairSwap => 200 * MILLISECOND,
        Scenario::TailSwap => 1_200 * MILLISECOND,
        Scenario::FutureStamps => 3 * SECOND,
        Scenario::ChaosSine => 15 * SECOND,
    }
}

/// A receiver that allows the scenario's lateness loses nothing: no point is stamped further behind
/// one that was handed over no later.
pub proof fn allowed_lateness_keeps_everything(course: Course, j: int, k: int)
    requires
        0 <= j,
        0 <= k,
        0 <= course.first_index,
        delivery_time(course, j) <= delivery_time(course, k),
    ensures
        stamp_of(course, j) - stamp_of(course, k) <= enough_lateness(course.scenario),
{
    lemma_tick_distance(course, k, j - k);
    nothing_is_early(course, j);
    match course.scenario {
        Scenario::TailSwap => {
            let sample = (course.first_index + k) % 25;
            tail_swap_holds_the_falling_quarter(course, k);
            tail_swap_holds_the_falling_quarter(course, j);
            if 7 <= sample <= 12 {
                let release = k + 13 - sample;
                lemma_tick_distance(course, k, 13 - sample);
                lemma_tick_distance(course, release, j - release);
                assert(j <= release);
            } else {
                assert(j <= k);
            }
            assert(stamp_of(course, j) == (course.first_index + j) * 200_000_000);
            assert(stamp_of(course, k) == (course.first_index + k) * 200_000_000);
        },
        Scenario::ChaosSine => {
            chaos_delays_stay_in_bounds(course, j);
            chaos_delays_stay_in_bounds(course, k);
        },
        _ => {},
    }
}

/// Runs are reproducible: the delays of a run depend on the scenario and on the grid place of its
/// first tick alone, never on the clock at which it was started.
pub proof fn runs_repeat(a: Course, b: Course, k: int)
    requires
        0 <= k,
        a.scenario == b.scenario,
        a.first_index == b.first_index,
    ensures
        event_of(a, k) == event_of(b, k),
        state_before(a, k) == state_before(b, k),
    decreases k,
{
    if k > 0 {
        runs_repeat(a, b, k - 1);
    }
}

/// The delays of every scenario but `tail-swap` do not even depend on the grid place.
pub proof fn chaos_repeats_from_any_start(a: Course, b: Course, k: int)
    requires
        0 <= k,
        a.scenario == b.scenario,
        a.scenario != Scenario::TailSwap,
    ensures
        event_of(a, k) == event_of(b, k),
        state_before(a, k) == state_before(b, k),
    decreases k,
{
    if k > 0 {
        chaos_repeats_from_any_start(a, b, k - 1);
    }
}

/// The generator never gets stuck at zero during a run.
pub proof fn generator_never_stalls(course: Course, k: int)
    ensures
        state_before(course, k) != 0,
    decreases k,
{
    if k > 0 {
        generator_never_stalls(course, k - 1);
        let state = state_before(course, k - 1);
        xorshift_stays_nonzero(state);
        xorshift_stays_nonzero(xorshift(state));
    }
}

} // verus!
