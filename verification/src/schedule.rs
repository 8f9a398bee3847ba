//! The scheduler of a lateness scenario: which points are handed over at which moment.
//!
//! Points wait in a queue ordered by delivery time and, for equal times, by the order in which
//! they were made. A step makes the points of every tick that has come due and takes out the
//! points whose delivery time has come.
use crate::lateness::{event, name_of, period_of, Ev, Rng, Scenario, SECOND, SEED};
use crate::text::{decimal, push_decimal};
use vstd::prelude::*;
use vstd::string::*;

verus! {

/// Clock readings stay below this many nanoseconds (about 292 years): a wall clock reading, a
/// monotonic one and the longest delay together then just fit 64 bits.
pub const CLOCK_LIMIT: u64 = 0x7FFF_FFF0_0000_0000;

/// The longest that a runner sleeps, so that an interrupt is noticed soon.
pub const LONGEST_SLEEP: u64 = 200_000_000;

/// A point in time as seconds and nanoseconds.
#[derive(Clone, Copy, PartialEq, Eq, Structural, Debug)]
pub struct Timestamp {
    pub seconds: i64,
    pub nanos: i32,
}

/// Splits nanoseconds since the epoch into seconds and nanoseconds.
pub fn to_timestamp(nanos: u64) -> (stamp: Timestamp)
    ensures
        stamp.seconds * SECOND + stamp.nanos == nanos,
        0 <= stamp.nanos < SECOND,
{
    let seconds: u64 = nanos / SECOND;
    let rest: u64 = nanos % SECOND;
    Timestamp { seconds: seconds as i64, nanos: rest as i32 }
}

/// A scheduled point. Two of them are equal if they are handed over at the same place.
#[derive(Clone, Copy, Eq, Debug)]
pub struct Sched {
    /// Monotonic time at which the point is handed over.
    pub deliver_at: u64,
    /// Place in the order of creation.
    pub seq: u64,
    /// The point's timestamp in nanoseconds since the epoch.
    pub timestamp: u64,
}

/// Whether the points have one place in the order in which they are handed over.
pub open spec fn same_place(a: Sched, b: Sched) -> bool {
    a.deliver_at == b.deliver_at && a.seq == b.seq
}

impl PartialEq for Sched {
    fn eq(&self, other: &Self) -> (same: bool) {
        self.deliver_at == other.deliver_at && self.seq == other.seq
    }
}

impl vstd::std_specs::cmp::PartialEqSpecImpl for Sched {
    open spec fn obeys_eq_spec() -> bool {
        true
    }

    open spec fn eq_spec(&self, other: &Self) -> bool {
        same_place(*self, *other)
    }
}

/// Whether `a` is handed over before `b`.
pub open spec fn precedes(a: Sched, b: Sched) -> bool {
    a.deliver_at < b.deliver_at || (a.deliver_at == b.deliver_at && a.seq < b.seq)
}

impl Sched {
    /// Whether this point is handed over before `other`.
    pub fn comes_before(&self, other: &Sched) -> (before: bool)
        ensures
            before == precedes(*self, *other),
    {
        self.deliver_at < other.deliver_at || (self.deliver_at == other.deliver_at && self.seq
            < other.seq)
    }
}

/// Whether the points stand in the order in which they are handed over.
pub open spec fn in_order(queue: Seq<Sched>) -> bool {
    forall|i: int, j: int| 0 <= i < j < queue.len() ==> precedes(#[trigger] queue[i], #[trigger] queue[j])
}

/// Where a run stands in time: the scenario, the monotonic time of its first tick, and the place
/// of that tick on the wall clock grid of multiples of the period.
pub struct Course {
    pub scenario: Scenario,
    pub start: int,
    pub first_index: int,
}

/// Monotonic time of tick `k`.
pub open spec fn tick_at(course: Course, k: int) -> int {
    course.start + k * period_of(course.scenario)
}

/// The generator's state before tick `k`.
pub open spec fn state_before(course: Course, k: int) -> u64
    decreases k,
{
    if k <= 0 {
        SEED
    } else {
        event(
            course.scenario,
            (k - 1) as nat,
            (course.first_index + k - 1) as nat,
            state_before(course, k - 1),
        ).1
    }
}

/// What tick `k` contributes.
pub open spec fn event_of(course: Course, k: int) -> Ev {
    event(
        course.scenario,
        k as nat,
        (course.first_index + k) as nat,
        state_before(course, k),
    ).0
}

/// Monotonic time at which the point of tick `k` is handed over.
pub open spec fn delivery_time(course: Course, k: int) -> int {
    tick_at(course, k) + event_of(course, k).deliver_after
}

/// Timestamp of the point of tick `k`, in nanoseconds since the epoch.
pub open spec fn stamp_of(course: Course, k: int) -> int {
    (course.first_index + k) * period_of(course.scenario) + event_of(course, k).ts_offset
}

/// Whether `s` is the point of tick `k`.
pub open spec fn is_delivery(course: Course, k: int, s: Sched) -> bool {
    &&& s.seq == k
    &&& s.deliver_at == delivery_time(course, k)
    &&& s.timestamp == stamp_of(course, k)
}

/// Whether `batch` holds exactly the points whose delivery time lies after `after` and not after
/// `upto`, in the order in which they are handed over.
pub open spec fn is_due_batch(course: Course, after: int, upto: int, batch: Seq<Sched>) -> bool {
    &&& in_order(batch)
    &&& forall|i: int|
        0 <= i < batch.len() ==> is_delivery(course, batch[i].seq as int, #[trigger] batch[i])
            && after < batch[i].deliver_at <= upto
    &&& forall|k: int|
        0 <= k && after < #[trigger] delivery_time(course, k) <= upto ==> exists|i: int|
            0 <= i < batch.len() && #[trigger] batch[i].seq == k
}

/// Whether the queue holds the points of the first `ticks` ticks whose delivery time lies after
/// `after`, in order.
pub open spec fn queue_holds(course: Course, queue: Seq<Sched>, ticks: int, after: int) -> bool {
    &&& in_order(queue)
    &&& forall|i: int|
        0 <= i < queue.len() ==> {
            &&& (#[trigger] queue[i]).seq < ticks
            &&& is_delivery(course, queue[i].seq as int, queue[i])
            &&& queue[i].deliver_at > after
        }
    &&& forall|k: int|
        0 <= k < ticks && #[trigger] delivery_time(course, k) > after ==> exists|i: int|
            0 <= i < queue.len() && #[trigger] queue[i].seq == k
}

/// One running scenario.
pub struct Runner {
    scenario: Scenario,
    start: u64,
    first_index: u64,
    ticks: u64,
    delivered: u64,
    rng: Rng,
    queue: Vec<Sched>,
    horizon: Ghost<int>,
}

impl Runner {
    /// Where the run stands in time.
    pub closed spec fn course(&self) -> Course {
        Course {
            scenario: self.scenario,
            start: self.start as int,
            first_index: self.first_index as int,
        }
    }

    /// Everything due up to this moment has been handed over.
    pub closed spec fn horizon(&self) -> int {
        self.horizon@
    }

    /// Ticks made so far.
    pub closed spec fn made(&self) -> int {
        self.ticks as int
    }

    /// Points handed over so far.
    pub closed spec fn handed_over(&self) -> int {
        self.delivered as int
    }

    /// The points still waiting, in the order in which they will be handed over.
    pub closed spec fn waiting(&self) -> Seq<Sched> {
        self.queue@
    }

    /// The waiting points are those of the ticks made so far whose delivery time lies past the
    /// horizon; the ticks made are those up to the horizon.
    pub closed spec fn well_formed(&self) -> bool {
        &&& self.consistent(self.horizon@)
        &&& tick_at(self.course(), self.ticks as int) > self.horizon@
    }

    /// The queue holds what the ticks made so far, none of them after `upto`, still owe.
    closed spec fn consistent(&self, upto: int) -> bool {
        let course = self.course();
        &&& self.start <= CLOCK_LIMIT + SECOND
        &&& self.first_index * period_of(self.scenario) <= CLOCK_LIMIT + SECOND
        &&& -1 <= self.horizon@ <= CLOCK_LIMIT
        &&& self.rng.0 == state_before(course, self.ticks as int)
        &&& -1 <= upto <= CLOCK_LIMIT
        &&& self.ticks > 0 ==> tick_at(course, self.ticks - 1) <= upto
        &&& self.delivered + self.queue@.len() == self.ticks
        &&& queue_holds(course, self.queue@, self.ticks as int, self.horizon@)
    }

    /// A run that starts at the next multiple of the period on the wall clock. `wall` is the wall
    /// clock in nanoseconds since the epoch and `now` the monotonic clock at the same moment.
    pub fn new(scenario: Scenario, wall: u64, now: u64) -> (runner: Runner)
        requires
            wall <= CLOCK_LIMIT,
            now <= CLOCK_LIMIT,
        ensures
            runner.well_formed(),
            runner.course().scenario == scenario,
            runner.course().first_index * period_of(scenario) >= wall,
            (runner.course().first_index - 1) * period_of(scenario) < wall,
            runner.course().start - now == runner.course().first_index * period_of(scenario) - wall,
            runner.horizon() == -1,
            runner.made() == 0,
            runner.handed_over() == 0,
            runner.waiting() == Seq::<Sched>::empty(),
    {
        let period: u64 = scenario.period();
        let first_index: u64 = (wall + (period - 1)) / period;
        let start_wall: u64 = first_index * period;
        let runner = Runner {
            scenario,
            start: now + (start_wall - wall),
            first_index,
            ticks: 0,
            delivered: 0,
            rng: Rng(SEED),
            queue: Vec::new(),
            horizon: Ghost(-1),
        };
        runner
    }

    /// Makes the points of every tick that has come due.
    fn make_due(&mut self, now: u64)
        requires
            old(self).well_formed(),
            old(self).horizon() <= now <= CLOCK_LIMIT,
        ensures
            final(self).consistent(now as int),
            tick_at(final(self).course(), final(self).ticks as int) > now,
            final(self).course() == old(self).course(),
            final(self).horizon() == old(self).horizon(),
            final(self).delivered == old(self).delivered,
    {
        let period: u64 = self.scenario.period();
        while self.start + self.ticks * period <= now
            invariant
                self.consistent(now as int),
                self.course() == old(self).course(),
                self.horizon() == old(self).horizon(),
                self.delivered == old(self).delivered,
                tick_at(self.course(), self.ticks as int) > self.horizon(),
                period == period_of(self.scenario),
                now <= CLOCK_LIMIT,
                self.ticks * period <= CLOCK_LIMIT + period,
            decreases now - tick_at(self.course(), self.ticks as int) + period,
        {
            let ghost before = *self;
            let ghost course = self.course();
            let n: u64 = self.ticks;
            let tick: u64 = self.start + n * period;
            assert((self.first_index + n) * period == self.first_index * period + n * period)
                by (nonlinear_arith);
            assert(n <= CLOCK_LIMIT) by (nonlinear_arith)
                requires
                    n * period <= CLOCK_LIMIT,
                    period >= 1,
            ;
            assert(self.first_index <= CLOCK_LIMIT + SECOND) by (nonlinear_arith)
                requires
                    self.first_index * period <= CLOCK_LIMIT + SECOND,
                    period >= 1,
            ;
            let index: u64 = self.first_index + n;
            let ev = self.scenario.emit(n, index, &mut self.rng);
            assert(state_before(course, n + 1) == self.rng.0);
            let item = Sched {
                deliver_at: tick + ev.deliver_after,
                seq: n,
                timestamp: index * period + ev.ts_offset,
            };
            assert(is_delivery(course, n as int, item));
            insert_in_order(&mut self.queue, item);
            self.ticks = n + 1;
            proof {
                assert((n + 1) * period == n * period + period) by (nonlinear_arith);
                let at = choose|at: int|
                    0 <= at <= before.queue@.len() && self.queue@ == before.queue@.insert(at, item);
                assert(self.course() == course);
                assert forall|i: int| 0 <= i < self.queue@.len() implies {
                    &&& (#[trigger] self.queue@[i]).seq < self.ticks
                    &&& is_delivery(course, self.queue@[i].seq as int, self.queue@[i])
                    &&& self.queue@[i].deliver_at > self.horizon@
                } by {
                    if i < at {
                        assert(self.queue@[i] == before.queue@[i]);
                    } else if i > at {
                        assert(self.queue@[i] == before.queue@[i - 1]);
                    }
                }
                assert forall|k: int|
                    0 <= k < self.ticks && #[trigger] delivery_time(course, k)
                        > self.horizon@ implies exists|i: int|
                    0 <= i < self.queue@.len() && #[trigger] self.queue@[i].seq == k by {
                    if k == n {
                        assert(self.queue@[at].seq == k);
                    } else {
                        let i = choose|i: int|
                            0 <= i < before.queue@.len() && #[trigger] before.queue@[i].seq == k;
                        if i < at {
                            assert(self.queue@[i].seq == k);
                        } else {
                            assert(self.queue@[i + 1].seq == k);
                        }
                    }
                }
            }
        }
    }

    /// Makes the points of every tick that has come due by `now`, and hands over every point whose
    /// delivery time has come, in order.
    pub fn step(&mut self, now: u64) -> (due: Vec<Sched>)
        requires
            old(self).well_formed(),
            old(self).horizon() <= now <= CLOCK_LIMIT,
        ensures
            final(self).well_formed(),
            final(self).course() == old(self).course(),
            final(self).horizon() == now,
            is_due_batch(old(self).course(), old(self).horizon(), now as int, due@),
            final(self).handed_over() == old(self).handed_over() + due@.len(),
            final(self).made() > 0 ==> tick_at(old(self).course(), final(self).made() - 1) <= now,
            tick_at(old(self).course(), final(self).made()) > now,
            queue_holds(
                old(self).course(),
                final(self).waiting(),
                final(self).made(),
                now as int,
            ),
            final(self).handed_over() + final(self).waiting().len() == final(self).made(),
    {
        self.make_due(now);
        let ghost course = self.course();
        let ghost after = self.horizon@;
        let ghost full = self.queue@;
        let due = take_front(&mut self.queue, now);
        proof {
            lemma_front_is_due(course, full, due@, self.queue@, after, now as int, self.ticks as int);
        }
        self.delivered = self.delivered + due.len() as u64;
        self.horizon = Ghost(now as int);
        due
    }

    /// How long to sleep: until the next tick or delivery, but never long.
    pub fn wait(&self, now: u64) -> (nanos: u64)
        requires
            self.well_formed(),
        ensures
            ({
                let next_tick = tick_at(self.course(), self.made());
                let next = if self.waiting().len() > 0 && self.waiting()[0].deliver_at < next_tick {
                    self.waiting()[0].deliver_at as int
                } else {
                    next_tick
                };
                nanos == if next <= now {
                    0
                } else if next - now < LONGEST_SLEEP {
                    next - now
                } else {
                    LONGEST_SLEEP as int
                }
            }),
    {
        let period: u64 = self.scenario.period();
        assert(self.ticks > 0 ==> self.ticks * period == (self.ticks - 1) * period + period)
            by (nonlinear_arith);
        let next_tick: u64 = self.start + self.ticks * period;
        let mut next: u64 = next_tick;
        if self.queue.len() > 0 && self.queue[0].deliver_at < next_tick {
            next = self.queue[0].deliver_at;
        }
        let left: u64 = next.saturating_sub(now);
        if left < LONGEST_SLEEP {
            left
        } else {
            LONGEST_SLEEP
        }
    }

    /// The line that reports the end of a run.
    pub fn stop_line(&self) -> (line: String)
        requires
            self.well_formed(),
        ensures
            line@ == "["@ + name_of(self.course().scenario) + "] stopped after "@ + decimal(
                self.handed_over() as nat,
            ) + " points ("@ + decimal(self.waiting().len()) + " still scheduled, discarded)"@,
    {
        let mut line = String::new();
        line.append("[");
        line.append(self.scenario.name());
        line.append("] stopped after ");
        push_decimal(&mut line, self.delivered);
        line.append(" points (");
        push_decimal(&mut line, self.queue.len() as u64);
        line.append(" still scheduled, discarded)");
        assert(line@ =~= "["@ + name_of(self.course().scenario) + "] stopped after "@ + decimal(
            self.handed_over() as nat,
        ) + " points ("@ + decimal(self.waiting().len()) + " still scheduled, discarded)"@);
        line
    }
}

proof fn lemma_later_tick(course: Course, n: int, k: int)
    ensures
        k >= n ==> tick_at(course, k) >= tick_at(course, n),
{
    let period = period_of(course.scenario) as int;
    if k >= n {
        assert(k * period >= n * period) by (nonlinear_arith)
            requires
                k >= n,
                period >= 0,
        ;
    }
}

/// Takes the points that are due out of the front of the queue.
fn take_front(queue: &mut Vec<Sched>, now: u64) -> (due: Vec<Sched>)
    ensures
        due@ + final(queue)@ == old(queue)@,
        forall|i: int| 0 <= i < due@.len() ==> (#[trigger] due@[i]).deliver_at <= now,
        final(queue)@.len() > 0 ==> final(queue)@[0].deliver_at > now,
{
    let mut due: Vec<Sched> = Vec::new();
    assert(due@ + queue@ =~= old(queue)@);
    while queue.len() > 0 && queue[0].deliver_at <= now
        invariant
            due@ + queue@ == old(queue)@,
            forall|i: int| 0 <= i < due@.len() ==> (#[trigger] due@[i]).deliver_at <= now,
        decreases queue@.len(),
    {
        let ghost before = due@ + queue@;
        let item: Sched = queue.remove(0);
        due.push(item);
        assert(due@ + queue@ =~= before);
    }
    due
}

proof fn lemma_front_is_due(
    course: Course,
    full: Seq<Sched>,
    front: Seq<Sched>,
    rest: Seq<Sched>,
    after: int,
    now: int,
    ticks: int,
)
    requires
        front + rest == full,
        queue_holds(course, full, ticks, after),
        after <= now,
        tick_at(course, ticks) > now,
        forall|i: int| 0 <= i < front.len() ==> (#[trigger] front[i]).deliver_at <= now,
        rest.len() > 0 ==> rest[0].deliver_at > now,
    ensures
        is_due_batch(course, after, now, front),
        queue_holds(course, rest, ticks, now),
        front.len() + rest.len() == full.len(),
{
    let taken = front.len() as int;
    assert forall|i: int| 0 <= i < front.len() implies front[i] == #[trigger] full[i] by {}
    assert forall|i: int| 0 <= i < rest.len() implies #[trigger] rest[i] == full[taken + i] by {}
    assert forall|i: int| 0 <= i < front.len() implies is_delivery(
        course,
        front[i].seq as int,
        #[trigger] front[i],
    ) && after < front[i].deliver_at <= now by {
        assert(front[i] == full[i]);
    }
    assert forall|i: int, j: int| 0 <= i < j < front.len() implies precedes(
        #[trigger] front[i],
        #[trigger] front[j],
    ) by {
        assert(front[i] == full[i] && front[j] == full[j]);
    }
    assert forall|i: int, j: int| 0 <= i < j < rest.len() implies precedes(
        #[trigger] rest[i],
        #[trigger] rest[j],
    ) by {
        assert(rest[i] == full[taken + i] && rest[j] == full[taken + j]);
    }
    assert forall|i: int| 0 <= i < rest.len() implies {
        &&& (#[trigger] rest[i]).seq < ticks
        &&& is_delivery(course, rest[i].seq as int, rest[i])
        &&& rest[i].deliver_at > now
    } by {
        assert(rest[i] == full[taken + i]);
        if i > 0 {
            assert(precedes(rest[0], rest[i]));
        }
    }
    assert forall|k: int|
        0 <= k < ticks && #[trigger] delivery_time(course, k) > now implies exists|i: int|
        0 <= i < rest.len() && #[trigger] rest[i].seq == k by {
        let i = choose|i: int| 0 <= i < full.len() && #[trigger] full[i].seq == k;
        assert(is_delivery(course, full[i].seq as int, full[i]));
        if i < taken {
            assert(front[i] == full[i]);
        }
        assert(rest[i - taken] == full[i]);
    }
    assert forall|k: int|
        0 <= k && after < #[trigger] delivery_time(course, k) <= now implies exists|i: int|
        0 <= i < front.len() && #[trigger] front[i].seq == k by {
        lemma_later_tick(course, ticks, k);
        assert(k < ticks);
        let i = choose|i: int| 0 <= i < full.len() && #[trigger] full[i].seq == k;
        assert(is_delivery(course, full[i].seq as int, full[i]));
        if i >= taken {
            assert(rest[i - taken] == full[i]);
        }
        assert(front[i] == full[i]);
    }
}

/// Puts `item` where it belongs in the queue.
fn insert_in_order(queue: &mut Vec<Sched>, item: Sched)
    requires
        in_order(old(queue)@),
        forall|i: int| 0 <= i < old(queue)@.len() ==> (#[trigger] old(queue)@[i]).seq != item.seq,
    ensures
        in_order(final(queue)@),
        exists|at: int|
            0 <= at <= old(queue)@.len() && final(queue)@ == old(queue)@.insert(at, item),
{
    let ghost before = queue@;
    let mut at: usize = queue.len();
    while at > 0 && item.comes_before(&queue[at - 1])
        invariant
            at <= queue.len(),
            queue@ == before,
            forall|i: int| at <= i < before.len() ==> precedes(item, #[trigger] before[i]),
        decreases at,
    {
        at = at - 1;
    }
    queue.insert(at, item);
    proof {
        assert(queue@ == before.insert(at as int, item));
        assert forall|i: int, j: int| 0 <= i < j < queue@.len() implies precedes(
            #[trigger] queue@[i],
            #[trigger] queue@[j],
        ) by {
            let left = if i < at {
                before[i]
            } else if i == at {
                item
            } else {
                before[i - 1]
            };
            let right = if j < at {
                before[j]
            } else if j == at {
                item
            } else {
                before[j - 1]
            };
            assert(queue@[i] == left && queue@[j] == right);
            if i < at && at > 0 {
                let edge = before[at - 1];
                assert(precedes(edge, item));
            }
        }
    }
}

} // verus!
