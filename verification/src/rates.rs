//! Send rates: a window of samples of the number of points sent, and the statistics that go to
//! the log.
use crate::double::double_rounded;
use crate::pipeline::push_pair;
use crate::quotient::{
    capped, floor_of, nearest_of, nothing_over_a_duration, quotient, seconds, whole, Positive,
};
use crate::samples::tag_texts;
use crate::text::{decimal, decimal_text, push_wide_decimal};
use std::collections::VecDeque;
use vstd::prelude::*;
use vstd::string::*;

verus! {

/// Samples older than this many nanoseconds are forgotten.
pub const SAMPLE_AGE: u64 = 61_000_000_000;

/// How often statistics go to the log, in nanoseconds.
pub const LOG_STATS_INTERVAL: u64 = 10_000_000_000;

/// Whether a sample taken at `t` is too old at `now`.
pub open spec fn is_stale(t: u64, now: u64) -> bool {
    now - t > SAMPLE_AGE
}

/// The samples without the stale ones in front.
pub open spec fn fresh(samples: Seq<(u64, u64)>, now: u64) -> Seq<(u64, u64)>
    decreases samples.len(),
{
    if samples.len() > 0 && is_stale(samples[0].0, now) {
        fresh(samples.skip(1), now)
    } else {
        samples
    }
}

/// Notes how many points have been sent by now, and forgets what is too old.
pub fn sample(samples: &mut VecDeque<(u64, u64)>, now: u64, sent: u64)
    ensures
        final(samples)@ == fresh(old(samples)@.push((now, sent)), now),
{
    samples.push_back((now, sent));
    let ghost goal = fresh(samples@, now);
    while samples.len() > 0 && now > samples[0].0 && now - samples[0].0 > SAMPLE_AGE
        invariant
            fresh(samples@, now) == goal,
        decreases samples.len(),
    {
        let ghost before = samples@;
        samples.pop_front();
        assert(samples@ =~= before.skip(1));
    }
}

/// The newest sample is always kept.
pub proof fn the_newest_sample_is_kept(samples: Seq<(u64, u64)>, now: u64, sent: u64)
    ensures
        fresh(samples.push((now, sent)), now).len() > 0,
        fresh(samples.push((now, sent)), now).last() == (now, sent),
    decreases samples.len(),
{
    let all = samples.push((now, sent));
    if samples.len() > 0 && is_stale(all[0].0, now) {
        assert(all.skip(1) =~= samples.skip(1).push((now, sent)));
        the_newest_sample_is_kept(samples.skip(1), now, sent);
    }
}

/// Samples of a growing clock that are kept are at most as old as allowed.
pub proof fn kept_samples_are_recent(samples: Seq<(u64, u64)>, now: u64, i: int)
    requires
        forall|a: int, b: int|
            0 <= a <= b < samples.len() ==> (#[trigger] samples[a]).0 <= (#[trigger] samples[b]).0,
        0 <= i < fresh(samples, now).len(),
    ensures
        !is_stale(fresh(samples, now)[i].0, now),
    decreases samples.len(),
{
    if samples.len() > 0 && is_stale(samples[0].0, now) {
        let rest = samples.skip(1);
        assert forall|a: int, b: int| 0 <= a <= b < rest.len() implies (#[trigger] rest[a]).0 <= (
        #[trigger] rest[b]).0 by {
            assert(rest[a] == samples[a + 1]);
            assert(rest[b] == samples[b + 1]);
        }
        kept_samples_are_recent(rest, now, i);
    } else {
        assert(samples[0].0 <= samples[i].0);
    }
}

/// A rate as points over nanoseconds. Without time it is zero.
#[derive(Clone, Copy, PartialEq, Eq, Structural, Debug)]
pub struct Rate {
    pub points: u64,
    pub nanos: u64,
}

/// The place of the first sample that is no older than `window` at the newest.
pub open spec fn window_start(samples: Seq<(u64, u64)>, window: u64, from: int) -> int
    recommends
        samples.len() > 0,
    decreases samples.len() - from,
{
    if from >= samples.len() - 1 || samples[from].0 + window >= samples.last().0 {
        from
    } else {
        window_start(samples, window, from + 1)
    }
}

/// The difference, or zero where it would be negative.
pub open spec fn difference(a: u64, b: u64) -> u64 {
    if a >= b {
        (a - b) as u64
    } else {
        0
    }
}

/// The rate between the newest sample and the first in the window.
pub open spec fn rate_in(samples: Seq<(u64, u64)>, window: u64) -> Rate {
    if samples.len() == 0 {
        Rate { points: 0, nanos: 0 }
    } else {
        let old = samples[window_start(samples, window, 0)];
        Rate {
            points: difference(samples.last().1, old.1),
            nanos: difference(samples.last().0, old.0),
        }
    }
}

/// The rate over a window that ends at the newest sample.
pub fn window_rate(samples: &VecDeque<(u64, u64)>, window: u64) -> (rate: Rate)
    ensures
        rate == rate_in(samples@, window),
{
    if samples.len() == 0 {
        return Rate { points: 0, nanos: 0 };
    }
    let last: usize = samples.len() - 1;
    let newest: (u64, u64) = samples[last];
    let mut i: usize = 0;
    while i < last && samples[i].0 < newest.0 && newest.0 - samples[i].0 > window
        invariant
            i <= last,
            last == samples@.len() - 1,
            newest == samples@.last(),
            window_start(samples@, window, 0) == window_start(samples@, window, i as int),
        decreases last - i,
    {
        i = i + 1;
    }
    let old: (u64, u64) = samples[i];
    assert(i == window_start(samples@, window, 0));
    Rate { points: newest.1.saturating_sub(old.1), nanos: newest.0.saturating_sub(old.0) }
}

/// Points per second as a double, in units of 2^-1074: the number of points over the seconds, both
/// brought to doubles. Without time it is zero.
pub open spec fn rate_units(points: nat, nanos: nat) -> nat {
    if nanos == 0 {
        0
    } else {
        quotient(whole(points), seconds(nanos))
    }
}

/// Whole points per second, and at most what fits.
pub open spec fn second_points(rate: Rate) -> nat {
    capped(floor_of(rate_units(rate.points as nat, rate.nanos as nat)), u64::MAX as nat)
}

/// Whole points per minute, and at most what fits: sixty times the points per second, brought to a
/// double again.
pub open spec fn minute_points(rate: Rate) -> nat {
    capped(
        floor_of(double_rounded(60 * rate_units(rate.points as nat, rate.nanos as nat))),
        u64::MAX as nat,
    )
}

/// Points per second as a double, or nothing where it is zero.
fn divided(points: u64, nanos: u64) -> (rate: Option<Positive>)
    ensures
        match rate {
            Some(double) => {
                &&& double.well_formed()
                &&& 200 <= double.exponent <= 1144
                &&& double@ == rate_units(points as nat, nanos as nat)
            },
            None => rate_units(points as nat, nanos as nat) == 0,
        },
{
    if nanos == 0 {
        return None;
    }
    if points == 0 {
        proof {
            nothing_over_a_duration(nanos as nat);
        }
        return None;
    }
    let time = Positive::seconds(nanos);
    Some(Positive::whole(points).over(&time))
}

impl Rate {
    /// Whole points per second.
    pub fn per_second(&self) -> (points: u64)
        ensures
            points == second_points(*self),
    {
        match divided(self.points, self.nanos) {
            Some(rate) => rate.floor(),
            None => {
                proof {
                    vstd::arithmetic::power2::lemma_pow2_pos(1074);
                }
                0
            },
        }
    }

    /// Whole points per minute.
    pub fn per_minute(&self) -> (points: u64)
        ensures
            points == minute_points(*self),
    {
        match divided(self.points, self.nanos) {
            Some(rate) => rate.sixtyfold().floor(),
            None => {
                proof {
                    vstd::arithmetic::power2::lemma_pow2_pos(1074);
                    crate::binary::lemma_whole_is_kept(0);
                }
                0
            },
        }
    }
}

/// The window starts within it, unless only the newest sample is left.
pub proof fn windows_start_within(samples: Seq<(u64, u64)>, window: u64, from: int)
    requires
        0 <= from < samples.len(),
    ensures
        from <= window_start(samples, window, from) < samples.len(),
        samples[window_start(samples, window, from)].0 + window >= samples.last().0,
        forall|j: int|
            from <= j < window_start(samples, window, from) ==> (#[trigger] samples[j]).0 + window
                < samples.last().0,
    decreases samples.len() - from,
{
    if !(from >= samples.len() - 1 || samples[from].0 + window >= samples.last().0) {
        windows_start_within(samples, window, from + 1);
    }
}

/// A message for the log channel, with its details.
#[derive(Debug)]
pub struct LogLine {
    pub message: String,
    pub args: Vec<(String, String)>,
}

/// A message for the log channel, with texts as characters.
pub struct LogLineTree {
    pub message: Seq<char>,
    pub args: Seq<(Seq<char>, Seq<char>)>,
}

impl View for LogLine {
    type V = LogLineTree;

    open spec fn view(&self) -> LogLineTree {
        LogLineTree { message: self.message@, args: tag_texts(self.args@) }
    }
}

/// What the log has seen at its last statistics.
#[derive(Clone, Copy, PartialEq, Eq, Structural, Debug)]
pub struct LogStats {
    pub last_sent: u64,
    pub last_time: u64,
}

/// The counters that statistics speak of.
#[derive(Clone, Copy, PartialEq, Eq, Structural, Debug)]
pub struct Counters {
    pub sent: u64,
    pub enqueued: u64,
    pub failed: u64,
}

/// Points per second since the last statistics, rounded to the nearest whole number and to the
/// even one half way.
pub open spec fn rounded_rate(stats: LogStats, sent: u64, now: u64) -> nat {
    nearest_of(
        rate_units(
            difference(sent, stats.last_sent) as nat,
            difference(now, stats.last_time) as nat,
        ),
    )
}

/// The line of an event.
pub open spec fn event_line(message: Seq<char>, batch: Seq<char>) -> LogLineTree {
    LogLineTree { message, args: seq![("batch"@, batch)] }
}

/// The last line of a session.
pub open spec fn closing_line(batch: Seq<char>, sent: u64) -> LogLineTree {
    LogLineTree {
        message: "stream stopped"@,
        args: seq![("batch"@, batch), ("points_sent"@, decimal(sent as nat))],
    }
}

/// The line of statistics.
pub open spec fn stats_line(
    stats: LogStats,
    batch: Seq<char>,
    sats: u32,
    counters: Counters,
    now: u64,
) -> LogLineTree {
    let rate = decimal(rounded_rate(stats, counters.sent, now));
    LogLineTree {
        message: "stats batch="@ + batch + " sats="@ + decimal(sats as nat) + " sent="@ + decimal(
            counters.sent as nat,
        ) + " enqueued="@ + decimal(counters.enqueued as nat) + " failed="@ + decimal(
            counters.failed as nat,
        ) + " rate="@ + rate + "pts/s"@,
        args: seq![
            ("batch"@, batch),
            ("sats"@, decimal(sats as nat)),
            ("points_sent"@, decimal(counters.sent as nat)),
            ("points_enqueued"@, decimal(counters.enqueued as nat)),
            ("points_failed"@, decimal(counters.failed as nat)),
            ("rate_pts_per_sec"@, rate),
        ],
    }
}

/// The line of an event.
fn log_event(message: String, batch: &str) -> (line: LogLine)
    ensures
        line@ == event_line(message@, batch@),
{
    let mut args: Vec<(String, String)> = Vec::new();
    assert(tag_texts(args@) =~= Seq::empty());
    push_pair(&mut args, "batch", batch.to_owned());
    let line = LogLine { message, args };
    assert(line@.args =~= seq![("batch"@, batch@)]);
    line
}

/// The last line of a session.
fn log_shutdown(batch: &str, sent: u64) -> (line: LogLine)
    ensures
        line@ == closing_line(batch@, sent),
{
    let mut args: Vec<(String, String)> = Vec::new();
    assert(tag_texts(args@) =~= Seq::empty());
    push_pair(&mut args, "batch", batch.to_owned());
    push_pair(&mut args, "points_sent", decimal_text(sent));
    let line = LogLine { message: "stream stopped".to_owned(), args };
    assert(line@.args =~= closing_line(batch@, sent).args);
    line
}

impl LogStats {
    /// Nothing seen yet.
    pub fn new(now: u64) -> (stats: LogStats)
        ensures
            stats == (LogStats { last_sent: 0, last_time: now }),
    {
        LogStats { last_sent: 0, last_time: now }
    }

    /// The line of statistics, and what it has seen is noted.
    fn log_timeout(&mut self, batch: &str, sats: u32, counters: &Counters, now: u64) -> (line:
        LogLine)
        ensures
            line@ == stats_line(*old(self), batch@, sats, *counters, now),
            *final(self) == (LogStats { last_sent: counters.sent, last_time: now }),
    {
        let ghost goal = stats_line(*self, batch@, sats, *counters, now);
        let nanos: u64 = now.saturating_sub(self.last_time);
        let points: u64 = counters.sent.saturating_sub(self.last_sent);
        let rate: u128 = match divided(points, nanos) {
            Some(double) => double.nearest(),
            None => {
                proof {
                    vstd::arithmetic::power2::lemma_pow2_pos(1074);
                }
                0
            },
        };
        self.last_sent = counters.sent;
        self.last_time = now;
        let count = decimal_text(sats as u64);
        let sent = decimal_text(counters.sent);
        let enqueued = decimal_text(counters.enqueued);
        let failed = decimal_text(counters.failed);
        let mut pace = String::new();
        push_wide_decimal(&mut pace, rate);
        assert(pace@ =~= decimal(rate as nat));
        let mut message = "stats batch=".to_owned();
        message.append(batch);
        message.append(" sats=");
        message.append(count.as_str());
        message.append(" sent=");
        message.append(sent.as_str());
        message.append(" enqueued=");
        message.append(enqueued.as_str());
        message.append(" failed=");
        message.append(failed.as_str());
        message.append(" rate=");
        message.append(pace.as_str());
        message.append("pts/s");
        let mut args: Vec<(String, String)> = Vec::new();
        assert(tag_texts(args@) =~= Seq::empty());
        push_pair(&mut args, "batch", batch.to_owned());
        push_pair(&mut args, "sats", count);
        push_pair(&mut args, "points_sent", sent);
        push_pair(&mut args, "points_enqueued", enqueued);
        push_pair(&mut args, "points_failed", failed);
        push_pair(&mut args, "rate_pts_per_sec", pace);
        let line = LogLine { message, args };
        assert(line@.message =~= goal.message);
        assert(line@.args =~= goal.args);
        line
    }
}

/// What the log of a session waits for: an event, its end, or the time for statistics.
#[derive(Debug)]
pub enum LogMsg {
    Event(String),
    Shutdown,
    Timeout,
}

/// What the log of a session waits for, with texts as characters.
pub enum LogMsgTree {
    Event(Seq<char>),
    Shutdown,
    Timeout,
}

impl View for LogMsg {
    type V = LogMsgTree;

    open spec fn view(&self) -> LogMsgTree {
        match *self {
            LogMsg::Event(message) => LogMsgTree::Event(message@),
            LogMsg::Shutdown => LogMsgTree::Shutdown,
            LogMsg::Timeout => LogMsgTree::Timeout,
        }
    }
}

/// The line that the log writes for a message.
pub open spec fn line_for(
    stats: LogStats,
    message: LogMsgTree,
    batch: Seq<char>,
    sats: u32,
    counters: Counters,
    now: u64,
) -> LogLineTree {
    match message {
        LogMsgTree::Event(text) => event_line(text, batch),
        LogMsgTree::Shutdown => closing_line(batch, counters.sent),
        LogMsgTree::Timeout => stats_line(stats, batch, sats, counters, now),
    }
}

/// How long it is until the next statistics are due, in nanoseconds.
pub open spec fn due_in(stats: LogStats, now: u64) -> int {
    if stats.last_time + LOG_STATS_INTERVAL <= now {
        0
    } else if now >= stats.last_time {
        stats.last_time + LOG_STATS_INTERVAL - now
    } else {
        LOG_STATS_INTERVAL as int
    }
}

/// Events and the time that passes do not put statistics off: they stay due one interval after the
/// last ones.
pub proof fn events_do_not_put_off_statistics(stats: LogStats, now: u64, later: u64)
    requires
        stats.last_time <= now <= later <= stats.last_time + LOG_STATS_INTERVAL,
    ensures
        now + due_in(stats, now) == stats.last_time + LOG_STATS_INTERVAL,
        later + due_in(stats, later) == now + due_in(stats, now),
{
}

impl LogStats {
    /// How long to wait for a message before statistics are due, in nanoseconds.
    pub fn wait(&self, now: u64) -> (nanos: u64)
        ensures
            nanos == due_in(*self, now),
    {
        let passed: u64 = now.saturating_sub(self.last_time);
        LOG_STATS_INTERVAL.saturating_sub(passed)
    }

    /// Writes the line for a message. Only statistics are noted; the end of the session is the last
    /// line.
    pub fn log_step(
        &mut self,
        message: LogMsg,
        batch: &str,
        sats: u32,
        counters: &Counters,
        now: u64,
    ) -> (step: (LogLine, bool))
        ensures
            step.0@ == line_for(*old(self), message@, batch@, sats, *counters, now),
            step.1 == (message is Shutdown),
            *final(self) == if message is Timeout {
                LogStats { last_sent: counters.sent, last_time: now }
            } else {
                *old(self)
            },
    {
        match message {
            LogMsg::Event(text) => (log_event(text, batch), false),
            LogMsg::Shutdown => (log_shutdown(batch, counters.sent), true),
            LogMsg::Timeout => (self.log_timeout(batch, sats, counters, now), false),
        }
    }
}

} // verus!
