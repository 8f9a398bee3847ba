//! The texts that the terminal application shows.
use crate::config::{FleetConfig, GroundStationConfig, Preset, PresetTree};
use crate::double::product_floor;
use crate::engine::{backlog_of, EngineStats, CHANNEL_COUNT};
use crate::provision::ProvisionProgress;
use crate::rates::{minute_points, rate_in, second_points, window_rate, Rate};
use crate::text::{
    decimal, decimal_holds_digits, decimal_text, digit_char, padded_left, padded_right,
    push_decimal, push_padded_left, push_padded_right, push_zero_padded, zero_padded,
};
use crate::tui::{RunInfo, RunInfoTree, Screen, Session, SessionTree};
use std::collections::VecDeque;
use vstd::prelude::*;
use vstd::string::*;

verus! {

/// The short window over which the send rate is shown, in nanoseconds.
pub const SHORT_WINDOW: u64 = 5_000_000_000;

/// The long window over which the send rate is shown, in nanoseconds.
pub const LONG_WINDOW: u64 = 60_000_000_000;

/// The decimal rendering with a comma before every group of three digits.
pub open spec fn grouped(n: nat) -> Seq<char>
    decreases n,
{
    if n < 1000 {
        decimal(n)
    } else {
        grouped(n / 1000) + ","@ + zero_padded(n % 1000, 3)
    }
}

/// Hours, minutes and seconds, each at least two digits wide.
pub open spec fn clock_text(secs: nat) -> Seq<char> {
    zero_padded(secs / 3600, 2) + ":"@ + zero_padded((secs % 3600) / 60, 2) + ":"@ + zero_padded(
        secs % 60,
        2,
    )
}

fn push_grouped(out: &mut String, value: u64)
    ensures
        final(out)@ == old(out)@ + grouped(value as nat),
    decreases value,
{
    if value < 1000 {
        push_decimal(out, value);
    } else {
        push_grouped(out, value / 1000);
        out.append(",");
        push_zero_padded(out, value % 1000, 3);
        assert(out@ =~= old(out)@ + grouped(value as nat));
    }
}

/// The number with a comma before every group of three digits.
pub fn group_thousands(value: u64) -> (text: String)
    ensures
        text@ == grouped(value as nat),
{
    let mut text = String::new();
    push_grouped(&mut text, value);
    assert(text@ =~= grouped(value as nat));
    text
}

/// A duration as hours, minutes and seconds.
pub fn format_duration(secs: u64) -> (text: String)
    ensures
        text@ == clock_text(secs as nat),
{
    let mut text = String::new();
    push_zero_padded(&mut text, secs / 3600, 2);
    text.append(":");
    push_zero_padded(&mut text, (secs % 3600) / 60, 2);
    text.append(":");
    push_zero_padded(&mut text, secs % 60, 2);
    assert(text@ =~= clock_text(secs as nat));
    text
}

/// The label of a line of a panel.
pub open spec fn panel_label(key: Seq<char>) -> Seq<char> {
    padded_left(key, 18, ' ') + "  "@
}

/// The label of a line of a panel.
pub fn kv_label(key: &str) -> (label: String)
    ensures
        label@ == panel_label(key@),
{
    let mut label = String::new();
    push_padded_left(&mut label, key, 18, ' ');
    label.append("  ");
    assert(label@ =~= panel_label(key@));
    label
}

/// The lines of a panel: labels with their values.
pub open spec fn line_texts(lines: Seq<(&'static str, String)>) -> Seq<(Seq<char>, Seq<char>)> {
    lines.map_values(|l: (&'static str, String)| (l.0@, l.1@))
}

fn push_line(lines: &mut Vec<(&'static str, String)>, key: &'static str, value: String)
    ensures
        line_texts(final(lines)@) == line_texts(old(lines)@).push((key@, value@)),
{
    let ghost before = line_texts(lines@);
    lines.push((key, value));
    assert(line_texts(lines@) =~= before.push((key@, value@)));
}

/// The line of a preset in the selection.
pub open spec fn select_text(preset: PresetTree, points: nat) -> Seq<char> {
    padded_right(preset.name, 14) + " "@ + padded_left(decimal(preset.count as nat), 6, ' ')
        + " sats @ "@ + padded_left(preset.rate_hz.tenths, 5, ' ') + " Hz  ≈ "@ + padded_left(
        grouped(points),
        9,
        ' ',
    ) + " pts/s   label: "@ + preset.label
}

/// The points per second that a preset aims at.
pub open spec fn target_of(preset: PresetTree) -> nat {
    product_floor(preset.count as nat * CHANNEL_COUNT as nat, preset.rate_hz.bits)
}

/// The line of a preset in the selection.
pub fn select_line(preset: &Preset) -> (line: String)
    ensures
        line@ == select_text(preset@, target_of(preset@)),
{
    let mut line = String::new();
    push_padded_right(&mut line, preset.name.as_str(), 14);
    line.append(" ");
    let count = decimal_text(preset.count as u64);
    push_padded_left(&mut line, count.as_str(), 6, ' ');
    line.append(" sats @ ");
    push_padded_left(&mut line, preset.rate_hz.tenths.as_str(), 5, ' ');
    line.append(" Hz  ≈ ");
    let points = group_thousands(preset.points_per_sec());
    push_padded_left(&mut line, points.as_str(), 9, ' ');
    line.append(" pts/s   label: ");
    line.append(preset.label.as_str());
    assert(line@ =~= select_text(preset@, target_of(preset@)));
    line
}

/// The title of the selection.
pub fn select_title(debug_rate: bool) -> (title: &'static str)
    ensures
        title@ == if debug_rate {
            " sat-fleet — select batch preset [DEBUG: 1 Hz] "@
        } else {
            " sat-fleet — select batch preset "@
        },
{
    if debug_rate {
        " sat-fleet — select batch preset [DEBUG: 1 Hz] "
    } else {
        " sat-fleet — select batch preset "
    }
}

/// The title while a batch is provisioned.
pub fn provision_title(name: &str) -> (title: String)
    ensures
        title@ == " provisioning assets — "@ + name@ + " "@,
{
    let mut title = " provisioning assets — ".to_owned();
    title.append(name);
    title.append(" ");
    title
}

/// How far provisioning has come.
pub open spec fn progress_text(progress: Option<ProvisionProgress>) -> Seq<char> {
    match progress {
        Some(p) => "total "@ + decimal(p.total as nat) + " · existing "@ + decimal(
            p.existing as nat,
        ) + " · created "@ + decimal(p.created as nat) + " · failed "@ + decimal(p.failed as nat),
        None => "searching for existing batch assets…"@,
    }
}

/// How far provisioning has come.
pub fn progress_label(progress: &Option<ProvisionProgress>) -> (label: String)
    ensures
        label@ == progress_text(*progress),
{
    match progress {
        Some(p) => {
            let mut label = "total ".to_owned();
            push_decimal(&mut label, p.total as u64);
            label.append(" · existing ");
            push_decimal(&mut label, p.existing as u64);
            label.append(" · created ");
            push_decimal(&mut label, p.created as u64);
            label.append(" · failed ");
            push_decimal(&mut label, p.failed as u64);
            label
        },
        None => "searching for existing batch assets…".to_owned(),
    }
}

/// How much of the assets is settled, as a part and the whole. The part is at most the whole, and
/// of nothing everything is settled.
pub open spec fn settled_share(progress: Option<ProvisionProgress>) -> (int, int) {
    match progress {
        Some(p) => if p.total == 0 {
            (1, 1)
        } else if p.existing + p.created + p.failed <= p.total {
            (p.existing + p.created + p.failed, p.total as int)
        } else {
            (p.total as int, p.total as int)
        },
        None => (0, 1),
    }
}

/// How much of the assets is settled, as a part and the whole.
pub fn progress_ratio(progress: &Option<ProvisionProgress>) -> (share: (usize, usize))
    ensures
        (share.0 as int, share.1 as int) == settled_share(*progress),
        share.0 <= share.1,
        share.1 > 0,
{
    match progress {
        Some(p) => {
            if p.total == 0 {
                (1, 1)
            } else {
                let done: u128 = p.existing as u128 + p.created as u128 + p.failed as u128;
                if done <= p.total as u128 {
                    (done as usize, p.total)
                } else {
                    (p.total, p.total)
                }
            }
        },
        None => (0, 1),
    }
}

/// The batch as the session panel names it.
pub open spec fn batch_text(session: SessionTree) -> Seq<char> {
    if session.debug {
        session.preset.name + " [debug: rate forced to 1 Hz]"@
    } else {
        session.preset.name
    }
}

/// The satellites as the session panel counts them.
pub open spec fn satellites_text(preset: PresetTree) -> Seq<char> {
    decimal(preset.count as nat) + " @ "@ + preset.rate_hz.text + " Hz · "@ + decimal(
        CHANNEL_COUNT as nat,
    ) + " channels · ≈"@ + grouped(target_of(preset)) + " pts/s target"@
}

/// The run as the session panel names it.
pub open spec fn run_text(run: Option<RunInfoTree>, started: Seq<char>) -> Seq<char> {
    match run {
        Some(r) => r.title + " (started "@ + started + ")"@,
        None => "—"@,
    }
}

/// The run's identifier as the session panel shows it.
pub open spec fn rid_text(run: Option<RunInfoTree>) -> Seq<char> {
    match run {
        Some(r) => r.rid,
        None => "—"@,
    }
}

/// The run's status as the session panel shows it.
pub open spec fn run_status(session: SessionTree, screen: Screen) -> Seq<char> {
    if session.cutover_pending {
        "cutting over to a new run…"@
    } else if screen == Screen::Stopping {
        "stopping…"@
    } else {
        "live"@
    }
}

/// The name of the ground station, or `none`.
pub open spec fn station_text(station: Option<GroundStationConfig>) -> Seq<char> {
    match station {
        Some(g) => g.name@,
        None => "none"@,
    }
}

/// The session panel.
pub open spec fn session_panel(
    session: SessionTree,
    screen: Screen,
    common_label: Seq<char>,
    station: Option<GroundStationConfig>,
    dataset: Seq<char>,
    started: Seq<char>,
) -> Seq<(Seq<char>, Seq<char>)> {
    seq![
        ("batch"@, batch_text(session)),
        ("satellites"@, satellites_text(session.preset)),
        ("labels"@, common_label + " · "@ + session.preset.label),
        ("dataset"@, dataset),
        ("ground station"@, station_text(station)),
        ("run"@, run_text(session.run, started)),
        ("run rid"@, rid_text(session.run)),
        ("run status"@, run_status(session, screen)),
    ]
}

fn write_batch(session: &Session) -> (text: String)
    ensures
        text@ == batch_text(session@),
{
    let mut text = session.preset.name.clone();
    if session.debug {
        text.append(" [debug: rate forced to 1 Hz]");
    }
    text
}

fn write_satellites(preset: &Preset) -> (text: String)
    ensures
        text@ == satellites_text(preset@),
{
    let mut text = decimal_text(preset.count as u64);
    text.append(" @ ");
    text.append(preset.rate_hz.text.as_str());
    text.append(" Hz · ");
    push_decimal(&mut text, CHANNEL_COUNT);
    text.append(" channels · ≈");
    let points = group_thousands(preset.points_per_sec());
    text.append(points.as_str());
    text.append(" pts/s target");
    text
}

fn write_run(run: &Option<RunInfo>, started: &str) -> (text: String)
    ensures
        text@ == run_text(crate::tui::optional_run(*run), started@),
{
    match run {
        Some(r) => {
            let mut text = r.title.clone();
            text.append(" (started ");
            text.append(started);
            text.append(")");
            text
        },
        None => "—".to_owned(),
    }
}

/// The lines of the session panel. `started` is the local time at which the run began.
pub fn session_lines(
    session: &Session,
    screen: Screen,
    fleet: &FleetConfig,
    dataset: &str,
    started: &str,
) -> (lines: Vec<(&'static str, String)>)
    ensures
        line_texts(lines@) == session_panel(
            session@,
            screen,
            fleet.common_label@,
            fleet.ground_station,
            dataset@,
            started@,
        ),
{
    let mut labels = fleet.common_label.clone();
    labels.append(" · ");
    labels.append(session.preset.label.as_str());
    let station = match &fleet.ground_station {
        Some(g) => g.name.clone(),
        None => "none".to_owned(),
    };
    let rid = match &session.run {
        Some(r) => r.rid.clone(),
        None => "—".to_owned(),
    };
    let status: &str = if session.cutover_pending {
        "cutting over to a new run…"
    } else if screen == Screen::Stopping {
        "stopping…"
    } else {
        "live"
    };
    let mut lines: Vec<(&'static str, String)> = Vec::new();
    assert(line_texts(lines@) =~= Seq::empty());
    push_line(&mut lines, "batch", write_batch(session));
    push_line(&mut lines, "satellites", write_satellites(&session.preset));
    push_line(&mut lines, "labels", labels);
    push_line(&mut lines, "dataset", dataset.to_owned());
    push_line(&mut lines, "ground station", station);
    push_line(&mut lines, "run", write_run(&session.run, started));
    push_line(&mut lines, "run rid", rid);
    push_line(&mut lines, "run status", status.to_owned());
    assert(line_texts(lines@) =~= session_panel(
        session@,
        screen,
        fleet.common_label@,
        fleet.ground_station,
        dataset@,
        started@,
    ));
    lines
}

/// The send rates as the statistics panel shows them.
pub open spec fn rates_text(short: Rate, long: Rate) -> Seq<char> {
    grouped(second_points(short)) + "/s (5s avg) · "@ + grouped(minute_points(long))
        + "/min (60s avg)"@
}

/// The failures as the statistics panel counts them.
pub open spec fn failures_text(stats: EngineStats) -> Seq<char> {
    grouped(stats.failed_points as nat) + " points across "@ + decimal(
        stats.failed_requests as nat,
    ) + " requests · "@ + decimal(stats.log_failures as nat) + " log writes"@
}

/// The ticks as the statistics panel counts them.
pub open spec fn ticks_text(stats: EngineStats) -> Seq<char> {
    grouped(stats.ticks as nat) + " ("@ + decimal(stats.skipped_ticks as nat) + " skipped)"@
}

/// The statistics panel.
pub open spec fn stats_panel(
    stats: EngineStats,
    samples: Seq<(u64, u64)>,
    uptime_secs: u64,
) -> Seq<(Seq<char>, Seq<char>)> {
    seq![
        ("uptime"@, clock_text(uptime_secs as nat)),
        ("points sent"@, grouped(stats.sent as nat)),
        ("points enqueued"@, grouped(stats.enqueued as nat)),
        (
            "send rate"@,
            rates_text(rate_in(samples, SHORT_WINDOW), rate_in(samples, LONG_WINDOW)),
        ),
        ("backlog (buffered)"@, grouped(backlog_of(stats))),
        ("failures"@, failures_text(stats)),
        ("ticks"@, ticks_text(stats)),
    ]
}

fn write_rates(short: &Rate, long: &Rate) -> (text: String)
    ensures
        text@ == rates_text(*short, *long),
{
    let mut text = group_thousands(short.per_second());
    text.append("/s (5s avg) · ");
    let minute = group_thousands(long.per_minute());
    text.append(minute.as_str());
    text.append("/min (60s avg)");
    text
}

fn write_failures(stats: &EngineStats) -> (text: String)
    ensures
        text@ == failures_text(*stats),
{
    let mut text = group_thousands(stats.failed_points);
    text.append(" points across ");
    push_decimal(&mut text, stats.failed_requests);
    text.append(" requests · ");
    push_decimal(&mut text, stats.log_failures);
    text.append(" log writes");
    text
}

fn write_ticks(stats: &EngineStats) -> (text: String)
    ensures
        text@ == ticks_text(*stats),
{
    let mut text = group_thousands(stats.ticks);
    text.append(" (");
    push_decimal(&mut text, stats.skipped_ticks);
    text.append(" skipped)");
    text
}

/// The lines of the statistics panel.
pub fn stats_lines(
    stats: &EngineStats,
    samples: &VecDeque<(u64, u64)>,
    uptime_secs: u64,
) -> (lines: Vec<(&'static str, String)>)
    ensures
        line_texts(lines@) == stats_panel(*stats, samples@, uptime_secs),
{
    let short = window_rate(samples, SHORT_WINDOW);
    let long = window_rate(samples, LONG_WINDOW);
    let mut lines: Vec<(&'static str, String)> = Vec::new();
    assert(line_texts(lines@) =~= Seq::empty());
    push_line(&mut lines, "uptime", format_duration(uptime_secs));
    push_line(&mut lines, "points sent", group_thousands(stats.sent));
    push_line(&mut lines, "points enqueued", group_thousands(stats.enqueued));
    push_line(&mut lines, "send rate", write_rates(&short, &long));
    push_line(&mut lines, "backlog (buffered)", group_thousands(stats.backlog()));
    push_line(&mut lines, "failures", write_failures(stats));
    push_line(&mut lines, "ticks", write_ticks(stats));
    assert(line_texts(lines@) =~= stats_panel(*stats, samples@, uptime_secs));
    lines
}

/// The characters of a text that are not commas.
pub open spec fn without_commas(text: Seq<char>) -> Seq<char> {
    text.filter(not_comma())
}

/// Whether a character is not a comma.
pub open spec fn not_comma() -> spec_fn(char) -> bool {
    |c: char| c != ','
}

/// Three digits are the rest of a number by a thousand.
proof fn lemma_three_digits(n: nat)
    requires
        n >= 1000,
    ensures
        decimal(n) == decimal(n / 1000) + zero_padded(n % 1000, 3),
{
    let m = n % 1000;
    let d0 = digit_char(n % 10);
    let d1 = digit_char((n / 10) % 10);
    let d2 = digit_char((n / 100) % 10);
    assert(decimal(n) == decimal(n / 10).push(d0));
    assert(decimal(n / 10) == decimal(n / 100).push(d1)) by {
        assert((n / 10) / 10 == n / 100);
    }
    assert(decimal(n / 100) == decimal(n / 1000).push(d2)) by {
        assert((n / 100) / 10 == n / 1000);
    }
    assert(n % 10 == m % 10);
    assert((n / 10) % 10 == (m / 10) % 10);
    assert((n / 100) % 10 == m / 100);
    let padded = zero_padded(m, 3);
    if m < 10 {
        assert(decimal(m) =~= seq![d0]);
    } else if m < 100 {
        assert(decimal(m / 10) =~= seq![d1]);
        assert(decimal(m) =~= seq![d1, d0]);
    } else {
        assert((m / 10) / 10 == m / 100);
        assert(decimal(m / 100) =~= seq![d2]);
        assert(decimal(m / 10) =~= seq![d2, d1]);
        assert(decimal(m) =~= seq![d2, d1, d0]);
    }
    assert(padded =~= seq![d2, d1, d0]);
    assert(decimal(n) =~= decimal(n / 1000) + padded);
}

proof fn lemma_no_commas(text: Seq<char>)
    requires
        forall|i: int| 0 <= i < text.len() ==> #[trigger] text[i] != ',',
    ensures
        without_commas(text) == text,
    decreases text.len(),
{
    reveal(Seq::filter);
    if text.len() > 0 {
        assert forall|i: int| 0 <= i < text.drop_last().len() implies #[trigger] text.drop_last()[i]
            != ',' by {
            assert(text.drop_last()[i] == text[i]);
        }
        lemma_no_commas(text.drop_last());
        assert(text.last() != ',');
        assert(text.drop_last().push(text.last()) =~= text);
    }
}

/// Grouping only adds commas: without them the number's decimal rendering is left.
pub proof fn grouping_only_adds_commas(n: nat)
    ensures
        without_commas(grouped(n)) == decimal(n),
    decreases n,
{
    if n < 1000 {
        assert forall|i: int| 0 <= i < decimal(n).len() implies #[trigger] decimal(n)[i] != ',' by {
            decimal_holds_digits(n, i);
        }
        lemma_no_commas(decimal(n));
    } else {
        let head = grouped(n / 1000);
        let tail = zero_padded(n % 1000, 3);
        let keep = not_comma();
        grouping_only_adds_commas(n / 1000);
        lemma_three_digits(n);
        assert forall|i: int| 0 <= i < tail.len() implies #[trigger] tail[i] != ',' by {
            let at = decimal(n / 1000).len() + i;
            assert(decimal(n)[at as int] == tail[i]);
            decimal_holds_digits(n, at as int);
        }
        lemma_no_commas(tail);
        assert(without_commas(","@) =~= Seq::empty()) by {
            reveal_strlit(",");
            reveal(Seq::filter);
            assert(","@.drop_last() =~= Seq::empty());
            assert(","@.drop_last().filter(keep) =~= Seq::empty());
        }
        Seq::filter_distributes_over_add(head + ","@, tail, keep);
        Seq::filter_distributes_over_add(head, ","@, keep);
        assert(without_commas(grouped(n)) =~= decimal(n));
    }
}

} // verus!
