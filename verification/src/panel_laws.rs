//! What the terminal application shows: numbers that can be read, and lines that name what they
//! hold.
use crate::config::{FleetConfig, Preset};
use crate::double::product_floor;
use crate::engine::EngineStats;
use crate::panels::{
    clock_text, format_duration, group_thousands, grouped, kv_label, line_texts, progress_label,
    progress_ratio, provision_title, select_line, select_title, session_lines, stats_lines,
};
use crate::provision::ProvisionProgress;
use crate::rates::{minute_points, rate_in, second_points};
use crate::text::{decimal, decimal_holds_digits, joined, padded_left, padded_right, zero_padded};
use crate::tui::{Screen, Session};
use std::collections::VecDeque;
use vstd::prelude::*;
use vstd::string::*;

verus! {

/// A text filled up to a width is at least as wide and no wider than it must be. On the left it is
/// filled with the character given, on the right with spaces, and the text itself stays whole.
pub proof fn padding_keeps_the_text(text: Seq<char>, width: nat, fill: char, i: int)
    ensures
        ({
            let left = padded_left(text, width, fill);
            let right = padded_right(text, width);
            let len = if text.len() < width {
                width
            } else {
                text.len()
            };
            &&& left.len() == len
            &&& right.len() == len
            &&& left.skip(len - text.len()) == text
            &&& right.take(text.len() as int) == text
            &&& 0 <= i < len - text.len() ==> left[i] == fill
            &&& text.len() <= i < len ==> right[i] == ' '
        }),
{
    let left = padded_left(text, width, fill);
    assert(left.skip(left.len() - text.len()) =~= text);
    assert(padded_right(text, width).take(text.len() as int) =~= text);
}

/// Joined parts stand one after the other, with the separator between neighbours and nowhere else.
pub proof fn joining_separates_neighbours(
    parts: Seq<Seq<char>>,
    part: Seq<char>,
    separator: Seq<char>,
)
    ensures
        joined(Seq::empty(), separator).len() == 0,
        joined(seq![part], separator) == part,
        parts.len() > 0 ==> joined(parts.push(part), separator) == joined(parts, separator)
            + separator + part,
{
    assert(parts.push(part).drop_last() =~= parts);
}

proof fn lemma_decimal_width(n: nat)
    ensures
        n < 10 ==> decimal(n).len() == 1,
        10 <= n < 100 ==> decimal(n).len() == 2,
        100 <= n < 1000 ==> decimal(n).len() == 3,
{
    reveal_with_fuel(decimal, 3);
}

/// A grouped number has a comma in every fourth place from the right, and nowhere else.
pub proof fn groups_have_three_digits(n: nat, j: int)
    requires
        0 <= j < grouped(n).len(),
    ensures
        grouped(n)[grouped(n).len() - 1 - j] == ',' <==> j % 4 == 3,
    decreases n,
{
    if n < 1000 {
        lemma_decimal_width(n);
        decimal_holds_digits(n, decimal(n).len() - 1 - j);
    } else {
        reveal_strlit(",");
        let head = grouped(n / 1000);
        let tail = zero_padded(n % 1000, 3);
        let whole = grouped(n);
        lemma_decimal_width(n % 1000);
        padding_keeps_the_text(decimal(n % 1000), 3, '0', 0);
        assert(tail.len() == 3);
        assert(whole.len() == head.len() + 4);
        let at = whole.len() - 1 - j;
        if j < 3 {
            let t = at - head.len() - 1;
            assert(whole[at] == tail[t]);
            let digits = decimal(n % 1000);
            let fill = 3 - digits.len();
            if t < fill {
                padding_keeps_the_text(digits, 3, '0', t);
            } else {
                decimal_holds_digits(n % 1000, t - fill);
                assert(tail[t] == digits[t - fill]);
            }
        } else if j == 3 {
            assert(whole[at] == ","@[0]);
        } else {
            assert(whole[at] == head[at]);
            groups_have_three_digits(n / 1000, j - 4);
        }
    }
}

/// A duration is shown as hours, minutes and seconds that add up to it, minutes and seconds below
/// sixty, each with at least two digits.
pub proof fn durations_add_up(secs: u64, hours: nat, minutes: nat, rest: nat, text: String)
    requires
        call_ensures(format_duration, (secs,), text),
        secs == 3600 * hours + 60 * minutes + rest,
        minutes < 60,
        rest < 60,
    ensures
        text@ == zero_padded(hours, 2) + ":"@ + zero_padded(minutes, 2) + ":"@ + zero_padded(
            rest,
            2,
        ),
{
    assert(secs as nat / 3600 == hours);
    assert((secs as nat % 3600) / 60 == minutes);
    assert(secs as nat % 60 == rest);
}

/// Numbers are shown grouped, and a label stands right before its value, filled up to eighteen
/// characters.
pub proof fn numbers_and_labels_are_shown(value: u64, number: String, key: &str, label: String)
    requires
        call_ensures(group_thousands, (value,), number),
        call_ensures(kv_label, (key,), label),
    ensures
        number@ == grouped(value as nat),
        label@ == padded_left(key@, 18, ' ') + "  "@,
{
}

/// A preset is listed with its name, its size, its rate with one decimal, the points that it aims
/// at and its label.
pub proof fn presets_are_listed(preset: Preset, line: String)
    requires
        call_ensures(select_line, (&preset,), line),
    ensures
        line@ == padded_right(preset.name@, 14) + " "@ + padded_left(
            decimal(preset.count as nat),
            6,
            ' ',
        ) + " sats @ "@ + padded_left(preset.rate_hz.tenths@, 5, ' ') + " Hz  ≈ "@ + padded_left(
            grouped(product_floor((10 * preset.count) as nat, preset.rate_hz.bits)),
            9,
            ' ',
        ) + " pts/s   label: "@ + preset.label@,
{
    assert(preset.count as nat * 10 == 10 * preset.count);
}

/// The titles say what is shown, and whether debug mode is on.
pub proof fn titles_say_what_is_shown(
    debug: bool,
    selection: &'static str,
    name: &str,
    provisioning: String,
)
    requires
        call_ensures(select_title, (debug,), selection),
        call_ensures(provision_title, (name,), provisioning),
    ensures
        debug ==> selection@ == " sat-fleet — select batch preset [DEBUG: 1 Hz] "@,
        !debug ==> selection@ == " sat-fleet — select batch preset "@,
        provisioning@ == " provisioning assets — "@ + name@ + " "@,
{
}

/// Progress is shown with its four counts under their names, or as a search while nothing is known.
pub proof fn progress_is_shown(progress: Option<ProvisionProgress>, label: String)
    requires
        call_ensures(progress_label, (&progress,), label),
    ensures
        progress matches Some(p) ==> label@ == "total "@ + decimal(p.total as nat)
            + " · existing "@ + decimal(p.existing as nat) + " · created "@ + decimal(
            p.created as nat,
        ) + " · failed "@ + decimal(p.failed as nat),
        progress is None ==> label@ == "searching for existing batch assets…"@,
{
}

/// The bar shows how much is settled of all assets: what exists, was created or has failed. It is
/// empty while nothing is known, and full where there is nothing to do.
pub proof fn bars_show_what_is_settled(progress: Option<ProvisionProgress>, share: (usize, usize))
    requires
        call_ensures(progress_ratio, (&progress,), share),
    ensures
        progress is None ==> share.0 == 0 && share.1 == 1,
        progress matches Some(p) ==> {
            let settled = p.existing + p.created + p.failed;
            &&& p.total == 0 ==> share.0 == share.1
            &&& p.total > 0 ==> share.1 == p.total
            &&& p.total > 0 && settled <= p.total ==> share.0 == settled
            &&& p.total > 0 && settled > p.total ==> share.0 == p.total
        },
{
}

/// The session panel names the batch, its satellites, labels, dataset, station and run, each under
/// its own label, and marks a debug session.
pub proof fn session_panels_name_the_session(
    session: Session,
    screen: Screen,
    fleet: FleetConfig,
    dataset: &str,
    started: &str,
    lines: Vec<(&'static str, String)>,
)
    requires
        call_ensures(session_lines, (&session, screen, &fleet, dataset, started), lines),
    ensures
        ({
            let shown = line_texts(lines@);
            let preset = session.preset;
            let target = product_floor((10 * preset.count) as nat, preset.rate_hz.bits);
            &&& shown.len() == 8
            &&& shown[0] == (
                "batch"@,
                if session.debug {
                    preset.name@ + " [debug: rate forced to 1 Hz]"@
                } else {
                    preset.name@
                },
            )
            &&& shown[1] == (
                "satellites"@,
                decimal(preset.count as nat) + " @ "@ + preset.rate_hz.text@ + " Hz · "@ + decimal(
                    10,
                ) + " channels · ≈"@ + grouped(target) + " pts/s target"@,
            )
            &&& shown[2] == ("labels"@, fleet.common_label@ + " · "@ + preset.label@)
            &&& shown[3] == ("dataset"@, dataset@)
            &&& shown[4].0 == "ground station"@
            &&& fleet.ground_station matches Some(g) ==> shown[4].1 == g.name@
            &&& fleet.ground_station is None ==> shown[4].1 == "none"@
            &&& shown[5].0 == "run"@
            &&& shown[6].0 == "run rid"@
            &&& session.run matches Some(r) ==> shown[5].1 == r.title@ + " (started "@ + started@
                + ")"@ && shown[6].1 == r.rid@
            &&& session.run is None ==> shown[5].1 == "—"@ && shown[6].1 == "—"@
            &&& shown[7].0 == "run status"@
            &&& session.cutover_pending ==> shown[7].1 == "cutting over to a new run…"@
            &&& !session.cutover_pending && screen == Screen::Stopping ==> shown[7].1
                == "stopping…"@
            &&& !session.cutover_pending && screen != Screen::Stopping ==> shown[7].1 == "live"@
        }),
{
    assert(session.preset.count as nat * 10 == 10 * session.preset.count);
}

/// The statistics panel shows every counter under its own label, with the rates over the last five
/// seconds and the last minute.
pub proof fn statistics_panels_show_every_counter(
    stats: EngineStats,
    samples: VecDeque<(u64, u64)>,
    uptime: u64,
    lines: Vec<(&'static str, String)>,
)
    requires
        call_ensures(stats_lines, (&stats, &samples, uptime), lines),
    ensures
        ({
            let shown = line_texts(lines@);
            let short = second_points(rate_in(samples@, 5_000_000_000));
            let long = minute_points(rate_in(samples@, 60_000_000_000));
            let settled = stats.sent + stats.failed_points;
            &&& shown.len() == 7
            &&& shown[0] == ("uptime"@, clock_text(uptime as nat))
            &&& shown[1] == ("points sent"@, grouped(stats.sent as nat))
            &&& shown[2] == ("points enqueued"@, grouped(stats.enqueued as nat))
            &&& shown[3] == (
                "send rate"@,
                grouped(short) + "/s (5s avg) · "@ + grouped(long) + "/min (60s avg)"@,
            )
            &&& shown[4].0 == "backlog (buffered)"@
            &&& settled <= stats.enqueued ==> shown[4].1 == grouped(
                (stats.enqueued - settled) as nat,
            )
            &&& settled > stats.enqueued ==> shown[4].1 == grouped(0)
            &&& shown[5] == (
                "failures"@,
                grouped(stats.failed_points as nat) + " points across "@ + decimal(
                    stats.failed_requests as nat,
                ) + " requests · "@ + decimal(stats.log_failures as nat) + " log writes"@,
            )
            &&& shown[6] == (
                "ticks"@,
                grouped(stats.ticks as nat) + " ("@ + decimal(stats.skipped_ticks as nat)
                    + " skipped)"@,
            )
        }),
{
}

} // verus!
