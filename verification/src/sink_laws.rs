//! What reaches the sinks: the fields and lines of a file of values, mirrored samples, and reports
//! of dropped records.
use crate::csv::{
    csv_field, doubled_quotes, escape_csv, field_for, fields_read_back, header_line, known_fields,
    log_text, plain_paths, record_line, row_fields, value_field, CsvSink,
};
use crate::dispatch::{add_mirrors, drop_log, mirror, mirrors, report_due, DropTracker};
use crate::double::{Double, DoubleTree};
use crate::pipeline::{LogEntry, LogTree, MetricRecord, RecordTree};
use crate::samples::{MetricValue, SampleTree, ValueTree};
use crate::schedule::Timestamp;
use crate::text::{decimal, joined, texts};
use vstd::prelude::*;
use vstd::string::*;

verus! {

/// The field of a double is its shortest rendering, so that no digit is lost and doubles with
/// different renderings have different fields.
pub proof fn doubles_keep_their_digits(a: DoubleTree, b: DoubleTree)
    ensures
        value_field(ValueTree::Double(a)) == a.text,
        a.text != b.text ==> value_field(ValueTree::Double(a)) != value_field(
            ValueTree::Double(b),
        ),
{
}

/// What a double is written as is its shortest rendering.
pub proof fn doubles_are_written_in_full(d: Double, field: String)
    requires
        call_ensures(CsvSink::format_value, (&MetricValue::Double(d),), field),
    ensures
        field@ == d.text@,
{
}

/// Reading digits from the left gives a number back: `number_of` of the digits of a number is the
/// number.
pub open spec fn number_of(digits: Seq<char>) -> int
    decreases digits.len(),
{
    if digits.len() == 0 {
        0
    } else {
        10 * number_of(digits.drop_last()) + (digits.last() as int - '0' as int)
    }
}

/// The decimal rendering of a number reads back as the number, and holds nothing but digits.
pub proof fn decimals_read_back(n: nat)
    ensures
        number_of(decimal(n)) == n,
        decimal(n).len() >= 1,
        forall|i: int| 0 <= i < decimal(n).len() ==> '0' <= #[trigger] decimal(n)[i] <= '9',
        decimal(n).len() > 1 ==> decimal(n)[0] != '0',
    decreases n,
{
    reveal_with_fuel(number_of, 2);
    if n < 10 {
        assert(decimal(n).drop_last() =~= Seq::empty());
    } else {
        decimals_read_back(n / 10);
        assert(decimal(n).drop_last() =~= decimal(n / 10));
        assert(decimal(n)[0] == decimal(n / 10)[0]);
        if decimal(n / 10).len() == 1 {
            assert(decimal(n / 10).drop_last() =~= Seq::empty());
        }
        assert forall|i: int| 0 <= i < decimal(n).len() implies '0' <= #[trigger] decimal(n)[i]
            <= '9' by {
            if i < decimal(n).len() - 1 {
                assert(decimal(n)[i] == decimal(n / 10)[i]);
            }
        }
    }
}

/// An integer is written in digits that read back as the integer, with a minus in front exactly if
/// it is below zero.
pub proof fn integers_read_back(i: i64)
    ensures
        ({
            let field = value_field(ValueTree::Integer(i));
            &&& i >= 0 ==> number_of(field) == i && '0' <= field[0] <= '9'
            &&& i < 0 ==> field[0] == '-' && number_of(field.skip(1)) == -i
        }),
{
    if i >= 0 {
        decimals_read_back(i as nat);
    } else {
        decimals_read_back((-i) as nat);
        assert(value_field(ValueTree::Integer(i)).skip(1) =~= decimal((-i) as nat));
    }
}

/// Truth values are written as words and nothing as an empty field. A text without a comma, a
/// quote or a line break is written as it stands; any other text stands in quotes.
pub proof fn other_fields_are_plain(s: Seq<char>)
    ensures
        value_field(ValueTree::Bool(true)) == "true"@,
        value_field(ValueTree::Bool(false)) == "false"@,
        value_field(ValueTree::Null).len() == 0,
        !s.contains(',') && !s.contains('"') && !s.contains('\n') ==> value_field(
            ValueTree::Text(s),
        ) == s,
        s.contains(',') || s.contains('"') || s.contains('\n') ==> ({
            let field = value_field(ValueTree::Text(s));
            field[0] == '"' && field.last() == '"' && field.len() >= s.len() + 2
        }),
{
    lemma_doubled_is_longer(s);
}

proof fn lemma_doubled_is_longer(s: Seq<char>)
    ensures
        doubled_quotes(s).len() >= s.len(),
    decreases s.len(),
{
    if s.len() > 0 {
        lemma_doubled_is_longer(s.drop_last());
    }
}

/// In a quoted field every quote of the text stands twice and every other character once.
pub proof fn quotes_are_doubled(s: Seq<char>, c: char)
    ensures
        doubled_quotes(Seq::empty()).len() == 0,
        c == '"' ==> doubled_quotes(s.push(c)) == doubled_quotes(s) + seq!['"', '"'],
        c != '"' ==> doubled_quotes(s.push(c)) == doubled_quotes(s).push(c),
        s.contains(',') || s.contains('"') || s.contains('\n') ==> csv_field(s) == seq!['"']
            + doubled_quotes(s) + seq!['"'],
{
    assert(s.push(c).drop_last() =~= s);
    if c == '"' {
        assert(doubled_quotes(s.push(c)) =~= doubled_quotes(s) + seq!['"', '"']);
    }
}

/// Texts that differ have fields that differ.
pub proof fn texts_stay_apart(a: Seq<char>, b: Seq<char>)
    requires
        value_field(ValueTree::Text(a)) == value_field(ValueTree::Text(b)),
    ensures
        a == b,
{
    fields_read_back(a);
    fields_read_back(b);
}

/// The columns are the paths of the samples without tags, in the order of the samples.
pub proof fn columns_are_the_untagged_paths(samples: Seq<SampleTree>, sample: SampleTree)
    ensures
        plain_paths(Seq::empty()).len() == 0,
        sample.tags is None ==> plain_paths(samples.push(sample)) == plain_paths(samples).push(
            sample.path,
        ),
        sample.tags is Some ==> plain_paths(samples.push(sample)) == plain_paths(samples),
{
    assert(samples.push(sample).drop_last() =~= samples);
}

/// The field of a column is that of the last sample with its path, where it has no tags.
pub proof fn columns_carry_the_last_value(
    fields: Map<Seq<char>, Seq<char>>,
    samples: Seq<SampleTree>,
    i: int,
)
    requires
        0 <= i < samples.len(),
        samples[i].tags is None,
        forall|j: int|
            i < j < samples.len() ==> (#[trigger] samples[j]).tags is Some || samples[j].path
                != samples[i].path,
    ensures
        known_fields(fields, samples).dom().contains(samples[i].path),
        known_fields(fields, samples)[samples[i].path] == value_field(samples[i].value),
    decreases samples.len(),
{
    if i < samples.len() - 1 {
        let rest = samples.drop_last();
        assert(samples[samples.len() - 1].tags is Some || samples[samples.len() - 1].path
            != samples[i].path);
        assert forall|j: int| i < j < rest.len() implies (#[trigger] rest[j]).tags is Some
            || rest[j].path != rest[i].path by {
            assert(rest[j] == samples[j]);
        }
        columns_carry_the_last_value(fields, rest, i);
    }
}

/// A column that was never filled has an empty field, any other the field known last.
pub proof fn rows_hold_the_known_fields(
    fields: Map<Seq<char>, Seq<char>>,
    columns: Seq<Seq<char>>,
    i: int,
)
    requires
        0 <= i < columns.len(),
    ensures
        fields.dom().contains(columns[i]) ==> row_fields(fields, columns)[i] == fields[columns[i]],
        !fields.dom().contains(columns[i]) ==> row_fields(fields, columns)[i].len() == 0,
{
}

/// The first line names the time, the interval and the duration of the collection, then the
/// columns, then the log.
pub proof fn headers_name_the_columns(columns: Seq<Seq<char>>)
    ensures
        header_line(columns) == "timestamp,interval_ms,collect_ms,"@ + joined(columns, ","@)
            + ",log\n"@,
{
}

/// The line of a record holds the time as it was read, the interval, the duration of the
/// collection in full, the columns and the log lines, with commas between them.
pub proof fn lines_hold_the_record(
    record: RecordTree,
    columns: Seq<Seq<char>>,
    fields: Map<Seq<char>, Seq<char>>,
    log: LogTree,
)
    requires
        record.logs == seq![log],
    ensures
        record_line(record, columns, fields) == csv_field(record.timestamp_iso) + ","@ + decimal(
            record.interval_ms as nat,
        ) + ","@ + record.collect_ms.text + ","@ + joined(
            Seq::new(columns.len(), |i: int| field_for(fields, columns[i])),
            ","@,
        ) + ","@ + csv_field("["@ + log.channel + "] "@ + log.message) + "\n"@,
{
    assert(row_fields(fields, columns) =~= Seq::new(
        columns.len(),
        |i: int| field_for(fields, columns[i]),
    ));
}

/// Log lines stand in one field, in order, with a semicolon and a space between them.
pub proof fn log_lines_are_joined(
    record: RecordTree,
    columns: Seq<Seq<char>>,
    fields: Map<Seq<char>, Seq<char>>,
    first: LogTree,
    second: LogTree,
)
    requires
        record.logs == seq![first, second],
    ensures
        ({
            let front = csv_field(record.timestamp_iso) + ","@ + decimal(record.interval_ms as nat)
                + ","@ + record.collect_ms.text + ","@ + joined(row_fields(fields, columns), ","@)
                + ","@;
            let log = "["@ + first.channel + "] "@ + first.message + "; "@ + ("["@ + second.channel
                + "] "@ + second.message);
            record_line(record, columns, fields) == front + csv_field(log) + "\n"@
        }),
{
    let lines = record.logs.map_values(|l: LogTree| log_text(l));
    assert(lines.drop_last() =~= seq![log_text(first)]);
    assert(lines.last() == log_text(second));
    reveal_with_fuel(joined, 3);
}

/// A sample without tags has a mirror exactly if the part of its path before the first dot is one
/// of the names; the mirror has the rest of the path, that part as the one tag `satellite`, and the
/// sample's own value and mark.
pub proof fn mirrors_belong_to_satellites(
    satellite: Seq<char>,
    field: Seq<char>,
    value: ValueTree,
    changed: bool,
    names: Seq<Seq<char>>,
)
    requires
        !satellite.contains('.'),
    ensures
        ({
            let path = satellite.push('.') + field;
            let found = mirror(SampleTree { path, tags: None, value, changed }, names);
            &&& names.contains(satellite) ==> found == Some(
                SampleTree {
                    path: field,
                    tags: Some(seq![("satellite"@, satellite)]),
                    value,
                    changed,
                },
            )
            &&& !names.contains(satellite) ==> found is None
        }),
        mirror(SampleTree { path: satellite, tags: None, value, changed }, names) is None,
{
    let path = satellite.push('.') + field;
    path.index_of_first_ensures('.');
    satellite.index_of_first_ensures('.');
    let at = satellite.len() as int;
    assert(path[at] == '.');
    assert(path.contains('.'));
    let dot = path.index_of_first('.')->0;
    if dot < at {
        assert(satellite[dot] == path[dot]);
        assert(satellite.contains('.'));
    }
    assert(dot == at);
    assert(path.take(dot) =~= satellite);
    assert(path.skip(dot + 1) =~= field);
}

/// Every sample adds its mirror, where it has one, behind those of the samples before it. A sample
/// with tags adds none.
pub proof fn mirrors_come_in_order(
    samples: Seq<SampleTree>,
    sample: SampleTree,
    names: Seq<Seq<char>>,
)
    ensures
        mirrors(Seq::empty(), names).len() == 0,
        mirror(sample, names) matches Some(m) ==> mirrors(samples.push(sample), names) == mirrors(
            samples,
            names,
        ).push(m),
        mirror(sample, names) is None ==> mirrors(samples.push(sample), names) == mirrors(
            samples,
            names,
        ),
        sample.tags is Some ==> mirror(sample, names) is None,
{
    assert(samples.push(sample).drop_last() =~= samples);
}

/// Dropped records are reported once five seconds have passed since the last report, and never
/// where none was dropped. The report says how many there were.
pub proof fn drops_are_reported_after_five_seconds(
    tracker: DropTracker,
    now: u64,
    timestamp: Timestamp,
)
    ensures
        report_due(tracker, now) <==> tracker.count != 0 && now >= tracker.last_report
            + 5_000_000_000,
        drop_log(tracker.count, timestamp).timestamp == timestamp,
        drop_log(tracker.count, timestamp).channel == "log.system"@,
        drop_log(tracker.count, timestamp).message == "dropped "@ + decimal(tracker.count as nat)
            + " records (dispatcher behind)"@,
        drop_log(tracker.count, timestamp).args == seq![
            ("dropped"@, decimal(tracker.count as nat)),
        ],
{
}

/// The columns are those of the first record, which comes with the header. Every record fills in
/// its fields and adds one line over the same columns.
pub proof fn the_first_record_fixes_the_columns(
    sink: CsvSink,
    first: &mut CsvSink,
    second: &mut CsvSink,
    one: MetricRecord,
    two: MetricRecord,
    head: String,
    next: String,
)
    requires
        call_ensures(CsvSink::new, (), sink),
        sink == *old(first),
        call_ensures(CsvSink::consume, (first, &one), head),
        *final(first) == *old(second),
        call_ensures(CsvSink::consume, (second, &two), next),
    ensures
        ({
            let columns = plain_paths(one@.samples);
            let fields = known_fields(Map::empty(), one@.samples);
            &&& head@ == header_line(columns) + record_line(one@, columns, fields)
            &&& next@ == record_line(two@, columns, known_fields(fields, two@.samples))
            &&& final(second).columns() == Some(columns)
        }),
{
}

/// Mirrors are added behind the samples of a record, and nothing else of it changes.
pub proof fn mirrors_follow_the_samples(record: &mut MetricRecord, names: Vec<String>)
    requires
        call_ensures(add_mirrors, (record, &names), ()),
    ensures
        final(record)@.samples == old(record)@.samples + mirrors(
            old(record)@.samples,
            texts(names@),
        ),
        final(record)@ == (RecordTree { samples: final(record)@.samples, ..old(record)@ }),
        final(record).raw == old(record).raw,
{
}

/// Dropped records are counted one by one from the last report on, and a report starts the count
/// anew.
pub proof fn drops_are_counted(
    tracker: DropTracker,
    full: &mut DropTracker,
    asked: &mut DropTracker,
    start: u64,
    now: u64,
    timestamp: Timestamp,
    log: Option<LogEntry>,
)
    requires
        call_ensures(DropTracker::new, (start,), tracker),
        call_ensures(DropTracker::on_full, (full,), ()),
        call_ensures(DropTracker::report, (asked, now, timestamp), log),
        old(full).count < u64::MAX,
    ensures
        tracker.count == 0 && tracker.last_report == start,
        final(full).count == old(full).count + 1,
        final(full).last_report == old(full).last_report,
        log is Some <==> old(asked).count > 0 && now >= old(asked).last_report + 5_000_000_000,
        log matches Some(entry) ==> entry@ == drop_log(old(asked).count, timestamp)
            && final(asked).count == 0 && final(asked).last_report == now,
        log is None ==> *final(asked) == *old(asked),
{
}

/// A text becomes the field that its value would, and the sink goes by its name.
pub proof fn texts_become_their_fields(text: &str, field: String, sink: CsvSink, name: &'static str)
    requires
        call_ensures(escape_csv, (text,), field),
        call_ensures(CsvSink::name, (&sink,), name),
    ensures
        field@ == value_field(ValueTree::Text(text@)),
        name@ == "csv"@,
{
}

} // verus!
