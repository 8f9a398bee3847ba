//! From a collected JSON record to a metric record: samples with change marks, and a log entry.
use crate::assoc::{Assoc, Keyed};
use crate::double::{Double, DoubleTree};
use crate::json::{
    entries_of, entry_trees, find, lookup, map_text, object_text, read_entries, Json, JsonTree,
};
use crate::samples::{
    copy_pairs, flat, flatten, optional_tags, same_values, sample_trees, tag_texts, MetricSample,
    MetricValue, SampleKey, SampleTree, ValueTree,
};
use crate::schedule::Timestamp;
use crate::text::{decimal, decimal_text, join, joined, push_decimal, same_text, texts};
use vstd::prelude::*;
use vstd::string::*;

verus! {

/// What a sample is remembered under: its path and its tags.
struct DeltaKey {
    path: String,
    tags: Option<Vec<(String, String)>>,
}

/// Whether two lists hold the same pairs in the same order.
fn same_pairs(a: &Vec<(String, String)>, b: &Vec<(String, String)>) -> (same: bool)
    ensures
        same == (tag_texts(a@) == tag_texts(b@)),
{
    let ghost left = tag_texts(a@);
    let ghost right = tag_texts(b@);
    if a.len() != b.len() {
        assert(left.len() != right.len());
        return false;
    }
    for i in 0..a.len()
        invariant
            a.len() == b.len(),
            left == tag_texts(a@),
            right == tag_texts(b@),
            forall|k: int| 0 <= k < i ==> left[k] == right[k],
    {
        assert(left[i as int] == (a@[i as int].0@, a@[i as int].1@));
        assert(right[i as int] == (b@[i as int].0@, b@[i as int].1@));
        if a[i].0 != b[i].0 || a[i].1 != b[i].1 {
            assert(left[i as int] != right[i as int]);
            return false;
        }
    }
    assert(left =~= right);
    true
}

impl Keyed for DeltaKey {
    type Id = SampleKey;

    closed spec fn id(&self) -> SampleKey {
        SampleKey { path: self.path@, tags: optional_tags(self.tags) }
    }

    fn same_id(&self, other: &Self) -> (same: bool) {
        if self.path != other.path {
            return false;
        }
        match (&self.tags, &other.tags) {
            (Some(a), Some(b)) => same_pairs(a, b),
            (None, None) => true,
            _ => false,
        }
    }
}

/// What a sample is remembered under.
pub open spec fn key_of(sample: SampleTree) -> SampleKey {
    SampleKey { path: sample.path, tags: sample.tags }
}

impl DeltaKey {
    /// The key of a sample.
    fn from_sample(sample: &MetricSample) -> (key: DeltaKey)
        ensures
            key.id() == key_of(sample@),
    {
        let tags = match &sample.tags {
            Some(list) => Some(copy_pairs(list)),
            None => None,
        };
        DeltaKey { path: sample.path.clone(), tags }
    }
}

/// One line for the log, with named details.
#[derive(Debug)]
pub struct LogEntry {
    pub timestamp: Timestamp,
    pub channel: String,
    pub message: String,
    pub args: Vec<(String, String)>,
}

/// A log line, with texts as characters.
pub struct LogTree {
    pub timestamp: Timestamp,
    pub channel: Seq<char>,
    pub message: Seq<char>,
    pub args: Seq<(Seq<char>, Seq<char>)>,
}

impl View for LogEntry {
    type V = LogTree;

    open spec fn view(&self) -> LogTree {
        LogTree {
            timestamp: self.timestamp,
            channel: self.channel@,
            message: self.message@,
            args: tag_texts(self.args@),
        }
    }
}

/// The views of a list of log lines.
pub open spec fn log_trees(logs: Seq<LogEntry>) -> Seq<LogTree> {
    logs.map_values(|l: LogEntry| l@)
}

/// What one cycle hands to the sinks.
pub struct MetricRecord {
    pub timestamp: Timestamp,
    pub timestamp_iso: String,
    pub interval_ms: u64,
    pub collect_ms: Double,
    pub snapshot: bool,
    pub raw: serde_json::Map<String, serde_json::Value>,
    pub samples: Vec<MetricSample>,
    pub logs: Vec<LogEntry>,
}

/// A metric record without the raw JSON, with texts as characters.
pub struct RecordTree {
    pub timestamp: Timestamp,
    pub timestamp_iso: Seq<char>,
    pub interval_ms: u64,
    pub collect_ms: DoubleTree,
    pub snapshot: bool,
    pub samples: Seq<SampleTree>,
    pub logs: Seq<LogTree>,
}

impl View for MetricRecord {
    type V = RecordTree;

    open spec fn view(&self) -> RecordTree {
        RecordTree {
            timestamp: self.timestamp,
            timestamp_iso: self.timestamp_iso@,
            interval_ms: self.interval_ms,
            collect_ms: self.collect_ms@,
            snapshot: self.snapshot,
            samples: sample_trees(self.samples@),
            logs: log_trees(self.logs@),
        }
    }
}

/// Whether a key of the record describes the cycle rather than a satellite.
pub open spec fn is_header(key: Seq<char>) -> bool {
    key == "timestamp"@ || key == "interval_ms"@ || key == "collect_ms"@
}

/// The time of the record as it was written, or nothing.
pub open spec fn stamp_text(entries: Seq<(Seq<char>, JsonTree)>) -> Seq<char> {
    match lookup(entries, "timestamp"@) {
        Some(JsonTree::Text(s)) => s,
        _ => Seq::empty(),
    }
}

/// The interval of the record in milliseconds, or zero.
pub open spec fn interval_in(entries: Seq<(Seq<char>, JsonTree)>) -> u64 {
    match lookup(entries, "interval_ms"@) {
        Some(JsonTree::Number(n)) => match n.unsigned {
            Some(u) => u,
            None => 0,
        },
        _ => 0,
    }
}

/// How long the collection took in milliseconds, or zero.
pub open spec fn collect_in(entries: Seq<(Seq<char>, JsonTree)>) -> DoubleTree {
    let zero = DoubleTree { bits: 0, text: "0"@, tenths: "0.0"@ };
    match lookup(entries, "collect_ms"@) {
        Some(JsonTree::Number(n)) => match n.double {
            Some(d) => d,
            None => zero,
        },
        _ => zero,
    }
}

/// The keys that describe satellites, in order.
pub open spec fn fresh_keys(entries: Seq<(Seq<char>, JsonTree)>) -> Seq<Seq<char>>
    decreases entries.len(),
{
    if entries.len() == 0 {
        Seq::empty()
    } else {
        let before = fresh_keys(entries.drop_last());
        if is_header(entries.last().0) {
            before
        } else {
            before.push(entries.last().0)
        }
    }
}

/// The samples of everything but the header, in order.
pub open spec fn samples_in(entries: Seq<(Seq<char>, JsonTree)>) -> Seq<SampleTree>
    decreases entries.len(),
{
    if entries.len() == 0 {
        Seq::empty()
    } else {
        let before = samples_in(entries.drop_last());
        if is_header(entries.last().0) {
            before
        } else {
            before + flat(entries.last().0, None, entries.last().1)
        }
    }
}

/// Whether a sample is marked as changed: in a snapshot always, else when nothing or another
/// value is remembered under its key.
pub open spec fn is_changed(
    memory: Map<SampleKey, ValueTree>,
    snapshot: bool,
    sample: SampleTree,
) -> bool {
    snapshot || !memory.dom().contains(key_of(sample)) || !same_values(
        memory[key_of(sample)],
        sample.value,
    )
}

/// The samples with their change marks.
pub open spec fn marked(
    memory: Map<SampleKey, ValueTree>,
    snapshot: bool,
    samples: Seq<SampleTree>,
) -> Seq<SampleTree> {
    samples.map_values(
        |s: SampleTree| (SampleTree { changed: is_changed(memory, snapshot, s), ..s }),
    )
}

/// What is remembered once the samples have been seen: for each key its last value.
pub open spec fn remembered(
    memory: Map<SampleKey, ValueTree>,
    samples: Seq<SampleTree>,
) -> Map<SampleKey, ValueTree>
    decreases samples.len(),
{
    if samples.len() == 0 {
        memory
    } else {
        remembered(memory, samples.drop_last()).insert(
            key_of(samples.last()),
            samples.last().value,
        )
    }
}

/// How many of the samples are marked as changed.
pub open spec fn changed_count(samples: Seq<SampleTree>) -> nat
    decreases samples.len(),
{
    if samples.len() == 0 {
        0
    } else {
        changed_count(samples.drop_last()) + if samples.last().changed {
            1nat
        } else {
            0nat
        }
    }
}

/// The kind of a cycle.
pub open spec fn kind_text(snapshot: bool) -> Seq<char> {
    if snapshot {
        "snapshot"@
    } else {
        "delta"@
    }
}

/// How many samples there are, or how many of how many have changed.
pub open spec fn changed_text(snapshot: bool, samples: Seq<SampleTree>) -> Seq<char> {
    if snapshot {
        decimal(samples.len())
    } else {
        decimal(changed_count(samples)) + "/"@ + decimal(samples.len())
    }
}

/// The log line of a cycle.
pub open spec fn cycle_log(
    timestamp: Timestamp,
    cycle: u64,
    snapshot: bool,
    samples: Seq<SampleTree>,
    entries: Seq<(Seq<char>, JsonTree)>,
    raw_json: Seq<char>,
) -> LogTree {
    let keys = joined(fresh_keys(entries), ","@);
    let info = changed_text(snapshot, samples);
    let collect = collect_in(entries).tenths;
    LogTree {
        timestamp,
        channel: "log.system"@,
        message: kind_text(snapshot) + " cycle="@ + decimal(cycle as nat) + " collectors=["@ + keys
            + "] changed="@ + info + " collect_ms="@ + collect + " "@ + raw_json,
        args: seq![
            ("cycle"@, decimal(cycle as nat)),
            ("kind"@, kind_text(snapshot)),
            ("changed"@, info),
            ("collectors"@, keys),
            ("collect_ms"@, collect),
            ("data"@, raw_json),
        ],
    }
}

/// Whether the cycle is a snapshot: every `snapshot_every` cycles, beginning with the first.
pub open spec fn is_snapshot(cycle: u64, snapshot_every: u64) -> bool {
    if snapshot_every == 0 {
        cycle == 0
    } else {
        cycle % snapshot_every == 0
    }
}

/// The record of a cycle.
pub open spec fn cycle_record(
    memory: Map<SampleKey, ValueTree>,
    cycle: u64,
    snapshot_every: u64,
    entries: Seq<(Seq<char>, JsonTree)>,
    raw_json: Seq<char>,
    timestamp: Timestamp,
) -> RecordTree {
    let snapshot = is_snapshot(cycle, snapshot_every);
    let samples = marked(memory, snapshot, samples_in(entries));
    RecordTree {
        timestamp,
        timestamp_iso: stamp_text(entries),
        interval_ms: interval_in(entries),
        collect_ms: collect_in(entries),
        snapshot,
        samples,
        logs: seq![cycle_log(timestamp, cycle, snapshot, samples, entries, raw_json)],
    }
}

/// Turns collected records into metric records and remembers the values seen.
pub struct MetricPipeline {
    previous: Assoc<DeltaKey, MetricValue>,
    cycle: u64,
    snapshot_every: u64,
}

spec fn values_in(map: Map<SampleKey, MetricValue>) -> Map<SampleKey, ValueTree> {
    map.map_values(|v: MetricValue| v@)
}

fn header_key(key: &str) -> (yes: bool)
    ensures
        yes == is_header(key@),
{
    same_text(key, "timestamp") || same_text(key, "interval_ms") || same_text(key, "collect_ms")
}

fn read_stamp(entries: &Vec<(String, Json)>) -> (text: String)
    ensures
        text@ == stamp_text(entry_trees(entries@)),
{
    match find(entries, "timestamp") {
        Some(Json::Text(s)) => s.clone(),
        _ => String::new(),
    }
}

fn read_interval(entries: &Vec<(String, Json)>) -> (interval: u64)
    ensures
        interval == interval_in(entry_trees(entries@)),
{
    match find(entries, "interval_ms") {
        Some(Json::Number(n)) => match n.unsigned {
            Some(u) => u,
            None => 0,
        },
        _ => 0,
    }
}

fn read_collect(entries: &Vec<(String, Json)>) -> (collect: Double)
    ensures
        collect@ == collect_in(entry_trees(entries@)),
{
    match find(entries, "collect_ms") {
        Some(Json::Number(n)) => match &n.double {
            Some(d) => d.clone(),
            None => Double::zero(),
        },
        _ => Double::zero(),
    }
}

/// The samples of everything but the header.
fn gather(entries: &Vec<(String, Json)>) -> (samples: Vec<MetricSample>)
    ensures
        sample_trees(samples@) == samples_in(entry_trees(entries@)),
{
    let ghost trees = entry_trees(entries@);
    let mut samples: Vec<MetricSample> = Vec::new();
    assert(sample_trees(samples@) =~= samples_in(trees.take(0)));
    for i in 0..entries.len()
        invariant
            trees == entry_trees(entries@),
            sample_trees(samples@) == samples_in(trees.take(i as int)),
    {
        assert(trees.take(i + 1).drop_last() =~= trees.take(i as int));
        assert(trees.take(i + 1).last() == trees[i as int]);
        if !header_key(entries[i].0.as_str()) {
            flatten(entries[i].0.as_str(), &entries[i].1, &mut samples);
        }
    }
    assert(trees.take(entries.len() as int) =~= trees);
    samples
}

/// The keys of everything but the header.
fn gather_keys(entries: &Vec<(String, Json)>) -> (keys: Vec<String>)
    ensures
        texts(keys@) == fresh_keys(entry_trees(entries@)),
{
    let ghost trees = entry_trees(entries@);
    let mut keys: Vec<String> = Vec::new();
    assert(texts(keys@) =~= fresh_keys(trees.take(0)));
    for i in 0..entries.len()
        invariant
            trees == entry_trees(entries@),
            texts(keys@) == fresh_keys(trees.take(i as int)),
    {
        assert(trees.take(i + 1).drop_last() =~= trees.take(i as int));
        assert(trees.take(i + 1).last() == trees[i as int]);
        if !header_key(entries[i].0.as_str()) {
            keys.push(entries[i].0.clone());
        }
        assert(texts(keys@) =~= fresh_keys(trees.take(i + 1)));
    }
    assert(trees.take(entries.len() as int) =~= trees);
    keys
}

impl MetricPipeline {
    /// The value last seen under each key.
    pub closed spec fn memory(&self) -> Map<SampleKey, ValueTree> {
        values_in(self.previous@)
    }

    /// How many cycles have been processed.
    pub closed spec fn cycles(&self) -> u64 {
        self.cycle
    }

    /// Every how many cycles a snapshot is made.
    pub closed spec fn every(&self) -> u64 {
        self.snapshot_every
    }

    /// A pipeline that has seen nothing yet.
    pub fn new(snapshot_every: u64) -> (pipeline: MetricPipeline)
        ensures
            pipeline.memory() == Map::<SampleKey, ValueTree>::empty(),
            pipeline.cycles() == 0,
            pipeline.every() == snapshot_every,
    {
        let pipeline = MetricPipeline { previous: Assoc::new(), cycle: 0, snapshot_every };
        assert(pipeline.memory() =~= Map::<SampleKey, ValueTree>::empty());
        pipeline
    }

    /// Marks the samples that have changed, and counts them.
    fn mark(&self, samples: &mut Vec<MetricSample>, snapshot: bool) -> (count: usize)
        ensures
            sample_trees(final(samples)@) == marked(
                self.memory(),
                snapshot,
                sample_trees(old(samples)@),
            ),
            count == changed_count(sample_trees(final(samples)@)),
    {
        let ghost before = sample_trees(samples@);
        let ghost goal = marked(self.memory(), snapshot, before);
        let mut count: usize = 0;
        assert(goal.take(0) =~= Seq::empty());
        let total: usize = samples.len();
        for i in 0..total
            invariant
                samples@.len() == before.len(),
                total == before.len(),
                before.len() == goal.len(),
                goal == marked(self.memory(), snapshot, before),
                forall|k: int| 0 <= k < i ==> (#[trigger] samples@[k])@ == goal[k],
                forall|k: int| i <= k < before.len() ==> (#[trigger] samples@[k])@ == before[k],
                count == changed_count(goal.take(i as int)),
                count <= i,
        {
            assert(samples@[i as int]@ == before[i as int]);
            let changed: bool = if snapshot {
                true
            } else {
                let key = DeltaKey::from_sample(&samples[i]);
                match self.previous.get(&key) {
                    Some(prev) => !prev.same_value(&samples[i].value),
                    None => true,
                }
            };
            samples[i].changed = changed;
            if changed {
                count = count + 1;
            }
            proof {
                assert(samples@[i as int]@ == goal[i as int]);
                assert(goal.take(i + 1).drop_last() =~= goal.take(i as int));
                assert(goal.take(i + 1).last() == goal[i as int]);
            }
        }
        assert(goal.take(total as int) =~= goal);
        assert(sample_trees(samples@) =~= goal);
        count
    }

    /// Remembers the values of the samples.
    fn remember(&mut self, samples: &Vec<MetricSample>)
        ensures
            final(self).memory() == remembered(old(self).memory(), sample_trees(samples@)),
            final(self).cycles() == old(self).cycles(),
            final(self).every() == old(self).every(),
    {
        let ghost trees = sample_trees(samples@);
        let ghost before = self.memory();
        assert(trees.take(0) =~= Seq::empty());
        for i in 0..samples.len()
            invariant
                trees == sample_trees(samples@),
                before == old(self).memory(),
                self.memory() == remembered(before, trees.take(i as int)),
                self.cycle == old(self).cycle,
                self.snapshot_every == old(self).snapshot_every,
        {
            let ghost held = self.previous@;
            let value = samples[i].value.clone();
            let key = DeltaKey::from_sample(&samples[i]);
            let ghost id = key.id();
            self.previous.insert(key, value);
            proof {
                assert(trees.take(i + 1).drop_last() =~= trees.take(i as int));
                assert(trees.take(i + 1).last() == trees[i as int]);
                assert(values_in(held.insert(id, value)) =~= values_in(held).insert(id, value@));
            }
        }
        assert(trees.take(samples.len() as int) =~= trees);
    }

    /// Processes a record given as its entries and its JSON text.
    pub fn process_entries(
        &mut self,
        raw: serde_json::Map<String, serde_json::Value>,
        entries: &Vec<(String, Json)>,
        raw_json: String,
        timestamp: Timestamp,
    ) -> (record: MetricRecord)
        requires
            old(self).cycles() < u64::MAX,
        ensures
            record.raw == raw,
            record@ == cycle_record(
                old(self).memory(),
                old(self).cycles(),
                old(self).every(),
                entry_trees(entries@),
                raw_json@,
                timestamp,
            ),
            final(self).memory() == remembered(
                old(self).memory(),
                samples_in(entry_trees(entries@)),
            ),
            final(self).cycles() == old(self).cycles() + 1,
            final(self).every() == old(self).every(),
    {
        let ghost trees = entry_trees(entries@);
        let snapshot: bool = self.cycle.is_multiple_of(self.snapshot_every);
        let cycle: u64 = self.cycle;
        self.cycle = self.cycle + 1;
        let timestamp_iso = read_stamp(entries);
        let interval_ms: u64 = read_interval(entries);
        let collect_ms = read_collect(entries);
        let mut samples = gather(entries);
        let count: usize = self.mark(&mut samples, snapshot);
        self.remember(&samples);
        proof {
            lemma_marks_are_forgotten(old(self).memory(), snapshot, samples_in(trees));
        }
        let log = write_cycle_log(
            timestamp,
            cycle,
            snapshot,
            &samples,
            count,
            entries,
            &collect_ms,
            raw_json,
        );
        let mut logs: Vec<LogEntry> = Vec::new();
        logs.push(log);
        let record = MetricRecord {
            timestamp,
            timestamp_iso,
            interval_ms,
            collect_ms,
            snapshot,
            raw,
            samples,
            logs,
        };
        assert(record@.logs =~= seq![log@]);
        record
    }

    /// Processes a collected record: flattens it into samples, marks those that have changed and
    /// logs the cycle.
    pub fn process(
        &mut self,
        raw: serde_json::Map<String, serde_json::Value>,
        timestamp: Timestamp,
    ) -> (record: MetricRecord)
        requires
            old(self).cycles() < u64::MAX,
        ensures
            record.raw == raw,
            record@ == cycle_record(
                old(self).memory(),
                old(self).cycles(),
                old(self).every(),
                entries_of(raw),
                object_text(entries_of(raw)),
                timestamp,
            ),
            final(self).memory() == remembered(
                old(self).memory(),
                samples_in(entries_of(raw)),
            ),
            final(self).cycles() == old(self).cycles() + 1,
            final(self).every() == old(self).every(),
    {
        let entries = read_entries(&raw);
        let raw_json = map_text(&raw);
        self.process_entries(raw, &entries, raw_json, timestamp)
    }
}

/// What is remembered of samples does not depend on their change marks.
proof fn lemma_marks_are_forgotten(
    memory: Map<SampleKey, ValueTree>,
    snapshot: bool,
    samples: Seq<SampleTree>,
)
    ensures
        remembered(memory, marked(memory, snapshot, samples)) == remembered(memory, samples),
    decreases samples.len(),
{
    lemma_marks_of_prefix(memory, memory, snapshot, samples);
}

proof fn lemma_marks_of_prefix(
    memory: Map<SampleKey, ValueTree>,
    start: Map<SampleKey, ValueTree>,
    snapshot: bool,
    samples: Seq<SampleTree>,
)
    ensures
        remembered(start, marked(memory, snapshot, samples)) == remembered(start, samples),
    decreases samples.len(),
{
    if samples.len() > 0 {
        lemma_marks_of_prefix(memory, start, snapshot, samples.drop_last());
        assert(marked(memory, snapshot, samples).drop_last() =~= marked(
            memory,
            snapshot,
            samples.drop_last(),
        ));
    }
}

pub(crate) fn push_pair(args: &mut Vec<(String, String)>, name: &str, value: String)
    ensures
        tag_texts(final(args)@) == tag_texts(old(args)@).push((name@, value@)),
{
    let ghost before = tag_texts(args@);
    args.push((name.to_owned(), value));
    assert(tag_texts(args@) =~= before.push((name@, value@)));
}

/// Writes the log line of a cycle.
fn write_cycle_log(
    timestamp: Timestamp,
    cycle: u64,
    snapshot: bool,
    samples: &Vec<MetricSample>,
    count: usize,
    entries: &Vec<(String, Json)>,
    collect_ms: &Double,
    raw_json: String,
) -> (log: LogEntry)
    requires
        count == changed_count(sample_trees(samples@)),
        collect_ms@ == collect_in(entry_trees(entries@)),
    ensures
        log@ == cycle_log(
            timestamp,
            cycle,
            snapshot,
            sample_trees(samples@),
            entry_trees(entries@),
            raw_json@,
        ),
{
    let ghost trees = entry_trees(entries@);
    let ghost goal = cycle_log(
        timestamp,
        cycle,
        snapshot,
        sample_trees(samples@),
        trees,
        raw_json@,
    );
    let keys = gather_keys(entries);
    let collectors = join(&keys, ",");
    let kind: &str = if snapshot {
        "snapshot"
    } else {
        "delta"
    };
    let mut info = String::new();
    if !snapshot {
        push_decimal(&mut info, count as u64);
        info.append("/");
    }
    push_decimal(&mut info, samples.len() as u64);
    assert(info@ =~= changed_text(snapshot, sample_trees(samples@)));
    let cycle_digits = decimal_text(cycle);
    let mut message = kind.to_owned();
    message.append(" cycle=");
    message.append(cycle_digits.as_str());
    message.append(" collectors=[");
    message.append(collectors.as_str());
    message.append("] changed=");
    message.append(info.as_str());
    message.append(" collect_ms=");
    message.append(collect_ms.tenths.as_str());
    message.append(" ");
    message.append(raw_json.as_str());
    let mut args: Vec<(String, String)> = Vec::new();
    assert(tag_texts(args@) =~= Seq::empty());
    push_pair(&mut args, "cycle", cycle_digits);
    push_pair(&mut args, "kind", kind.to_owned());
    push_pair(&mut args, "changed", info);
    push_pair(&mut args, "collectors", collectors);
    push_pair(&mut args, "collect_ms", collect_ms.tenths.clone());
    push_pair(&mut args, "data", raw_json);
    let log = LogEntry { timestamp, channel: "log.system".to_owned(), message, args };
    assert(log@.message =~= goal.message);
    assert(log@.args =~= goal.args);
    log
}

} // verus!
