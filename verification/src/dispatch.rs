//! What is added to a metric record before it goes to the sinks: mirrored samples and a warning
//! about dropped records.
use crate::pipeline::{push_pair, LogEntry, LogTree, MetricRecord};
use crate::samples::{sample_trees, tag_texts, MetricSample, SampleTree};
use crate::schedule::Timestamp;
use crate::text::{decimal, decimal_text, find_char, texts};
use vstd::prelude::*;
use vstd::string::*;

verus! {

/// How long dropped records are counted before they are reported, in nanoseconds.
pub const DROP_REPORT_INTERVAL: u64 = 5_000_000_000;

/// The mirror of a sample: without the satellite in front of its path, which becomes a tag.
/// Samples with tags, and those whose path does not begin with a satellite, have none.
pub open spec fn mirror(sample: SampleTree, names: Seq<Seq<char>>) -> Option<SampleTree> {
    match sample.path.index_of_first('.') {
        Some(dot) => if sample.tags is None && names.contains(sample.path.take(dot)) {
            Some(
                SampleTree {
                    path: sample.path.skip(dot + 1),
                    tags: Some(seq![("satellite"@, sample.path.take(dot))]),
                    value: sample.value,
                    changed: sample.changed,
                },
            )
        } else {
            None
        },
        None => None,
    }
}

/// The mirrors of the samples, in order.
pub open spec fn mirrors(samples: Seq<SampleTree>, names: Seq<Seq<char>>) -> Seq<SampleTree>
    decreases samples.len(),
{
    if samples.len() == 0 {
        Seq::empty()
    } else {
        let before = mirrors(samples.drop_last(), names);
        match mirror(samples.last(), names) {
            Some(m) => before.push(m),
            None => before,
        }
    }
}

/// Whether the list holds the text.
fn holds(list: &Vec<String>, wanted: &String) -> (yes: bool)
    ensures
        yes == texts(list@).contains(wanted@),
{
    let ghost all = texts(list@);
    for i in 0..list.len()
        invariant
            all == texts(list@),
            forall|k: int| 0 <= k < i ==> all[k] != wanted@,
    {
        assert(all[i as int] == list@[i as int]@);
        if list[i] == *wanted {
            return true;
        }
    }
    false
}

/// The mirror of one sample.
fn mirror_sample(sample: &MetricSample, names: &Vec<String>) -> (found: Option<MetricSample>)
    ensures
        match found {
            Some(m) => mirror(sample@, texts(names@)) == Some(m@),
            None => mirror(sample@, texts(names@)) is None,
        },
{
    let ghost path = sample.path@;
    proof {
        path.index_of_first_ensures('.');
    }
    match &sample.tags {
        Some(_) => {
            return None;
        },
        None => {},
    }
    match find_char(sample.path.as_str(), '.') {
        Some(dot) => {
            proof {
                let first = path.index_of_first('.')->0;
                assert(path.contains('.'));
                if first < dot {
                    assert(path.take(dot as int)[first] == '.');
                    assert(path.take(dot as int).contains('.'));
                }
                assert(first == dot);
            }
            let len: usize = sample.path.as_str().unicode_len();
            let prefix = sample.path.as_str().substring_char(0, dot).to_owned();
            let field = sample.path.as_str().substring_char(dot + 1, len).to_owned();
            assert(prefix@ =~= path.take(dot as int));
            assert(field@ =~= path.skip(dot + 1));
            if !holds(names, &prefix) {
                return None;
            }
            let mut tags: Vec<(String, String)> = Vec::new();
            tags.push(("satellite".to_owned(), prefix));
            assert(tag_texts(tags@) =~= seq![("satellite"@, path.take(dot as int))]);
            Some(
                MetricSample {
                    path: field,
                    tags: Some(tags),
                    value: sample.value.clone(),
                    changed: sample.changed,
                },
            )
        },
        None => None,
    }
}

/// Appends the mirrors of a record's samples.
pub fn add_mirrors(record: &mut MetricRecord, names: &Vec<String>)
    ensures
        final(record)@.samples == old(record)@.samples + mirrors(
            old(record)@.samples,
            texts(names@),
        ),
        final(record)@.logs == old(record)@.logs,
        final(record)@.timestamp == old(record)@.timestamp,
        final(record)@.timestamp_iso == old(record)@.timestamp_iso,
        final(record)@.interval_ms == old(record)@.interval_ms,
        final(record)@.collect_ms == old(record)@.collect_ms,
        final(record)@.snapshot == old(record)@.snapshot,
        final(record).raw == old(record).raw,
{
    let ghost trees = sample_trees(record.samples@);
    let mut tagged: Vec<MetricSample> = Vec::new();
    assert(sample_trees(tagged@) =~= mirrors(trees.take(0), texts(names@)));
    for i in 0..record.samples.len()
        invariant
            trees == sample_trees(record.samples@),
            sample_trees(tagged@) == mirrors(trees.take(i as int), texts(names@)),
    {
        assert(trees.take(i + 1).drop_last() =~= trees.take(i as int));
        assert(trees.take(i + 1).last() == record.samples@[i as int]@);
        let ghost before = sample_trees(tagged@);
        match mirror_sample(&record.samples[i], names) {
            Some(m) => {
                tagged.push(m);
                assert(sample_trees(tagged@) =~= before.push(m@));
            },
            None => {},
        }
    }
    assert(trees.take(record.samples.len() as int) =~= trees);
    let ghost added = sample_trees(tagged@);
    record.samples.append(&mut tagged);
    assert(sample_trees(record.samples@) =~= trees + added);
}

/// Counts the records that could not be handed over.
#[derive(Clone, Copy, PartialEq, Eq, Structural, Debug)]
pub struct DropTracker {
    /// Records dropped since the last report.
    pub count: u64,
    /// Monotonic time of the last report in nanoseconds.
    pub last_report: u64,
}

/// The text that reports dropped records.
pub open spec fn drop_text(count: u64) -> Seq<char> {
    "dropped "@ + decimal(count as nat) + " records (dispatcher behind)"@
}

/// The log line that reports dropped records.
pub open spec fn drop_log(count: u64, timestamp: Timestamp) -> LogTree {
    LogTree {
        timestamp,
        channel: "log.system"@,
        message: drop_text(count),
        args: seq![("dropped"@, decimal(count as nat))],
    }
}

/// Whether dropped records are reported now.
pub open spec fn report_due(tracker: DropTracker, now: u64) -> bool {
    tracker.count > 0 && now - tracker.last_report >= DROP_REPORT_INTERVAL
}

impl DropTracker {
    /// Nothing dropped yet; counting begins now.
    pub fn new(now: u64) -> (tracker: DropTracker)
        ensures
            tracker == (DropTracker { count: 0, last_report: now }),
    {
        DropTracker { count: 0, last_report: now }
    }

    /// One more record was dropped.
    pub fn on_full(&mut self)
        requires
            old(self).count < u64::MAX,
        ensures
            *final(self) == (DropTracker { count: (old(self).count + 1) as u64, ..*old(self) }),
    {
        self.count = self.count + 1;
    }

    /// Makes the report when one is due, and starts to count anew.
    pub fn report(&mut self, now: u64, timestamp: Timestamp) -> (log: Option<LogEntry>)
        ensures
            match log {
                Some(entry) => report_due(*old(self), now) && entry@ == drop_log(
                    old(self).count,
                    timestamp,
                ) && *final(self) == (DropTracker { count: 0, last_report: now }),
                None => !report_due(*old(self), now) && *final(self) == *old(self),
            },
    {
        if self.count == 0 || now < self.last_report || now - self.last_report
            < DROP_REPORT_INTERVAL {
            return None;
        }
        let digits = decimal_text(self.count);
        let mut message = "dropped ".to_owned();
        message.append(digits.as_str());
        message.append(" records (dispatcher behind)");
        let mut args: Vec<(String, String)> = Vec::new();
        assert(tag_texts(args@) =~= Seq::empty());
        push_pair(&mut args, "dropped", digits);
        let entry = LogEntry { timestamp, channel: "log.system".to_owned(), message, args };
        assert(entry@.args =~= seq![("dropped"@, decimal(self.count as nat))]);
        self.count = 0;
        self.last_report = now;
        Some(entry)
    }
}

/// A mirrored path is what is left of the sample's path: satellite, dot and field together are the
/// path, and the satellite holds no dot.
pub proof fn mirrors_split_the_path(sample: SampleTree, names: Seq<Seq<char>>)
    requires
        mirror(sample, names) is Some,
    ensures
        mirror(sample, names) matches Some(m) ==> {
            let satellite = m.tags->0[0].1;
            &&& m.tags == Some(seq![("satellite"@, satellite)])
            &&& names.contains(satellite)
            &&& !satellite.contains('.')
            &&& sample.path == satellite + "."@ + m.path
            &&& m.value == sample.value
            &&& m.changed == sample.changed
        },
{
    reveal_strlit(".");
    let path = sample.path;
    path.index_of_first_ensures('.');
    let dot = path.index_of_first('.')->0;
    let satellite = path.take(dot);
    assert forall|j: int| 0 <= j < satellite.len() implies satellite[j] != '.' by {
        assert(path[j] != '.');
    }
    assert(path =~= satellite + "."@ + path.skip(dot + 1));
}

/// Mirrors have tags, so they are not mirrored again.
pub proof fn mirrors_are_not_mirrored(sample: SampleTree, names: Seq<Seq<char>>)
    ensures
        mirror(sample, names) matches Some(m) ==> mirror(m, names) is None,
{
}

} // verus!
