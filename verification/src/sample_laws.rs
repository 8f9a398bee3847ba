//! What the samples of a record say: where each value stands, and when it counts as changed.
use crate::double::{Double, DoubleTree};
use crate::json::{entry_trees, lookup, Json, JsonTree, NumTree};
use crate::pipeline::{
    changed_count, cycle_record, fresh_keys, is_changed, is_snapshot, remembered, samples_in,
    LogEntry, MetricPipeline, MetricRecord,
};
use crate::samples::{
    flat, flat_entries, flat_items, tag_texts, value_in, MetricSample, MetricValue, SampleKey,
    SampleTree, ValueTree,
};
use crate::schedule::Timestamp;
use crate::text::{decimal, joined};
use vstd::prelude::*;

verus! {

/// Whether two bit patterns of doubles stand for different numbers, or one for no number: they
/// differ, except that zero has two signs, or one lies beyond infinity.
pub open spec fn numbers_differ(a: u64, b: u64) -> bool {
    let x = a as int % 0x8000_0000_0000_0000;
    let y = b as int % 0x8000_0000_0000_0000;
    x > 0x7FF0_0000_0000_0000 || y > 0x7FF0_0000_0000_0000 || (a != b && (x != 0 || y != 0))
}

/// In a delta a double is marked as changed exactly if it differs as a number from the double
/// remembered under its path and tags.
pub proof fn moved_doubles_are_changed(
    memory: Map<SampleKey, ValueTree>,
    sample: SampleTree,
    seen: DoubleTree,
    now: DoubleTree,
)
    requires
        memory.dom().contains(SampleKey { path: sample.path, tags: sample.tags }),
        memory[SampleKey { path: sample.path, tags: sample.tags }] == ValueTree::Double(seen),
        sample.value == ValueTree::Double(now),
    ensures
        is_changed(memory, false, sample) <==> numbers_differ(seen.bits, now.bits),
{
}

/// In a delta an integer, a text or a truth value is marked as changed exactly if another one is
/// remembered, nothing exactly if something is, and a value of another kind always.
pub proof fn other_values_change_with_their_content(
    memory: Map<SampleKey, ValueTree>,
    sample: SampleTree,
)
    requires
        memory.dom().contains(SampleKey { path: sample.path, tags: sample.tags }),
    ensures
        ({
            let seen = memory[SampleKey { path: sample.path, tags: sample.tags }];
            let changed = is_changed(memory, false, sample);
            match sample.value {
                ValueTree::Integer(i) => changed <==> !(seen is Integer && seen->Integer_0 == i),
                ValueTree::Text(s) => changed <==> !(seen is Text && seen->Text_0 == s),
                ValueTree::Bool(b) => changed <==> !(seen is Bool && seen->Bool_0 == b),
                ValueTree::Null => changed <==> !(seen is Null),
                ValueTree::Double(_) => seen !is Double ==> changed,
            }
        }),
{
}

/// In a delta a value is marked as changed where nothing is remembered under its path and tags,
/// and what is remembered under other tags or another path does not matter.
pub proof fn unknown_keys_are_changed(
    memory: Map<SampleKey, ValueTree>,
    sample: SampleTree,
    key: SampleKey,
    value: ValueTree,
)
    requires
        key != (SampleKey { path: sample.path, tags: sample.tags }),
    ensures
        !memory.dom().contains(SampleKey { path: sample.path, tags: sample.tags }) ==> is_changed(
            memory,
            false,
            sample,
        ),
        is_changed(memory.insert(key, value), false, sample) == is_changed(memory, false, sample),
{
}

/// The samples of a record's delta that carry a remembered double are marked exactly if the two
/// doubles differ as numbers; in a snapshot every sample is marked.
pub proof fn records_mark_what_moved(
    memory: Map<SampleKey, ValueTree>,
    cycle: u64,
    every: u64,
    entries: Seq<(Seq<char>, JsonTree)>,
    raw_json: Seq<char>,
    timestamp: Timestamp,
    i: int,
)
    requires
        0 <= i < samples_in(entries).len(),
        every > 0,
    ensures
        ({
            let plain = samples_in(entries);
            let record = cycle_record(memory, cycle, every, entries, raw_json, timestamp);
            let key = SampleKey { path: plain[i].path, tags: plain[i].tags };
            let sample = record.samples[i];
            &&& record.samples.len() == plain.len()
            &&& sample.path == plain[i].path
            &&& sample.tags == plain[i].tags
            &&& sample.value == plain[i].value
            &&& cycle % every == 0 ==> sample.changed
            &&& cycle % every != 0 && !memory.dom().contains(key) ==> sample.changed
            &&& cycle % every != 0 && memory.dom().contains(key) && memory[key] is Double
                && sample.value is Double ==> (sample.changed <==> numbers_differ(
                memory[key]->Double_0.bits,
                sample.value->Double_0.bits,
            ))
            &&& cycle % every != 0 && memory.dom().contains(key) && !(memory[key] is Double
                && sample.value is Double) ==> (sample.changed <==> memory[key] != sample.value)
        }),
{
}

/// Comparing two values that are doubles tells whether they are the same number.
pub proof fn doubles_compare_as_numbers(a: Double, b: Double, same: bool)
    requires
        call_ensures(
            MetricValue::same_value,
            (&MetricValue::Double(a), &MetricValue::Double(b)),
            same,
        ),
    ensures
        same <==> !numbers_differ(a.bits, b.bits),
{
}

/// A number that fits a signed integer becomes that integer, any other number a double; texts and
/// truth values stay what they are.
pub proof fn json_values_keep_their_content(value: Json, result: MetricValue)
    requires
        call_ensures(MetricValue::from_json, (&value,), result),
    ensures
        value matches Json::Number(n) ==> {
            &&& n.signed is Some ==> result@ == ValueTree::Integer(n.signed->0)
            &&& n.signed is None && n.double is Some ==> result@ == ValueTree::Double(n.double->0@)
        },
        value matches Json::Text(s) ==> result@ == ValueTree::Text(s@),
        value matches Json::Bool(b) ==> result == MetricValue::Bool(b),
        value is Null ==> result == MetricValue::Null,
{
}

/// A value that is neither an object nor an array is one sample, at its own path and with the tags
/// given; objects and arrays without content have no samples.
pub proof fn leaves_are_single_samples(
    prefix: Seq<char>,
    tags: Option<Seq<(Seq<char>, Seq<char>)>>,
    tree: JsonTree,
)
    ensures
        tree !is Object && tree !is Array ==> flat(prefix, tags, tree).len() == 1 && ({
            let sample = flat(prefix, tags, tree)[0];
            &&& sample.path == prefix
            &&& sample.tags == tags
            &&& sample.value == value_in(tree)
        }),
        flat(prefix, tags, JsonTree::Object(Seq::empty())).len() == 0,
        flat(prefix, tags, JsonTree::Array(Seq::empty())).len() == 0,
{
}

/// One more entry at the end of an object adds the samples of its value, with a dot and its key
/// behind the path of the object.
pub proof fn entries_add_their_samples(
    prefix: Seq<char>,
    tags: Option<Seq<(Seq<char>, Seq<char>)>>,
    entries: Seq<(Seq<char>, JsonTree)>,
    key: Seq<char>,
    value: JsonTree,
)
    ensures
        flat(prefix, tags, JsonTree::Object(entries.push((key, value)))) == flat(
            prefix,
            tags,
            JsonTree::Object(entries),
        ) + flat(prefix.push('.') + key, tags, value),
{
    reveal_strlit(".");
    lemma_entries_push(prefix, tags, entries, (key, value), entries.len());
    assert(prefix + "."@ =~= prefix.push('.'));
    assert(entries.push((key, value))[entries.len() as int] == (key, value));
}

proof fn lemma_entries_push(
    prefix: Seq<char>,
    tags: Option<Seq<(Seq<char>, Seq<char>)>>,
    entries: Seq<(Seq<char>, JsonTree)>,
    entry: (Seq<char>, JsonTree),
    n: nat,
)
    requires
        n <= entries.len(),
    ensures
        flat_entries(prefix, tags, entries.push(entry), n) == flat_entries(
            prefix,
            tags,
            entries,
            n,
        ),
    decreases n,
{
    if n > 0 {
        lemma_entries_push(prefix, tags, entries, entry, (n - 1) as nat);
        assert(entries.push(entry)[n - 1] == entries[n - 1]);
    }
}

/// One more item at the end of an array adds the samples of the item, with a dot and its place
/// behind the path of the array. Where there are no tags and the item is an object, it adds its
/// samples once more, under the path of the array itself and tagged with the place.
pub proof fn items_add_their_samples(
    prefix: Seq<char>,
    tags: Option<Seq<(Seq<char>, Seq<char>)>>,
    items: Seq<JsonTree>,
    item: JsonTree,
)
    ensures
        ({
            let place = decimal(items.len());
            let before = flat(prefix, tags, JsonTree::Array(items));
            let plain = flat(prefix.push('.') + place, tags, item);
            let all = flat(prefix, tags, JsonTree::Array(items.push(item)));
            &&& tags is None && item is Object ==> all == before + plain + flat(
                prefix,
                Some(seq![("index"@, place)]),
                item,
            )
            &&& tags is Some || item !is Object ==> all == before + plain
        }),
{
    reveal_strlit(".");
    lemma_items_push(prefix, tags, items, item, items.len());
    assert(prefix + "."@ =~= prefix.push('.'));
    assert(items.push(item)[items.len() as int] == item);
    let all = flat(prefix, tags, JsonTree::Array(items.push(item)));
    let plain = flat(prefix.push('.') + decimal(items.len()), tags, item);
    if tags is Some || item !is Object {
        assert(all =~= flat(prefix, tags, JsonTree::Array(items)) + plain);
    }
}

proof fn lemma_items_push(
    prefix: Seq<char>,
    tags: Option<Seq<(Seq<char>, Seq<char>)>>,
    items: Seq<JsonTree>,
    item: JsonTree,
    n: nat,
)
    requires
        n <= items.len(),
    ensures
        flat_items(prefix, tags, items.push(item), n) == flat_items(prefix, tags, items, n),
    decreases n,
{
    if n > 0 {
        lemma_items_push(prefix, tags, items, item, (n - 1) as nat);
        assert(items.push(item)[n - 1] == items[n - 1]);
    }
}

/// A record's entries add their samples in order, each under its own key and without tags. The
/// time, the interval and the duration of the collection add none.
pub proof fn records_sample_all_but_the_header(
    entries: Seq<(Seq<char>, JsonTree)>,
    key: Seq<char>,
    value: JsonTree,
)
    ensures
        samples_in(Seq::empty()).len() == 0,
        fresh_keys(Seq::empty()).len() == 0,
        key == "timestamp"@ || key == "interval_ms"@ || key == "collect_ms"@ ==> samples_in(
            entries.push((key, value)),
        ) == samples_in(entries) && fresh_keys(entries.push((key, value))) == fresh_keys(entries),
        key != "timestamp"@ && key != "interval_ms"@ && key != "collect_ms"@ ==> samples_in(
            entries.push((key, value)),
        ) == samples_in(entries) + flat(key, None, value) && fresh_keys(
            entries.push((key, value)),
        ) == fresh_keys(entries).push(key),
{
    assert(entries.push((key, value)).drop_last() =~= entries);
}

/// The entry under a key is found wherever it stands, the last of them where there are several,
/// and nothing is found under a key that no entry has.
pub proof fn entries_are_found(entries: Seq<(Seq<char>, JsonTree)>, key: Seq<char>, i: int)
    ensures
        0 <= i < entries.len() && entries[i].0 == key && (forall|j: int|
            i < j < entries.len() ==> (#[trigger] entries[j]).0 != key) ==> lookup(entries, key)
            == Some(entries[i].1),
        (forall|j: int| 0 <= j < entries.len() ==> (#[trigger] entries[j]).0 != key) ==> lookup(
            entries,
            key,
        ) is None,
    decreases entries.len(),
{
    if entries.len() > 0 {
        let rest = entries.drop_last();
        assert(forall|j: int| 0 <= j < rest.len() ==> (#[trigger] rest[j]) == entries[j]);
        entries_are_found(rest, key, i);
        assert(entries[entries.len() - 1] == entries.last());
    }
}

/// The header of a record is what its entries say: the text under `timestamp`, the unsigned number
/// under `interval_ms` and the number under `collect_ms`; what is missing or of another kind is
/// empty or zero.
pub proof fn headers_are_read(
    memory: Map<SampleKey, ValueTree>,
    cycle: u64,
    every: u64,
    entries: Seq<(Seq<char>, JsonTree)>,
    raw_json: Seq<char>,
    timestamp: Timestamp,
)
    ensures
        ({
            let record = cycle_record(memory, cycle, every, entries, raw_json, timestamp);
            let stamp = lookup(entries, "timestamp"@);
            let interval = lookup(entries, "interval_ms"@);
            let collect = lookup(entries, "collect_ms"@);
            &&& record.timestamp == timestamp
            &&& stamp matches Some(JsonTree::Text(s)) ==> record.timestamp_iso == s
            &&& !(stamp matches Some(JsonTree::Text(_))) ==> record.timestamp_iso.len() == 0
            &&& interval matches Some(JsonTree::Number(n)) ==> {
                &&& n.unsigned matches Some(u) ==> record.interval_ms == u
                &&& n.unsigned is None ==> record.interval_ms == 0
            }
            &&& !(interval matches Some(JsonTree::Number(_))) ==> record.interval_ms == 0
            &&& collect matches Some(JsonTree::Number(n)) ==> match n.double {
                Some(d) => record.collect_ms == d,
                None => record.collect_ms.bits == 0,
            }
            &&& !(collect matches Some(JsonTree::Number(_))) ==> record.collect_ms == (DoubleTree {
                bits: 0,
                text: "0"@,
                tenths: "0.0"@,
            })
        }),
{
}

/// A cycle is a snapshot exactly if it is a multiple of the interval; with an interval of zero only
/// the first one is.
pub proof fn snapshots_are_the_multiples(
    memory: Map<SampleKey, ValueTree>,
    cycle: u64,
    every: u64,
    entries: Seq<(Seq<char>, JsonTree)>,
    raw_json: Seq<char>,
    timestamp: Timestamp,
    k: int,
    r: int,
)
    requires
        0 <= k,
        every > 0 ==> cycle == k * every + r && 0 <= r < every,
    ensures
        cycle_record(memory, cycle, every, entries, raw_json, timestamp).snapshot == is_snapshot(
            cycle,
            every,
        ),
        every > 0 ==> (is_snapshot(cycle, every) <==> r == 0),
        every == 0 ==> (is_snapshot(cycle, every) <==> cycle == 0),
{
    if every > 0 {
        vstd::arithmetic::div_mod::lemma_fundamental_div_mod_converse(
            cycle as int,
            every as int,
            k,
            r,
        );
    }
}

/// The number of changed samples goes up by one with each changed sample and stays with each other
/// one.
pub proof fn changed_samples_are_counted(samples: Seq<SampleTree>, sample: SampleTree)
    ensures
        changed_count(Seq::empty()) == 0,
        sample.changed ==> changed_count(samples.push(sample)) == changed_count(samples) + 1,
        !sample.changed ==> changed_count(samples.push(sample)) == changed_count(samples),
{
    assert(samples.push(sample).drop_last() =~= samples);
}

/// Every cycle logs one line, which says of a snapshot how many samples there are, and of a delta
/// how many of how many have changed.
pub proof fn cycles_log_one_line(
    memory: Map<SampleKey, ValueTree>,
    cycle: u64,
    every: u64,
    entries: Seq<(Seq<char>, JsonTree)>,
    raw_json: Seq<char>,
    timestamp: Timestamp,
)
    ensures
        ({
            let record = cycle_record(memory, cycle, every, entries, raw_json, timestamp);
            let log = record.logs[0];
            let total = decimal(record.samples.len());
            let kind = if record.snapshot {
                "snapshot"@
            } else {
                "delta"@
            };
            let changed = if record.snapshot {
                total
            } else {
                decimal(changed_count(record.samples)) + "/"@ + total
            };
            let number = decimal(cycle as nat);
            let keys = joined(fresh_keys(entries), ","@);
            let collect = record.collect_ms.tenths;
            &&& record.logs.len() == 1
            &&& log.timestamp == timestamp
            &&& log.channel == "log.system"@
            &&& log.message == kind + " cycle="@ + number + " collectors=["@ + keys
                + "] changed="@ + changed + " collect_ms="@ + collect + " "@ + raw_json
            &&& log.args.len() == 6
            &&& log.args[0] == ("cycle"@, number)
            &&& log.args[1] == ("kind"@, kind)
            &&& log.args[2] == ("changed"@, changed)
            &&& log.args[3] == ("collectors"@, keys)
            &&& log.args[4] == ("collect_ms"@, collect)
            &&& log.args[5] == ("data"@, raw_json)
        }),
{
}

/// One more sample is remembered under its path and tags and leaves the rest of the memory alone.
pub proof fn samples_are_remembered_one_by_one(
    memory: Map<SampleKey, ValueTree>,
    samples: Seq<SampleTree>,
    sample: SampleTree,
)
    ensures
        remembered(memory, Seq::empty()) == memory,
        remembered(memory, samples.push(sample)) == remembered(memory, samples).insert(
            SampleKey { path: sample.path, tags: sample.tags },
            sample.value,
        ),
{
    assert(samples.push(sample).drop_last() =~= samples);
}

/// A pipeline counts its cycles and remembers the samples of each for the next one.
pub proof fn cycles_are_counted_and_remembered(
    pipeline: &mut MetricPipeline,
    raw: serde_json::Map<String, serde_json::Value>,
    entries: Vec<(String, Json)>,
    raw_json: String,
    timestamp: Timestamp,
    record: MetricRecord,
)
    requires
        call_ensures(
            MetricPipeline::process_entries,
            (pipeline, raw, &entries, raw_json, timestamp),
            record,
        ),
        old(pipeline).cycles() < u64::MAX,
    ensures
        final(pipeline).cycles() == old(pipeline).cycles() + 1,
        final(pipeline).every() == old(pipeline).every(),
        record.raw == raw,
        record.timestamp == timestamp,
        record@ == cycle_record(
            old(pipeline).memory(),
            old(pipeline).cycles(),
            old(pipeline).every(),
            entry_trees(entries@),
            raw_json@,
            timestamp,
        ),
        final(pipeline).memory() == remembered(
            old(pipeline).memory(),
            samples_in(entry_trees(entries@)),
        ),
{
}

proof fn lemma_single_entry(entries: Seq<(Seq<char>, JsonTree)>, key: Seq<char>, d: DoubleTree)
    requires
        entries == seq![
            (key, JsonTree::Number(NumTree { signed: None, unsigned: None, double: Some(d) })),
        ],
        key != "timestamp"@ && key != "interval_ms"@ && key != "collect_ms"@,
    ensures
        samples_in(entries) == seq![
            SampleTree { path: key, tags: None, value: ValueTree::Double(d), changed: true },
        ],
{
    let value = JsonTree::Number(NumTree { signed: None, unsigned: None, double: Some(d) });
    records_sample_all_but_the_header(Seq::empty(), key, value);
    assert(entries =~= Seq::empty().push((key, value)));
    leaves_are_single_samples(key, None, value);
    assert(samples_in(entries) =~= seq![
        SampleTree { path: key, tags: None, value: ValueTree::Double(d), changed: true },
    ]);
}

/// Of two records with a double under one key, the second one's is marked as changed exactly if
/// the doubles differ as numbers, and the log line counts it so. The first one's is always marked.
pub proof fn second_cycles_mark_moved_doubles(
    every: u64,
    fresh: MetricPipeline,
    first: &mut MetricPipeline,
    second: &mut MetricPipeline,
    raw: serde_json::Map<String, serde_json::Value>,
    before: Vec<(String, Json)>,
    after: Vec<(String, Json)>,
    raw_json: String,
    timestamp: Timestamp,
    one: MetricRecord,
    two: MetricRecord,
    key: Seq<char>,
    a: DoubleTree,
    b: DoubleTree,
)
    requires
        every > 1,
        call_ensures(MetricPipeline::new, (every,), fresh),
        fresh == *old(first),
        call_ensures(
            MetricPipeline::process_entries,
            (first, raw, &before, raw_json, timestamp),
            one,
        ),
        *final(first) == *old(second),
        call_ensures(
            MetricPipeline::process_entries,
            (second, raw, &after, raw_json, timestamp),
            two,
        ),
        key != "timestamp"@ && key != "interval_ms"@ && key != "collect_ms"@,
        entry_trees(before@) == seq![
            (key, JsonTree::Number(NumTree { signed: None, unsigned: None, double: Some(a) })),
        ],
        entry_trees(after@) == seq![
            (key, JsonTree::Number(NumTree { signed: None, unsigned: None, double: Some(b) })),
        ],
    ensures
        one@.snapshot && one@.samples.len() == 1 && one@.samples[0].changed,
        !two@.snapshot && two@.samples.len() == 1,
        two@.samples[0].changed <==> numbers_differ(a.bits, b.bits),
        two@.logs[0].args[2] == (
            "changed"@,
            if numbers_differ(a.bits, b.bits) {
                decimal(1) + "/"@ + decimal(1)
            } else {
                decimal(0) + "/"@ + decimal(1)
            },
        ),
{
    lemma_single_entry(entry_trees(before@), key, a);
    lemma_single_entry(entry_trees(after@), key, b);
    let memory = Map::<SampleKey, ValueTree>::empty();
    let seen = SampleTree { path: key, tags: None, value: ValueTree::Double(a), changed: true };
    samples_are_remembered_one_by_one(memory, Seq::empty(), seen);
    assert(Seq::empty().push(seen) =~= seq![seen]);
    records_mark_what_moved(
        final(first).memory(),
        1,
        every,
        entry_trees(after@),
        raw_json@,
        timestamp,
        0,
    );
    vstd::arithmetic::div_mod::lemma_small_mod(1, every as nat);
    let shown = two@.samples;
    changed_samples_are_counted(Seq::empty(), shown[0]);
    assert(shown =~= Seq::empty().push(shown[0]));
    cycles_log_one_line(
        final(first).memory(),
        1,
        every,
        entry_trees(after@),
        raw_json@,
        timestamp,
    );
}

/// The laws speak of records, samples and log lines field by field as they are.
pub proof fn records_are_spoken_of_as_they_are(
    record: MetricRecord,
    sample: MetricSample,
    log: LogEntry,
)
    ensures
        record@.timestamp == record.timestamp,
        record@.timestamp_iso == record.timestamp_iso@,
        record@.interval_ms == record.interval_ms,
        record@.collect_ms == record.collect_ms@,
        record@.snapshot == record.snapshot,
        record@.samples.len() == record.samples@.len(),
        forall|i: int|
            0 <= i < record.samples@.len() ==> #[trigger] record@.samples[i]
                == record.samples@[i]@,
        record@.logs.len() == record.logs@.len(),
        forall|i: int|
            0 <= i < record.logs@.len() ==> #[trigger] record@.logs[i] == record.logs@[i]@,
        sample@.path == sample.path@,
        sample.tags matches Some(tags) ==> sample@.tags == Some(tag_texts(tags@)),
        sample.tags is None ==> sample@.tags is None,
        sample@.value == sample.value@,
        sample@.changed == sample.changed,
        log@.timestamp == log.timestamp,
        log@.channel == log.channel@,
        log@.message == log.message@,
        log@.args == tag_texts(log.args@),
{
}

/// A double is spoken of by its bit pattern and its two renderings, and zero has its own.
pub proof fn doubles_are_spoken_of_as_they_are(d: Double, zero: Double, one: Double)
    requires
        call_ensures(Double::zero, (), zero),
        call_ensures(Double::one, (), one),
    ensures
        d@.bits == d.bits,
        d@.text == d.text@,
        d@.tenths == d.tenths@,
        zero.bits == 0 && zero.text@ == "0"@ && zero.tenths@ == "0.0"@,
        one.bits == 0x3FF0_0000_0000_0000 && one.text@ == "1"@ && one.tenths@ == "1.0"@,
{
}

} // verus!
