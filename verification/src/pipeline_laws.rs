//! What the metric pipeline keeps over all records and cycles.
use crate::double::is_nan;
use crate::json::JsonTree;
use crate::pipeline::{
    changed_count, cycle_record, is_changed, is_snapshot, key_of, marked, remembered,
};
use crate::samples::{
    dotted, flat, flat_entries, flat_items, index_tags, same_values, SampleKey, SampleTree,
    ValueTree,
};
use crate::schedule::Timestamp;
use crate::text::decimal;
use vstd::prelude::*;

verus! {

/// The first cycle is a snapshot, whatever the interval.
pub proof fn first_cycle_is_a_snapshot(snapshot_every: u64)
    ensures
        is_snapshot(0, snapshot_every),
{
}

/// With an interval of one every cycle is a snapshot.
pub proof fn without_deltas_every_cycle_is_a_snapshot(cycle: u64)
    ensures
        is_snapshot(cycle, 1),
{
}

/// Between a snapshot and the next one lie exactly `snapshot_every - 1` deltas.
pub proof fn snapshots_come_at_the_interval(cycle: u64, step: u64, snapshot_every: u64)
    requires
        snapshot_every > 0,
        is_snapshot(cycle, snapshot_every),
        step <= snapshot_every,
        cycle + step <= u64::MAX,
    ensures
        is_snapshot((cycle + step) as u64, snapshot_every) == (step == 0 || step
            == snapshot_every),
{
    let c = cycle as int;
    let s = step as int;
    let e = snapshot_every as int;
    vstd::arithmetic::div_mod::lemma_fundamental_div_mod(c, e);
    let q = c / e;
    if s < e {
        assert((c + s) == q * e + s) by (nonlinear_arith)
            requires
                c == e * q,
        ;
        vstd::arithmetic::div_mod::lemma_fundamental_div_mod_converse(c + s, e, q, s);
    } else {
        assert((c + s) == (q + 1) * e + 0) by (nonlinear_arith)
            requires
                c == e * q,
                s == e,
        ;
        vstd::arithmetic::div_mod::lemma_fundamental_div_mod_converse(c + s, e, q + 1, 0);
    }
}

/// In a snapshot every sample is marked as changed.
pub proof fn snapshots_mark_every_sample(
    memory: Map<SampleKey, ValueTree>,
    samples: Seq<SampleTree>,
    i: int,
)
    requires
        0 <= i < samples.len(),
    ensures
        marked(memory, true, samples)[i].changed,
        changed_count(marked(memory, true, samples)) == samples.len(),
{
    lemma_all_marked(marked(memory, true, samples));
}

proof fn lemma_all_marked(samples: Seq<SampleTree>)
    requires
        forall|i: int| 0 <= i < samples.len() ==> (#[trigger] samples[i]).changed,
    ensures
        changed_count(samples) == samples.len(),
    decreases samples.len(),
{
    if samples.len() > 0 {
        lemma_all_marked(samples.drop_last());
    }
}

/// Marking changes nothing but the marks.
pub proof fn marking_keeps_the_samples(
    memory: Map<SampleKey, ValueTree>,
    snapshot: bool,
    samples: Seq<SampleTree>,
    i: int,
)
    requires
        0 <= i < samples.len(),
    ensures
        marked(memory, snapshot, samples).len() == samples.len(),
        marked(memory, snapshot, samples)[i].path == samples[i].path,
        marked(memory, snapshot, samples)[i].tags == samples[i].tags,
        marked(memory, snapshot, samples)[i].value == samples[i].value,
{
}

/// No more samples are marked than there are.
pub proof fn changed_are_at_most_all(samples: Seq<SampleTree>)
    ensures
        changed_count(samples) <= samples.len(),
    decreases samples.len(),
{
    if samples.len() > 0 {
        changed_are_at_most_all(samples.drop_last());
    }
}

/// The value remembered under a key is that of the last sample with the key.
pub proof fn the_last_value_is_remembered(
    memory: Map<SampleKey, ValueTree>,
    samples: Seq<SampleTree>,
    i: int,
)
    requires
        0 <= i < samples.len(),
        forall|j: int| i < j < samples.len() ==> key_of(#[trigger] samples[j]) != key_of(samples[i]),
    ensures
        remembered(memory, samples).dom().contains(key_of(samples[i])),
        remembered(memory, samples)[key_of(samples[i])] == samples[i].value,
    decreases samples.len(),
{
    if i < samples.len() - 1 {
        assert(key_of(samples[samples.len() - 1]) != key_of(samples[i]));
        assert(samples.drop_last()[i] == samples[i]);
        assert forall|j: int| i < j < samples.drop_last().len() implies key_of(
            #[trigger] samples.drop_last()[j],
        ) != key_of(samples.drop_last()[i]) by {
            assert(samples.drop_last()[j] == samples[j]);
        }
        the_last_value_is_remembered(memory, samples.drop_last(), i);
    }
}

/// What no sample carries stays as it was remembered.
pub proof fn unseen_keys_keep_their_value(
    memory: Map<SampleKey, ValueTree>,
    samples: Seq<SampleTree>,
    key: SampleKey,
)
    requires
        forall|j: int| 0 <= j < samples.len() ==> key_of(#[trigger] samples[j]) != key,
    ensures
        remembered(memory, samples).dom().contains(key) == memory.dom().contains(key),
        remembered(memory, samples)[key] == memory[key],
    decreases samples.len(),
{
    if samples.len() > 0 {
        assert(key_of(samples[samples.len() - 1]) != key);
        assert forall|j: int| 0 <= j < samples.drop_last().len() implies key_of(
            #[trigger] samples.drop_last()[j],
        ) != key by {
            assert(samples.drop_last()[j] == samples[j]);
        }
        unseen_keys_keep_their_value(memory, samples.drop_last(), key);
    }
}

/// Whether a value equals itself. Only a double that is not a number does not.
pub open spec fn is_settled(value: ValueTree) -> bool {
    value matches ValueTree::Double(d) ==> !is_nan(d.bits)
}

/// A value seen again is not marked in a delta: once the samples have been processed, a sample
/// whose key stands last under its key, with a value that equals itself, has not changed.
pub proof fn repeated_values_are_unchanged(
    memory: Map<SampleKey, ValueTree>,
    samples: Seq<SampleTree>,
    i: int,
)
    requires
        0 <= i < samples.len(),
        forall|j: int| i < j < samples.len() ==> key_of(#[trigger] samples[j]) != key_of(samples[i]),
        is_settled(samples[i].value),
    ensures
        !is_changed(remembered(memory, samples), false, samples[i]),
{
    the_last_value_is_remembered(memory, samples, i);
}

/// A value that was not seen before, or differs from the one remembered, is marked in every cycle.
pub proof fn new_values_are_changed(
    memory: Map<SampleKey, ValueTree>,
    snapshot: bool,
    sample: SampleTree,
)
    requires
        !memory.dom().contains(key_of(sample)) || !same_values(
            memory[key_of(sample)],
            sample.value,
        ),
    ensures
        is_changed(memory, snapshot, sample),
{
}

/// A key that a record carries is remembered after it.
pub proof fn seen_keys_are_remembered(
    memory: Map<SampleKey, ValueTree>,
    samples: Seq<SampleTree>,
    i: int,
)
    requires
        0 <= i < samples.len(),
    ensures
        remembered(memory, samples).dom().contains(key_of(samples[i])),
    decreases samples.len(),
{
    if i < samples.len() - 1 {
        assert(samples.drop_last()[i] == samples[i]);
        seen_keys_are_remembered(memory, samples.drop_last(), i);
    }
}

/// The path of every sample begins with the path of the value that it was found in.
pub proof fn paths_begin_with_the_prefix(
    prefix: Seq<char>,
    tags: Option<Seq<(Seq<char>, Seq<char>)>>,
    tree: JsonTree,
    i: int,
)
    requires
        0 <= i < flat(prefix, tags, tree).len(),
    ensures
        prefix.is_prefix_of(flat(prefix, tags, tree)[i].path),
    decreases tree, 0nat,
{
    match tree {
        JsonTree::Object(entries) => {
            lemma_entry_paths(prefix, tags, entries, entries.len(), i);
        },
        JsonTree::Array(items) => {
            lemma_item_paths(prefix, tags, items, items.len(), i);
        },
        _ => {},
    }
}

proof fn lemma_below(prefix: Seq<char>, key: Seq<char>, path: Seq<char>)
    requires
        dotted(prefix, key).is_prefix_of(path),
    ensures
        prefix.is_prefix_of(path),
{
    let full = dotted(prefix, key);
    assert(full.take(prefix.len() as int) =~= prefix);
    assert(path.take(full.len() as int) =~= full);
    assert(path.take(prefix.len() as int) =~= full.take(prefix.len() as int));
}

proof fn lemma_entry_paths(
    prefix: Seq<char>,
    tags: Option<Seq<(Seq<char>, Seq<char>)>>,
    entries: Seq<(Seq<char>, JsonTree)>,
    n: nat,
    i: int,
)
    requires
        n <= entries.len(),
        0 <= i < flat_entries(prefix, tags, entries, n).len(),
    ensures
        prefix.is_prefix_of(flat_entries(prefix, tags, entries, n)[i].path),
    decreases entries, n,
{
    let entry = entries[n - 1];
    assert(decreases_to!(entries => entries[n - 1]));
    assert(decreases_to!(entry => entry.1));
    let before = flat_entries(prefix, tags, entries, (n - 1) as nat);
    if i < before.len() {
        lemma_entry_paths(prefix, tags, entries, (n - 1) as nat, i);
    } else {
        let path = dotted(prefix, entry.0);
        paths_begin_with_the_prefix(path, tags, entry.1, i - before.len());
        lemma_below(prefix, entry.0, flat(path, tags, entry.1)[i - before.len()].path);
    }
}

proof fn lemma_item_paths(
    prefix: Seq<char>,
    tags: Option<Seq<(Seq<char>, Seq<char>)>>,
    items: Seq<JsonTree>,
    n: nat,
    i: int,
)
    requires
        n <= items.len(),
        0 <= i < flat_items(prefix, tags, items, n).len(),
    ensures
        prefix.is_prefix_of(flat_items(prefix, tags, items, n)[i].path),
    decreases items, n,
{
    let item = items[n - 1];
    let place = (n - 1) as nat;
    assert(decreases_to!(items => items[n - 1]));
    let before = flat_items(prefix, tags, items, place);
    let path = dotted(prefix, decimal(place));
    let plain = flat(path, tags, item);
    if i < before.len() {
        lemma_item_paths(prefix, tags, items, place, i);
    } else if i < before.len() + plain.len() {
        paths_begin_with_the_prefix(path, tags, item, i - before.len());
        lemma_below(prefix, decimal(place), plain[i - before.len()].path);
    } else {
        paths_begin_with_the_prefix(
            prefix,
            Some(index_tags(place)),
            item,
            i - before.len() - plain.len(),
        );
    }
}

/// A record that comes again between snapshots has no changes, where each of its keys occurs once
/// and its values equal themselves.
pub proof fn repeated_records_have_no_changes(
    memory: Map<SampleKey, ValueTree>,
    samples: Seq<SampleTree>,
)
    requires
        forall|i: int, j: int|
            0 <= i < j < samples.len() ==> key_of(#[trigger] samples[i]) != key_of(
                #[trigger] samples[j],
            ),
        forall|i: int| 0 <= i < samples.len() ==> is_settled((#[trigger] samples[i]).value),
    ensures
        changed_count(marked(remembered(memory, samples), false, samples)) == 0,
{
    let again = marked(remembered(memory, samples), false, samples);
    assert forall|i: int| 0 <= i < again.len() implies !(#[trigger] again[i]).changed by {
        assert(key_of(samples[i]) == key_of(again[i]));
        repeated_values_are_unchanged(memory, samples, i);
    }
    lemma_none_marked(again);
}

proof fn lemma_none_marked(samples: Seq<SampleTree>)
    requires
        forall|i: int| 0 <= i < samples.len() ==> !(#[trigger] samples[i]).changed,
    ensures
        changed_count(samples) == 0,
    decreases samples.len(),
{
    if samples.len() > 0 {
        lemma_none_marked(samples.drop_last());
    }
}

/// The samples and the log text of a record do not depend on the time at which it is made.
pub proof fn time_leaves_the_samples_alone(
    memory: Map<SampleKey, ValueTree>,
    cycle: u64,
    snapshot_every: u64,
    entries: Seq<(Seq<char>, JsonTree)>,
    raw_json: Seq<char>,
    first: Timestamp,
    second: Timestamp,
)
    ensures
        cycle_record(memory, cycle, snapshot_every, entries, raw_json, first).samples
            == cycle_record(memory, cycle, snapshot_every, entries, raw_json, second).samples,
        cycle_record(memory, cycle, snapshot_every, entries, raw_json, first).logs[0].message
            == cycle_record(memory, cycle, snapshot_every, entries, raw_json, second).logs[0].message,
{
}

} // verus!
