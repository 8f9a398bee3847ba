//! Samples: the values of a JSON record, each under a flat path.
use crate::double::{equal_doubles, equals, Double, DoubleTree};
use crate::json::{array_tree, entry_trees, item_trees, json_tree, object_tree, Json, JsonTree};
use crate::text::{decimal, decimal_text};
use vstd::prelude::*;
use vstd::string::*;

verus! {

/// The value of a sample.
#[derive(Debug)]
pub enum MetricValue {
    Double(Double),
    Integer(i64),
    Text(String),
    Bool(bool),
    Null,
}

/// The value of a sample, with texts as characters.
pub enum ValueTree {
    Double(DoubleTree),
    Integer(i64),
    Text(Seq<char>),
    Bool(bool),
    Null,
}

impl View for MetricValue {
    type V = ValueTree;

    open spec fn view(&self) -> ValueTree {
        match *self {
            MetricValue::Double(d) => ValueTree::Double(d@),
            MetricValue::Integer(i) => ValueTree::Integer(i),
            MetricValue::Text(s) => ValueTree::Text(s@),
            MetricValue::Bool(b) => ValueTree::Bool(b),
            MetricValue::Null => ValueTree::Null,
        }
    }
}

impl Clone for MetricValue {
    fn clone(&self) -> (copy: Self)
        ensures
            copy == *self,
    {
        match self {
            MetricValue::Double(d) => MetricValue::Double(d.clone()),
            MetricValue::Integer(i) => MetricValue::Integer(*i),
            MetricValue::Text(s) => MetricValue::Text(s.clone()),
            MetricValue::Bool(b) => MetricValue::Bool(*b),
            MetricValue::Null => MetricValue::Null,
        }
    }
}

/// The sample value of a JSON value: an integer where it is one, else a double, else nothing.
/// Arrays and objects have no value of their own.
pub open spec fn value_in(tree: JsonTree) -> ValueTree {
    match tree {
        JsonTree::Number(n) => match n.signed {
            Some(i) => ValueTree::Integer(i),
            None => match n.double {
                Some(d) => ValueTree::Double(d),
                None => ValueTree::Null,
            },
        },
        JsonTree::Text(s) => ValueTree::Text(s),
        JsonTree::Bool(b) => ValueTree::Bool(b),
        _ => ValueTree::Null,
    }
}

/// Whether two values are equal. Doubles are compared as numbers, so one that is not a number
/// equals nothing.
pub open spec fn same_values(a: ValueTree, b: ValueTree) -> bool {
    match (a, b) {
        (ValueTree::Double(x), ValueTree::Double(y)) => equals(x.bits, y.bits),
        _ => a == b,
    }
}

impl MetricValue {
    /// The sample value of a JSON value.
    pub fn from_json(value: &Json) -> (result: MetricValue)
        ensures
            result@ == value_in(json_tree(*value)),
    {
        match value {
            Json::Number(n) => match n.signed {
                Some(i) => MetricValue::Integer(i),
                None => match &n.double {
                    Some(d) => MetricValue::Double(d.clone()),
                    None => MetricValue::Null,
                },
            },
            Json::Text(s) => MetricValue::Text(s.clone()),
            Json::Bool(b) => MetricValue::Bool(*b),
            Json::Null => MetricValue::Null,
            Json::Array(_) => MetricValue::Null,
            Json::Object(_) => MetricValue::Null,
        }
    }

    /// Whether the values are equal.
    pub fn same_value(&self, other: &MetricValue) -> (same: bool)
        ensures
            same == same_values(self@, other@),
    {
        match (self, other) {
            (MetricValue::Double(a), MetricValue::Double(b)) => equal_doubles(a.bits, b.bits),
            (MetricValue::Integer(a), MetricValue::Integer(b)) => *a == *b,
            (MetricValue::Text(a), MetricValue::Text(b)) => *a == *b,
            (MetricValue::Bool(a), MetricValue::Bool(b)) => *a == *b,
            (MetricValue::Null, MetricValue::Null) => true,
            _ => false,
        }
    }
}

/// Tags: names with their values.
pub open spec fn tag_texts(tags: Seq<(String, String)>) -> Seq<(Seq<char>, Seq<char>)> {
    tags.map_values(|t: (String, String)| (t.0@, t.1@))
}

/// A copy of the pairs.
pub fn copy_pairs(pairs: &Vec<(String, String)>) -> (copy: Vec<(String, String)>)
    ensures
        tag_texts(copy@) == tag_texts(pairs@),
{
    let mut copy: Vec<(String, String)> = Vec::new();
    for i in 0..pairs.len()
        invariant
            copy@.len() == i,
            forall|k: int| 0 <= k < i ==> #[trigger] copy@[k] == pairs@[k],
    {
        copy.push((pairs[i].0.clone(), pairs[i].1.clone()));
    }
    assert(tag_texts(copy@) =~= tag_texts(pairs@));
    copy
}

/// One value at one path. `changed` says whether it differs from what was seen before.
#[derive(Debug)]
pub struct MetricSample {
    pub path: String,
    pub tags: Option<Vec<(String, String)>>,
    pub value: MetricValue,
    pub changed: bool,
}

/// A sample, with texts as characters.
pub struct SampleTree {
    pub path: Seq<char>,
    pub tags: Option<Seq<(Seq<char>, Seq<char>)>>,
    pub value: ValueTree,
    pub changed: bool,
}

/// What a sample is remembered under.
pub struct SampleKey {
    pub path: Seq<char>,
    pub tags: Option<Seq<(Seq<char>, Seq<char>)>>,
}

/// The tags as texts, where there are any.
pub open spec fn optional_tags(tags: Option<Vec<(String, String)>>) -> Option<
    Seq<(Seq<char>, Seq<char>)>,
> {
    match tags {
        Some(list) => Some(tag_texts(list@)),
        None => None,
    }
}

impl View for MetricSample {
    type V = SampleTree;

    open spec fn view(&self) -> SampleTree {
        SampleTree {
            path: self.path@,
            tags: optional_tags(self.tags),
            value: self.value@,
            changed: self.changed,
        }
    }
}

/// The views of a list of samples.
pub open spec fn sample_trees(samples: Seq<MetricSample>) -> Seq<SampleTree> {
    samples.map_values(|s: MetricSample| s@)
}

/// A path one level below another.
pub open spec fn dotted(prefix: Seq<char>, key: Seq<char>) -> Seq<char> {
    prefix + "."@ + key
}

/// The tags of what stands at place `i` of an array.
pub open spec fn index_tags(i: nat) -> Seq<(Seq<char>, Seq<char>)> {
    seq![("index"@, decimal(i))]
}

/// The samples of a JSON value at a path. Objects and arrays add one level to the path for each
/// key or place. Without tags, each object in an array is sampled once more at the array's own
/// path, tagged with its place.
pub open spec fn flat(
    prefix: Seq<char>,
    tags: Option<Seq<(Seq<char>, Seq<char>)>>,
    tree: JsonTree,
) -> Seq<SampleTree>
    decreases tree, 0nat,
{
    match tree {
        JsonTree::Object(entries) => flat_entries(prefix, tags, entries, entries.len()),
        JsonTree::Array(items) => flat_items(prefix, tags, items, items.len()),
        _ => seq![SampleTree { path: prefix, tags, value: value_in(tree), changed: true }],
    }
}

/// The samples of the first `n` entries of an object.
pub open spec fn flat_entries(
    prefix: Seq<char>,
    tags: Option<Seq<(Seq<char>, Seq<char>)>>,
    entries: Seq<(Seq<char>, JsonTree)>,
    n: nat,
) -> Seq<SampleTree>
    decreases entries, n,
{
    if n == 0 || n > entries.len() {
        Seq::empty()
    } else {
        let entry = entries[n - 1];
        proof {
            assert(decreases_to!(entries => entries[n - 1]));
            assert(decreases_to!(entry => entry.1));
        }
        flat_entries(prefix, tags, entries, (n - 1) as nat) + flat(
            dotted(prefix, entry.0),
            tags,
            entry.1,
        )
    }
}

/// The samples of the first `n` items of an array.
pub open spec fn flat_items(
    prefix: Seq<char>,
    tags: Option<Seq<(Seq<char>, Seq<char>)>>,
    items: Seq<JsonTree>,
    n: nat,
) -> Seq<SampleTree>
    decreases items, n,
{
    if n == 0 || n > items.len() {
        Seq::empty()
    } else {
        let item = items[n - 1];
        let place = (n - 1) as nat;
        proof {
            assert(decreases_to!(items => items[n - 1]));
        }
        flat_items(prefix, tags, items, place) + flat(dotted(prefix, decimal(place)), tags, item)
            + if tags is None && item is Object {
            flat(prefix, Some(index_tags(place)), item)
        } else {
            Seq::empty()
        }
    }
}

/// Joins a path and a key with a dot.
fn dot_path(prefix: &str, key: &str) -> (path: String)
    ensures
        path@ == dotted(prefix@, key@),
{
    let mut path = prefix.to_owned();
    path.append(".");
    path.append(key);
    path
}

/// Appends the untagged samples of a value at a path, and the tagged ones of the objects in its
/// arrays.
pub fn flatten(prefix: &str, value: &Json, out: &mut Vec<MetricSample>)
    ensures
        sample_trees(final(out)@) == sample_trees(old(out)@) + flat(
            prefix@,
            None,
            json_tree(*value),
        ),
    decreases json_tree(*value),
{
    let ghost tree = json_tree(*value);
    let ghost before = sample_trees(out@);
    match value {
        Json::Object(entries) => {
            let ghost trees = entry_trees(entries@);
            proof {
                object_tree(*entries);
            }
            assert(sample_trees(out@) =~= before + flat_entries(prefix@, None, trees, 0));
            for i in 0..entries.len()
                invariant
                    tree == json_tree(*value),
                    tree == JsonTree::Object(trees),
                    trees == entry_trees(entries@),
                    before == sample_trees(old(out)@),
                    sample_trees(out@) == before + flat_entries(prefix@, None, trees, i as nat),
            {
                assert(decreases_to!(tree => tree->Object_0));
                assert(decreases_to!(trees => trees[i as int]));
                assert(decreases_to!(trees[i as int] => trees[i as int].1));
                assert(trees[i as int] == (entries@[i as int].0@, json_tree(entries@[i as int].1)));
                let path = dot_path(prefix, entries[i].0.as_str());
                flatten(path.as_str(), &entries[i].1, out);
                assert(sample_trees(out@) =~= before + flat_entries(
                    prefix@,
                    None,
                    trees,
                    (i + 1) as nat,
                ));
            }
        },
        Json::Array(items) => {
            let ghost trees = item_trees(items@);
            proof {
                array_tree(*items);
            }
            assert(sample_trees(out@) =~= before + flat_items(prefix@, None, trees, 0));
            for i in 0..items.len()
                invariant
                    tree == json_tree(*value),
                    tree == JsonTree::Array(trees),
                    trees == item_trees(items@),
                    before == sample_trees(old(out)@),
                    sample_trees(out@) == before + flat_items(prefix@, None, trees, i as nat),
            {
                assert(decreases_to!(tree => tree->Array_0));
                assert(decreases_to!(trees => trees[i as int]));
                assert(trees[i as int] == json_tree(items@[i as int]));
                let place = decimal_text(i as u64);
                let path = dot_path(prefix, place.as_str());
                flatten(path.as_str(), &items[i], out);
                let nested = match &items[i] {
                    Json::Object(_) => true,
                    _ => false,
                };
                if nested {
                    let mut tags: Vec<(String, String)> = Vec::new();
                    tags.push(("index".to_owned(), place));
                    assert(tag_texts(tags@) =~= index_tags(i as nat));
                    flatten_tagged(prefix, &items[i], &tags, out);
                }
                assert(sample_trees(out@) =~= before + flat_items(
                    prefix@,
                    None,
                    trees,
                    (i + 1) as nat,
                ));
            }
        },
        _ => {
            out.push(
                MetricSample {
                    path: prefix.to_owned(),
                    tags: None,
                    value: MetricValue::from_json(value),
                    changed: true,
                },
            );
            assert(sample_trees(out@) =~= before + flat(prefix@, None, tree));
        },
    }
}

/// Appends the samples of a value at a path, each with the given tags.
pub fn flatten_tagged(
    prefix: &str,
    value: &Json,
    tags: &Vec<(String, String)>,
    out: &mut Vec<MetricSample>,
)
    ensures
        sample_trees(final(out)@) == sample_trees(old(out)@) + flat(
            prefix@,
            Some(tag_texts(tags@)),
            json_tree(*value),
        ),
    decreases json_tree(*value),
{
    let ghost tree = json_tree(*value);
    let ghost before = sample_trees(out@);
    let ghost marks = Some(tag_texts(tags@));
    match value {
        Json::Object(entries) => {
            let ghost trees = entry_trees(entries@);
            proof {
                object_tree(*entries);
            }
            assert(sample_trees(out@) =~= before + flat_entries(prefix@, marks, trees, 0));
            for i in 0..entries.len()
                invariant
                    tree == json_tree(*value),
                    tree == JsonTree::Object(trees),
                    trees == entry_trees(entries@),
                    marks == Some(tag_texts(tags@)),
                    before == sample_trees(old(out)@),
                    sample_trees(out@) == before + flat_entries(prefix@, marks, trees, i as nat),
            {
                assert(decreases_to!(tree => tree->Object_0));
                assert(decreases_to!(trees => trees[i as int]));
                assert(decreases_to!(trees[i as int] => trees[i as int].1));
                assert(trees[i as int] == (entries@[i as int].0@, json_tree(entries@[i as int].1)));
                let path = dot_path(prefix, entries[i].0.as_str());
                flatten_tagged(path.as_str(), &entries[i].1, tags, out);
                assert(sample_trees(out@) =~= before + flat_entries(
                    prefix@,
                    marks,
                    trees,
                    (i + 1) as nat,
                ));
            }
        },
        Json::Array(items) => {
            let ghost trees = item_trees(items@);
            proof {
                array_tree(*items);
            }
            assert(sample_trees(out@) =~= before + flat_items(prefix@, marks, trees, 0));
            for i in 0..items.len()
                invariant
                    tree == json_tree(*value),
                    tree == JsonTree::Array(trees),
                    trees == item_trees(items@),
                    marks == Some(tag_texts(tags@)),
                    before == sample_trees(old(out)@),
                    sample_trees(out@) == before + flat_items(prefix@, marks, trees, i as nat),
            {
                assert(decreases_to!(tree => tree->Array_0));
                assert(decreases_to!(trees => trees[i as int]));
                assert(trees[i as int] == json_tree(items@[i as int]));
                let place = decimal_text(i as u64);
                let path = dot_path(prefix, place.as_str());
                flatten_tagged(path.as_str(), &items[i], tags, out);
                assert(sample_trees(out@) =~= before + flat_items(
                    prefix@,
                    marks,
                    trees,
                    (i + 1) as nat,
                ));
            }
        },
        _ => {
            out.push(
                MetricSample {
                    path: prefix.to_owned(),
                    tags: Some(copy_pairs(tags)),
                    value: MetricValue::from_json(value),
                    changed: true,
                },
            );
            assert(sample_trees(out@) =~= before + flat(prefix@, marks, tree));
        },
    }
}

} // verus!
