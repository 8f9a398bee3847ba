//! JSON records: the library's own tree of values, and how it is read out of `serde_json`.
use crate::double::{Double, DoubleTree};
use vstd::prelude::*;

verus! {

/// `serde_json::Value`, a JSON value. What it holds is `tree_of`.
#[verifier::external_type_specification]
#[verifier::external_body]
pub struct ExValue(serde_json::Value);

/// `serde_json::Map`, a JSON object. What it holds is `entries_of`.
#[verifier::external_type_specification]
#[verifier::external_body]
#[verifier::reject_recursive_types(K)]
#[verifier::reject_recursive_types(V)]
pub struct ExMap<K, V>(serde_json::Map<K, V>);

/// A number: as a signed integer, as an unsigned integer and as a double, each where it can be
/// represented so.
#[derive(Debug)]
pub struct Num {
    pub signed: Option<i64>,
    pub unsigned: Option<u64>,
    pub double: Option<Double>,
}

/// A JSON value. The entries of an object stand in iteration order.
#[derive(Debug)]
pub enum Json {
    Null,
    Bool(bool),
    Number(Num),
    Text(String),
    Array(Vec<Json>),
    Object(Vec<(String, Json)>),
}

/// A number, with the double's renderings as characters.
pub struct NumTree {
    pub signed: Option<i64>,
    pub unsigned: Option<u64>,
    pub double: Option<DoubleTree>,
}

/// A JSON value, with texts as characters.
pub enum JsonTree {
    Null,
    Bool(bool),
    Number(NumTree),
    Text(Seq<char>),
    Array(Seq<JsonTree>),
    Object(Seq<(Seq<char>, JsonTree)>),
}

impl View for Num {
    type V = NumTree;

    open spec fn view(&self) -> NumTree {
        NumTree {
            signed: self.signed,
            unsigned: self.unsigned,
            double: match self.double {
                Some(d) => Some(d@),
                None => None,
            },
        }
    }
}

/// The tree of a JSON value.
pub open spec fn json_tree(value: Json) -> JsonTree
    decreases value,
{
    match value {
        Json::Null => JsonTree::Null,
        Json::Bool(b) => JsonTree::Bool(b),
        Json::Number(n) => JsonTree::Number(n@),
        Json::Text(s) => JsonTree::Text(s@),
        Json::Array(items) => JsonTree::Array(
            Seq::new(
                items@.len(),
                |i: int|
                    if 0 <= i < items@.len() {
                        json_tree(items@[i])
                    } else {
                        JsonTree::Null
                    },
            ),
        ),
        Json::Object(entries) => JsonTree::Object(
            Seq::new(
                entries@.len(),
                |i: int|
                    if 0 <= i < entries@.len() {
                        (entries@[i].0@, json_tree(entries@[i].1))
                    } else {
                        (Seq::empty(), JsonTree::Null)
                    },
            ),
        ),
    }
}

/// The trees of the items of an array.
pub open spec fn item_trees(items: Seq<Json>) -> Seq<JsonTree> {
    items.map_values(|j: Json| json_tree(j))
}

/// The keys and trees of the entries of an object.
pub open spec fn entry_trees(entries: Seq<(String, Json)>) -> Seq<(Seq<char>, JsonTree)> {
    entries.map_values(|e: (String, Json)| (e.0@, json_tree(e.1)))
}

/// The tree of an array is the array of its items' trees.
pub proof fn array_tree(items: Vec<Json>)
    ensures
        json_tree(Json::Array(items)) == JsonTree::Array(item_trees(items@)),
{
    let tree = json_tree(Json::Array(items));
    assert(tree->Array_0 =~= item_trees(items@));
}

/// The tree of an object is the object of its entries' trees.
pub proof fn object_tree(entries: Vec<(String, Json)>)
    ensures
        json_tree(Json::Object(entries)) == JsonTree::Object(entry_trees(entries@)),
{
    let tree = json_tree(Json::Object(entries));
    assert(tree->Object_0 =~= entry_trees(entries@));
}

/// The value under a key, or nothing.
pub open spec fn lookup(entries: Seq<(Seq<char>, JsonTree)>, key: Seq<char>) -> Option<JsonTree>
    decreases entries.len(),
{
    if entries.len() == 0 {
        None
    } else if entries.last().0 == key {
        Some(entries.last().1)
    } else {
        lookup(entries.drop_last(), key)
    }
}

/// The value under a key, or nothing.
pub fn find<'a>(entries: &'a Vec<(String, Json)>, key: &str) -> (found: Option<&'a Json>)
    ensures
        match found {
            Some(value) => lookup(entry_trees(entries@), key@) == Some(json_tree(*value)),
            None => lookup(entry_trees(entries@), key@) is None,
        },
{
    let ghost trees = entry_trees(entries@);
    let wanted: String = key.to_owned();
    let mut found: Option<&'a Json> = None;
    let mut i: usize = 0;
    while i < entries.len()
        invariant
            i <= entries.len(),
            trees == entry_trees(entries@),
            wanted@ == key@,
            match found {
                Some(value) => lookup(trees.take(i as int), key@) == Some(json_tree(*value)),
                None => lookup(trees.take(i as int), key@) is None,
            },
        decreases entries.len() - i,
    {
        assert(trees.take(i + 1).drop_last() =~= trees.take(i as int));
        if entries[i].0 == wanted {
            found = Some(&entries[i].1);
        }
        i = i + 1;
    }
    assert(trees.take(entries.len() as int) =~= trees);
    found
}

/// What a `serde_json::Value` holds.
pub uninterp spec fn tree_of(value: serde_json::Value) -> JsonTree;

/// What a `serde_json::Map` holds, in iteration order.
pub uninterp spec fn entries_of(map: serde_json::Map<String, serde_json::Value>) -> Seq<
    (Seq<char>, JsonTree),
>;

/// The compact JSON text that `serde_json::to_string` makes of an object with these entries.
pub uninterp spec fn object_text(entries: Seq<(Seq<char>, JsonTree)>) -> Seq<char>;

/// Whether the characters of `a` come before those of `b` in the order of the alphabet.
pub open spec fn text_before(a: Seq<char>, b: Seq<char>) -> bool
    decreases b.len(),
{
    if b.len() == 0 {
        false
    } else if a.len() == 0 {
        true
    } else if a[0] == b[0] {
        text_before(a.skip(1), b.skip(1))
    } else {
        a[0] < b[0]
    }
}

/// A `serde_json::Value`, one level deep.
enum Node<'a> {
    Null,
    Bool(bool),
    Number,
    Text(&'a String),
    Array(&'a Vec<serde_json::Value>),
    Object(&'a serde_json::Map<String, serde_json::Value>),
}

spec fn opens_to(node: Node, tree: JsonTree) -> bool {
    match node {
        Node::Null => tree == JsonTree::Null,
        Node::Bool(b) => tree == JsonTree::Bool(b),
        Node::Number => tree is Number,
        Node::Text(s) => tree == JsonTree::Text(s@),
        Node::Array(items) => tree == JsonTree::Array(
            items@.map_values(|v: serde_json::Value| tree_of(v)),
        ),
        Node::Object(map) => tree == JsonTree::Object(entries_of(*map)),
    }
}

/// Tells the variants of `serde_json::Value` apart: a value is null, a boolean, a number, a text,
/// an array of values or an object, and what it holds is what that part holds.
#[verifier::external_body]
fn open_value(value: &serde_json::Value) -> (node: Node<'_>)
    ensures
        opens_to(node, tree_of(*value)),
{
    match value {
        serde_json::Value::Null => Node::Null,
        serde_json::Value::Bool(b) => Node::Bool(*b),
        serde_json::Value::Number(_) => Node::Number,
        serde_json::Value::String(s) => Node::Text(s),
        serde_json::Value::Array(items) => Node::Array(items),
        serde_json::Value::Object(map) => Node::Object(map),
    }
}

/// `serde_json::Map::iter`: the entries, in ascending order of their keys.
#[verifier::external_body]
fn map_entries(map: &serde_json::Map<String, serde_json::Value>) -> (entries: Vec<
    (&String, &serde_json::Value),
>)
    ensures
        entries@.map_values(|e: (&String, &serde_json::Value)| (e.0@, tree_of(*e.1))) == entries_of(
            *map,
        ),
        forall|i: int, j: int|
            0 <= i < j < entries@.len() ==> text_before(
                (#[trigger] entries@[i]).0@,
                (#[trigger] entries@[j]).0@,
            ),
{
    map.iter().collect()
}

/// `serde_json::Value::as_i64`: a number as a signed integer, where it is one.
#[verifier::external_body]
fn number_int(value: &serde_json::Value) -> (signed: Option<i64>)
    requires
        tree_of(*value) is Number,
    ensures
        signed == tree_of(*value)->Number_0.signed,
{
    value.as_i64()
}

/// `serde_json::Value::as_u64`: a number as an unsigned integer, where it is one.
#[verifier::external_body]
fn number_uint(value: &serde_json::Value) -> (unsigned: Option<u64>)
    requires
        tree_of(*value) is Number,
    ensures
        unsigned == tree_of(*value)->Number_0.unsigned,
{
    value.as_u64()
}

/// `serde_json::Value::as_f64`: a number as a double, by its bit pattern.
#[verifier::external_body]
fn number_bits(value: &serde_json::Value) -> (bits: Option<u64>)
    requires
        tree_of(*value) is Number,
    ensures
        match bits {
            Some(b) => tree_of(*value)->Number_0.double is Some
                && tree_of(*value)->Number_0.double->0.bits == b,
            None => tree_of(*value)->Number_0.double is None,
        },
{
    value.as_f64().map(|x| x.to_bits())
}

/// The double that `serde_json::Value::as_f64` returns, displayed.
#[verifier::external_body]
fn number_text(value: &serde_json::Value) -> (text: String)
    requires
        tree_of(*value) is Number,
        tree_of(*value)->Number_0.double is Some,
    ensures
        text@ == tree_of(*value)->Number_0.double->0.text,
{
    value.as_f64().unwrap_or_default().to_string()
}

/// The double that `serde_json::Value::as_f64` returns, displayed with one decimal place.
#[verifier::external_body]
fn number_tenths(value: &serde_json::Value) -> (text: String)
    requires
        tree_of(*value) is Number,
        tree_of(*value)->Number_0.double is Some,
    ensures
        text@ == tree_of(*value)->Number_0.double->0.tenths,
{
    format!("{:.1}", value.as_f64().unwrap_or_default())
}

/// `serde_json::to_string` of an object: a function of its entries. It does not fail on an object
/// whose keys are texts.
#[verifier::external_body]
pub(crate) fn map_text(map: &serde_json::Map<String, serde_json::Value>) -> (text: String)
    ensures
        text@ == object_text(entries_of(*map)),
{
    serde_json::to_string(map).unwrap_or_default()
}

fn read_number(value: &serde_json::Value) -> (num: Num)
    requires
        tree_of(*value) is Number,
    ensures
        tree_of(*value) == JsonTree::Number(num@),
{
    let signed: Option<i64> = number_int(value);
    let unsigned: Option<u64> = number_uint(value);
    let double: Option<Double> = match number_bits(value) {
        Some(bits) => Some(Double { bits, text: number_text(value), tenths: number_tenths(value) }),
        None => None,
    };
    Num { signed, unsigned, double }
}

/// Reads a `serde_json::Value` into the library's own tree.
pub fn read_value(value: &serde_json::Value) -> (json: Json)
    ensures
        json_tree(json) == tree_of(*value),
    decreases tree_of(*value),
{
    match open_value(value) {
        Node::Null => Json::Null,
        Node::Bool(b) => Json::Bool(b),
        Node::Number => Json::Number(read_number(value)),
        Node::Text(s) => Json::Text(s.clone()),
        Node::Array(items) => {
            let ghost trees = tree_of(*value)->Array_0;
            assert(trees == items@.map_values(|v: serde_json::Value| tree_of(v)));
            let mut list: Vec<Json> = Vec::new();
            for i in 0..items.len()
                invariant
                    tree_of(*value) == JsonTree::Array(trees),
                    trees == items@.map_values(|v: serde_json::Value| tree_of(v)),
                    list@.len() == i,
                    forall|k: int| 0 <= k < i ==> json_tree(#[trigger] list@[k]) == trees[k],
            {
                assert(tree_of(items@[i as int]) == trees[i as int]);
                assert(decreases_to!(tree_of(*value) => tree_of(*value)->Array_0));
                assert(decreases_to!(trees => trees[i as int]));
                list.push(read_value(&items[i]));
            }
            proof {
                array_tree(list);
                assert(item_trees(list@) =~= trees);
            }
            Json::Array(list)
        },
        Node::Object(map) => {
            assert(decreases_to!(tree_of(*value) => tree_of(*value)->Object_0));
            let list = read_entries(map);
            proof {
                object_tree(list);
            }
            Json::Object(list)
        },
    }
}

/// Reads a `serde_json::Map` into the library's own entries.
pub fn read_entries(map: &serde_json::Map<String, serde_json::Value>) -> (list: Vec<(String, Json)>)
    ensures
        entry_trees(list@) == entries_of(*map),
        forall|i: int, j: int|
            0 <= i < j < list@.len() ==> text_before(
                (#[trigger] list@[i]).0@,
                (#[trigger] list@[j]).0@,
            ),
    decreases entries_of(*map),
{
    let ghost trees = entries_of(*map);
    let entries = map_entries(map);
    let mut list: Vec<(String, Json)> = Vec::new();
    for i in 0..entries.len()
        invariant
            trees == entries_of(*map),
            trees == entries@.map_values(
                |e: (&String, &serde_json::Value)| (e.0@, tree_of(*e.1)),
            ),
            forall|a: int, b: int|
                0 <= a < b < entries@.len() ==> text_before(
                    (#[trigger] entries@[a]).0@,
                    (#[trigger] entries@[b]).0@,
                ),
            list@.len() == i,
            forall|k: int|
                0 <= k < i ==> (#[trigger] list@[k]).0@ == entries@[k].0@ && json_tree(list@[k].1)
                    == trees[k].1,
    {
        assert(trees[i as int] == (entries@[i as int].0@, tree_of(*entries@[i as int].1)));
        assert(decreases_to!(trees => trees[i as int]));
        assert(decreases_to!(trees[i as int] => trees[i as int].1));
        let value = read_value(entries[i].1);
        list.push((entries[i].0.clone(), value));
    }
    assert(entry_trees(list@) =~= trees);
    list
}

} // verus!
