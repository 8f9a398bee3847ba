//! A map kept as a list of pairs with distinct keys.
use vstd::prelude::*;

verus! {

/// What a map can be keyed by: a value that stands for something that can be compared.
pub trait Keyed: Sized {
    /// What the value stands for.
    type Id;

    /// What this value stands for.
    spec fn id(&self) -> Self::Id;

    /// Whether both values stand for the same thing.
    fn same_id(&self, other: &Self) -> (same: bool)
        ensures
            same == (self.id() == other.id()),
    ;
}

impl Keyed for String {
    type Id = Seq<char>;

    open spec fn id(&self) -> Seq<char> {
        self@
    }

    fn same_id(&self, other: &Self) -> (same: bool) {
        *self == *other
    }
}

/// The values of a map as characters.
pub open spec fn text_values(map: Map<Seq<char>, String>) -> Map<Seq<char>, Seq<char>> {
    map.map_values(|s: String| s@)
}

/// Setting a value and taking the characters can be exchanged.
pub(crate) proof fn lemma_text_insert(map: Map<Seq<char>, String>, key: Seq<char>, value: String)
    ensures
        text_values(map.insert(key, value)) == text_values(map).insert(key, value@),
{
    assert(text_values(map.insert(key, value)) =~= text_values(map).insert(key, value@));
}

/// A map, as a list of pairs with distinct keys.
#[verifier::reject_recursive_types(K)]
#[verifier::reject_recursive_types(V)]
pub struct Assoc<K: Keyed, V> {
    entries: Vec<(K, V)>,
}

/// The position of a key in a list of pairs.
spec fn place<K: Keyed, V>(entries: Seq<(K, V)>, key: K::Id) -> int {
    choose|i: int| 0 <= i < entries.len() && (#[trigger] entries[i]).0.id() == key
}

spec fn holds_key<K: Keyed, V>(entries: Seq<(K, V)>, key: K::Id) -> bool {
    exists|i: int| 0 <= i < entries.len() && (#[trigger] entries[i]).0.id() == key
}

spec fn distinct<K: Keyed, V>(entries: Seq<(K, V)>) -> bool {
    forall|i: int, j: int|
        0 <= i < j < entries.len() ==> (#[trigger] entries[i]).0.id() != (
        #[trigger] entries[j]).0.id()
}

spec fn contents<K: Keyed, V>(entries: Seq<(K, V)>) -> Map<K::Id, V> {
    Map::new(
        |key: K::Id| holds_key(entries, key),
        |key: K::Id| entries[place(entries, key)].1,
    )
}

impl<K: Keyed, V> View for Assoc<K, V> {
    type V = Map<K::Id, V>;

    closed spec fn view(&self) -> Map<K::Id, V> {
        contents(self.entries@)
    }
}

impl<K: Keyed, V> Assoc<K, V> {
    /// No key occurs twice.
    #[verifier::type_invariant]
    spec fn keys_distinct(&self) -> bool {
        distinct(self.entries@)
    }

    /// The empty map.
    pub fn new() -> (map: Self)
        ensures
            map@ == Map::<K::Id, V>::empty(),
    {
        let map = Assoc { entries: Vec::new() };
        assert(map@ =~= Map::<K::Id, V>::empty());
        map
    }

    /// The value under a key, or nothing.
    pub fn get(&self, key: &K) -> (found: Option<&V>)
        ensures
            match found {
                Some(value) => self@.dom().contains(key.id()) && self@[key.id()] == *value,
                None => !self@.dom().contains(key.id()),
            },
    {
        proof {
            use_type_invariant(self);
        }
        let mut i: usize = 0;
        while i < self.entries.len()
            invariant
                i <= self.entries.len(),
                distinct(self.entries@),
                forall|j: int| 0 <= j < i ==> (#[trigger] self.entries@[j]).0.id() != key.id(),
            decreases self.entries.len() - i,
        {
            if self.entries[i].0.same_id(key) {
                proof {
                    let at = place(self.entries@, key.id());
                    assert(self.entries@[i as int].0.id() == key.id());
                    assert(at == i);
                }
                return Some(&self.entries[i].1);
            }
            i = i + 1;
        }
        None
    }

    /// Sets the value under a key.
    pub fn insert(&mut self, key: K, value: V)
        ensures
            final(self)@ == old(self)@.insert(key.id(), value),
    {
        proof {
            use_type_invariant(&*self);
        }
        let mut entries: Vec<(K, V)> = Vec::new();
        std::mem::swap(&mut entries, &mut self.entries);
        put(&mut entries, key, value);
        self.entries = entries;
    }
}

fn put<K: Keyed, V>(entries: &mut Vec<(K, V)>, key: K, value: V)
    requires
        distinct(old(entries)@),
    ensures
        distinct(final(entries)@),
        contents(final(entries)@) == contents(old(entries)@).insert(key.id(), value),
{
    let ghost before = entries@;
    let mut i: usize = 0;
    while i < entries.len()
        invariant
            i <= entries.len(),
            entries@ == before,
            before == old(entries)@,
            distinct(before),
            forall|j: int| 0 <= j < i ==> (#[trigger] before[j]).0.id() != key.id(),
        decreases entries.len() - i,
    {
        if entries[i].0.same_id(&key) {
            let ghost k = key.id();
            entries.set(i, (key, value));
            proof {
                lemma_replaced(before, entries@, i as int, k, value);
            }
            return;
        }
        i = i + 1;
    }
    let ghost k = key.id();
    entries.push((key, value));
    proof {
        assert(entries@.drop_last() =~= before);
        lemma_added(before, entries@, k, value);
    }
}

proof fn lemma_replaced<K: Keyed, V>(
    before: Seq<(K, V)>,
    after: Seq<(K, V)>,
    at: int,
    key: K::Id,
    value: V,
)
    requires
        0 <= at < before.len(),
        after == before.update(at, after[at]),
        before[at].0.id() == key,
        after[at].0.id() == key,
        after[at].1 == value,
        distinct(before),
    ensures
        distinct(after),
        contents(after) == contents(before).insert(key, value),
{
    assert forall|i: int| 0 <= i < after.len() implies (#[trigger] after[i]).0.id()
        == before[i].0.id() by {}
    assert forall|k: K::Id| holds_key(after, k) == (holds_key(before, k) || k == key) by {
        if holds_key(after, k) {
            let i = place(after, k);
            assert(before[i].0.id() == k);
        }
        if holds_key(before, k) {
            let i = place(before, k);
            assert(after[i].0.id() == k);
        }
        assert(after[at].0.id() == key);
    }
    assert forall|k: K::Id| holds_key(after, k) implies contents(after)[k] == contents(
        before,
    ).insert(key, value)[k] by {
        let i = place(after, k);
        assert(after[i].0.id() == k);
        assert(before[i].0.id() == k);
        let j = place(before, k);
        assert(before[j].0.id() == k);
        assert(i == j);
        if k == key {
            assert(before[at].0.id() == k);
            assert(i == at);
        }
    }
    assert(contents(after) =~= contents(before).insert(key, value));
}

proof fn lemma_added<K: Keyed, V>(before: Seq<(K, V)>, after: Seq<(K, V)>, key: K::Id, value: V)
    requires
        after.len() == before.len() + 1,
        after.drop_last() == before,
        after.last().0.id() == key,
        after.last().1 == value,
        forall|j: int| 0 <= j < before.len() ==> (#[trigger] before[j]).0.id() != key,
        distinct(before),
    ensures
        distinct(after),
        contents(after) == contents(before).insert(key, value),
{
    let last = after.len() - 1;
    assert forall|i: int| 0 <= i < before.len() implies #[trigger] after[i] == before[i] by {
        assert(after.drop_last()[i] == after[i]);
    }
    assert forall|k: K::Id| holds_key(after, k) == (holds_key(before, k) || k == key) by {
        if holds_key(after, k) {
            let i = place(after, k);
            if i < last {
                assert(before[i].0.id() == k);
            }
        }
        if holds_key(before, k) {
            let i = place(before, k);
            assert(after[i].0.id() == k);
        }
        assert(after[last].0.id() == key);
    }
    assert forall|k: K::Id| holds_key(after, k) implies contents(after)[k] == contents(
        before,
    ).insert(key, value)[k] by {
        let i = place(after, k);
        assert(after[i].0.id() == k);
        if k != key {
            assert(i < last);
            assert(before[i].0.id() == k);
            let j = place(before, k);
            assert(before[j].0.id() == k);
            assert(i == j);
        } else if i < last {
            assert(before[i].0.id() == key);
        }
    }
    assert(contents(after) =~= contents(before).insert(key, value));
}

} // verus!
