//! Sets and maps that are keyed by a text and keep the order in which their
//! keys first came.

use vstd::hash_map::StringHashMap;
use vstd::hash_set::StringHashSet;
use vstd::prelude::*;

use crate::seqs;

verus! {

/// What can key a [`KeyMap`] or belong to a [`KeySet`]: a value that is told
/// apart by its text.
pub trait Key: View<V = Seq<char>> + Sized {
    /// The text of the key.
    fn text(&self) -> (text: &str)
        ensures
            text@ == self@,
    ;

    /// A copy of the key.
    fn duplicate(&self) -> (copy: Self)
        ensures
            copy@ == self@,
    ;
}

impl Key for String {
    fn text(&self) -> (text: &str) {
        self.as_str()
    }

    fn duplicate(&self) -> (copy: Self) {
        self.clone()
    }
}

/// Makes an owned string of a borrowed one.
fn owned(text: &str) -> (string: String)
    ensures
        string@ == text@,
{
    text.to_owned()
}

/// A set of keys. Its view lists the keys in the order in which they came,
/// each of them once.
pub struct KeySet<K: Key> {
    items: Vec<K>,
    members: StringHashSet,
}

impl<K: Key> View for KeySet<K> {
    type V = Seq<Seq<char>>;

    closed spec fn view(&self) -> Seq<Seq<char>> {
        Seq::new(self.items@.len(), |i: int| self.items@[i]@)
    }
}

/// What adding `key` to the listed set `keys` makes of it.
pub open spec fn with_key(keys: Seq<Seq<char>>, key: Seq<char>) -> Seq<Seq<char>> {
    if keys.contains(key) {
        keys
    } else {
        keys.push(key)
    }
}

/// What adding the keys of `more`, one after the other, makes of the listed set
/// `keys`.
pub open spec fn with_keys(keys: Seq<Seq<char>>, more: Seq<Seq<char>>) -> Seq<Seq<char>>
    decreases more.len(),
{
    if more.len() == 0 {
        keys
    } else {
        with_key(with_keys(keys, more.drop_last()), more.last())
    }
}

/// Adding a key makes it a member and keeps the set listed without duplicates.
pub proof fn lemma_with_key(keys: Seq<Seq<char>>, key: Seq<char>)
    ensures
        keys.no_duplicates() ==> with_key(keys, key).no_duplicates(),
        with_key(keys, key).to_set() == keys.to_set().insert(key),
{
    let after = with_key(keys, key);
    assert forall|k: Seq<char>| after.to_set().contains(k) == keys.to_set().insert(key).contains(
        k,
    ) by {
        seqs::lemma_push_members(keys, key, k);
    }
    assert(after.to_set() =~= keys.to_set().insert(key));
}

/// Adding keys is taking the union, and keeps the set listed without duplicates.
pub proof fn lemma_with_keys(keys: Seq<Seq<char>>, more: Seq<Seq<char>>)
    ensures
        keys.no_duplicates() ==> with_keys(keys, more).no_duplicates(),
        with_keys(keys, more).to_set() == keys.to_set().union(more.to_set()),
    decreases more.len(),
{
    if more.len() == 0 {
        assert(keys.to_set().union(more.to_set()) =~= keys.to_set());
    } else {
        let rest = more.drop_last();
        lemma_with_keys(keys, rest);
        lemma_with_key(with_keys(keys, rest), more.last());
        assert(more =~= rest.push(more.last()));
        assert forall|k: Seq<char>|
            keys.to_set().union(more.to_set()).contains(k) == keys.to_set().union(
                rest.to_set(),
            ).insert(more.last()).contains(k) by {
            seqs::lemma_push_members(rest, more.last(), k);
        }
        assert(keys.to_set().union(more.to_set()) =~= keys.to_set().union(rest.to_set()).insert(
            more.last(),
        ));
    }
}

impl<K: Key> KeySet<K> {
    #[verifier::type_invariant]
    pub closed spec fn inv(self) -> bool {
        &&& self@.no_duplicates()
        &&& self.members@ == self@.to_set()
    }

    /// The empty set.
    pub fn new() -> (set: Self)
        ensures
            set@ == Seq::<Seq<char>>::empty(),
    {
        let items: Vec<K> = Vec::new();
        let members = StringHashSet::new();
        proof {
            let keys = Seq::new(items@.len(), |i: int| items@[i]@);
            assert(keys =~= Seq::empty());
            assert(members@ =~= keys.to_set());
        }
        KeySet { items, members }
    }

    /// No key is listed twice.
    pub proof fn lemma_distinct(self)
        requires
            self.inv(),
        ensures
            self@.no_duplicates(),
    {
    }

    pub fn len(&self) -> (len: usize)
        ensures
            len == self@.len(),
    {
        self.items.len()
    }

    pub fn is_empty(&self) -> (empty: bool)
        ensures
            empty == (self@.len() == 0),
    {
        self.items.len() == 0
    }

    /// The key at `index`, in the order of the view.
    pub fn item(&self, index: usize) -> (key: &K)
        requires
            index < self@.len(),
        ensures
            key@ == self@[index as int],
    {
        &self.items[index]
    }

    pub fn contains(&self, key: &str) -> (found: bool)
        ensures
            found == self@.contains(key@),
    {
        proof {
            use_type_invariant(self);
        }
        self.members.contains(key)
    }

    /// Adds `key` at the end, unless it is there already.
    pub fn insert(&mut self, key: K)
        ensures
            final(self)@ == with_key(old(self)@, key@),
    {
        let mut whole = KeySet::new();
        std::mem::swap(self, &mut whole);
        proof {
            use_type_invariant(&whole);
        }
        let ghost before = whole@;
        let KeySet { mut items, mut members } = whole;
        if !members.contains(key.text()) {
            members.insert(owned(key.text()));
            let ghost text = key@;
            items.push(key);
            proof {
                let after = Seq::new(items@.len(), |i: int| items@[i]@);
                assert(after =~= before.push(text));
                assert(members@ =~= after.to_set()) by {
                    before.lemma_push_to_set_commute(text);
                }
            }
        }
        *self = KeySet { items, members };
    }

    /// Adds every key of `more`.
    pub fn extend(&mut self, more: &KeySet<K>)
        ensures
            final(self)@ == with_keys(old(self)@, more@),
    {
        let ghost before = self@;
        let count: usize = more.len();
        for i in 0..count
            invariant
                count == more@.len(),
                self@ == with_keys(before, more@.take(i as int)),
        {
            self.insert(more.item(i).duplicate());
            assert(more@.take(i + 1).drop_last() =~= more@.take(i as int));
        }
        assert(more@.take(more@.len() as int) =~= more@);
    }
}

/// The view of a [`KeyMap`]: its keys in the order in which they came, and what
/// each of them maps to.
#[verifier::ext_equal]
#[verifier::reject_recursive_types(V)]
pub struct Dict<V> {
    pub keys: Seq<Seq<char>>,
    pub map: Map<Seq<char>, V>,
}

impl<V> Dict<V> {
    pub open spec fn empty() -> Self {
        Dict { keys: Seq::empty(), map: Map::empty() }
    }

    /// Every key of the map is listed, and listed once.
    pub open spec fn wf(self) -> bool {
        &&& self.keys.no_duplicates()
        &&& self.keys.to_set() == self.map.dom()
    }

    pub open spec fn len(self) -> nat {
        self.keys.len()
    }

    pub open spec fn contains(self, key: Seq<char>) -> bool {
        self.map.contains_key(key)
    }

    /// The value under the key that is listed at `index`.
    pub open spec fn at(self, index: int) -> V {
        self.map[self.keys[index]]
    }

    /// The values in the order of their keys.
    pub open spec fn values(self) -> Seq<V> {
        Seq::new(self.len(), |i: int| self.at(i))
    }

    /// The value under `key`, if there is one.
    pub open spec fn get(self, key: Seq<char>) -> Option<V> {
        if self.map.contains_key(key) {
            Some(self.map[key])
        } else {
            None
        }
    }

    /// Puts `value` under `key`: in place of the value there, or else at the end.
    pub open spec fn insert(self, key: Seq<char>, value: V) -> Self {
        Dict { keys: with_key(self.keys, key), map: self.map.insert(key, value) }
    }

    /// What is left when the keys that `drop` lists are taken away.
    pub open spec fn without(self, drop: Seq<Seq<char>>) -> Self {
        Dict {
            keys: self.keys.filter(|key: Seq<char>| !drop.contains(key)),
            map: self.map.restrict(
                Set::new(|key: Seq<char>| self.map.contains_key(key) && !drop.contains(key)),
            ),
        }
    }

    /// A key is listed exactly when it is mapped.
    pub proof fn lemma_listed(self)
        requires
            self.wf(),
        ensures
            forall|key: Seq<char>| #[trigger]
                self.keys.contains(key) <==> self.map.contains_key(key),
            forall|i: int|
                0 <= i < self.keys.len() ==> self.map.contains_key(#[trigger] self.keys[i]),
    {
        assert forall|key: Seq<char>| #[trigger]
            self.keys.contains(key) <==> self.map.contains_key(key) by {
            assert(self.keys.to_set().contains(key) == self.keys.contains(key));
        }
        assert forall|i: int| 0 <= i < self.keys.len() implies self.map.contains_key(
            #[trigger] self.keys[i],
        ) by {
            assert(self.keys.contains(self.keys[i]));
        }
    }

    /// Inserting keeps every key listed once.
    pub proof fn lemma_insert(self, key: Seq<char>, value: V)
        requires
            self.wf(),
        ensures
            self.insert(key, value).wf(),
    {
        self.lemma_listed();
        let after = self.insert(key, value);
        if !self.keys.contains(key) {
            self.keys.lemma_push_to_set_commute(key);
        }
        assert(after.keys.to_set() =~= after.map.dom());
    }
}

/// A map from keys to values.
#[verifier::reject_recursive_types(V)]
pub struct KeyMap<K: Key, V> {
    entries: Vec<(K, V)>,
    index: StringHashMap<usize>,
}

impl<K: Key, V> View for KeyMap<K, V> {
    type V = Dict<V>;

    closed spec fn view(&self) -> Dict<V> {
        Dict {
            keys: Seq::new(self.entries@.len(), |i: int| self.entries@[i].0@),
            map: Map::new(
                |key: Seq<char>| self.index@.contains_key(key),
                |key: Seq<char>| self.entries@[self.index@[key] as int].1,
            ),
        }
    }
}

impl<K: Key, V> KeyMap<K, V> {
    #[verifier::type_invariant]
    pub closed spec fn inv(self) -> bool {
        &&& forall|i: int|
            0 <= i < self.entries@.len() ==> self.index@.contains_key(
                (#[trigger] self.entries@[i]).0@,
            ) && self.index@[self.entries@[i].0@] == i
        &&& forall|key: Seq<char>| #[trigger]
            self.index@.contains_key(key) ==> self.index@[key] < self.entries@.len()
                && self.entries@[self.index@[key] as int].0@ == key
    }

    /// Every key is listed, and listed once; and they can be counted.
    pub proof fn lemma_wf(self)
        requires
            self.inv(),
        ensures
            self@.wf(),
            self@.len() <= usize::MAX,
    {
        assert(self.entries.len() == self@.len());
        let keys = self@.keys;
        assert forall|i: int, j: int|
            0 <= i < keys.len() && 0 <= j < keys.len() && i != j implies keys[i] != keys[j] by {
            assert(keys[i] == self.entries@[i].0@);
            assert(keys[j] == self.entries@[j].0@);
        }
        assert forall|key: Seq<char>| keys.to_set().contains(key) <==> self@.map.dom().contains(
            key,
        ) by {
            if keys.contains(key) {
                let i = choose|i: int| 0 <= i < keys.len() && keys[i] == key;
                assert(self.entries@[i].0@ == key);
            }
            if self@.map.dom().contains(key) {
                assert(keys[self.index@[key] as int] == key);
            }
        }
        assert(keys.to_set() =~= self@.map.dom());
    }

    /// The empty map.
    pub fn new() -> (map: Self)
        ensures
            map@ == Dict::<V>::empty(),
    {
        let map = KeyMap { entries: Vec::new(), index: StringHashMap::new() };
        assert(map@ =~= Dict::<V>::empty());
        map
    }

    pub fn len(&self) -> (len: usize)
        ensures
            len == self@.len(),
    {
        self.entries.len()
    }

    pub fn is_empty(&self) -> (empty: bool)
        ensures
            empty == (self@.len() == 0),
    {
        self.entries.len() == 0
    }

    /// The key at `index`, in the order of the view.
    pub fn key(&self, index: usize) -> (key: &K)
        requires
            index < self@.len(),
        ensures
            key@ == self@.keys[index as int],
    {
        &self.entries[index].0
    }

    /// The value at `index`, in the order of the view.
    pub fn value(&self, index: usize) -> (value: &V)
        requires
            index < self@.len(),
        ensures
            *value == self@.at(index as int),
    {
        proof {
            use_type_invariant(self);
            assert(self.index@[self.entries@[index as int].0@] == index);
        }
        &self.entries[index].1
    }

    pub fn contains_key(&self, key: &str) -> (found: bool)
        ensures
            found == self@.contains(key@),
    {
        self.index.contains_key(key)
    }

    pub fn get(&self, key: &str) -> (value: Option<&V>)
        ensures
            value matches Some(v) ==> self@.get(key@) == Some(*v),
            value is None ==> self@.get(key@) is None,
    {
        proof {
            use_type_invariant(self);
        }
        match self.index.get(key) {
            Some(i) => Some(&self.entries[*i].1),
            None => None,
        }
    }

    /// The values in the order of their keys.
    pub fn into_values(self) -> (values: Vec<V>)
        ensures
            values@ == self@.values(),
    {
        proof {
            use_type_invariant(&self);
        }
        let ghost all = self@.values();
        let ghost entries = self.entries@;
        let mut values: Vec<V> = Vec::new();
        for entry in it: self.entries
            invariant
                it.seq() == entries,
                all.len() == entries.len(),
                forall|i: int| 0 <= i < entries.len() ==> all[i] == (#[trigger] entries[i]).1,
                values@ == all.take(it.index() as int),
        {
            let (_, value) = entry;
            values.push(value);
        }
        assert(all.take(all.len() as int) =~= all);
        values
    }

    /// The map without the keys of `drop`.
    pub fn without(self, drop: &KeySet<K>) -> (rest: Self)
        ensures
            rest@ == self@.without(drop@),
    {
        proof {
            use_type_invariant(&self);
            self.lemma_wf();
            self@.lemma_listed();
        }
        let ghost all = self@;
        let ghost keep = |key: Seq<char>| !drop@.contains(key);
        let ghost entries = self.entries@;
        let mut rest: KeyMap<K, V> = KeyMap::new();
        proof {
            seqs::lemma_filter_none(all.keys, keep);
        }
        for entry in it: self.entries
            invariant
                it.seq() == entries,
                all.wf(),
                all.keys.len() == entries.len(),
                forall|i: int|
                    0 <= i < entries.len() ==> all.keys[i] == (#[trigger] entries[i]).0@
                        && all.map[all.keys[i]] == entries[i].1,
                keep == (|key: Seq<char>| !drop@.contains(key)),
                rest@.keys == all.keys.take(it.index() as int).filter(keep),
                forall|key: Seq<char>| #[trigger]
                    rest@.map.contains_key(key) <==> rest@.keys.contains(key),
                forall|key: Seq<char>| #[trigger]
                    rest@.map.contains_key(key) ==> rest@.map[key] == all.map[key],
        {
            let ghost i = it.index() as int;
            let ghost done = rest@.keys;
            let (key, value) = entry;
            let ghost text = key@;
            proof {
                seqs::lemma_filter_next(all.keys, keep, i);
                seqs::lemma_filter_members(all.keys.take(i), keep);
            }
            if !drop.contains(key.text()) {
                rest.insert(key, value);
                proof {
                    if done.contains(text) {
                        let j = choose|j: int| 0 <= j < i && all.keys.take(i)[j] == text;
                        assert(all.keys[j] == all.keys[i]);
                    }
                    assert forall|k: Seq<char>| #[trigger]
                        rest@.map.contains_key(k) <==> rest@.keys.contains(k) by {
                        seqs::lemma_push_members(done, text, k);
                    }
                }
            }
        }
        proof {
            assert(all.keys.take(all.keys.len() as int) =~= all.keys);
            seqs::lemma_filter_members(all.keys, keep);
            all.lemma_listed();
            assert(rest@.map =~= all.without(drop@).map);
        }
        rest
    }

    /// Puts `value` under `key`: in place of the value there, or else at the end.
    pub fn insert(&mut self, key: K, value: V)
        ensures
            final(self)@ == old(self)@.insert(key@, value),
    {
        let mut whole = KeyMap::new();
        std::mem::swap(self, &mut whole);
        proof {
            use_type_invariant(&whole);
            whole.lemma_wf();
            whole@.lemma_listed();
        }
        let ghost before = whole;
        let ghost text = key@;
        let KeyMap { mut entries, mut index } = whole;
        let known = match index.get(key.text()) {
            Some(i) => Some(*i),
            None => None,
        };
        match known {
            Some(i) => {
                entries.set(i, (key, value));
            },
            None => {
                index.insert(owned(key.text()), entries.len());
                entries.push((key, value));
            },
        }
        let after = KeyMap { entries, index };
        proof {
            assert(after@.keys =~= before@.insert(text, value).keys);
            assert(after@.map =~= before@.insert(text, value).map);
        }
        *self = after;
    }
}

/// What a listed set is once a key is added: the key is in it, what was in it
/// still is, in the same places, and nothing else is new.
pub proof fn law_set_with_a_key(keys: Seq<Seq<char>>, key: Seq<char>, other: Seq<char>)
    ensures
        with_key(keys, key).contains(key),
        keys.is_prefix_of(with_key(keys, key)),
        other != key ==> (with_key(keys, key).contains(other) <==> keys.contains(other)),
        keys.no_duplicates() ==> with_key(keys, key).no_duplicates(),
        keys.contains(key) ==> with_key(keys, key) == keys,
{
    lemma_with_key(keys, key);
    let after = with_key(keys, key);
    assert(after.to_set().contains(key));
    assert(after.to_set().contains(other) <==> keys.to_set().insert(key).contains(other));
    assert(after.subrange(0, keys.len() as int) =~= keys);
}

/// What a listed set is once the keys of another are added: it has what either
/// has and nothing else, and what it had before comes first.
pub proof fn law_set_with_keys(keys: Seq<Seq<char>>, more: Seq<Seq<char>>, key: Seq<char>)
    ensures
        with_keys(keys, more).contains(key) <==> keys.contains(key) || more.contains(key),
        keys.is_prefix_of(with_keys(keys, more)),
        keys.no_duplicates() ==> with_keys(keys, more).no_duplicates(),
    decreases more.len(),
{
    lemma_with_keys(keys, more);
    let after = with_keys(keys, more);
    assert(after.to_set().contains(key) <==> keys.to_set().union(more.to_set()).contains(key));
    if more.len() == 0 {
        assert(after.subrange(0, keys.len() as int) =~= keys);
    } else {
        law_set_with_keys(keys, more.drop_last(), key);
        let before = with_keys(keys, more.drop_last());
        assert(after.subrange(0, keys.len() as int) =~= before.subrange(0, keys.len() as int));
    }
}

/// What is read from a map is what was put there: after a value is put under a
/// key, it is found under that key, in place of any before it, and every other
/// key keeps what it had.
pub proof fn law_map_gives_back<V>(dict: Dict<V>, key: Seq<char>, value: V, other: Seq<char>)
    requires
        dict.wf(),
    ensures
        dict.insert(key, value).wf(),
        dict.insert(key, value).get(key) == Some(value),
        dict.insert(key, value).contains(key),
        other != key ==> dict.insert(key, value).get(other) == dict.get(other),
        other != key ==> (dict.insert(key, value).contains(other) <==> dict.contains(other)),
        dict.insert(key, value).len() == dict.len() + if dict.contains(key) {
            0int
        } else {
            1int
        },
        Dict::<V>::empty().get(key) is None,
        Dict::<V>::empty().len() == 0,
        dict.get(other) == if dict.map.contains_key(other) {
            Some(dict.map[other])
        } else {
            None
        },
        dict.contains(other) <==> dict.keys.contains(other),
{
    dict.lemma_listed();
    dict.lemma_insert(key, value);
}

/// What is left of a map: the keys that were not to go, each with its value.
pub proof fn law_map_without<V>(dict: Dict<V>, drop: Seq<Seq<char>>, key: Seq<char>)
    requires
        dict.wf(),
    ensures
        dict.without(drop).wf(),
        dict.without(drop).map.contains_key(key) <==> dict.map.contains_key(key) && !drop.contains(
            key,
        ),
        dict.without(drop).map.contains_key(key) ==> dict.without(drop).map[key] == dict.map[key],
{
    let keep = |k: Seq<char>| !drop.contains(k);
    let rest = dict.without(drop);
    dict.lemma_listed();
    seqs::lemma_filter_members(dict.keys, keep);
    seqs::lemma_filter_distinct(dict.keys, keep);
    assert forall|k: Seq<char>| rest.keys.to_set().contains(k) <==> rest.map.dom().contains(k) by {
        assert(dict.keys.contains(k) <==> dict.map.contains_key(k));
        assert(dict.keys.filter(keep).contains(k) <==> dict.keys.contains(k) && keep(k));
    }
    assert(rest.keys.to_set() =~= rest.map.dom());
}

/// The values of a map are those under its keys, one for each, in their order.
pub proof fn law_map_values<V>(dict: Dict<V>, i: int)
    requires
        0 <= i < dict.keys.len(),
    ensures
        dict.values().len() == dict.keys.len(),
        dict.len() == dict.keys.len(),
        dict.values()[i] == dict.map[dict.keys[i]],
        dict.at(i) == dict.map[dict.keys[i]],
{
}

} // verus!
