//! A map from text keys to values, kept as a list of entries with distinct
//! keys.  Its content is a mathematical map; the order of the entries is only
//! the order in which they are handed out.

use crate::json::JsonValue;
use vstd::prelude::*;
use vstd::std_specs::cmp::PartialEqSpec;

verus! {

/// The map that a list of key-value pairs stands for.  Where a key occurs
/// more than once, its last pair counts.
pub open spec fn pairs_to_map<K, T>(pairs: Seq<(K, T)>) -> Map<K, T>
    decreases pairs.len(),
{
    if pairs.len() == 0 {
        Map::empty()
    } else {
        pairs_to_map(pairs.drop_last()).insert(pairs.last().0, pairs.last().1)
    }
}

/// No key occurs in two pairs.
pub open spec fn distinct_keys<K, T>(pairs: Seq<(K, T)>) -> bool {
    forall|i: int, j: int|
        0 <= i < pairs.len() && 0 <= j < pairs.len() && i != j ==> pairs[i].0 != pairs[j].0
}

/// Some pair has this key.
pub open spec fn has_key<K, T>(pairs: Seq<(K, T)>, key: K) -> bool {
    exists|i: int| 0 <= i < pairs.len() && #[trigger] pairs[i].0 == key
}

/// The keys of the map are the keys of the pairs.
pub proof fn lemma_pairs_dom<K, T>(pairs: Seq<(K, T)>, key: K)
    ensures
        pairs_to_map(pairs).contains_key(key) <==> has_key(pairs, key),
        pairs_to_map(pairs).dom().finite(),
    decreases pairs.len(),
{
    if pairs.len() > 0 {
        let front = pairs.drop_last();
        lemma_pairs_dom(front, key);
        if has_key(pairs, key) {
            let i = choose|i: int| 0 <= i < pairs.len() && #[trigger] pairs[i].0 == key;
            if i < pairs.len() - 1 {
                assert(front[i].0 == key);
            }
        }
        if has_key(front, key) {
            let i = choose|i: int| 0 <= i < front.len() && #[trigger] front[i].0 == key;
            assert(pairs[i].0 == key);
        }
        if pairs.last().0 == key {
            assert(pairs[pairs.len() - 1].0 == key);
        }
    }
}

/// With distinct keys, each pair's key maps to that pair's value.
pub proof fn lemma_pairs_value<K, T>(pairs: Seq<(K, T)>, i: int)
    requires
        distinct_keys(pairs),
        0 <= i < pairs.len(),
    ensures
        pairs_to_map(pairs).contains_key(pairs[i].0),
        pairs_to_map(pairs)[pairs[i].0] == pairs[i].1,
    decreases pairs.len(),
{
    let front = pairs.drop_last();
    if i < pairs.len() - 1 {
        assert(distinct_keys(front)) by {
            assert forall|a: int, b: int|
                0 <= a < front.len() && 0 <= b < front.len() && a != b implies front[a].0
                != front[b].0 by {
                assert(front[a] == pairs[a] && front[b] == pairs[b]);
            }
        }
        lemma_pairs_value(front, i);
        assert(front[i] == pairs[i]);
        assert(pairs[pairs.len() - 1].0 != pairs[i].0);
    }
}

/// Replacing the value of the pair at `i` sets that key in the map.
pub proof fn lemma_pairs_update<K, T>(pairs: Seq<(K, T)>, i: int, value: T)
    requires
        distinct_keys(pairs),
        0 <= i < pairs.len(),
    ensures
        distinct_keys(pairs.update(i, (pairs[i].0, value))),
        pairs_to_map(pairs.update(i, (pairs[i].0, value))) == pairs_to_map(pairs).insert(
            pairs[i].0,
            value,
        ),
{
    let key = pairs[i].0;
    let after = pairs.update(i, (key, value));
    assert(distinct_keys(after)) by {
        assert forall|a: int, b: int|
            0 <= a < after.len() && 0 <= b < after.len() && a != b implies after[a].0
            != after[b].0 by {
            assert(after[a].0 == pairs[a].0 && after[b].0 == pairs[b].0);
        }
    }
    let target = pairs_to_map(pairs).insert(key, value);
    assert forall|k: K| pairs_to_map(after).contains_key(k) <==> target.contains_key(k) by {
        lemma_pairs_dom(after, k);
        lemma_pairs_dom(pairs, k);
        if has_key(after, k) {
            let a = choose|a: int| 0 <= a < after.len() && #[trigger] after[a].0 == k;
            assert(pairs[a].0 == k);
        }
        if has_key(pairs, k) {
            let a = choose|a: int| 0 <= a < pairs.len() && #[trigger] pairs[a].0 == k;
            assert(after[a].0 == k);
        }
        if k == key {
            assert(after[i].0 == k);
        }
    }
    assert forall|k: K| pairs_to_map(after).contains_key(k) implies pairs_to_map(after)[k]
        == target[k] by {
        lemma_pairs_dom(after, k);
        let a = choose|a: int| 0 <= a < after.len() && #[trigger] after[a].0 == k;
        lemma_pairs_value(after, a);
        if a != i {
            lemma_pairs_value(pairs, a);
            assert(pairs[a].0 != pairs[i].0);
        }
    }
    assert(pairs_to_map(after) =~= target);
}

/// Adding a pair with a fresh key keeps the keys distinct.
pub proof fn lemma_pairs_push<K, T>(pairs: Seq<(K, T)>, key: K, value: T)
    requires
        distinct_keys(pairs),
        !has_key(pairs, key),
    ensures
        distinct_keys(pairs.push((key, value))),
        pairs_to_map(pairs.push((key, value))) == pairs_to_map(pairs).insert(key, value),
{
    let after = pairs.push((key, value));
    assert forall|a: int, b: int|
        0 <= a < after.len() && 0 <= b < after.len() && a != b implies after[a].0
        != after[b].0 by {
        if a < pairs.len() {
            assert(pairs[a].0 == after[a].0);
        }
        if b < pairs.len() {
            assert(pairs[b].0 == after[b].0);
        }
    }
    assert(after.drop_last() =~= pairs);
}

/// Taking out the pair at `i` takes its key out of the map.
pub proof fn lemma_pairs_remove<K, T>(pairs: Seq<(K, T)>, i: int)
    requires
        distinct_keys(pairs),
        0 <= i < pairs.len(),
    ensures
        distinct_keys(pairs.remove(i)),
        pairs_to_map(pairs.remove(i)) == pairs_to_map(pairs).remove(pairs[i].0),
{
    let key = pairs[i].0;
    let after = pairs.remove(i);
    assert(distinct_keys(after)) by {
        assert forall|a: int, b: int|
            0 <= a < after.len() && 0 <= b < after.len() && a != b implies after[a].0
            != after[b].0 by {
            let a0 = if a < i { a } else { a + 1 };
            let b0 = if b < i { b } else { b + 1 };
            assert(after[a] == pairs[a0] && after[b] == pairs[b0]);
        }
    }
    let target = pairs_to_map(pairs).remove(key);
    assert forall|k: K| pairs_to_map(after).contains_key(k) <==> target.contains_key(k) by {
        lemma_pairs_dom(after, k);
        lemma_pairs_dom(pairs, k);
        if has_key(after, k) {
            let a = choose|a: int| 0 <= a < after.len() && #[trigger] after[a].0 == k;
            let a0 = if a < i { a } else { a + 1 };
            assert(pairs[a0].0 == k);
        }
        if has_key(pairs, k) && k != key {
            let a = choose|a: int| 0 <= a < pairs.len() && #[trigger] pairs[a].0 == k;
            let a1 = if a < i { a } else { a - 1 };
            assert(after[a1].0 == k);
        }
    }
    assert forall|k: K| pairs_to_map(after).contains_key(k) implies pairs_to_map(after)[k]
        == target[k] by {
        lemma_pairs_dom(after, k);
        let a = choose|a: int| 0 <= a < after.len() && #[trigger] after[a].0 == k;
        let a0 = if a < i { a } else { a + 1 };
        lemma_pairs_value(after, a);
        lemma_pairs_value(pairs, a0);
        assert(after[a] == pairs[a0]);
    }
    assert(pairs_to_map(after) =~= target);
}

/// A map from text keys to values.  Two maps are equal where they hold
/// equal values under the same keys, in whatever order.
#[derive(Debug)]
pub struct StrMap<V: View> {
    entries: Vec<(String, V)>,
}

impl<V: View + PartialEq> StrMap<V> {
    /// The entry at `i` has an entry of the same key in the other map, with
    /// a value that `==` takes for equal.
    pub closed spec fn matched(&self, other: &Self, i: int) -> bool {
        exists|j: int|
            0 <= j < other.entries.len() && #[trigger] other.entries[j].0@ == self.entries[i].0@
                && self.entries[i].1.eq_spec(&other.entries[j].1)
    }

    /// Each of the first `upto` entries has its match in the other map.
    pub closed spec fn within(&self, other: &Self, upto: int) -> bool {
        forall|i: int| 0 <= i < upto ==> #[trigger] self.matched(other, i)
    }
}

impl<V: View + PartialEq> PartialEq for StrMap<V> {
    fn eq(&self, other: &Self) -> (r: bool) {
        proof {
            use_type_invariant(self);
            use_type_invariant(other);
        }
        if self.entries.len() != other.entries.len() {
            return false;
        }
        let mut i: usize = 0;
        while i < self.entries.len()
            invariant
                i <= self.entries.len(),
                distinct_keys(other.pairs()),
                V::obeys_eq_spec() ==> self.within(other, i as int),
            decreases self.entries.len() - i,
        {
            let found = other.position(self.entries[i].0.as_str());
            let same = match found {
                Some(j) => {
                    assert(other.pairs()[j as int].0 == other.entries[j as int].0@);
                    self.entries[i].1 == other.entries[j].1
                },
                None => false,
            };
            proof {
                if V::obeys_eq_spec() {
                    if same {
                        assert(self.matched(other, i as int));
                    } else if self.matched(other, i as int) {
                        let j = choose|j: int|
                            0 <= j < other.entries.len() && #[trigger] other.entries[j].0@
                                == self.entries[i as int].0@ && self.entries[i as int].1.eq_spec(
                                &other.entries[j].1,
                            );
                        assert(other.pairs()[j].0 == self.entries[i as int].0@);
                        if found is Some {
                            assert(other.pairs()[found->Some_0 as int].0 == other.pairs()[j].0);
                        }
                    }
                }
            }
            if !same {
                return false;
            }
            i += 1;
        }
        assert(self.pairs().len() == other.pairs().len());
        true
    }
}

impl<V: View + PartialEq> vstd::std_specs::cmp::PartialEqSpecImpl for StrMap<V> {
    open spec fn obeys_eq_spec() -> bool {
        V::obeys_eq_spec()
    }

    open spec fn eq_spec(&self, other: &Self) -> bool {
        self.pairs().len() == other.pairs().len() && self.within(
            other,
            self.pairs().len() as int,
        )
    }
}

impl<V: View> StrMap<V> {
    /// The entries in the order in which they are handed out: each key's
    /// text with the content of its value.
    pub closed spec fn pairs(&self) -> Seq<(Seq<char>, V::V)> {
        Self::pairs_of(self.entries@)
    }

    spec fn pairs_of(entries: Seq<(String, V)>) -> Seq<(Seq<char>, V::V)> {
        Seq::new(entries.len(), |i: int| (entries[i].0@, entries[i].1@))
    }

    #[verifier::type_invariant]
    spec fn distinct(&self) -> bool {
        distinct_keys(self.pairs())
    }

    /// An empty map.
    pub fn new() -> (r: Self)
        ensures
            r.pairs() == Seq::<(Seq<char>, V::V)>::empty(),
            r@ == Map::<Seq<char>, V::V>::empty(),
    {
        let r = StrMap { entries: Vec::new() };
        assert(r.pairs() =~= Seq::empty());
        r
    }

    /// The number of entries.
    pub fn len(&self) -> (r: usize)
        ensures
            r == self.pairs().len(),
            r == self@.len(),
            distinct_keys(self.pairs()),
    {
        proof {
            use_type_invariant(self);
            lemma_pairs_len(self.pairs());
        }
        self.entries.len()
    }

    /// Whether the map has no entry.
    pub fn is_empty(&self) -> (r: bool)
        ensures
            r == (self.pairs().len() == 0),
            r == (self@.len() == 0),
    {
        self.len() == 0
    }

    /// The position of the entry with this key, if there is one.
    fn position(&self, key: &str) -> (r: Option<usize>)
        ensures
            match r {
                Some(i) => i < self.pairs().len() && self.pairs()[i as int].0 == key@,
                None => !has_key(self.pairs(), key@),
            },
    {
        let wanted = key.to_owned();
        let mut i: usize = 0;
        while i < self.entries.len()
            invariant
                wanted@ == key@,
                i <= self.entries.len(),
                forall|j: int| 0 <= j < i ==> self.pairs()[j].0 != key@,
            decreases self.entries.len() - i,
        {
            if self.entries[i].0 == wanted {
                return Some(i);
            }
            i += 1;
        }
        None
    }

    /// Whether the key has an entry.
    pub fn contains_key(&self, key: &str) -> (r: bool)
        ensures
            r == self@.contains_key(key@),
    {
        proof {
            lemma_pairs_dom(self.pairs(), key@);
        }
        self.position(key).is_some()
    }

    /// The value under the key, if there is one.
    pub fn get(&self, key: &str) -> (r: Option<&V>)
        ensures
            match r {
                Some(v) => self@.contains_key(key@) && v@ == self@[key@],
                None => !self@.contains_key(key@),
            },
    {
        proof {
            use_type_invariant(self);
            lemma_pairs_dom(self.pairs(), key@);
        }
        match self.position(key) {
            Some(i) => {
                proof {
                    lemma_pairs_value(self.pairs(), i as int);
                }
                Some(&self.entries[i].1)
            },
            None => None,
        }
    }

    /// Sets the value under the key and gives back the value that was there.
    /// A key that was present keeps its place among the entries; a new key
    /// goes to the end.
    pub fn insert(&mut self, key: String, value: V) -> (r: Option<V>)
        ensures
            final(self)@ == old(self)@.insert(key@, value@),
            match r {
                Some(v) => old(self)@.contains_key(key@) && v@ == old(self)@[key@],
                None => !old(self)@.contains_key(key@),
            },
            has_key(old(self).pairs(), key@) ==> exists|i: int|
                0 <= i < old(self).pairs().len() && #[trigger] old(self).pairs()[i].0 == key@
                    && final(self).pairs() == old(self).pairs().update(i, (key@, value@)),
            !has_key(old(self).pairs(), key@) ==> final(self).pairs() == old(self).pairs().push(
                (key@, value@),
            ),
    {
        proof {
            use_type_invariant(&*self);
            lemma_pairs_dom(self.pairs(), key@);
        }
        let ghost before = self.pairs();
        match self.position(key.as_str()) {
            Some(i) => {
                proof {
                    lemma_pairs_value(before, i as int);
                    lemma_pairs_update(before, i as int, value@);
                }
                let ghost content = value@;
                let ghost text = key@;
                let mut entries: Vec<(String, V)> = Vec::new();
                std::mem::swap(&mut entries, &mut self.entries);
                let taken = entries.remove(i);
                entries.insert(i, (key, value));
                assert(Self::pairs_of(entries@) =~= before.update(i as int, (text, content)));
                self.entries = entries;
                Some(taken.1)
            },
            None => {
                proof {
                    lemma_pairs_push(before, key@, value@);
                }
                let ghost pair = (key@, value@);
                let mut entries: Vec<(String, V)> = Vec::new();
                std::mem::swap(&mut entries, &mut self.entries);
                entries.push((key, value));
                assert(Self::pairs_of(entries@) =~= before.push(pair));
                self.entries = entries;
                None
            },
        }
    }

    /// Takes the key out and gives back the value that was under it.  The
    /// other entries keep their order.
    pub fn remove(&mut self, key: &str) -> (r: Option<V>)
        ensures
            final(self)@ == old(self)@.remove(key@),
            match r {
                Some(v) => old(self)@.contains_key(key@) && v@ == old(self)@[key@],
                None => !old(self)@.contains_key(key@),
            },
            has_key(old(self).pairs(), key@) ==> exists|i: int|
                0 <= i < old(self).pairs().len() && #[trigger] old(self).pairs()[i].0 == key@
                    && final(self).pairs() == old(self).pairs().remove(i),
            !has_key(old(self).pairs(), key@) ==> final(self).pairs() == old(self).pairs(),
    {
        proof {
            use_type_invariant(&*self);
            lemma_pairs_dom(self.pairs(), key@);
        }
        let ghost before = self.pairs();
        match self.position(key) {
            Some(i) => {
                proof {
                    lemma_pairs_value(before, i as int);
                    lemma_pairs_remove(before, i as int);
                }
                let mut entries: Vec<(String, V)> = Vec::new();
                std::mem::swap(&mut entries, &mut self.entries);
                let pair = entries.remove(i);
                assert(Self::pairs_of(entries@) =~= before.remove(i as int));
                self.entries = entries;
                Some(pair.1)
            },
            None => {
                assert(self@ =~= old(self)@.remove(key@));
                None
            },
        }
    }

    /// The key of the entry at `index`.
    pub fn key_at(&self, index: usize) -> (r: &String)
        requires
            index < self.pairs().len(),
        ensures
            r@ == self.pairs()[index as int].0,
    {
        &self.entries[index].0
    }

    /// The value of the entry at `index`.
    pub fn value_at(&self, index: usize) -> (r: &V)
        requires
            index < self.pairs().len(),
        ensures
            r@ == self.pairs()[index as int].1,
    {
        &self.entries[index].1
    }
}

impl Clone for StrMap<String> {
    fn clone(&self) -> (r: Self)
        ensures
            r.pairs() == self.pairs(),
            r@ == self@,
    {
        proof {
            use_type_invariant(self);
        }
        let mut entries: Vec<(String, String)> = Vec::new();
        let mut i: usize = 0;
        while i < self.entries.len()
            invariant
                i <= self.entries.len(),
                entries.len() == i,
                forall|j: int|
                    0 <= j < i ==> entries[j].0@ == self.entries[j].0@ && entries[j].1@
                        == self.entries[j].1@,
            decreases self.entries.len() - i,
        {
            entries.push((self.entries[i].0.clone(), self.entries[i].1.clone()));
            i += 1;
        }
        assert(Self::pairs_of(entries@) =~= self.pairs());
        StrMap { entries }
    }
}

impl Clone for StrMap<JsonValue> {
    fn clone(&self) -> (r: Self)
        ensures
            r.pairs() == self.pairs(),
            r@ == self@,
    {
        proof {
            use_type_invariant(self);
        }
        let mut entries: Vec<(String, JsonValue)> = Vec::new();
        let mut i: usize = 0;
        while i < self.entries.len()
            invariant
                i <= self.entries.len(),
                entries.len() == i,
                forall|j: int|
                    0 <= j < i ==> entries[j].0@ == self.entries[j].0@ && entries[j].1@
                        == self.entries[j].1@,
            decreases self.entries.len() - i,
        {
            entries.push((self.entries[i].0.clone(), self.entries[i].1.clone()));
            i += 1;
        }
        assert(Self::pairs_of(entries@) =~= self.pairs());
        StrMap { entries }
    }
}

impl<V: View> View for StrMap<V> {
    type V = Map<Seq<char>, V::V>;

    open spec fn view(&self) -> Map<Seq<char>, V::V> {
        pairs_to_map(self.pairs())
    }
}

/// With distinct keys, the map has as many keys as there are pairs.
pub proof fn lemma_pairs_len<K, T>(pairs: Seq<(K, T)>)
    requires
        distinct_keys(pairs),
    ensures
        pairs_to_map(pairs).len() == pairs.len(),
        pairs_to_map(pairs).dom().finite(),
    decreases pairs.len(),
{
    if pairs.len() > 0 {
        let front = pairs.drop_last();
        assert(distinct_keys(front)) by {
            assert forall|a: int, b: int|
                0 <= a < front.len() && 0 <= b < front.len() && a != b implies front[a].0
                != front[b].0 by {
                assert(front[a] == pairs[a] && front[b] == pairs[b]);
            }
        }
        lemma_pairs_len(front);
        lemma_pairs_dom(front, pairs.last().0);
        if has_key(front, pairs.last().0) {
            let a = choose|a: int| 0 <= a < front.len() && #[trigger] front[a].0 == pairs.last().0;
            assert(pairs[a].0 == pairs[pairs.len() - 1].0);
        }
    }
}

} // verus!
