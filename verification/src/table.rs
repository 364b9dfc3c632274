//! A map kept as a list of distinct keys beside the list of their values.

use vstd::prelude::*;

use crate::text::{in_order, sort_by_text, SortKey};

verus! {

/// A value of which an equal one can be made.
pub trait Duplicate: Sized {
    /// An equal value.
    fn duplicate(&self) -> (r: Self)
        ensures
            r == *self,
    ;
}

impl Duplicate for String {
    fn duplicate(&self) -> (r: Self) {
        self.clone()
    }
}

impl<K, V: SortKey> SortKey for (K, V) {
    open spec fn sort_key(&self) -> Seq<char> {
        self.1.sort_key()
    }

    fn sort_text(&self) -> (r: &str) {
        self.1.sort_text()
    }
}

/// A key that can be told apart from others by what it holds.
pub trait TableKey: View + Sized {
    /// Whether two keys hold the same.
    fn same_key(&self, other: &Self) -> (r: bool)
        ensures
            r == (self@ == other@),
    ;
}

impl TableKey for String {
    fn same_key(&self, other: &Self) -> (r: bool) {
        *self == *other
    }
}

/// No two keys hold the same.
spec fn distinct<K: TableKey>(keys: Seq<K>) -> bool {
    forall|i: int, j: int| 0 <= i < j < keys.len() ==> #[trigger] keys[i]@ != #[trigger] keys[j]@
}

/// `k` is the key at the place `i`.
spec fn key_at<K: TableKey>(keys: Seq<K>, i: int, k: <K as View>::V) -> bool {
    0 <= i < keys.len() && keys[i]@ == k
}

/// The map that gives each key the value at the same place.
spec fn map_of<K: TableKey, V>(keys: Seq<K>, values: Seq<V>) -> Map<<K as View>::V, V> {
    Map::new(
        |k: <K as View>::V| exists|i: int| key_at(keys, i, k),
        |k: <K as View>::V| values[choose|i: int| key_at(keys, i, k)],
    )
}

/// The map that results when the pairs are entered one after the other: a later pair replaces
/// an earlier one with the same key.
pub open spec fn map_of_pairs<K: TableKey, V>(pairs: Seq<(K, V)>) -> Map<<K as View>::V, V>
    decreases pairs.len(),
{
    if pairs.len() == 0 {
        Map::empty()
    } else {
        map_of_pairs(pairs.drop_last()).insert(pairs.last().0@, pairs.last().1)
    }
}

/// `values` lists the values of `map`, each key's value once.
pub open spec fn lists_values<K, V>(values: Seq<V>, map: Map<K, V>) -> bool {
    exists|keys: Seq<K>| #[trigger]
        keys.no_duplicates() && keys.to_set() == map.dom() && values.len() == keys.len() && (forall|
            i: int,
        |
            0 <= i < keys.len() ==> values[i] == map[#[trigger] keys[i]])
}

/// The keys of `pairs` are distinct, and the pairs are those of `map`.
spec fn pairs_of<K: TableKey, V>(pairs: Seq<(K, V)>, map: Map<<K as View>::V, V>) -> bool {
    &&& forall|i: int, j: int|
        0 <= i < j < pairs.len() ==> #[trigger] pairs[i].0@ != #[trigger] pairs[j].0@
    &&& forall|i: int|
        0 <= i < pairs.len() ==> map.dom().contains(#[trigger] pairs[i].0@) && map[pairs[i].0@]
            == pairs[i].1
    &&& forall|k: <K as View>::V| #[trigger]
        map.dom().contains(k) ==> exists|i: int| 0 <= i < pairs.len() && #[trigger] pairs[i].0@ == k
}

proof fn lemma_pairs_of<K: TableKey, V>(pairs: Seq<(K, V)>, map: Map<<K as View>::V, V>)
    requires
        pairs_of(pairs, map),
    ensures
        map_of_pairs(pairs) == map,
    decreases pairs.len(),
{
    if pairs.len() == 0 {
        assert(map =~= Map::empty());
    } else {
        let front = pairs.drop_last();
        let last = pairs.last();
        let smaller = map.remove(last.0@);
        assert forall|k: <K as View>::V| #[trigger] smaller.dom().contains(k) implies exists|i: int|
            0 <= i < front.len() && #[trigger] front[i].0@ == k by {
            assert(map.dom().contains(k));
            let i = choose|i: int| 0 <= i < pairs.len() && #[trigger] pairs[i].0@ == k;
            assert(front[i].0@ == k);
        }
        assert forall|i: int| 0 <= i < front.len() implies smaller.dom().contains(
            #[trigger] front[i].0@,
        ) && smaller[front[i].0@] == front[i].1 by {
            assert(pairs[i].0@ != pairs[pairs.len() - 1].0@);
        }
        assert forall|i: int, j: int| 0 <= i < j < front.len() implies #[trigger] front[i].0@
            != #[trigger] front[j].0@ by {
            assert(pairs[i].0@ != pairs[j].0@);
        }
        lemma_pairs_of(front, smaller);
        assert(pairs[pairs.len() - 1] == last);
        assert(smaller.insert(last.0@, last.1) =~= map);
    }
}

/// Putting the pairs in another order does not change whose pairs they are.
proof fn lemma_reordered<K: TableKey, V>(
    pairs: Seq<(K, V)>,
    other: Seq<(K, V)>,
    map: Map<<K as View>::V, V>,
)
    requires
        pairs_of(pairs, map),
        pairs.to_multiset() =~= other.to_multiset(),
    ensures
        pairs_of(other, map),
{
    broadcast use vstd::seq_lib::group_to_multiset_ensures;

    assert forall|i: int, j: int| 0 <= i < j < pairs.len() implies pairs[i] != pairs[j] by {
        assert(pairs[i].0@ != pairs[j].0@);
    }
    assert(pairs.no_duplicates());
    pairs.lemma_multiset_has_no_duplicates();
    assert forall|x: (K, V)| other.to_multiset().contains(x) implies other.to_multiset().count(x)
        == 1 by {
        assert(pairs.to_multiset().contains(x));
    }
    other.lemma_multiset_has_no_duplicates_conv();
    assert forall|i: int| 0 <= i < other.len() implies pairs.contains(#[trigger] other[i]) by {
        assert(other.contains(other[i]));
        assert(other.to_multiset().contains(other[i]));
        assert(pairs.to_multiset().contains(other[i]));
    }
    assert forall|i: int, j: int| 0 <= i < j < other.len() implies #[trigger] other[i].0@
        != #[trigger] other[j].0@ by {
        assert(pairs.contains(other[i]));
        assert(pairs.contains(other[j]));
        let a = choose|a: int| 0 <= a < pairs.len() && pairs[a] == other[i];
        let b = choose|b: int| 0 <= b < pairs.len() && pairs[b] == other[j];
        assert(other[i] != other[j]);
        if a < b {
            assert(pairs[a].0@ != pairs[b].0@);
        } else {
            assert(pairs[b].0@ != pairs[a].0@);
        }
    }
    assert forall|i: int| 0 <= i < other.len() implies map.dom().contains(#[trigger] other[i].0@)
        && map[other[i].0@] == other[i].1 by {
        assert(pairs.contains(other[i]));
        let a = choose|a: int| 0 <= a < pairs.len() && pairs[a] == other[i];
        assert(map.dom().contains(pairs[a].0@));
    }
    assert forall|k: <K as View>::V| #[trigger] map.dom().contains(k) implies exists|i: int|
        0 <= i < other.len() && #[trigger] other[i].0@ == k by {
        let a = choose|a: int| 0 <= a < pairs.len() && #[trigger] pairs[a].0@ == k;
        assert(pairs.contains(pairs[a]));
        assert(pairs.to_multiset().contains(pairs[a]));
        assert(other.to_multiset().contains(pairs[a]));
        assert(other.contains(pairs[a]));
        let i = choose|i: int| 0 <= i < other.len() && other[i] == pairs[a];
        assert(other[i].0@ == k);
    }
}

/// A map from keys to values.
#[verifier::reject_recursive_types(K)]
#[verifier::reject_recursive_types(V)]
pub struct Table<K: TableKey, V> {
    keys: Vec<K>,
    values: Vec<V>,
}

impl<K: TableKey, V> View for Table<K, V> {
    type V = Map<<K as View>::V, V>;

    closed spec fn view(&self) -> Map<<K as View>::V, V> {
        map_of(self.keys@, self.values@)
    }
}

proof fn lemma_entry<K: TableKey, V>(keys: Seq<K>, values: Seq<V>, i: int)
    requires
        distinct(keys),
        0 <= i < keys.len(),
    ensures
        map_of(keys, values).dom().contains(keys[i]@),
        map_of(keys, values)[keys[i]@] == values[i],
{
    let k = keys[i]@;
    assert(key_at(keys, i, k));
    let j = choose|j: int| key_at(keys, j, k);
    if j < i {
        assert(keys[j]@ != keys[i]@);
    } else if i < j {
        assert(keys[i]@ != keys[j]@);
    }
}

/// The maps of two lists agree where each entry of one is an entry of the other.
proof fn lemma_same_entries<K: TableKey, V>(
    keys: Seq<K>,
    values: Seq<V>,
    map: Map<<K as View>::V, V>,
)
    requires
        distinct(keys),
        keys.len() == values.len(),
        forall|i: int|
            0 <= i < keys.len() ==> map.dom().contains(#[trigger] keys[i]@) && map[keys[i]@]
                == values[i],
        forall|k: <K as View>::V| #[trigger]
            map.dom().contains(k) ==> exists|i: int| key_at(keys, i, k),
    ensures
        map_of(keys, values) == map,
{
    let m = map_of(keys, values);
    assert forall|k: <K as View>::V| m.dom().contains(k) == map.dom().contains(k) by {
        if m.dom().contains(k) {
            let i = choose|i: int| key_at(keys, i, k);
            assert(map.dom().contains(keys[i]@));
        }
    }
    assert forall|k: <K as View>::V| #[trigger] m.dom().contains(k) implies m[k] == map[k] by {
        let i = choose|i: int| key_at(keys, i, k);
        lemma_entry(keys, values, i);
        assert(map[keys[i]@] == values[i]);
    }
    assert(m =~= map);
}

impl<K: TableKey, V> Table<K, V> {
    #[verifier::type_invariant]
    spec fn well_formed(self) -> bool {
        distinct(self.keys@) && self.keys@.len() == self.values@.len()
    }

    /// The empty map.
    pub fn new() -> (r: Self)
        ensures
            r@ == Map::<<K as View>::V, V>::empty(),
    {
        let r = Table { keys: Vec::new(), values: Vec::new() };
        assert(r@ =~= Map::<<K as View>::V, V>::empty());
        r
    }

    /// The place of the key.
    fn find(&self, key: &K) -> (r: Option<usize>)
        ensures
            match r {
                Some(i) => i < self.keys@.len() && self.keys@[i as int]@ == key@
                    && self@.dom().contains(key@) && self@[key@] == self.values@[i as int],
                None => !self@.dom().contains(key@),
            },
    {
        proof {
            use_type_invariant(self);
        }
        let n: usize = self.keys.len();
        for i in 0..n
            invariant
                n == self.keys@.len(),
                distinct(self.keys@),
                forall|j: int| 0 <= j < i ==> #[trigger] self.keys@[j]@ != key@,
        {
            if self.keys[i].same_key(key) {
                proof {
                    lemma_entry(self.keys@, self.values@, i as int);
                }
                return Some(i);
            }
        }
        None
    }

    /// Whether the key has a value.
    pub fn contains(&self, key: &K) -> (r: bool)
        ensures
            r == self@.dom().contains(key@),
    {
        self.find(key).is_some()
    }

    /// The value of the key.
    pub fn get(&self, key: &K) -> (r: Option<&V>)
        ensures
            match r {
                Some(v) => self@.dom().contains(key@) && *v == self@[key@],
                None => !self@.dom().contains(key@),
            },
    {
        proof {
            use_type_invariant(self);
        }
        match self.find(key) {
            Some(i) => Some(&self.values[i]),
            None => None,
        }
    }

    /// The value of the key, to be changed in place.
    pub fn get_mut(&mut self, key: &K) -> (r: Option<&mut V>)
        ensures
            match r {
                Some(v) => old(self)@.dom().contains(key@) && *v == old(self)@[key@] && final(self)@
                    == old(self)@.insert(key@, *final(v)),
                None => !old(self)@.dom().contains(key@) && *final(self) == *old(self),
            },
    {
        proof {
            use_type_invariant(&*self);
        }
        match self.find(key) {
            Some(i) => {
                Some(&mut self.values[i])
            },
            None => None,
        }
    }

    /// Gives the key a value, in place of the one it had.
    pub fn insert(&mut self, key: K, value: V)
        ensures
            final(self)@ == old(self)@.insert(key@, value),
    {
        proof {
            use_type_invariant(&*self);
        }
        let place = self.find(&key);
        let ghost before = self@;
        let mut whole = Table::new();
        core::mem::swap(self, &mut whole);
        proof {
            use_type_invariant(&whole);
        }
        let Table { mut keys, mut values } = whole;
        let ghost old_keys = keys@;
        let ghost old_values = values@;
        match place {
            Some(i) => {
                values.set(i, value);
                proof {
                    assert forall|j: int| 0 <= j < keys@.len() implies before.insert(
                        key@,
                        value,
                    ).dom().contains(#[trigger] keys@[j]@) && before.insert(key@, value)[keys@[j]@]
                        == values@[j] by {
                        lemma_entry(old_keys, old_values, j);
                        if j < i {
                            assert(keys@[j]@ != keys@[i as int]@);
                        } else if i < j {
                            assert(keys@[i as int]@ != keys@[j]@);
                        }
                    }
                    assert forall|k: <K as View>::V| #[trigger]
                        before.insert(key@, value).dom().contains(k) implies exists|j: int|
                        key_at(keys@, j, k) by {
                        if k == key@ {
                            assert(key_at(keys@, i as int, k));
                        } else {
                            assert(before.dom().contains(k));
                        }
                    }
                }
            },
            None => {
                keys.push(key);
                values.push(value);
                proof {
                    assert forall|i: int, j: int| 0 <= i < j < keys@.len() implies #[trigger] keys@[i]@
                        != #[trigger] keys@[j]@ by {
                        if j == old_keys.len() {
                            assert(key_at(old_keys, i, old_keys[i]@));
                            assert(before.dom().contains(old_keys[i]@));
                        }
                    }
                    assert forall|j: int| 0 <= j < keys@.len() implies before.insert(
                        key@,
                        value,
                    ).dom().contains(#[trigger] keys@[j]@) && before.insert(key@, value)[keys@[j]@]
                        == values@[j] by {
                        if j < old_keys.len() {
                            lemma_entry(old_keys, old_values, j);
                        }
                    }
                    assert forall|k: <K as View>::V| #[trigger]
                        before.insert(key@, value).dom().contains(k) implies exists|j: int|
                        key_at(keys@, j, k) by {
                        if k == key@ {
                            assert(key_at(keys@, old_keys.len() as int, k));
                        } else {
                            assert(before.dom().contains(k));
                            let j = choose|j: int| key_at(old_keys, j, k);
                            assert(key_at(keys@, j, k));
                        }
                    }
                }
            },
        }
        proof {
            lemma_same_entries(keys@, values@, before.insert(key@, value));
        }
        *self = Table { keys, values };
    }

    /// Takes the key and its value out.
    pub fn remove(&mut self, key: &K) -> (r: Option<V>)
        ensures
            match r {
                Some(v) => old(self)@.dom().contains(key@) && v == old(self)@[key@],
                None => !old(self)@.dom().contains(key@),
            },
            final(self)@ == old(self)@.remove(key@),
    {
        proof {
            use_type_invariant(&*self);
        }
        let place = self.find(key);
        let ghost before = self@;
        match place {
            None => {
                assert(before.remove(key@) =~= before);
                None
            },
            Some(i) => {
                let mut whole = Table::new();
                core::mem::swap(self, &mut whole);
                proof {
                    use_type_invariant(&whole);
                }
                let Table { mut keys, mut values } = whole;
                let ghost old_keys = keys@;
                let ghost old_values = values@;
                keys.remove(i);
                let value = values.remove(i);
                proof {
                    let after = before.remove(key@);
                    assert forall|a: int, b: int| 0 <= a < b < keys@.len() implies #[trigger] keys@[a]@
                        != #[trigger] keys@[b]@ by {
                        let a2 = if a < i {
                            a
                        } else {
                            a + 1
                        };
                        let b2 = if b < i {
                            b
                        } else {
                            b + 1
                        };
                        assert(old_keys[a2]@ != old_keys[b2]@);
                    }
                    assert forall|j: int| 0 <= j < keys@.len() implies after.dom().contains(
                        #[trigger] keys@[j]@,
                    ) && after[keys@[j]@] == values@[j] by {
                        let j2 = if j < i {
                            j
                        } else {
                            j + 1
                        };
                        lemma_entry(old_keys, old_values, j2);
                        if j2 < i {
                            assert(old_keys[j2]@ != old_keys[i as int]@);
                        } else {
                            assert(old_keys[i as int]@ != old_keys[j2]@);
                        }
                    }
                    assert forall|k: <K as View>::V| #[trigger]
                        after.dom().contains(k) implies exists|j: int| key_at(keys@, j, k) by {
                        assert(before.dom().contains(k));
                        let j = choose|j: int| key_at(old_keys, j, k);
                        if j < i {
                            assert(key_at(keys@, j, k));
                        } else {
                            assert(key_at(keys@, j - 1, k));
                        }
                    }
                    lemma_same_entries(keys@, values@, after);
                }
                *self = Table { keys, values };
                Some(value)
            },
        }
    }

    /// The keys that have a value, each once.
    pub fn keys(&self) -> (r: &Vec<K>)
        ensures
            forall|i: int, j: int| 0 <= i < j < r@.len() ==> #[trigger] r@[i]@ != #[trigger] r@[j]@,
            forall|k: <K as View>::V| #[trigger]
                self@.dom().contains(k) <==> exists|i: int|
                    0 <= i < r@.len() && #[trigger] r@[i]@ == k,
            forall|i: int| 0 <= i < r@.len() ==> self@.dom().contains(#[trigger] r@[i]@),
    {
        proof {
            use_type_invariant(self);
            assert forall|k: <K as View>::V| #[trigger]
                self@.dom().contains(k) implies exists|i: int|
                0 <= i < self.keys@.len() && #[trigger] self.keys@[i]@ == k by {
                let i = choose|i: int| key_at(self.keys@, i, k);
                assert(self.keys@[i]@ == k);
            }
            assert forall|i: int| 0 <= i < self.keys@.len() implies self@.dom().contains(
                #[trigger] self.keys@[i]@,
            ) by {
                lemma_entry(self.keys@, self.values@, i);
            }
        }
        &self.keys
    }

    /// The map of the pairs; a later pair replaces an earlier one with the same key.
    pub fn from_pairs(pairs: Vec<(K, V)>) -> (r: Self)
        ensures
            r@ == map_of_pairs(pairs@),
    {
        let ghost all = pairs@;
        let mut rest = pairs;
        let mut table: Table<K, V> = Table::new();
        assert(all.take(0) =~= Seq::<(K, V)>::empty());
        while rest.len() > 0
            invariant
                rest@.len() <= all.len(),
                rest@ == all.skip(all.len() - rest@.len()),
                table@ == map_of_pairs(all.take(all.len() - rest@.len())),
            decreases rest@.len(),
        {
            let ghost done = all.len() - rest@.len();
            let (key, value) = rest.remove(0);
            proof {
                assert(all.take(done + 1).drop_last() =~= all.take(done as int));
                assert(rest@ =~= all.skip(done + 1));
            }
            table.insert(key, value);
        }
        assert(all.take(all.len() as int) =~= all);
        table
    }

    /// The keys with their values, each key once.
    pub fn pairs(&self) -> (r: Vec<(K, V)>) where K: Duplicate, V: Duplicate
        ensures
            map_of_pairs(r@) == self@,
    {
        let r = self.list_pairs();
        proof {
            lemma_pairs_of(r@, self@);
        }
        r
    }

    fn list_pairs(&self) -> (r: Vec<(K, V)>) where K: Duplicate, V: Duplicate
        ensures
            pairs_of(r@, self@),
    {
        proof {
            use_type_invariant(self);
        }
        let mut r: Vec<(K, V)> = Vec::new();
        let n: usize = self.keys.len();
        for i in 0..n
            invariant
                n == self.keys@.len() == self.values@.len(),
                r@.len() == i,
                forall|j: int|
                    0 <= j < i ==> (#[trigger] r@[j]).0 == self.keys@[j] && r@[j].1
                        == self.values@[j],
        {
            r.push((self.keys[i].duplicate(), self.values[i].duplicate()));
        }
        proof {
            assert forall|i: int| 0 <= i < r@.len() implies self@.dom().contains(
                #[trigger] r@[i].0@,
            ) && self@[r@[i].0@] == r@[i].1 by {
                lemma_entry(self.keys@, self.values@, i);
                assert(r@[i].0 == self.keys@[i]);
            }
            assert forall|i: int, j: int| 0 <= i < j < r@.len() implies #[trigger] r@[i].0@
                != #[trigger] r@[j].0@ by {
                assert(self.keys@[i]@ != self.keys@[j]@);
            }
            assert forall|k: <K as View>::V| #[trigger]
                self@.dom().contains(k) implies exists|i: int|
                0 <= i < r@.len() && #[trigger] r@[i].0@ == k by {
                let i = choose|i: int| key_at(self.keys@, i, k);
                assert(r@[i].0@ == k);
            }
        }
        r
    }

    /// The values in the order of their sort keys, each key's value once.
    pub fn sorted_values(&self) -> (r: Vec<V>) where K: Duplicate, V: Duplicate + SortKey
        ensures
            lists_values(r@, self@),
            in_order(r@),
    {
        let pairs = self.list_pairs();
        let ghost listed = pairs@;
        let mut rest = sort_by_text(pairs);
        let ghost all = rest@;
        proof {
            lemma_reordered(listed, all, self@);
        }
        let mut r: Vec<V> = Vec::new();
        while rest.len() > 0
            invariant
                rest@.len() <= all.len(),
                rest@ == all.skip(all.len() - rest@.len()),
                r@.len() == all.len() - rest@.len(),
                forall|i: int| 0 <= i < r@.len() ==> #[trigger] r@[i] == all[i].1,
            decreases rest@.len(),
        {
            let ghost done = all.len() - rest@.len();
            let (_, value) = rest.remove(0);
            r.push(value);
            assert(rest@ =~= all.skip(done + 1));
        }
        proof {
            let keys = Seq::new(all.len(), |i: int| all[i].0@);
            assert forall|i: int, j: int|
                0 <= i < keys.len() && 0 <= j < keys.len() && i != j implies keys[i] != keys[j] by {
                if i < j {
                    assert(all[i].0@ != all[j].0@);
                } else {
                    assert(all[j].0@ != all[i].0@);
                }
            }
            assert(keys.no_duplicates());
            assert forall|k: <K as View>::V| #[trigger]
                keys.to_set().contains(k) == self@.dom().contains(k) by {
                if keys.to_set().contains(k) {
                    let i = choose|i: int| 0 <= i < keys.len() && keys[i] == k;
                    assert(self@.dom().contains(all[i].0@));
                }
                if self@.dom().contains(k) {
                    let i = choose|i: int| 0 <= i < all.len() && #[trigger] all[i].0@ == k;
                    assert(keys[i] == k);
                }
            }
            assert(keys.to_set() =~= self@.dom());
            assert forall|i: int| 0 <= i < keys.len() implies r@[i] == self@[#[trigger] keys[i]] by {
                assert(self@.dom().contains(all[i].0@));
            }
            assert forall|i: int, j: int| 0 <= i <= j < r@.len() implies crate::text::text_le(
                #[trigger] r@[i].sort_key(),
                #[trigger] r@[j].sort_key(),
            ) by {
                assert(crate::text::text_le(all[i].sort_key(), all[j].sort_key()));
            }
        }
        r
    }
}

} // verus!
