//! Insertion-ordered string-keyed maps.
//!
//! Every map of the documents (attributes, outputs, locals, provider
//! configuration, JSON objects, YAML mappings) keeps its entries in
//! insertion order with distinct keys. Inserting an existing key replaces
//! its value in place; a new key goes to the end.

use vstd::prelude::*;
use crate::text::str_eq;
use vstd::std_specs::cmp::PartialEqSpec;

verus! {

/// Position of the first occurrence of `k` in `keys`, or `-1`.
pub open spec fn index_in(keys: Seq<Seq<char>>, k: Seq<char>) -> int
    decreases keys.len(),
{
    if keys.len() == 0 {
        -1
    } else if keys[0] == k {
        0
    } else {
        let r = index_in(keys.drop_first(), k);
        if r < 0 {
            -1
        } else {
            r + 1
        }
    }
}

/// What `index_in` finds.
pub proof fn lemma_index_in(keys: Seq<Seq<char>>, k: Seq<char>)
    ensures
        -1 <= index_in(keys, k) < keys.len(),
        index_in(keys, k) >= 0 ==> keys[index_in(keys, k)] == k,
        forall|j: int| 0 <= j < index_in(keys, k) ==> keys[j] != k,
        index_in(keys, k) < 0 ==> forall|j: int| 0 <= j < keys.len() ==> keys[j] != k,
    decreases keys.len(),
{
    if keys.len() > 0 && keys[0] != k {
        lemma_index_in(keys.drop_first(), k);
        assert forall|j: int| 0 < j < keys.len() implies keys[j] == keys.drop_first()[j - 1] by {}
    }
}

/// `index_in` is determined by where `k` first occurs.
pub proof fn lemma_index_in_at(keys: Seq<Seq<char>>, k: Seq<char>, i: int)
    requires
        0 <= i < keys.len(),
        keys[i] == k,
        forall|j: int| 0 <= j < i ==> keys[j] != k,
    ensures
        index_in(keys, k) == i,
{
    lemma_index_in(keys, k);
}

/// `index_in` finds nothing when no key matches.
pub proof fn lemma_index_in_absent(keys: Seq<Seq<char>>, k: Seq<char>)
    requires
        forall|j: int| 0 <= j < keys.len() ==> keys[j] != k,
    ensures
        index_in(keys, k) == -1,
{
    lemma_index_in(keys, k);
}

/// The keys of a sequence of model entries.
pub open spec fn model_keys<T>(s: Seq<(Seq<char>, T)>) -> Seq<Seq<char>> {
    s.map_values(|p: (Seq<char>, T)| p.0)
}

/// Inserting into an ordered map model: an existing key keeps its place and
/// takes the new value; a new key is appended.
pub open spec fn minsert<T>(s: Seq<(Seq<char>, T)>, k: Seq<char>, v: T) -> Seq<(Seq<char>, T)> {
    let i = index_in(model_keys(s), k);
    if i >= 0 {
        s.update(i, (s[i].0, v))
    } else {
        s.push((k, v))
    }
}

/// Looking a key up in an ordered map model.
pub open spec fn mget<T>(s: Seq<(Seq<char>, T)>, k: Seq<char>) -> Option<T> {
    let i = index_in(model_keys(s), k);
    if i >= 0 {
        Some(s[i].1)
    } else {
        None
    }
}

/// Inserting every entry of `t`, in order, into `s`.
pub open spec fn minsert_all<T>(s: Seq<(Seq<char>, T)>, t: Seq<(Seq<char>, T)>) -> Seq<(Seq<char>, T)>
    decreases t.len(),
{
    if t.len() == 0 {
        s
    } else {
        let p = t.last();
        minsert(minsert_all(s, t.drop_last()), p.0, p.1)
    }
}

/// The keys of a sequence of concrete entries.
pub open spec fn pair_keys<V>(s: Seq<(String, V)>) -> Seq<Seq<char>> {
    s.map_values(|p: (String, V)| p.0@)
}

/// Inserting into concrete entries (the key already present is kept).
pub open spec fn pairs_insert<V>(s: Seq<(String, V)>, k: String, v: V) -> Seq<(String, V)> {
    let i = index_in(pair_keys(s), k@);
    if i >= 0 {
        s.update(i, (s[i].0, v))
    } else {
        s.push((k, v))
    }
}

/// Inserting every entry of `t`, in order, into `s`.
pub open spec fn pairs_insert_all<V>(s: Seq<(String, V)>, t: Seq<(String, V)>) -> Seq<(String, V)>
    decreases t.len(),
{
    if t.len() == 0 {
        s
    } else {
        let p = t.last();
        pairs_insert(pairs_insert_all(s, t.drop_last()), p.0, p.1)
    }
}

/// The model of concrete entries: keys and values taken by their views.
pub open spec fn pairs_model<V: View>(s: Seq<(String, V)>) -> Seq<(Seq<char>, V::V)> {
    s.map_values(|p: (String, V)| (p.0@, p.1@))
}

/// Concrete entries with keys taken by their views and values mapped by `f`.
pub open spec fn pairs_map<V, T>(s: Seq<(String, V)>, f: spec_fn(V) -> T) -> Seq<(Seq<char>, T)> {
    s.map_values(|p: (String, V)| (p.0@, f(p.1)))
}

/// Concrete insertion and model insertion agree under any value mapping.
pub proof fn lemma_pairs_insert_map<V, T>(s: Seq<(String, V)>, k: String, v: V, f: spec_fn(V) -> T)
    ensures
        pairs_map(pairs_insert(s, k, v), f) == minsert(pairs_map(s, f), k@, f(v)),
{
    assert(pair_keys(s) =~= model_keys(pairs_map(s, f)));
    lemma_index_in(pair_keys(s), k@);
    assert(pairs_map(pairs_insert(s, k, v), f) =~= minsert(pairs_map(s, f), k@, f(v)));
}

/// Inserting a key that is not yet present appends it.
pub proof fn lemma_minsert_fresh<T>(s: Seq<(Seq<char>, T)>, k: Seq<char>, v: T)
    requires
        forall|j: int| 0 <= j < s.len() ==> s[j].0 != k,
    ensures
        minsert(s, k, v) == s.push((k, v)),
{
    lemma_index_in_absent(model_keys(s), k);
}

/// Inserting entries with distinct keys into an empty map keeps them as
/// they are, in order.
pub proof fn lemma_minsert_all_distinct<T>(s: Seq<(Seq<char>, T)>)
    requires
        keys_distinct(model_keys(s)),
    ensures
        minsert_all(Seq::empty(), s) == s,
    decreases s.len(),
{
    if s.len() > 0 {
        let p = s.drop_last();
        assert(model_keys(p) =~= model_keys(s).drop_last());
        lemma_minsert_all_distinct(p);
        assert forall|j: int| 0 <= j < p.len() implies p[j].0 != s.last().0 by {
            assert(model_keys(s)[j] == p[j].0);
            assert(model_keys(s)[s.len() - 1] == s.last().0);
        }
        lemma_minsert_fresh(p, s.last().0, s.last().1);
        assert(p.push(s.last()) =~= s);
    }
}

/// Law: after inserting `v` under `k`, looking `k` up finds `v`, and every
/// other key finds what it found before.
pub proof fn law_get_after_insert<T>(s: Seq<(Seq<char>, T)>, k: Seq<char>, v: T, q: Seq<char>)
    ensures
        mget(minsert(s, k, v), k) == Some(v),
        q != k ==> mget(minsert(s, k, v), q) == mget(s, q),
{
    let keys = model_keys(s);
    let t = minsert(s, k, v);
    let i = index_in(keys, k);
    lemma_index_in(keys, k);
    lemma_index_in(keys, q);
    if i >= 0 {
        assert(model_keys(t) =~= keys);
    } else {
        assert(model_keys(t) =~= keys.push(k));
        lemma_index_in_at(model_keys(t), k, s.len() as int);
        if q != k {
            let j = index_in(keys, q);
            if j >= 0 {
                lemma_index_in_at(model_keys(t), q, j);
            } else {
                lemma_index_in_absent(model_keys(t), q);
            }
        }
    }
}

/// No key occurs twice.
pub open spec fn keys_distinct(keys: Seq<Seq<char>>) -> bool {
    forall|i: int, j: int| 0 <= i < j < keys.len() ==> keys[i] != keys[j]
}

/// Concrete insertion and model insertion agree.
pub proof fn lemma_pairs_insert_model<V: View>(s: Seq<(String, V)>, k: String, v: V)
    ensures
        pairs_model(pairs_insert(s, k, v)) == minsert(pairs_model(s), k@, v@),
{
    assert(pair_keys(s) =~= model_keys(pairs_model(s)));
    let i = index_in(pair_keys(s), k@);
    lemma_index_in(pair_keys(s), k@);
    if i >= 0 {
        assert(pairs_model(pairs_insert(s, k, v)) =~= minsert(pairs_model(s), k@, v@));
    } else {
        assert(pairs_model(pairs_insert(s, k, v)) =~= minsert(pairs_model(s), k@, v@));
    }
}

/// Inserting keeps keys distinct, and a fresh key lands at the end.
pub proof fn lemma_pairs_insert_keys<V>(s: Seq<(String, V)>, k: String, v: V)
    requires
        keys_distinct(pair_keys(s)),
    ensures
        keys_distinct(pair_keys(pairs_insert(s, k, v))),
        index_in(pair_keys(s), k@) >= 0 ==> pair_keys(pairs_insert(s, k, v)) == pair_keys(s),
        index_in(pair_keys(s), k@) < 0 ==> pair_keys(pairs_insert(s, k, v)) == pair_keys(s).push(k@),
{
    lemma_index_in(pair_keys(s), k@);
    let i = index_in(pair_keys(s), k@);
    let t = pairs_insert(s, k, v);
    if i >= 0 {
        assert(pair_keys(t) =~= pair_keys(s));
    } else {
        assert(pair_keys(t) =~= pair_keys(s).push(k@));
    }
}

/// Insertion-ordered map from strings to `V` with distinct keys.
///
/// Two maps are equal when they hold the same keys with equal values,
/// whatever the order of their entries.
#[derive(Debug)]
pub struct OrderedMap<V> {
    pub(crate) entries: Vec<(String, V)>,
}

impl<V> OrderedMap<V> {
    /// The entries, in insertion order.
    pub closed spec fn pairs(self) -> Seq<(String, V)> {
        self.entries@
    }

    #[verifier::type_invariant]
    pub(crate) open spec fn wf(self) -> bool {
        keys_distinct(pair_keys(self.entries@))
    }

    pub(crate) proof fn lemma_pairs_are_entries(self)
        ensures
            self.pairs() == self.entries@,
    {
    }

    /// An empty map.
    pub fn new() -> (m: Self)
        ensures
            m.pairs() == Seq::<(String, V)>::empty(),
    {
        OrderedMap { entries: Vec::new() }
    }

    pub fn len(&self) -> (r: usize)
        ensures
            r == self.pairs().len(),
    {
        self.entries.len()
    }

    pub fn is_empty(&self) -> (r: bool)
        ensures
            r == (self.pairs().len() == 0),
    {
        self.entries.len() == 0
    }

    /// The entries, in insertion order.
    pub fn entries(&self) -> (r: &Vec<(String, V)>)
        ensures
            r@ == self.pairs(),
            keys_distinct(pair_keys(r@)),
    {
        proof { use_type_invariant(self); }
        &self.entries
    }

    /// The entries, consuming the map.
    pub fn into_entries(self) -> (r: Vec<(String, V)>)
        ensures
            r@ == self.pairs(),
            keys_distinct(pair_keys(r@)),
    {
        proof { use_type_invariant(&self); }
        self.entries
    }

    /// Where `k` is stored, if anywhere.
    pub fn position(&self, k: &str) -> (r: Option<usize>)
        ensures
            match r {
                Some(i) => index_in(pair_keys(self.pairs()), k@) == i,
                None => index_in(pair_keys(self.pairs()), k@) == -1,
            },
    {
        let mut i: usize = 0;
        while i < self.entries.len()
            invariant
                i <= self.entries@.len(),
                forall|j: int| 0 <= j < i ==> pair_keys(self.entries@)[j] != k@,
            decreases self.entries@.len() - i,
        {
            if str_eq(self.entries[i].0.as_str(), k) {
                proof { lemma_index_in_at(pair_keys(self.entries@), k@, i as int); }
                return Some(i);
            }
            i = i + 1;
        }
        proof { lemma_index_in_absent(pair_keys(self.entries@), k@); }
        None
    }

    /// The value stored under `k`, if any.
    pub fn get(&self, k: &str) -> (r: Option<&V>)
        ensures
            ({
                let i = index_in(pair_keys(self.pairs()), k@);
                match r {
                    Some(v) => i >= 0 && *v == self.pairs()[i].1,
                    None => i < 0,
                }
            }),
    {
        proof { lemma_index_in(pair_keys(self.entries@), k@); }
        match self.position(k) {
            Some(i) => Some(&self.entries[i].1),
            None => None,
        }
    }

    /// Insert `v` under `k`: an existing key keeps its place and its value is
    /// replaced (and returned); a new key is appended.
    pub fn insert(&mut self, k: String, v: V) -> (r: Option<V>)
        ensures
            final(self).pairs() == pairs_insert(old(self).pairs(), k, v),
            ({
                let i = index_in(pair_keys(old(self).pairs()), k@);
                match r {
                    Some(o) => i >= 0 && o == old(self).pairs()[i].1,
                    None => i < 0,
                }
            }),
    {
        proof {
            use_type_invariant(&*self);
            lemma_index_in(pair_keys(self.entries@), k@);
            lemma_pairs_insert_keys(self.entries@, k, v);
        }
        let pos = self.position(k.as_str());
        let mut entries = Vec::new();
        std::mem::swap(&mut entries, &mut self.entries);
        match pos {
            Some(i) => {
                let (key, old_value) = entries.remove(i);
                entries.insert(i, (key, v));
                assert(entries@ =~= pairs_insert(old(self).entries@, k, v));
                self.entries = entries;
                Some(old_value)
            },
            None => {
                entries.push((k, v));
                assert(entries@ =~= pairs_insert(old(self).entries@, k, v));
                self.entries = entries;
                None
            },
        }
    }

    /// Replace the value at position `i`, keeping its key; returns the old value.
    pub fn replace_at(&mut self, i: usize, v: V) -> (r: V)
        requires
            i < old(self).pairs().len(),
        ensures
            final(self).pairs() == old(self).pairs().update(i as int, (old(self).pairs()[i as int].0, v)),
            r == old(self).pairs()[i as int].1,
    {
        proof { use_type_invariant(&*self); }
        let mut entries = Vec::new();
        std::mem::swap(&mut entries, &mut self.entries);
        let (key, old_value) = entries.remove(i);
        entries.insert(i, (key, v));
        assert(entries@ =~= old(self).entries@.update(i as int, (old(self).entries@[i as int].0, v)));
        assert(pair_keys(entries@) =~= pair_keys(old(self).entries@));
        self.entries = entries;
        old_value
    }

    /// A map built by inserting every pair of `items`, in order.
    pub fn from_pairs(items: Vec<(String, V)>) -> (m: Self)
        ensures
            m.pairs() == pairs_insert_all(Seq::empty(), items@),
    {
        let mut m = OrderedMap::new();
        let mut items = items;
        let ghost all = items@;
        assert(all.len() == items.len());
        let mut n: usize = 0;
        while items.len() > 0
            invariant
                n <= all.len() <= usize::MAX,
                items@ == all.skip(n as int),
                items@.len() == all.len() - n,
                m.pairs() == pairs_insert_all(Seq::empty(), all.take(n as int)),
            decreases items@.len(),
        {
            let (k, v) = items.remove(0);
            assert(all.take(n + 1).drop_last() =~= all.take(n as int));
            assert(items@ =~= all.skip(n + 1));
            m.insert(k, v);
            n = n + 1;
        }
        assert(all.take(n as int) =~= all);
        m
    }
}

/// Equality as maps: the same number of entries, and every key of one
/// found in the other with an equal value; the order of entries is ignored.
impl<V: PartialEq> PartialEq for OrderedMap<V> {
    fn eq(&self, other: &Self) -> (r: bool) {
        proof {
            use_type_invariant(self);
            use_type_invariant(other);
        }
        if self.entries.len() != other.entries.len() {
            return false;
        }
        let mut i: usize = 0;
        while i < self.entries.len()
            invariant
                i <= self.entries@.len(),
                self.entries@.len() == other.entries@.len(),
                V::obeys_eq_spec() ==> forall|k: int| 0 <= k < i ==> #[trigger] entry_found(self.entries@[k], other.entries@),
            decreases self.entries@.len() - i,
        {
            proof { lemma_index_in(pair_keys(other.entries@), self.entries@[i as int].0@); }
            match other.get(self.entries[i].0.as_str()) {
                Some(v) => {
                    if !self.entries[i].1.eq(v) {
                        assert(V::obeys_eq_spec() ==> !entry_found(self.entries@[i as int], other.entries@));
                        return false;
                    }
                },
                None => {
                    assert(!entry_found(self.entries@[i as int], other.entries@));
                    return false;
                },
            }
            i = i + 1;
        }
        proof {
            self.lemma_pairs_are_entries();
            other.lemma_pairs_are_entries();
        }
        true
    }
}

/// `e`'s key is among `others`' keys, with a value equal to `e`'s.
pub open spec fn entry_found<V: PartialEq>(e: (String, V), others: Seq<(String, V)>) -> bool {
    let j = index_in(pair_keys(others), e.0@);
    j >= 0 && e.1.eq_spec(&others[j].1)
}

impl<V: PartialEq> vstd::std_specs::cmp::PartialEqSpecImpl for OrderedMap<V> {
    open spec fn obeys_eq_spec() -> bool {
        V::obeys_eq_spec()
    }

    open spec fn eq_spec(&self, other: &Self) -> bool {
        &&& self.pairs().len() == other.pairs().len()
        &&& forall|k: int| 0 <= k < self.pairs().len() ==> #[trigger] entry_found(self.pairs()[k], other.pairs())
    }
}

} // verus!
