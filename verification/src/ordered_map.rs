//! A map from strings to values that keeps its entries in insertion order.
//!
//! Header maps and form fields are small; they are kept as a list of entries
//! whose keys are pairwise distinct, so that walking the map is deterministic.

use vstd::prelude::*;

verus! {

/// No key occurs twice.
pub open spec fn distinct_keys<W>(e: Seq<(Seq<char>, W)>) -> bool {
    forall|i: int, j: int| 0 <= i < j < e.len() ==> (#[trigger] e[i]).0 != (#[trigger] e[j]).0
}

/// The first position at or after `from` that holds key `k`, or `e.len()`.
pub open spec fn position_from<W>(e: Seq<(Seq<char>, W)>, k: Seq<char>, from: int) -> int
    decreases e.len() - from,
{
    if from < 0 || from >= e.len() {
        e.len() as int
    } else if e[from].0 == k {
        from
    } else {
        position_from(e, k, from + 1)
    }
}

/// The first position that holds key `k`, or `e.len()` if none does.
pub open spec fn position<W>(e: Seq<(Seq<char>, W)>, k: Seq<char>) -> int {
    position_from(e, k, 0)
}

/// Whether some entry has key `k`.
pub open spec fn has_key<W>(e: Seq<(Seq<char>, W)>, k: Seq<char>) -> bool {
    position(e, k) < e.len()
}

/// The value stored under `k`, if any.
pub open spec fn lookup<W>(e: Seq<(Seq<char>, W)>, k: Seq<char>) -> Option<W> {
    if has_key(e, k) {
        Some(e[position(e, k)].1)
    } else {
        None
    }
}

/// The entries after storing `w` under `k`: an existing entry keeps its place,
/// a new one goes to the end.
pub open spec fn with_entry<W>(e: Seq<(Seq<char>, W)>, k: Seq<char>, w: W) -> Seq<(Seq<char>, W)> {
    if has_key(e, k) {
        e.update(position(e, k), (k, w))
    } else {
        e.push((k, w))
    }
}

/// The entries after dropping the entry under `k`, if there is one.
pub open spec fn without_key<W>(e: Seq<(Seq<char>, W)>, k: Seq<char>) -> Seq<(Seq<char>, W)> {
    if has_key(e, k) {
        e.remove(position(e, k))
    } else {
        e
    }
}

/// Every entry of `a` is in `b` with the same value.
pub open spec fn included<W>(a: Seq<(Seq<char>, W)>, b: Seq<(Seq<char>, W)>) -> bool {
    forall|i: int| 0 <= i < a.len() ==> lookup(b, (#[trigger] a[i]).0) == Some(a[i].1)
}

/// Both hold the same keys with the same values, in whatever order.
pub open spec fn same_entries<W>(a: Seq<(Seq<char>, W)>, b: Seq<(Seq<char>, W)>) -> bool {
    a.len() == b.len() && included(a, b)
}

/// A position before which `k` does not occur and at which it does is `position`.
pub proof fn lemma_position_is<W>(e: Seq<(Seq<char>, W)>, k: Seq<char>, at: int, from: int)
    requires
        0 <= from <= at <= e.len(),
        forall|j: int| from <= j < at ==> (#[trigger] e[j]).0 != k,
        at < e.len() ==> e[at].0 == k,
    ensures
        position_from(e, k, from) == at,
    decreases at - from,
{
    if from < at {
        lemma_position_is(e, k, at, from + 1);
    }
}

/// What `position` returns is the first occurrence of `k`.
pub proof fn lemma_position_bounds<W>(e: Seq<(Seq<char>, W)>, k: Seq<char>, from: int)
    requires
        0 <= from <= e.len(),
    ensures
        from <= position_from(e, k, from) <= e.len(),
        position_from(e, k, from) < e.len() ==> e[position_from(e, k, from)].0 == k,
        forall|j: int| from <= j < position_from(e, k, from) ==> (#[trigger] e[j]).0 != k,
    decreases e.len() - from,
{
    if from < e.len() && e[from].0 != k {
        lemma_position_bounds(e, k, from + 1);
    }
}

/// Storing under `k` keeps the keys distinct, and `k` then maps to the new value.
pub proof fn lemma_with_entry<W>(e: Seq<(Seq<char>, W)>, k: Seq<char>, w: W)
    requires
        distinct_keys(e),
    ensures
        distinct_keys(with_entry(e, k, w)),
        lookup(with_entry(e, k, w), k) == Some(w),
        forall|other: Seq<char>| other != k ==> lookup(with_entry(e, k, w), other) == lookup(e, other),
{
    let r = with_entry(e, k, w);
    let p = position(e, k);
    lemma_position_bounds(e, k, 0);
    lemma_position_is(r, k, p, 0);
    assert forall|other: Seq<char>| other != k implies lookup(r, other) == lookup(e, other) by {
        lemma_position_bounds(e, other, 0);
        let q = position(e, other);
        lemma_position_is(r, other, if q < e.len() { q } else { r.len() as int }, 0);
    }
}

/// Dropping `k` keeps the keys distinct, and `k` is then absent.
pub proof fn lemma_without_key<W>(e: Seq<(Seq<char>, W)>, k: Seq<char>)
    requires
        distinct_keys(e),
    ensures
        distinct_keys(without_key(e, k)),
        !has_key(without_key(e, k), k),
        forall|other: Seq<char>| other != k ==> lookup(without_key(e, k), other) == lookup(e, other),
{
    let r = without_key(e, k);
    let p = position(e, k);
    lemma_position_bounds(e, k, 0);
    lemma_position_is(r, k, r.len() as int, 0);
    assert forall|other: Seq<char>| other != k implies lookup(r, other) == lookup(e, other) by {
        lemma_position_bounds(e, other, 0);
        let q = position(e, other);
        if p < e.len() {
            if q < e.len() {
                lemma_position_is(r, other, if q < p { q } else { q - 1 }, 0);
            } else {
                lemma_position_is(r, other, r.len() as int, 0);
            }
        }
    }
}

/// A key that the first of two lists lacks is looked up in the second.
pub proof fn lemma_lookup_right<W>(a: Seq<(Seq<char>, W)>, b: Seq<(Seq<char>, W)>, k: Seq<char>)
    requires
        !has_key(a, k),
    ensures
        has_key(a + b, k) == has_key(b, k),
        lookup(a + b, k) == lookup(b, k),
{
    lemma_position_bounds(a, k, 0);
    lemma_position_bounds(b, k, 0);
    let q = position(b, k);
    assert forall|j: int| 0 <= j < a.len() + q implies (#[trigger] (a + b)[j]).0 != k by {
        if j < a.len() {
            assert((a + b)[j] == a[j]);
        } else {
            assert((a + b)[j] == b[j - a.len()]);
        }
    }
    if q < b.len() {
        assert((a + b)[a.len() + q] == b[q]);
    }
    lemma_position_is(a + b, k, a.len() + q, 0);
}

/// An insertion-ordered map from strings to values.
#[derive(Debug)]
pub struct OrderedMap<V: DeepView> {
    entries: Vec<(String, V)>,
}

impl<V: DeepView> View for OrderedMap<V> {
    type V = Seq<(Seq<char>, V::V)>;

    closed spec fn view(&self) -> Self::V {
        self.entries.deep_view()
    }
}

impl<V: DeepView> OrderedMap<V> {
    #[verifier::type_invariant]
    spec fn keys_are_distinct(&self) -> bool {
        distinct_keys(self.entries.deep_view())
    }

    /// The keys of a map are pairwise distinct. A call tells a caller so
    /// of the map it holds; nothing is computed.
    pub fn keys_distinct(&self)
        ensures
            distinct_keys(self@),
    {
        proof {
            use_type_invariant(self);
        }
    }

    /// An empty map.
    pub fn new() -> (m: Self)
        ensures
            m@ == Seq::<(Seq<char>, V::V)>::empty(),
            distinct_keys(m@),
    {
        let m = OrderedMap { entries: Vec::new() };
        assert(m.entries.deep_view() =~= Seq::<(Seq<char>, V::V)>::empty());
        m
    }

    /// The number of entries.
    pub fn len(&self) -> (n: usize)
        ensures
            n == self@.len(),
    {
        self.entries.len()
    }

    /// Whether the map has no entry.
    pub fn is_empty(&self) -> (b: bool)
        ensures
            b == (self@.len() == 0),
    {
        self.entries.len() == 0
    }

    /// The place of `key` among the entries, if it is there.
    pub fn index_of(&self, key: &str) -> (r: Option<usize>)
        ensures
            match r {
                Some(i) => has_key(self@, key@) && i == position(self@, key@),
                None => !has_key(self@, key@),
            },
    {
        let mut i: usize = 0;
        while i < self.entries.len()
            invariant
                i <= self.entries.len(),
                forall|j: int| 0 <= j < i ==> (#[trigger] self@[j]).0 != key@,
            decreases self.entries.len() - i,
        {
            if crate::text::str_eq(self.entries[i].0.as_str(), key) {
                proof {
                    lemma_position_is(self@, key@, i as int, 0);
                }
                return Some(i);
            }
            i += 1;
        }
        proof {
            lemma_position_is(self@, key@, self@.len() as int, 0);
        }
        None
    }

    /// Whether `key` has an entry.
    pub fn contains_key(&self, key: &str) -> (b: bool)
        ensures
            b == has_key(self@, key@),
    {
        self.index_of(key).is_some()
    }

    /// The value stored under `key`.
    pub fn get(&self, key: &str) -> (r: Option<&V>)
        ensures
            match r {
                Some(v) => lookup(self@, key@) == Some(v.deep_view()),
                None => lookup(self@, key@).is_none(),
            },
    {
        match self.index_of(key) {
            Some(i) => Some(&self.entries[i].1),
            None => None,
        }
    }

    /// The key of the entry at place `i`.
    pub fn key_at(&self, i: usize) -> (k: &String)
        requires
            i < self@.len(),
        ensures
            k@ == self@[i as int].0,
    {
        &self.entries[i].0
    }

    /// The value of the entry at place `i`.
    pub fn value_at(&self, i: usize) -> (v: &V)
        requires
            i < self@.len(),
        ensures
            v.deep_view() == self@[i as int].1,
    {
        &self.entries[i].1
    }

    /// Stores `value` under `key`, in place of what was there.
    pub fn insert(&mut self, key: String, value: V)
        ensures
            final(self)@ == with_entry(old(self)@, key@, value.deep_view()),
            distinct_keys(final(self)@),
    {
        proof {
            use_type_invariant(&*self);
            lemma_with_entry(self@, key@, value.deep_view());
        }
        let found = self.index_of(key.as_str());
        let ghost expected = with_entry(self@, key@, value.deep_view());
        let mut entries: Vec<(String, V)> = Vec::new();
        assert(entries.deep_view() =~= Seq::<(Seq<char>, V::V)>::empty());
        core::mem::swap(&mut self.entries, &mut entries);
        match found {
            Some(i) => {
                entries.set(i, (key, value));
            },
            None => {
                entries.push((key, value));
            },
        }
        assert(entries.deep_view() =~= expected);
        self.entries = entries;
    }

    /// Drops the entry under `key` and returns its value, if there was one.
    pub fn remove(&mut self, key: &str) -> (r: Option<V>)
        ensures
            final(self)@ == without_key(old(self)@, key@),
            distinct_keys(final(self)@),
            match r {
                Some(v) => lookup(old(self)@, key@) == Some(v.deep_view()),
                None => !has_key(old(self)@, key@),
            },
    {
        proof {
            use_type_invariant(&*self);
            lemma_without_key(self@, key@);
        }
        match self.index_of(key) {
            Some(i) => {
                let ghost expected = without_key(self@, key@);
                let mut entries: Vec<(String, V)> = Vec::new();
                assert(entries.deep_view() =~= Seq::<(Seq<char>, V::V)>::empty());
                core::mem::swap(&mut self.entries, &mut entries);
                let entry = entries.remove(i);
                assert(entries.deep_view() =~= expected);
                self.entries = entries;
                Some(entry.1)
            },
            None => None,
        }
    }
}

/// Header names with the values recorded under each.
pub type Headers = OrderedMap<Vec<String>>;

/// Named fields with one value each.
pub type Fields = OrderedMap<String>;

impl Clone for OrderedMap<Vec<String>> {
    fn clone(&self) -> (r: Self)
        ensures
            r@ == self@,
            distinct_keys(r@),
    {
        proof {
            use_type_invariant(self);
        }
        let mut entries: Vec<(String, Vec<String>)> = Vec::new();
        let mut i: usize = 0;
        while i < self.entries.len()
            invariant
                i <= self.entries.len(),
                entries.len() == i,
                forall|j: int| 0 <= j < i ==> (#[trigger] entries@[j]).deep_view() == self@[j],
            decreases self.entries.len() - i,
        {
            entries.push((self.entries[i].0.clone(), crate::text::clone_strings(&self.entries[i].1)));
            i += 1;
        }
        assert(entries.deep_view() =~= self@);
        OrderedMap { entries }
    }
}

impl Clone for OrderedMap<String> {
    fn clone(&self) -> (r: Self)
        ensures
            r@ == self@,
            distinct_keys(r@),
    {
        proof {
            use_type_invariant(self);
        }
        let mut entries: Vec<(String, String)> = Vec::new();
        let mut i: usize = 0;
        while i < self.entries.len()
            invariant
                i <= self.entries.len(),
                entries.len() == i,
                forall|j: int| 0 <= j < i ==> (#[trigger] entries@[j]).deep_view() == self@[j],
            decreases self.entries.len() - i,
        {
            entries.push((self.entries[i].0.clone(), self.entries[i].1.clone()));
            i += 1;
        }
        assert(entries.deep_view() =~= self@);
        OrderedMap { entries }
    }
}

impl OrderedMap<Vec<String>> {
    /// Whether both maps hold the same names with the same values, in whatever order.
    pub fn same_as(&self, other: &Self) -> (r: bool)
        ensures
            r == same_entries(self@, other@),
    {
        if self.len() != other.len() {
            return false;
        }
        let mut i: usize = 0;
        while i < self.len()
            invariant
                i <= self@.len(),
                forall|j: int| 0 <= j < i ==> lookup(other@, (#[trigger] self@[j]).0) == Some(self@[j].1),
            decreases self@.len() - i,
        {
            match other.get(self.key_at(i).as_str()) {
                Some(v) => {
                    if !crate::text::strings_equal(self.value_at(i), v) {
                        return false;
                    }
                },
                None => {
                    return false;
                },
            }
            i += 1;
        }
        true
    }
}

} // verus!
