//! A map from names to values that is walked in the order of insertion.

use crate::text::{lemma_span, lemma_span_is, same_text, span};
use vstd::prelude::*;

verus! {

/// The predicate "the entry of another name than `k`".
pub open spec fn named_otherwise<T>(k: Seq<char>) -> spec_fn((Seq<char>, T)) -> bool {
    |e: (Seq<char>, T)| e.0 != k
}

/// Where the first entry of the name `k` stands; the end if there is none.
pub open spec fn key_index<T>(s: Seq<(Seq<char>, T)>, k: Seq<char>) -> int {
    span(s, named_otherwise(k)) as int
}

/// The map that a sequence of entries stands for.
pub open spec fn as_map<T>(s: Seq<(Seq<char>, T)>) -> Map<Seq<char>, T> {
    Map::new(|k: Seq<char>| key_index(s, k) < s.len(), |k: Seq<char>| s[key_index(s, k)].1)
}

/// No name occurs twice.
pub open spec fn keys_distinct<T>(s: Seq<(Seq<char>, T)>) -> bool {
    forall|i: int, j: int| 0 <= i < j < s.len() ==> #[trigger] s[i].0 != #[trigger] s[j].0
}

/// The entries after `v` was put under `k`: in the place of the entry that was
/// there, or at the end.
pub open spec fn placed<T>(s: Seq<(Seq<char>, T)>, k: Seq<char>, v: T) -> Seq<(Seq<char>, T)> {
    if key_index(s, k) < s.len() {
        s.update(key_index(s, k), (k, v))
    } else {
        s.push((k, v))
    }
}

/// In a sequence of entries without double names, an entry is the one that its
/// name leads to.
pub proof fn lemma_entry<T>(s: Seq<(Seq<char>, T)>, i: int)
    requires
        keys_distinct(s),
        0 <= i < s.len(),
    ensures
        key_index(s, s[i].0) == i,
        as_map(s).dom().contains(s[i].0),
        as_map(s)[s[i].0] == s[i].1,
{
    let p = named_otherwise::<T>(s[i].0);
    assert forall|k: int| 0 <= k < i implies p(#[trigger] s[k]) by {
        assert(s[k].0 != s[i].0);
    }
    lemma_span_is(s, p, i as nat);
}

/// A name of the map leads to an entry of that name.
pub proof fn lemma_key<T>(s: Seq<(Seq<char>, T)>, k: Seq<char>)
    ensures
        0 <= key_index(s, k) <= s.len(),
        as_map(s).dom().contains(k) <==> key_index(s, k) < s.len(),
        as_map(s).dom().contains(k) ==> s[key_index(s, k)] == (k, as_map(s)[k]),
        !as_map(s).dom().contains(k) ==> forall|i: int| 0 <= i < s.len() ==> #[trigger] s[i].0 != k,
{
    lemma_span(s, named_otherwise::<T>(k));
    assert forall|i: int| 0 <= i < key_index(s, k) implies #[trigger] s[i].0 != k by {
        assert(named_otherwise::<T>(k)(s[i]));
    }
}

/// Putting an entry changes the map at its name and nowhere else.
pub proof fn lemma_placed<T>(s: Seq<(Seq<char>, T)>, k: Seq<char>, v: T)
    requires
        keys_distinct(s),
    ensures
        keys_distinct(placed(s, k, v)),
        as_map(placed(s, k, v)) == as_map(s).insert(k, v),
{
    let t = placed(s, k, v);
    lemma_key(s, k);
    assert forall|i: int, j: int| 0 <= i < j < t.len() implies #[trigger] t[i].0 != #[trigger] t[j].0 by {
        if i < s.len() {
            assert(t[i].0 == s[i].0);
        }
        if j < s.len() {
            assert(t[j].0 == s[j].0);
        }
    }
    assert forall|n: Seq<char>|
        #![trigger as_map(t).dom().contains(n)]
        #![trigger as_map(t)[n]]
        as_map(t).dom().contains(n) == as_map(s).insert(k, v).dom().contains(n) && (as_map(
            t,
        ).dom().contains(n) ==> as_map(t)[n] == as_map(s).insert(k, v)[n]) by {
        lemma_key(s, n);
        lemma_key(t, n);
        if n == k {
            let i = key_index(s, k);
            assert(t[i] == (k, v));
            lemma_entry(t, i);
        } else if as_map(s).dom().contains(n) {
            let i = key_index(s, n);
            assert(t[i] == s[i]);
            lemma_entry(t, i);
        } else if as_map(t).dom().contains(n) {
            let i = key_index(t, n);
            if i < s.len() {
                assert(s[i].0 == n);
            }
        }
    }
    assert(as_map(t) =~= as_map(s).insert(k, v));
}

/// A map from names to values.
pub struct NameMap<V> {
    items: Vec<(String, V)>,
}

impl<V: View> View for NameMap<V> {
    type V = Map<Seq<char>, V::V>;

    open spec fn view(&self) -> Map<Seq<char>, V::V> {
        as_map(self.entries())
    }
}

impl<V: View> NameMap<V> {
    /// The entries, in the order in which they are walked.
    pub closed spec fn entries(&self) -> Seq<(Seq<char>, V::V)> {
        self.items@.map_values(|e: (String, V)| (e.0@, e.1@))
    }

    /// No name occurs twice.
    pub open spec fn wf(&self) -> bool {
        keys_distinct(self.entries())
    }

    /// A map without entries.
    pub fn new() -> (r: Self)
        ensures
            r.wf(),
            r.entries().len() == 0,
            r@ == Map::<Seq<char>, V::V>::empty(),
    {
        let r = NameMap { items: Vec::new() };
        assert(r.entries().len() == 0);
        proof {
            assert forall|k: Seq<char>| !(#[trigger] r@.dom().contains(k)) by {
                lemma_key(r.entries(), k);
            }
            assert(r@ =~= Map::<Seq<char>, V::V>::empty());
        }
        r
    }

    /// The number of entries.
    pub fn len(&self) -> (r: usize)
        ensures
            r == self.entries().len(),
    {
        self.items.len()
    }

    /// The name of the entry at `i`.
    pub fn name_at(&self, i: usize) -> (r: &String)
        requires
            i < self.entries().len(),
        ensures
            r@ == self.entries()[i as int].0,
    {
        &self.items[i].0
    }

    /// The value of the entry at `i`.
    pub fn value_at(&self, i: usize) -> (r: &V)
        requires
            i < self.entries().len(),
        ensures
            r@ == self.entries()[i as int].1,
    {
        &self.items[i].1
    }

    /// Where the entry of a name stands, or the end.
    fn position(&self, name: &str) -> (r: usize)
        ensures
            r == key_index(self.entries(), name@),
    {
        let mut i: usize = 0;
        while i < self.items.len() && !same_text(self.items[i].0.as_str(), name)
            invariant
                i <= self.items@.len(),
                forall|k: int| 0 <= k < i ==> #[trigger] self.entries()[k].0 != name@,
            decreases self.items@.len() - i,
        {
            assert(self.entries()[i as int].0 == self.items@[i as int].0@);
            i += 1;
        }
        proof {
            if i < self.items@.len() {
                assert(self.entries()[i as int].0 == self.items@[i as int].0@);
            }
            lemma_span_is(self.entries(), named_otherwise::<V::V>(name@), i as nat);
        }
        i
    }

    /// The value of a name.
    pub fn get(&self, name: &str) -> (r: Option<&V>)
        ensures
            r is Some <==> self@.dom().contains(name@),
            r is Some ==> r->0@ == self@[name@],
    {
        let i: usize = self.position(name);
        if i < self.items.len() {
            Some(&self.items[i].1)
        } else {
            None
        }
    }

    /// Is there a value of this name?
    pub fn contains_key(&self, name: &str) -> (r: bool)
        ensures
            r == self@.dom().contains(name@),
    {
        let i: usize = self.position(name);
        i < self.items.len()
    }

    /// Puts a value under a name, in the place of the value that was there.
    pub fn insert(&mut self, name: String, value: V)
        requires
            old(self).wf(),
        ensures
            final(self).wf(),
            final(self)@ == old(self)@.insert(name@, value@),
            final(self).entries() == placed(old(self).entries(), name@, value@),
    {
        let ghost before = self.entries();
        let i: usize = self.position(name.as_str());
        let ghost k = name@;
        let ghost v = value@;
        if i < self.items.len() {
            self.items.set(i, (name, value));
        } else {
            self.items.push((name, value));
        }
        assert(self.entries() =~= placed(before, k, v));
        proof {
            lemma_placed(before, k, v);
        }
    }
}

} // verus!
