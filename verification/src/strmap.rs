//! A map keyed by names, held as a vector of pairs in increasing name order.

use vstd::prelude::*;
use vstd::pervasive::VecAdditionalExecFns;

use crate::keys::{compare_keys, key_lt, lemma_key_lt_irreflexive, lemma_key_lt_transitive, strictly_sorted, KeyOrder};

verus! {

/// The names of a sequence of pairs, in order.
pub open spec fn names_of<V>(es: Seq<(String, V)>) -> Seq<Seq<char>> {
    Seq::new(es.len(), |i: int| es[i].0@)
}

/// The map that a sequence of pairs with distinct names stands for.
pub closed spec fn entries_view<V: View>(es: Seq<(String, V)>) -> Map<Seq<char>, V::V> {
    Map::new(
        |k: Seq<char>| exists|i: int| 0 <= i < es.len() && es[i].0@ == k,
        |k: Seq<char>| es[entry_index(es, k)].1@,
    )
}

/// An index at which `k` is held, where there is one.
pub closed spec fn entry_index<V>(es: Seq<(String, V)>, k: Seq<char>) -> int {
    choose|i: int| 0 <= i < es.len() && es[i].0@ == k
}

/// `names` lists exactly the names of `dom`, in strictly increasing order.
pub open spec fn lists_names(names: Seq<Seq<char>>, dom: Set<Seq<char>>) -> bool {
    &&& strictly_sorted(names)
    &&& forall|k: Seq<char>| names.contains(k) <==> dom.contains(k)
}

proof fn lemma_entries_view_at<V: View>(es: Seq<(String, V)>, i: int)
    requires
        strictly_sorted(names_of(es)),
        0 <= i < es.len(),
    ensures
        entries_view(es).contains_key(es[i].0@),
        entries_view(es)[es[i].0@] == es[i].1@,
{
    let k = es[i].0@;
    assert(0 <= i < es.len() && es[i].0@ == k);
    let j = entry_index(es, k);
    if j != i {
        let ns = names_of(es);
        assert(ns[i] == k && ns[j] == k);
        lemma_key_lt_irreflexive(k);
        if j < i {
            assert(key_lt(ns[j], ns[i]));
        } else {
            assert(key_lt(ns[i], ns[j]));
        }
    }
}

proof fn lemma_entries_view_insert<V: View>(es: Seq<(String, V)>, p: int, k: String, v: V)
    requires
        strictly_sorted(names_of(es)),
        0 <= p <= es.len(),
        forall|j: int| 0 <= j < p ==> key_lt(#[trigger] es[j].0@, k@),
        forall|j: int| p <= j < es.len() ==> key_lt(k@, #[trigger] es[j].0@),
    ensures
        strictly_sorted(names_of(es.insert(p, (k, v)))),
        entries_view(es.insert(p, (k, v))) == entries_view(es).insert(k@, v@),
{
    let ns = es.insert(p, (k, v));
    let old_names = names_of(es);
    let new_names = names_of(ns);
    assert forall|a: int, b: int| 0 <= a < b < new_names.len() implies key_lt(
        #[trigger] new_names[a],
        #[trigger] new_names[b],
    ) by {
        if b < p {
            assert(key_lt(old_names[a], old_names[b]));
        } else if b == p {
            assert(key_lt(es[a].0@, k@));
        } else if a < p {
            assert(key_lt(old_names[a], old_names[b - 1]));
        } else if a == p {
            assert(key_lt(k@, es[b - 1].0@));
        } else {
            assert(key_lt(old_names[a - 1], old_names[b - 1]));
        }
    }
    let m = entries_view(ns);
    let want = entries_view(es).insert(k@, v@);
    assert forall|key: Seq<char>| #[trigger] m.contains_key(key) <==> want.contains_key(key) by {
        if m.contains_key(key) {
            let i = choose|i: int| 0 <= i < ns.len() && ns[i].0@ == key;
            if i < p {
                assert(0 <= i < es.len() && es[i].0@ == key);
            } else if i > p {
                assert(0 <= i - 1 < es.len() && es[i - 1].0@ == key);
            }
        }
        if want.contains_key(key) {
            if key == k@ {
                assert(0 <= p < ns.len() && ns[p].0@ == key);
            } else {
                let i = choose|i: int| 0 <= i < es.len() && es[i].0@ == key;
                if i < p {
                    assert(0 <= i < ns.len() && ns[i].0@ == key);
                } else {
                    assert(0 <= i + 1 < ns.len() && ns[i + 1].0@ == key);
                }
            }
        }
    }
    assert forall|key: Seq<char>| #[trigger] m.contains_key(key) implies m[key] == want[key] by {
        let i = choose|i: int| 0 <= i < ns.len() && ns[i].0@ == key;
        lemma_entries_view_at(ns, i);
        if i < p {
            lemma_entries_view_at(es, i);
            lemma_key_lt_irreflexive(key);
        } else if i > p {
            lemma_entries_view_at(es, i - 1);
            lemma_key_lt_irreflexive(key);
        }
    }
    assert(m =~= want);
}

proof fn lemma_entries_view_update<V: View>(es: Seq<(String, V)>, p: int, k: String, v: V)
    requires
        strictly_sorted(names_of(es)),
        0 <= p < es.len(),
        es[p].0@ == k@,
    ensures
        strictly_sorted(names_of(es.update(p, (k, v)))),
        entries_view(es.update(p, (k, v))) == entries_view(es).insert(k@, v@),
{
    let ns = es.update(p, (k, v));
    assert forall|i: int| 0 <= i < es.len() implies (#[trigger] ns[i]).0@ == es[i].0@ by {}
    assert(names_of(ns) =~= names_of(es));
    let m = entries_view(ns);
    let want = entries_view(es).insert(k@, v@);
    lemma_entries_view_at(es, p);
    assert forall|key: Seq<char>| #[trigger] m.contains_key(key) <==> want.contains_key(key) by {
        if m.contains_key(key) {
            let i = choose|i: int| 0 <= i < ns.len() && ns[i].0@ == key;
            assert(ns[i].0@ == es[i].0@);
            assert(0 <= i < es.len() && es[i].0@ == key);
        }
        if key == k@ {
            assert(0 <= p < ns.len() && ns[p].0@ == key);
        }
        if want.contains_key(key) && key != k@ {
            let i = choose|i: int| 0 <= i < es.len() && es[i].0@ == key;
            assert(ns[i].0@ == es[i].0@);
            assert(0 <= i < ns.len() && ns[i].0@ == key);
        }
    }
    assert forall|key: Seq<char>| #[trigger] m.contains_key(key) implies m[key] == want[key] by {
        let i = choose|i: int| 0 <= i < ns.len() && ns[i].0@ == key;
        lemma_entries_view_at(ns, i);
        if i != p {
            let names = names_of(es);
            assert(ns[i].0@ == es[i].0@);
            lemma_key_lt_irreflexive(key);
            if i < p {
                assert(key_lt(names[i], names[p]));
            } else {
                assert(key_lt(names[p], names[i]));
            }
            lemma_entries_view_at(es, i);
        }
    }
    assert(m =~= want);
}

proof fn lemma_entries_view_remove<V: View>(es: Seq<(String, V)>, p: int)
    requires
        strictly_sorted(names_of(es)),
        0 <= p < es.len(),
    ensures
        strictly_sorted(names_of(es.remove(p))),
        entries_view(es.remove(p)) == entries_view(es).remove(es[p].0@),
{
    let ns = es.remove(p);
    let k = es[p].0@;
    let old_names = names_of(es);
    let new_names = names_of(ns);
    assert forall|a: int, b: int| 0 <= a < b < new_names.len() implies key_lt(
        #[trigger] new_names[a],
        #[trigger] new_names[b],
    ) by {
        if b < p {
            assert(key_lt(old_names[a], old_names[b]));
        } else if a < p {
            assert(key_lt(old_names[a], old_names[b + 1]));
        } else {
            assert(key_lt(old_names[a + 1], old_names[b + 1]));
        }
    }
    let m = entries_view(ns);
    let want = entries_view(es).remove(k);
    assert forall|key: Seq<char>| #[trigger] m.contains_key(key) <==> want.contains_key(key) by {
        if m.contains_key(key) {
            let i = choose|i: int| 0 <= i < ns.len() && ns[i].0@ == key;
            lemma_key_lt_irreflexive(key);
            if i < p {
                assert(0 <= i < es.len() && es[i].0@ == key);
                assert(key_lt(old_names[i], old_names[p]));
            } else {
                assert(0 <= i + 1 < es.len() && es[i + 1].0@ == key);
                assert(key_lt(old_names[p], old_names[i + 1]));
            }
        }
        if want.contains_key(key) {
            let i = choose|i: int| 0 <= i < es.len() && es[i].0@ == key;
            if i < p {
                assert(0 <= i < ns.len() && ns[i].0@ == key);
            } else {
                assert(i != p);
                assert(0 <= i - 1 < ns.len() && ns[i - 1].0@ == key);
            }
        }
    }
    assert forall|key: Seq<char>| #[trigger] m.contains_key(key) implies m[key] == want[key] by {
        let i = choose|i: int| 0 <= i < ns.len() && ns[i].0@ == key;
        lemma_entries_view_at(ns, i);
        if i < p {
            lemma_entries_view_at(es, i);
        } else {
            lemma_entries_view_at(es, i + 1);
        }
    }
    assert(m =~= want);
}

/// A map from names to values. Its pairs are kept in strictly increasing
/// name order, so no name is held twice and the names list in order.
#[derive(Debug)]
pub struct StrMap<V> {
    entries: Vec<(String, V)>,
}

impl<V> StrMap<V> {
    #[verifier::type_invariant]
    spec fn well_formed(self) -> bool {
        strictly_sorted(names_of(self.entries@))
    }
}

impl<V: View> View for StrMap<V> {
    type V = Map<Seq<char>, V::V>;

    closed spec fn view(&self) -> Map<Seq<char>, V::V> {
        entries_view(self.entries@)
    }
}

/// Where a name stands among the pairs of a map.
enum Slot {
    /// Held at this index.
    Found(usize),
    /// Not held; it would go at this index.
    Vacant(usize),
}

impl<V: View> StrMap<V> {
    /// The empty map.
    pub fn new() -> (r: Self)
        ensures
            r@ == Map::<Seq<char>, V::V>::empty(),
    {
        let r = StrMap { entries: Vec::new() };
        assert(entries_view(r.entries@) =~= Map::<Seq<char>, V::V>::empty());
        r
    }

    fn locate(&self, k: &str) -> (r: Slot)
        ensures
            match r {
                Slot::Found(i) => i < self.entries@.len() && self.entries@[i as int].0@ == k@,
                Slot::Vacant(i) => {
                    &&& i <= self.entries@.len()
                    &&& forall|j: int| 0 <= j < i ==> key_lt(#[trigger] self.entries@[j].0@, k@)
                    &&& forall|j: int|
                        i <= j < self.entries@.len() ==> key_lt(k@, #[trigger] self.entries@[j].0@)
                },
            },
    {
        proof {
            use_type_invariant(self);
        }
        let n = self.entries.len();
        let mut i: usize = 0;
        while i < n
            invariant
                n == self.entries@.len(),
                i <= n,
                strictly_sorted(names_of(self.entries@)),
                forall|j: int| 0 <= j < i ==> key_lt(#[trigger] self.entries@[j].0@, k@),
            decreases n - i,
        {
            match compare_keys(k, self.entries[i].0.as_str()) {
                KeyOrder::Less => {
                    proof {
                        let ns = names_of(self.entries@);
                        assert forall|j: int| i <= j < n implies key_lt(
                            k@,
                            #[trigger] self.entries@[j].0@,
                        ) by {
                            if j > i {
                                assert(key_lt(ns[i as int], ns[j]));
                                lemma_key_lt_transitive(k@, ns[i as int], ns[j]);
                            }
                        }
                    }
                    return Slot::Vacant(i);
                },
                KeyOrder::Equal => {
                    return Slot::Found(i);
                },
                KeyOrder::Greater => {},
            }
            i = i + 1;
        }
        Slot::Vacant(n)
    }

    /// Whether `k` is held.
    pub fn contains_key(&self, k: &str) -> (r: bool)
        ensures
            r == self@.contains_key(k@),
    {
        proof {
            use_type_invariant(self);
        }
        match self.locate(k) {
            Slot::Found(i) => {
                proof {
                    lemma_entries_view_at(self.entries@, i as int);
                }
                true
            },
            Slot::Vacant(i) => {
                proof {
                    if self@.contains_key(k@) {
                        let j = choose|j: int|
                            0 <= j < self.entries@.len() && self.entries@[j].0@ == k@;
                        lemma_key_lt_irreflexive(k@);
                        if j < i {
                            assert(key_lt(self.entries@[j].0@, k@));
                        } else {
                            assert(key_lt(k@, self.entries@[j].0@));
                        }
                    }
                }
                false
            },
        }
    }

    /// The value held under `k`, if any.
    pub fn get(&self, k: &str) -> (r: Option<&V>)
        ensures
            r is Some <==> self@.contains_key(k@),
            r matches Some(v) ==> v@ == self@[k@],
    {
        proof {
            use_type_invariant(self);
        }
        match self.locate(k) {
            Slot::Found(i) => {
                proof {
                    lemma_entries_view_at(self.entries@, i as int);
                }
                Some(&self.entries[i].1)
            },
            Slot::Vacant(i) => {
                proof {
                    if self@.contains_key(k@) {
                        let j = choose|j: int|
                            0 <= j < self.entries@.len() && self.entries@[j].0@ == k@;
                        lemma_key_lt_irreflexive(k@);
                        if j < i {
                            assert(key_lt(self.entries@[j].0@, k@));
                        } else {
                            assert(key_lt(k@, self.entries@[j].0@));
                        }
                    }
                }
                None
            },
        }
    }

    /// Holds `v` under `k`, in place of any value held there before.
    pub fn insert(&mut self, k: String, v: V)
        ensures
            final(self)@ == old(self)@.insert(k@, v@),
    {
        proof {
            use_type_invariant(&*self);
        }
        let slot = self.locate(k.as_str());
        let mut es: Vec<(String, V)> = Vec::new();
        std::mem::swap(&mut es, &mut self.entries);
        let ghost before = es@;
        match slot {
            Slot::Found(i) => {
                proof {
                    lemma_entries_view_update(before, i as int, k, v);
                }
                es.set(i, (k, v));
            },
            Slot::Vacant(i) => {
                proof {
                    lemma_entries_view_insert(before, i as int, k, v);
                }
                es.insert(i, (k, v));
            },
        }
        self.entries = es;
    }

    /// Takes out the value held under `k`, if any.
    pub fn remove(&mut self, k: &str) -> (r: Option<V>)
        ensures
            r is Some <==> old(self)@.contains_key(k@),
            r matches Some(v) ==> v@ == old(self)@[k@],
            final(self)@ == old(self)@.remove(k@),
            r is None ==> final(self)@ == old(self)@,
    {
        proof {
            use_type_invariant(&*self);
        }
        let slot = self.locate(k);
        match slot {
            Slot::Found(i) => {
                let mut es: Vec<(String, V)> = Vec::new();
                std::mem::swap(&mut es, &mut self.entries);
                let ghost before = es@;
                proof {
                    lemma_entries_view_remove(before, i as int);
                    lemma_entries_view_at(before, i as int);
                }
                let (_, v) = es.remove(i);
                self.entries = es;
                Some(v)
            },
            Slot::Vacant(i) => {
                proof {
                    if old(self)@.contains_key(k@) {
                        let j = choose|j: int|
                            0 <= j < self.entries@.len() && self.entries@[j].0@ == k@;
                        lemma_key_lt_irreflexive(k@);
                        if j < i {
                            assert(key_lt(self.entries@[j].0@, k@));
                        } else {
                            assert(key_lt(k@, self.entries@[j].0@));
                        }
                    }
                    assert(old(self)@.remove(k@) =~= old(self)@);
                }
                None
            },
        }
    }

    /// The names held, in increasing order.
    pub fn keys(&self) -> (r: Vec<&str>)
        ensures
            lists_names(r@.map_values(|s: &str| s@), self@.dom()),
    {
        proof {
            use_type_invariant(self);
        }
        let n = self.entries.len();
        let mut r: Vec<&str> = Vec::new();
        let mut i: usize = 0;
        while i < n
            invariant
                n == self.entries@.len(),
                i <= n,
                r@.len() == i,
                forall|j: int| 0 <= j < i ==> (#[trigger] r@[j])@ == self.entries@[j].0@,
            decreases n - i,
        {
            r.push(self.entries[i].0.as_str());
            i = i + 1;
        }
        proof {
            let rs = r@.map_values(|s: &str| s@);
            assert(rs =~= names_of(self.entries@));
            self.lemma_names_listed();
        }
        r
    }

    /// The names held, in increasing order, as owned strings.
    pub fn keys_owned(&self) -> (r: Vec<String>)
        ensures
            lists_names(r@.map_values(|s: String| s@), self@.dom()),
    {
        proof {
            use_type_invariant(self);
        }
        let n = self.entries.len();
        let mut r: Vec<String> = Vec::new();
        let mut i: usize = 0;
        while i < n
            invariant
                n == self.entries@.len(),
                i <= n,
                r@.len() == i,
                forall|j: int| 0 <= j < i ==> (#[trigger] r@[j])@ == self.entries@[j].0@,
            decreases n - i,
        {
            r.push(self.entries[i].0.clone());
            i = i + 1;
        }
        proof {
            let rs = r@.map_values(|s: String| s@);
            assert(rs =~= names_of(self.entries@));
            self.lemma_names_listed();
        }
        r
    }

    proof fn lemma_names_listed(&self)
        requires
            strictly_sorted(names_of(self.entries@)),
        ensures
            lists_names(names_of(self.entries@), self@.dom()),
    {
        let ns = names_of(self.entries@);
        assert forall|k: Seq<char>| ns.contains(k) <==> self@.dom().contains(k) by {
            if ns.contains(k) {
                let i = choose|i: int| 0 <= i < ns.len() && ns[i] == k;
                lemma_entries_view_at(self.entries@, i);
            }
            if self@.dom().contains(k) {
                let i = choose|i: int| 0 <= i < self.entries@.len() && self.entries@[i].0@ == k;
                assert(ns[i] == k);
            }
        }
    }
}

/// Two sequences of pairs with the same names and values of the same views
/// stand for the same map.
proof fn lemma_entries_view_same<V: View>(a: Seq<(String, V)>, b: Seq<(String, V)>)
    requires
        strictly_sorted(names_of(a)),
        names_of(a) == names_of(b),
        a.len() == b.len(),
        forall|i: int| 0 <= i < a.len() ==> (#[trigger] a[i]).1@ == b[i].1@,
    ensures
        entries_view(a) == entries_view(b),
{
    let (ma, mb) = (entries_view(a), entries_view(b));
    assert forall|i: int| 0 <= i < a.len() implies (#[trigger] a[i]).0@ == b[i].0@ by {
        assert(names_of(a)[i] == names_of(b)[i]);
    }
    assert forall|k: Seq<char>| #[trigger] ma.contains_key(k) <==> mb.contains_key(k) by {
        if ma.contains_key(k) {
            let i = choose|i: int| 0 <= i < a.len() && a[i].0@ == k;
            assert(0 <= i < b.len() && b[i].0@ == k);
        }
        if mb.contains_key(k) {
            let i = choose|i: int| 0 <= i < b.len() && b[i].0@ == k;
            assert(0 <= i < a.len() && a[i].0@ == k);
        }
    }
    assert forall|k: Seq<char>| #[trigger] ma.contains_key(k) implies ma[k] == mb[k] by {
        let i = choose|i: int| 0 <= i < a.len() && a[i].0@ == k;
        lemma_entries_view_at(a, i);
        lemma_entries_view_at(b, i);
    }
    assert(ma =~= mb);
}

impl<V: View + Clone> Clone for StrMap<V> {
    /// A copy of the map; where cloning a value keeps its view, the copy has
    /// the same view.
    fn clone(&self) -> (r: Self)
        ensures
            (forall|a: V, b: V| #[trigger] cloned::<V>(a, b) ==> a@ == b@) ==> r@ == self@,
    {
        proof {
            use_type_invariant(self);
        }
        let n = self.entries.len();
        let mut es: Vec<(String, V)> = Vec::new();
        let mut i: usize = 0;
        while i < n
            invariant
                n == self.entries@.len(),
                i <= n,
                es@.len() == i,
                forall|j: int|
                    0 <= j < i ==> (#[trigger] es@[j]).0@ == self.entries@[j].0@ && cloned::<V>(
                        self.entries@[j].1,
                        es@[j].1,
                    ),
            decreases n - i,
        {
            let k = self.entries[i].0.clone();
            let v = self.entries[i].1.clone();
            es.push((k, v));
            i = i + 1;
        }
        assert(names_of(es@) =~= names_of(self.entries@));
        proof {
            if forall|a: V, b: V| #[trigger] cloned::<V>(a, b) ==> a@ == b@ {
                assert forall|j: int| 0 <= j < es@.len() implies (#[trigger] self.entries@[j]).1@
                    == es@[j].1@ by {
                    assert(cloned::<V>(self.entries@[j].1, es@[j].1));
                }
                lemma_entries_view_same(self.entries@, es@);
            }
        }
        StrMap { entries: es }
    }
}

} // verus!
