//! A map from names to values that keeps its keys in insertion order.

use crate::text::str_eq;
use vstd::prelude::*;
use vstd::string::*;

verus! {

/// The map that a list of entries with distinct keys stands for.
pub open spec fn table_map<V>(s: Seq<(String, V)>) -> Map<Seq<char>, V>
    decreases s.len(),
{
    if s.len() == 0 {
        Map::empty()
    } else {
        table_map(s.drop_last()).insert(s.last().0@, s.last().1)
    }
}

/// The keys of a list of entries.
pub open spec fn table_keys<V>(s: Seq<(String, V)>) -> Seq<Seq<char>> {
    Seq::new(s.len(), |i: int| s[i].0@)
}

/// The keys other than `key`, in their order.
pub open spec fn without_key(s: Seq<Seq<char>>, key: Seq<char>) -> Seq<Seq<char>> {
    s.filter(|k: Seq<char>| k != key)
}

/// A finite map from names to values.
pub struct Table<V> {
    entries: Vec<(String, V)>,
}

impl<V> View for Table<V> {
    type V = Map<Seq<char>, V>;

    closed spec fn view(&self) -> Map<Seq<char>, V> {
        table_map(self.entries@)
    }
}

proof fn lemma_table_map<V>(s: Seq<(String, V)>)
    requires
        table_keys(s).no_duplicates(),
    ensures
        forall|k: Seq<char>| #[trigger]
            table_map(s).contains_key(k) <==> table_keys(s).contains(k),
        forall|i: int|
            0 <= i < s.len() ==> table_map(s).contains_key((#[trigger] s[i]).0@) && table_map(
                s,
            )[s[i].0@] == s[i].1,
    decreases s.len(),
{
    if s.len() > 0 {
        let d = s.drop_last();
        assert(table_keys(d) =~= table_keys(s).drop_last());
        lemma_table_map(d);
        let m = table_map(s);
        assert forall|k: Seq<char>| #[trigger] m.contains_key(k) <==> table_keys(s).contains(k) by {
            if m.contains_key(k) {
                if k == s.last().0@ {
                    assert(table_keys(s)[s.len() - 1] == k);
                } else {
                    assert(table_map(d).contains_key(k));
                    let i = choose|i: int| 0 <= i < d.len() && table_keys(d)[i] == k;
                    assert(table_keys(s)[i] == k);
                }
            }
            if table_keys(s).contains(k) {
                let i = choose|i: int| 0 <= i < s.len() && table_keys(s)[i] == k;
                if i < d.len() {
                    assert(table_keys(d)[i] == k);
                }
            }
        }
        assert forall|i: int| 0 <= i < s.len() implies m.contains_key((#[trigger] s[i]).0@)
            && m[s[i].0@] == s[i].1 by {
            if i < d.len() {
                assert(d[i] == s[i]);
                assert(table_keys(s)[i] != table_keys(s)[s.len() - 1]);
            }
        }
    }
}

proof fn lemma_table_equal<V>(s: Seq<(String, V)>, m: Map<Seq<char>, V>)
    requires
        table_keys(s).no_duplicates(),
        forall|k: Seq<char>| #[trigger] m.contains_key(k) <==> table_keys(s).contains(k),
        forall|i: int| 0 <= i < s.len() ==> m[(#[trigger] s[i]).0@] == s[i].1,
    ensures
        table_map(s) == m,
{
    lemma_table_map(s);
    assert forall|k: Seq<char>| #[trigger] table_map(s).contains_key(k) implies table_map(s)[k]
        == m[k] by {
        let i = choose|i: int| 0 <= i < s.len() && table_keys(s)[i] == k;
        assert(s[i].0@ == k);
    }
    assert(table_map(s) =~= m);
}

impl<V> Table<V> {
    /// No key occurs twice.
    pub closed spec fn wf(self) -> bool {
        table_keys(self.entries@).no_duplicates()
    }

    /// The keys in the order in which they were first inserted.
    pub closed spec fn keys(self) -> Seq<Seq<char>> {
        table_keys(self.entries@)
    }

    pub fn new() -> (t: Table<V>)
        ensures
            t.wf(),
            t@ == Map::<Seq<char>, V>::empty(),
            t.keys() == Seq::<Seq<char>>::empty(),
    {
        let t = Table { entries: Vec::new() };
        assert(t.keys() =~= Seq::<Seq<char>>::empty());
        t
    }

    /// The keys are those of the map, each once.
    pub proof fn lemma_keys(self)
        requires
            self.wf(),
        ensures
            self.keys().no_duplicates(),
            forall|k: Seq<char>| #[trigger] self@.contains_key(k) <==> self.keys().contains(k),
    {
        lemma_table_map(self.entries@);
    }

    /// The number of entries.
    pub fn len(&self) -> (n: usize)
        ensures
            n == self.keys().len(),
    {
        self.entries.len()
    }

    /// The `i`-th key.
    pub fn key_at(&self, i: usize) -> (k: &str)
        requires
            self.wf(),
            i < self.keys().len(),
        ensures
            k@ == self.keys()[i as int],
            self@.contains_key(k@),
    {
        proof {
            lemma_table_map(self.entries@);
        }
        self.entries[i].0.as_str()
    }

    /// The value under the `i`-th key.
    pub fn value_at(&self, i: usize) -> (v: &V)
        requires
            self.wf(),
            i < self.keys().len(),
        ensures
            self@.contains_key(self.keys()[i as int]),
            *v == self@[self.keys()[i as int]],
    {
        proof {
            lemma_table_map(self.entries@);
        }
        &self.entries[i].1
    }

    /// The index of a key, or the number of entries.
    fn find(&self, key: &str) -> (at: usize)
        ensures
            at <= self.entries@.len(),
            at < self.entries@.len() ==> self.entries@[at as int].0@ == key@,
            at == self.entries@.len() ==> !self.keys().contains(key@),
    {
        let mut i: usize = 0;
        while i < self.entries.len()
            invariant
                i <= self.entries@.len(),
                forall|j: int| 0 <= j < i ==> (#[trigger] self.entries@[j]).0@ != key@,
            decreases self.entries@.len() - i,
        {
            if str_eq(self.entries[i].0.as_str(), key) {
                return i;
            }
            i += 1;
        }
        assert(!self.keys().contains(key@)) by {
            if self.keys().contains(key@) {
                let j = choose|j: int| 0 <= j < self.keys().len() && self.keys()[j] == key@;
                assert(self.entries@[j].0@ == key@);
            }
        }
        i
    }

    pub fn contains(&self, key: &str) -> (b: bool)
        requires
            self.wf(),
        ensures
            b == self@.contains_key(key@),
    {
        proof {
            lemma_table_map(self.entries@);
        }
        let at: usize = self.find(key);
        at < self.entries.len()
    }

    pub fn get(&self, key: &str) -> (r: Option<&V>)
        requires
            self.wf(),
        ensures
            r is Some <==> self@.contains_key(key@),
            r is Some ==> *r->Some_0 == self@[key@],
    {
        proof {
            lemma_table_map(self.entries@);
        }
        let at: usize = self.find(key);
        if at < self.entries.len() {
            Some(&self.entries[at].1)
        } else {
            None
        }
    }

    /// Stores a value under a key.
    pub fn insert(&mut self, key: &str, value: V)
        requires
            old(self).wf(),
        ensures
            final(self).wf(),
            final(self)@ == old(self)@.insert(key@, value),
            final(self).keys() == if old(self)@.contains_key(key@) {
                old(self).keys()
            } else {
                old(self).keys().push(key@)
            },
    {
        proof {
            lemma_table_map(self.entries@);
        }
        let at: usize = self.find(key);
        let ghost before = self.entries@;
        let e = (key.to_owned(), value);
        if at < self.entries.len() {
            proof {
                let u = before.update(at as int, e);
                assert(table_keys(u) =~= table_keys(before));
                let m = table_map(before).insert(key@, value);
                assert forall|k: Seq<char>| #[trigger] m.contains_key(k) <==> table_keys(
                    u,
                ).contains(k) by {
                    assert(table_keys(before)[at as int] == key@);
                }
                assert forall|i: int| 0 <= i < u.len() implies m[(#[trigger] u[i]).0@] == u[i].1 by {
                    if i != at {
                        assert(table_keys(before)[i] != table_keys(before)[at as int]);
                        assert(u[i] == before[i]);
                    }
                }
                lemma_table_equal(u, m);
            }
            self.entries.set(at, e);
        } else {
            proof {
                let u = before.push(e);
                assert(table_keys(u) =~= table_keys(before).push(key@));
                assert(u.drop_last() =~= before);
                assert(table_keys(u).no_duplicates());
            }
            self.entries.push(e);
        }
    }

    /// Takes the value under a key out.
    pub fn remove(&mut self, key: &str) -> (r: Option<V>)
        requires
            old(self).wf(),
        ensures
            final(self).wf(),
            final(self)@ == old(self)@.remove(key@),
            r is Some <==> old(self)@.contains_key(key@),
            r is Some ==> r->Some_0 == old(self)@[key@],
            final(self).keys() == without_key(old(self).keys(), key@),
    {
        proof {
            lemma_table_map(self.entries@);
        }
        let at: usize = self.find(key);
        let ghost before = self.entries@;
        if at < self.entries.len() {
            proof {
                let u = before.remove(at as int);
                let ks = table_keys(before);
                assert(table_keys(u) =~= ks.remove(at as int));
                assert(ks[at as int] == key@);
                assert(table_keys(u).no_duplicates());
                let m = table_map(before).remove(key@);
                assert forall|k: Seq<char>| #[trigger] m.contains_key(k) <==> table_keys(
                    u,
                ).contains(k) by {
                    if m.contains_key(k) {
                        let i = choose|i: int| 0 <= i < ks.len() && ks[i] == k;
                        if i < at {
                            assert(table_keys(u)[i] == k);
                        } else {
                            assert(table_keys(u)[i - 1] == k);
                        }
                    }
                    if table_keys(u).contains(k) {
                        let i = choose|i: int| 0 <= i < u.len() && table_keys(u)[i] == k;
                        if i < at {
                            assert(ks[i] == k);
                        } else {
                            assert(ks[i + 1] == k);
                        }
                    }
                }
                assert forall|i: int| 0 <= i < u.len() implies m[(#[trigger] u[i]).0@] == u[i].1 by {
                    if i < at {
                        assert(u[i] == before[i]);
                        assert(ks[i] != ks[at as int]);
                    } else {
                        assert(u[i] == before[i + 1]);
                        assert(ks[i + 1] != ks[at as int]);
                    }
                }
                lemma_table_equal(u, m);
                lemma_remove_is_filter(ks, at as int);
            }
            let e = self.entries.remove(at);
            Some(e.1)
        } else {
            proof {
                assert(old(self)@.remove(key@) =~= old(self)@);
                lemma_filter_absent(table_keys(before), key@);
            }
            None
        }
    }
}

/// A key that does not occur: nothing is filtered out.
pub proof fn lemma_filter_absent(s: Seq<Seq<char>>, key: Seq<char>)
    requires
        !s.contains(key),
    ensures
        without_key(s, key) == s,
    decreases s.len(),
{
    reveal(Seq::filter);
    if s.len() > 0 {
        assert(s.last() != key) by {
            assert(s[s.len() - 1] == s.last());
        }
        assert(!s.drop_last().contains(key)) by {
            if s.drop_last().contains(key) {
                let i = choose|i: int| 0 <= i < s.len() - 1 && s.drop_last()[i] == key;
                assert(s[i] == key);
            }
        }
        lemma_filter_absent(s.drop_last(), key);
        assert(s =~= s.drop_last().push(s.last()));
    }
}

proof fn lemma_remove_is_filter(s: Seq<Seq<char>>, at: int)
    requires
        0 <= at < s.len(),
        s.no_duplicates(),
    ensures
        without_key(s, s[at]) == s.remove(at),
    decreases s.len(),
{
    reveal(Seq::filter);
    let d = s.drop_last();
    let key = s[at];
    if at == s.len() - 1 {
        assert(!d.contains(key)) by {
            if d.contains(key) {
                let i = choose|i: int| 0 <= i < d.len() && d[i] == key;
                assert(s[i] == s[at]);
            }
        }
        lemma_filter_absent(d, key);
        assert(s.remove(at) =~= d);
    } else {
        assert(d.no_duplicates());
        lemma_remove_is_filter(d, at);
        assert(d[at] == key);
        assert(s.last() == s[s.len() - 1]);
        assert(s.remove(at) =~= d.remove(at).push(s.last()));
    }
}

} // verus!
