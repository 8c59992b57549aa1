//! An association map from strings to values, backed by a vector of pairs
//! with pairwise-distinct keys. Its view is the mathematical `Map` from the
//! keys' character sequences to the stored values.

use vstd::prelude::*;
use crate::text::str_eq;

verus! {

/// A value that can be duplicated so that the copy has the same view.
pub trait Dup: View + Sized {
    fn dup(&self) -> (r: Self)
        ensures
            r@ == self@;
}

impl Dup for String {
    fn dup(&self) -> (r: Self) {
        self.clone()
    }
}

/// Keys of the pair list are pairwise distinct (as character sequences).
pub open spec fn keys_distinct<V>(s: Seq<(String, V)>) -> bool {
    forall|i: int, j: int| 0 <= i < j < s.len() ==> s[i].0@ != s[j].0@
}

/// The map denoted by a pair list; later pairs win.
pub open spec fn assoc_map<V>(s: Seq<(String, V)>) -> Map<Seq<char>, V>
    decreases s.len(),
{
    if s.len() == 0 {
        Map::empty()
    } else {
        assoc_map(s.drop_last()).insert(s.last().0@, s.last().1)
    }
}

pub struct StringMap<V> {
    pairs: Vec<(String, V)>,
}

proof fn lemma_assoc_dom<V>(s: Seq<(String, V)>)
    ensures
        forall|k: Seq<char>|
            assoc_map(s).dom().contains(k) <==> exists|i: int| 0 <= i < s.len() && s[i].0@ == k,
    decreases s.len(),
{
    if s.len() == 0 {
    } else {
        let d = s.drop_last();
        lemma_assoc_dom(d);
        assert(assoc_map(s) == assoc_map(d).insert(s.last().0@, s.last().1));
        assert forall|k: Seq<char>| assoc_map(s).dom().contains(k)
            implies exists|i: int| 0 <= i < s.len() && s[i].0@ == k by {
            if k == s.last().0@ {
                assert(s[s.len() - 1].0@ == k);
            } else {
                assert(assoc_map(d).dom().contains(k));
                let i = choose|i: int| 0 <= i < d.len() && d[i].0@ == k;
                assert(d[i] == s[i]);
                assert(s[i].0@ == k);
            }
        }
        assert forall|k: Seq<char>| (exists|i: int| 0 <= i < s.len() && s[i].0@ == k)
            implies assoc_map(s).dom().contains(k) by {
            let i = choose|i: int| 0 <= i < s.len() && s[i].0@ == k;
            if i < s.len() - 1 {
                assert(d[i] == s[i]);
                assert(d[i].0@ == k);
                assert(assoc_map(d).dom().contains(k));
            }
        }
    }
}

proof fn lemma_assoc_at<V>(s: Seq<(String, V)>, i: int)
    requires
        keys_distinct(s),
        0 <= i < s.len(),
    ensures
        assoc_map(s).dom().contains(s[i].0@),
        assoc_map(s)[s[i].0@] == s[i].1,
    decreases s.len(),
{
    if i == s.len() - 1 {
    } else {
        lemma_assoc_at(s.drop_last(), i);
        assert(s.drop_last()[i] == s[i]);
        assert(s[i].0@ != s.last().0@);
    }
}

proof fn lemma_assoc_len<V>(s: Seq<(String, V)>)
    requires
        keys_distinct(s),
    ensures
        assoc_map(s).dom().finite(),
        assoc_map(s).dom().len() == s.len(),
    decreases s.len(),
{
    if s.len() == 0 {
        assert(assoc_map(s).dom() =~= Set::<Seq<char>>::empty());
    } else {
        lemma_assoc_len(s.drop_last());
        lemma_assoc_dom(s.drop_last());
        let k = s.last().0@;
        assert(!assoc_map(s.drop_last()).dom().contains(k)) by {
            if assoc_map(s.drop_last()).dom().contains(k) {
                let i = choose|i: int| 0 <= i < s.drop_last().len() && s.drop_last()[i].0@ == k;
                assert(s[i].0@ == s[s.len() - 1].0@);
            }
        }
        assert(assoc_map(s).dom() =~= assoc_map(s.drop_last()).dom().insert(k));
        vstd::set::axiom_set_insert_finite(assoc_map(s.drop_last()).dom(), k);
        vstd::set::axiom_set_insert_len(assoc_map(s.drop_last()).dom(), k);
    }
}

proof fn lemma_assoc_update<V>(s: Seq<(String, V)>, i: int, p: (String, V))
    requires
        keys_distinct(s),
        0 <= i < s.len(),
        p.0@ == s[i].0@,
    ensures
        assoc_map(s.update(i, p)) == assoc_map(s).insert(p.0@, p.1),
    decreases s.len(),
{
    let t = s.update(i, p);
    if i == s.len() - 1 {
        assert(t.drop_last() =~= s.drop_last());
        assert(t.last() == p);
        assert(assoc_map(t) =~= assoc_map(s).insert(p.0@, p.1));
    } else {
        lemma_assoc_update(s.drop_last(), i, p);
        assert(t.drop_last() =~= s.drop_last().update(i, p));
        assert(t.last() == s.last());
        assert(s.last().0@ != p.0@) by {
            assert(s[i].0@ != s[s.len() - 1].0@);
        }
        assert(assoc_map(t) =~= assoc_map(s).insert(p.0@, p.1));
    }
}

proof fn lemma_assoc_remove<V>(s: Seq<(String, V)>, i: int)
    requires
        keys_distinct(s),
        0 <= i < s.len(),
    ensures
        assoc_map(s.remove(i)) == assoc_map(s).remove(s[i].0@),
    decreases s.len(),
{
    let k = s[i].0@;
    if i == s.len() - 1 {
        assert(s.remove(i) =~= s.drop_last());
        lemma_assoc_dom(s.drop_last());
        assert(!assoc_map(s.drop_last()).dom().contains(k)) by {
            if assoc_map(s.drop_last()).dom().contains(k) {
                let j = choose|j: int| 0 <= j < s.drop_last().len() && s.drop_last()[j].0@ == k;
                assert(s[j].0@ == s[s.len() - 1].0@);
            }
        }
        assert(assoc_map(s.drop_last()) =~= assoc_map(s).remove(k));
    } else {
        lemma_assoc_remove(s.drop_last(), i);
        let t = s.remove(i);
        assert(t.drop_last() =~= s.drop_last().remove(i));
        assert(t.last() == s.last());
        assert(s.last().0@ != k) by {
            assert(s[i].0@ != s[s.len() - 1].0@);
        }
        assert(assoc_map(t) =~= assoc_map(s).remove(k));
    }
}

impl<V> StringMap<V> {
    #[verifier::type_invariant]
    spec fn wf(self) -> bool {
        keys_distinct(self.pairs@)
    }

    /// An empty map.
    pub fn new() -> (m: Self)
        ensures
            m@ == Map::<Seq<char>, V>::empty(),
    {
        StringMap { pairs: Vec::new() }
    }

    /// The number of entries.
    pub fn len(&self) -> (n: usize)
        ensures
            n == self@.dom().len(),
            self@.dom().finite(),
    {
        proof {
            use_type_invariant(&*self);
            lemma_assoc_len(self.pairs@);
        }
        self.pairs.len()
    }

    /// The position of `key` in the pair list, if present.
    fn position(&self, key: &str) -> (r: Option<usize>)
        ensures
            match r {
                Some(i) => i < self.pairs@.len() && self.pairs@[i as int].0@ == key@,
                None => forall|j: int| 0 <= j < self.pairs@.len() ==> self.pairs@[j].0@ != key@,
            },
    {
        let n = self.pairs.len();
        let mut i: usize = 0;
        while i < n
            invariant
                i <= n,
                n == self.pairs@.len(),
                forall|j: int| 0 <= j < i ==> self.pairs@[j].0@ != key@,
            decreases n - i,
        {
            if str_eq(self.pairs[i].0.as_str(), key) {
                return Some(i);
            }
            i = i + 1;
        }
        None
    }

    /// Whether `key` is present.
    pub fn contains_key(&self, key: &str) -> (r: bool)
        ensures
            r == self@.dom().contains(key@),
    {
        proof {
            use_type_invariant(&*self);
            lemma_assoc_dom(self.pairs@);
        }
        match self.position(key) {
            Some(i) => {
                proof {
                    lemma_assoc_at(self.pairs@, i as int);
                }
                true
            },
            None => false,
        }
    }

    /// Look up `key`.
    pub fn get(&self, key: &str) -> (r: Option<&V>)
        ensures
            match r {
                Some(v) => self@.dom().contains(key@) && *v == self@[key@],
                None => !self@.dom().contains(key@),
            },
    {
        proof {
            use_type_invariant(&*self);
            lemma_assoc_dom(self.pairs@);
        }
        match self.position(key) {
            Some(i) => {
                proof {
                    lemma_assoc_at(self.pairs@, i as int);
                }
                Some(&self.pairs[i].1)
            },
            None => None,
        }
    }

    /// Insert `value` under `key`, replacing any previous value.
    pub fn insert(&mut self, key: String, value: V)
        ensures
            final(self)@ == old(self)@.insert(key@, value),
            final(self)@.dom().finite(),
    {
        proof {
            use_type_invariant(&*self);
        }
        let ghost s0 = self.pairs@;
        match self.position(key.as_str()) {
            Some(i) => {
                proof {
                    lemma_assoc_update(s0, i as int, (key, value));
                }
                let mut pairs: Vec<(String, V)> = Vec::new();
                core::mem::swap(&mut pairs, &mut self.pairs);
                let p = &mut pairs[i];
                *p = (key, value);
                self.pairs = pairs;
                proof {
                    lemma_assoc_len(self.pairs@);
                }
            },
            None => {
                let mut pairs: Vec<(String, V)> = Vec::new();
                core::mem::swap(&mut pairs, &mut self.pairs);
                pairs.push((key, value));
                self.pairs = pairs;
                proof {
                    assert(self.pairs@.drop_last() =~= s0);
                    lemma_assoc_len(self.pairs@);
                }
            },
        }
    }

    /// Remove `key`; reports whether it was present.
    pub fn remove(&mut self, key: &str) -> (was: bool)
        ensures
            final(self)@ == old(self)@.remove(key@),
            was == old(self)@.dom().contains(key@),
    {
        proof {
            use_type_invariant(&*self);
            lemma_assoc_dom(self.pairs@);
        }
        let ghost s0 = self.pairs@;
        match self.position(key) {
            Some(i) => {
                proof {
                    lemma_assoc_remove(s0, i as int);
                    lemma_assoc_at(s0, i as int);
                }
                let mut pairs: Vec<(String, V)> = Vec::new();
                core::mem::swap(&mut pairs, &mut self.pairs);
                pairs.remove(i);
                self.pairs = pairs;
                true
            },
            None => {
                proof {
                    assert(assoc_map(s0) =~= assoc_map(s0).remove(key@));
                }
                false
            },
        }
    }

    /// Remove every entry.
    pub fn clear(&mut self)
        ensures
            final(self)@ == Map::<Seq<char>, V>::empty(),
    {
        let mut pairs: Vec<(String, V)> = Vec::new();
        core::mem::swap(&mut pairs, &mut self.pairs);
        pairs.clear();
        self.pairs = pairs;
    }

    /// The keys, in insertion order, as fresh strings.
    pub fn keys(&self) -> (r: Vec<String>)
        ensures
            r@.len() == self@.dom().len(),
            forall|i: int| 0 <= i < r@.len() ==> self@.dom().contains(#[trigger] r@[i]@),
            forall|i: int, j: int| 0 <= i < j < r@.len() ==> r@[i]@ != r@[j]@,
            forall|k: Seq<char>|
                self@.dom().contains(k) ==> exists|i: int| 0 <= i < r@.len() && r@[i]@ == k,
    {
        proof {
            use_type_invariant(&*self);
            lemma_assoc_dom(self.pairs@);
            lemma_assoc_len(self.pairs@);
        }
        let n = self.pairs.len();
        let mut r: Vec<String> = Vec::new();
        let mut i: usize = 0;
        while i < n
            invariant
                i <= n,
                n == self.pairs@.len(),
                r@.len() == i,
                forall|j: int| 0 <= j < i ==> #[trigger] r@[j]@ == self.pairs@[j].0@,
            decreases n - i,
        {
            r.push(self.pairs[i].0.clone());
            i = i + 1;
        }
        proof {
            assert forall|k: Seq<char>| self@.dom().contains(k)
                implies exists|i: int| 0 <= i < r@.len() && r@[i]@ == k by {
                let i = choose|i: int| 0 <= i < self.pairs@.len() && self.pairs@[i].0@ == k;
                assert(r@[i]@ == k);
            }
        }
        r
    }
}

impl<V: Dup> StringMap<V> {
    /// A copy whose view agrees with this map's view entry-wise.
    pub fn duplicate(&self) -> (r: Self)
        ensures
            r@.dom() == self@.dom(),
            forall|k: Seq<char>| self@.dom().contains(k) ==> (#[trigger] r@[k])@ == self@[k]@,
    {
        proof {
            use_type_invariant(&*self);
            lemma_assoc_dom(self.pairs@);
        }
        let n = self.pairs.len();
        let mut pairs: Vec<(String, V)> = Vec::new();
        let mut i: usize = 0;
        while i < n
            invariant
                i <= n,
                n == self.pairs@.len(),
                keys_distinct(self.pairs@),
                pairs@.len() == i,
                forall|j: int|
                    0 <= j < i ==> (#[trigger] pairs@[j].0)@ == self.pairs@[j].0@
                        && pairs@[j].1@ == self.pairs@[j].1@,
            decreases n - i,
        {
            let p = &self.pairs[i];
            let key = p.0.clone();
            let value = p.1.dup();
            pairs.push((key, value));
            i = i + 1;
        }
        let r = StringMap { pairs };
        proof {
            lemma_assoc_dom(r.pairs@);
            assert(r@.dom() =~= self@.dom()) by {
                lemma_assoc_dom(r.pairs@);
                lemma_assoc_dom(self.pairs@);
                assert forall|k: Seq<char>| r@.dom().contains(k) == self@.dom().contains(k) by {
                    if r@.dom().contains(k) {
                        let i = choose|i: int| 0 <= i < r.pairs@.len() && r.pairs@[i].0@ == k;
                        assert(self.pairs@[i].0@ == k);
                    }
                    if self@.dom().contains(k) {
                        let i = choose|i: int| 0 <= i < self.pairs@.len() && self.pairs@[i].0@ == k;
                        assert(r.pairs@[i].0@ == k);
                    }
                }
            }
            assert forall|k: Seq<char>| self@.dom().contains(k)
                implies (r@[k])@ == self@[k]@ by {
                let i = choose|i: int| 0 <= i < self.pairs@.len() && self.pairs@[i].0@ == k;
                lemma_assoc_at(self.pairs@, i);
                lemma_assoc_at(r.pairs@, i);
            }
        }
        r
    }

    /// The entries, in insertion order, as fresh pairs.
    pub fn entries(&self) -> (r: Vec<(String, V)>)
        ensures
            r@.len() == self@.dom().len(),
            forall|i: int|
                0 <= i < r@.len() ==> self@.dom().contains((#[trigger] r@[i].0)@)
                    && (self@[r@[i].0@])@ == r@[i].1@,
            forall|i: int, j: int| 0 <= i < j < r@.len() ==> r@[i].0@ != r@[j].0@,
            forall|k: Seq<char>|
                self@.dom().contains(k) ==> exists|i: int| 0 <= i < r@.len() && r@[i].0@ == k,
    {
        proof {
            use_type_invariant(&*self);
            lemma_assoc_dom(self.pairs@);
            lemma_assoc_len(self.pairs@);
        }
        let n = self.pairs.len();
        let mut r: Vec<(String, V)> = Vec::new();
        let mut i: usize = 0;
        while i < n
            invariant
                i <= n,
                n == self.pairs@.len(),
                keys_distinct(self.pairs@),
                r@.len() == i,
                forall|j: int|
                    0 <= j < i ==> (#[trigger] r@[j].0)@ == self.pairs@[j].0@
                        && r@[j].1@ == self.pairs@[j].1@,
            decreases n - i,
        {
            let p = &self.pairs[i];
            r.push((p.0.clone(), p.1.dup()));
            i = i + 1;
        }
        proof {
            assert forall|i: int|
                0 <= i < r@.len() implies self@.dom().contains((#[trigger] r@[i].0)@)
                    && (self@[r@[i].0@])@ == r@[i].1@ by {
                lemma_assoc_at(self.pairs@, i);
            }
            assert forall|k: Seq<char>| self@.dom().contains(k)
                implies exists|i: int| 0 <= i < r@.len() && r@[i].0@ == k by {
                let i = choose|i: int| 0 <= i < self.pairs@.len() && self.pairs@[i].0@ == k;
                assert(r@[i].0@ == k);
            }
        }
        r
    }
}

/// Mapping the values of a map commutes with inserting one entry.
pub proof fn lemma_map_values_insert<K, A, B>(m: Map<K, A>, f: spec_fn(A) -> B, k: K, v: A)
    ensures
        m.insert(k, v).map_values(f) == m.map_values(f).insert(k, f(v)),
{
    assert(m.insert(k, v).map_values(f) =~= m.map_values(f).insert(k, f(v)));
}

/// Mapping the values of a map commutes with removing one key.
pub proof fn lemma_map_values_remove<K, A, B>(m: Map<K, A>, f: spec_fn(A) -> B, k: K)
    ensures
        m.remove(k).map_values(f) == m.map_values(f).remove(k),
{
    assert(m.remove(k).map_values(f) =~= m.map_values(f).remove(k));
}

impl<V> View for StringMap<V> {
    type V = Map<Seq<char>, V>;

    closed spec fn view(&self) -> Map<Seq<char>, V> {
        assoc_map(self.pairs@)
    }
}

} // verus!
