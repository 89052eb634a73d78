//! A small map from string keys to values, kept as a vector of pairs with
//! unique keys. Lookups are linear; the maps here hold a handful of variants
//! or streams. The view is a sequence of (key characters, value) pairs, so
//! contracts can speak both of lookups and of iteration order.

use vstd::prelude::*;

use crate::strutil::eq_str;

verus! {

/// First value bound to key `k`, scanning left to right.
pub open spec fn assoc_get<V>(s: Seq<(Seq<char>, V)>, k: Seq<char>) -> Option<V>
    decreases s.len(),
{
    if s.len() == 0 {
        None
    } else if s[0].0 == k {
        Some(s[0].1)
    } else {
        assoc_get(s.drop_first(), k)
    }
}

/// Whether some pair binds key `k`.
pub open spec fn assoc_has<V>(s: Seq<(Seq<char>, V)>, k: Seq<char>) -> bool {
    exists|i: int| 0 <= i < s.len() && s[i].0 == k
}

/// Whether every key occurs at most once.
pub open spec fn unique_keys<V>(s: Seq<(Seq<char>, V)>) -> bool {
    forall|i: int, j: int| 0 <= i < j < s.len() ==> s[i].0 != s[j].0
}

/// With unique keys, a pair at index `i` is what `assoc_get` finds.
pub proof fn lemma_assoc_get_at<V>(s: Seq<(Seq<char>, V)>, i: int)
    requires
        unique_keys(s),
        0 <= i < s.len(),
    ensures
        assoc_get(s, s[i].0) == Some(s[i].1),
    decreases s.len(),
{
    if i == 0 {
    } else {
        assert(s[0].0 != s[i].0);
        lemma_assoc_get_at(s.drop_first(), i - 1);
        assert(s.drop_first()[i - 1] == s[i]);
    }
}

/// A key bound nowhere is not found.
pub proof fn lemma_assoc_get_none<V>(s: Seq<(Seq<char>, V)>, k: Seq<char>)
    requires
        !assoc_has(s, k),
    ensures
        assoc_get(s, k) is None,
    decreases s.len(),
{
    if s.len() > 0 {
        assert(s[0].0 != k);
        assert(!assoc_has(s.drop_first(), k)) by {
            assert(forall|i: int|
                0 <= i < s.drop_first().len() ==> s.drop_first()[i] == s[i + 1]);
        }
        lemma_assoc_get_none(s.drop_first(), k);
    }
}

/// A map from string keys to values, backed by a vector of pairs.
pub struct AssocMap<V> {
    entries: Vec<(String, V)>,
}

impl<V> AssocMap<V> {
    /// The pairs, keys as character sequences, in insertion order.
    pub closed spec fn view(&self) -> Seq<(Seq<char>, V)> {
        self.entries@.map(|i: int, p: (String, V)| (p.0@, p.1))
    }

    /// Keys are unique.
    pub open spec fn wf(&self) -> bool {
        unique_keys(self@)
    }

    /// The value bound to `k`, if any.
    pub open spec fn spec_get(&self, k: Seq<char>) -> Option<V> {
        assoc_get(self@, k)
    }

    /// Whether `k` is bound.
    pub open spec fn spec_has(&self, k: Seq<char>) -> bool {
        assoc_has(self@, k)
    }

    /// An empty map.
    pub fn new() -> (r: Self)
        ensures
            r.wf(),
            r@ == Seq::<(Seq<char>, V)>::empty(),
    {
        let r = AssocMap { entries: Vec::new() };
        proof {
            assert(r@ =~= Seq::<(Seq<char>, V)>::empty());
        }
        r
    }

    /// How many keys are bound.
    pub fn len(&self) -> (r: usize)
        ensures
            r == self@.len(),
    {
        self.entries.len()
    }

    /// Whether no key is bound.
    pub fn is_empty(&self) -> (r: bool)
        ensures
            r == (self@.len() == 0),
    {
        self.entries.len() == 0
    }

    /// The key of the pair at index `i`.
    pub fn key_at(&self, i: usize) -> (r: &String)
        requires
            i < self@.len(),
        ensures
            r@ == self@[i as int].0,
    {
        &self.entries[i].0
    }

    /// The value of the pair at index `i`.
    pub fn val_at(&self, i: usize) -> (r: &V)
        requires
            i < self@.len(),
        ensures
            *r == self@[i as int].1,
    {
        &self.entries[i].1
    }

    /// Where `k` is bound, if anywhere.
    pub fn index_of(&self, k: &str) -> (r: Option<usize>)
        requires
            self.wf(),
        ensures
            match r {
                Some(i) => i < self@.len() && self@[i as int].0 == k@ && self.spec_get(k@)
                    == Some(self@[i as int].1),
                None => !self.spec_has(k@) && self.spec_get(k@) is None,
            },
    {
        let n = self.entries.len();
        let mut i: usize = 0;
        while i < n
            invariant
                i <= n,
                n == self@.len(),
                self.wf(),
                forall|j: int| 0 <= j < i ==> self@[j].0 != k@,
        decreases n - i,
        {
            if eq_str(self.entries[i].0.as_str(), k) {
                proof {
                    lemma_assoc_get_at(self@, i as int);
                }
                return Some(i);
            }
            i = i + 1;
        }
        proof {
            lemma_assoc_get_none(self@, k@);
        }
        None
    }

    /// The value bound to `k`, if any.
    pub fn get(&self, k: &str) -> (r: Option<&V>)
        requires
            self.wf(),
        ensures
            match r {
                Some(v) => self.spec_get(k@) == Some(*v),
                None => self.spec_get(k@) is None,
            },
    {
        match self.index_of(k) {
            Some(i) => Some(&self.entries[i].1),
            None => None,
        }
    }

    /// Whether `k` is bound.
    pub fn contains_key(&self, k: &str) -> (r: bool)
        requires
            self.wf(),
        ensures
            r == self.spec_has(k@),
            r == (self.spec_get(k@) is Some),
    {
        match self.index_of(k) {
            Some(i) => {
                proof {
                    assert(assoc_has(self@, k@));
                }
                true
            },
            None => false,
        }
    }

    /// Binds `k` to `v`: updates the pair in place if `k` is bound, else
    /// appends a new pair.
    pub fn set(&mut self, k: &str, v: V)
        requires
            old(self).wf(),
        ensures
            final(self).wf(),
            final(self)@ == match spec_index_of(old(self)@, k@) {
                Some(i) => old(self)@.update(i, (k@, v)),
                None => old(self)@.push((k@, v)),
            },
            final(self).spec_get(k@) == Some(v),
            forall|k2: Seq<char>| k2 != k@ ==> final(self).spec_get(k2) == old(self).spec_get(k2),
    {
        let ghost oldview = self@;
        match self.index_of(k) {
            Some(i) => {
                proof {
                    lemma_spec_index_of_at(oldview, k@, i as int);
                }
                let mut pair = self.entries.remove(i);
                pair.1 = v;
                self.entries.insert(i, pair);
                proof {
                    assert(self@ =~= oldview.update(i as int, (oldview[i as int].0, v)));
                    lemma_unique_update(oldview, i as int, v);
                    lemma_get_update(oldview, i as int, v);
                }
            },
            None => {
                proof {
                    lemma_spec_index_of_none(oldview, k@);
                }
                self.entries.push((k.to_owned(), v));
                proof {
                    assert(self@ =~= oldview.push((k@, v)));
                    lemma_unique_push(oldview, k@, v);
                    lemma_get_push(oldview, k@, v);
                }
            },
        }
    }

    /// Swaps the value of the pair at index `i`, returning the old value.
    pub fn replace_at(&mut self, i: usize, v: V) -> (r: V)
        requires
            i < old(self)@.len(),
        ensures
            final(self)@ == old(self)@.update(i as int, (old(self)@[i as int].0, v)),
            r == old(self)@[i as int].1,
            final(self).wf() == old(self).wf(),
    {
        let ghost oldview = self@;
        let mut pair = self.entries.remove(i);
        let r = pair.1;
        pair.1 = v;
        self.entries.insert(i, pair);
        proof {
            assert(self@ =~= oldview.update(i as int, (oldview[i as int].0, v)));
            assert(unique_keys(self@) == unique_keys(oldview)) by {
                assert(forall|j: int| 0 <= j < self@.len() ==> self@[j].0 == oldview[j].0);
            }
        }
        r
    }

    /// Unbinds `k`, returning its value if it was bound.
    pub fn remove(&mut self, k: &str) -> (r: Option<V>)
        requires
            old(self).wf(),
        ensures
            final(self).wf(),
            final(self)@ == match spec_index_of(old(self)@, k@) {
                Some(i) => old(self)@.remove(i),
                None => old(self)@,
            },
            final(self).spec_get(k@) is None,
            forall|k2: Seq<char>| k2 != k@ ==> final(self).spec_get(k2) == old(self).spec_get(k2),
            r == old(self).spec_get(k@),
    {
        let ghost oldview = self@;
        match self.index_of(k) {
            Some(i) => {
                proof {
                    lemma_spec_index_of_at(oldview, k@, i as int);
                }
                let pair = self.entries.remove(i);
                proof {
                    assert(self@ =~= oldview.remove(i as int));
                    lemma_unique_remove(oldview, i as int);
                    lemma_get_remove(oldview, i as int);
                    lemma_assoc_get_none(self@, k@);
                }
                Some(pair.1)
            },
            None => {
                None
            },
        }
    }
}

/// The index at which `k` is bound, if any: the least such index.
pub open spec fn spec_index_of<V>(s: Seq<(Seq<char>, V)>, k: Seq<char>) -> Option<int> {
    if exists|i: int| 0 <= i < s.len() && s[i].0 == k {
        Some(choose|i: int|
            0 <= i < s.len() && s[i].0 == k && (forall|j: int| 0 <= j < i ==> s[j].0 != k))
    } else {
        None
    }
}

proof fn lemma_spec_index_of_at<V>(s: Seq<(Seq<char>, V)>, k: Seq<char>, i: int)
    requires
        unique_keys(s),
        0 <= i < s.len(),
        s[i].0 == k,
    ensures
        spec_index_of(s, k) == Some(i),
{
    assert(forall|j: int| 0 <= j < i ==> s[j].0 != k);
    let w = choose|w: int|
        0 <= w < s.len() && s[w].0 == k && (forall|j: int| 0 <= j < w ==> s[j].0 != k);
    assert(w == i);
}

proof fn lemma_spec_index_of_none<V>(s: Seq<(Seq<char>, V)>, k: Seq<char>)
    requires
        !assoc_has(s, k),
    ensures
        spec_index_of(s, k) is None,
{
}

proof fn lemma_unique_update<V>(s: Seq<(Seq<char>, V)>, i: int, v: V)
    requires
        unique_keys(s),
        0 <= i < s.len(),
    ensures
        unique_keys(s.update(i, (s[i].0, v))),
{
}

proof fn lemma_unique_push<V>(s: Seq<(Seq<char>, V)>, k: Seq<char>, v: V)
    requires
        unique_keys(s),
        !assoc_has(s, k),
    ensures
        unique_keys(s.push((k, v))),
{
}

proof fn lemma_unique_remove<V>(s: Seq<(Seq<char>, V)>, i: int)
    requires
        unique_keys(s),
        0 <= i < s.len(),
    ensures
        unique_keys(s.remove(i)),
{
    let t = s.remove(i);
    assert forall|a: int, b: int| 0 <= a < b < t.len() implies t[a].0 != t[b].0 by {
        let sa = if a < i { a } else { a + 1 };
        let sb = if b < i { b } else { b + 1 };
        assert(t[a] == s[sa]);
        assert(t[b] == s[sb]);
    }
}

proof fn lemma_get_update<V>(s: Seq<(Seq<char>, V)>, i: int, v: V)
    requires
        unique_keys(s),
        0 <= i < s.len(),
    ensures
        assoc_get(s.update(i, (s[i].0, v)), s[i].0) == Some(v),
        forall|k2: Seq<char>| k2 != s[i].0 ==> assoc_get(s.update(i, (s[i].0, v)), k2) == assoc_get(
            s,
            k2,
        ),
    decreases s.len(),
{
    let t = s.update(i, (s[i].0, v));
    if i == 0 {
        assert(t[0].0 == s[0].0);
        assert forall|k2: Seq<char>| k2 != s[0].0 implies assoc_get(t, k2) == assoc_get(s, k2) by {
            assert(t.drop_first() =~= s.drop_first());
        }
    } else {
        lemma_get_update(s.drop_first(), i - 1, v);
        assert(t.drop_first() =~= s.drop_first().update(i - 1, (s[i].0, v)));
        assert(s.drop_first()[i - 1] == s[i]);
        assert(t[0] == s[0]);
        assert(s[0].0 != s[i].0);
        assert(assoc_get(t, s[i].0) == assoc_get(t.drop_first(), s[i].0));
        assert forall|k2: Seq<char>| k2 != s[i].0 implies assoc_get(t, k2) == assoc_get(s, k2) by {
            if k2 != s[0].0 {
                assert(assoc_get(t, k2) == assoc_get(t.drop_first(), k2));
                assert(assoc_get(s, k2) == assoc_get(s.drop_first(), k2));
            }
        }
    }
}

proof fn lemma_get_push<V>(s: Seq<(Seq<char>, V)>, k: Seq<char>, v: V)
    requires
        !assoc_has(s, k),
    ensures
        assoc_get(s.push((k, v)), k) == Some(v),
        forall|k2: Seq<char>| k2 != k ==> assoc_get(s.push((k, v)), k2) == assoc_get(s, k2),
    decreases s.len(),
{
    let t = s.push((k, v));
    if s.len() == 0 {
        assert(t[0].0 == k);
        assert forall|k2: Seq<char>| k2 != k implies assoc_get(t, k2) == assoc_get(s, k2) by {
            assert(assoc_get(t, k2) == assoc_get(t.drop_first(), k2));
            assert(t.drop_first() =~= Seq::<(Seq<char>, V)>::empty());
        }
    } else {
        assert(s[0].0 != k);
        assert(!assoc_has(s.drop_first(), k)) by {
            assert(forall|i: int|
                0 <= i < s.drop_first().len() ==> s.drop_first()[i] == s[i + 1]);
        }
        lemma_get_push(s.drop_first(), k, v);
        assert(t.drop_first() =~= s.drop_first().push((k, v)));
        assert(t[0] == s[0]);
        assert forall|k2: Seq<char>| k2 != k implies assoc_get(t, k2) == assoc_get(s, k2) by {
            if k2 != s[0].0 {
                assert(assoc_get(t, k2) == assoc_get(t.drop_first(), k2));
                assert(assoc_get(s, k2) == assoc_get(s.drop_first(), k2));
            }
        }
    }
}

proof fn lemma_get_remove<V>(s: Seq<(Seq<char>, V)>, i: int)
    requires
        unique_keys(s),
        0 <= i < s.len(),
    ensures
        forall|k2: Seq<char>| k2 != s[i].0 ==> assoc_get(s.remove(i), k2) == assoc_get(s, k2),
    decreases s.len(),
{
    let t = s.remove(i);
    if i == 0 {
        assert(t =~= s.drop_first());
        assert forall|k2: Seq<char>| k2 != s[0].0 implies assoc_get(t, k2) == assoc_get(s, k2) by {
            assert(assoc_get(s, k2) == assoc_get(s.drop_first(), k2));
        }
    } else {
        lemma_get_remove(s.drop_first(), i - 1);
        assert(t.drop_first() =~= s.drop_first().remove(i - 1));
        assert(t[0] == s[0]);
        assert(s.drop_first()[i - 1] == s[i]);
        assert forall|k2: Seq<char>| k2 != s[i].0 implies assoc_get(t, k2) == assoc_get(s, k2) by {
            if k2 != s[0].0 {
                assert(assoc_get(t, k2) == assoc_get(t.drop_first(), k2));
                assert(assoc_get(s, k2) == assoc_get(s.drop_first(), k2));
            }
        }
    }
}


/// Skipping pairs that do not bind `k` leaves the lookup unchanged.
pub proof fn lemma_assoc_get_skip<V>(s: Seq<(Seq<char>, V)>, k: Seq<char>, i: int)
    requires
        0 <= i <= s.len(),
        forall|j: int| 0 <= j < i ==> s[j].0 != k,
    ensures
        assoc_get(s, k) == assoc_get(s.skip(i), k),
    decreases i,
{
    if i > 0 {
        assert(s[0].0 != k);
        assert(s.drop_first() =~= s.skip(1));
        lemma_assoc_get_skip(s.drop_first(), k, i - 1);
        assert(s.drop_first().skip(i - 1) =~= s.skip(i));
    } else {
        assert(s.skip(0) =~= s);
    }
}


/// A successful lookup comes from some pair in the sequence.
pub proof fn lemma_assoc_get_some<V>(s: Seq<(Seq<char>, V)>, k: Seq<char>)
    requires
        assoc_get(s, k) is Some,
    ensures
        exists|i: int|
            0 <= i < s.len() && s[i].0 == k && Some(#[trigger] s[i].1) == assoc_get(s, k),
    decreases s.len(),
{
    if s.len() > 0 {
        if s[0].0 == k {
            assert(Some(s[0].1) == assoc_get(s, k));
        } else {
            lemma_assoc_get_some(s.drop_first(), k);
            let i = choose|i: int|
                0 <= i < s.drop_first().len() && s.drop_first()[i].0 == k && Some(
                    #[trigger] s.drop_first()[i].1,
                ) == assoc_get(s.drop_first(), k);
            assert(s[i + 1] == s.drop_first()[i]);
            assert(Some(s[i + 1].1) == assoc_get(s, k));
        }
    }
}

impl<V: Copy> AssocMap<V> {
    /// The pairs as a fresh vector, keys copied.
    pub fn to_pairs(&self) -> (r: Vec<(String, V)>)
        ensures
            r@.map(|i: int, p: (String, V)| (p.0@, p.1)) == self@,
    {
        let mut r: Vec<(String, V)> = Vec::new();
        let n = self.entries.len();
        let mut i: usize = 0;
        proof {
            assert(r@.map(|k: int, p: (String, V)| (p.0@, p.1)) =~= self@.take(0));
        }
        while i < n
            invariant
                i <= n,
                n == self@.len(),
                r@.map(|k: int, p: (String, V)| (p.0@, p.1)) == self@.take(i as int),
            decreases n - i,
        {
            let ghost pre = r@.map(|k: int, p: (String, V)| (p.0@, p.1));
            r.push((self.entries[i].0.clone(), self.entries[i].1));
            proof {
                assert(r@.map(|k: int, p: (String, V)| (p.0@, p.1)) =~= pre.push(self@[i as int]));
                assert(r@.map(|k: int, p: (String, V)| (p.0@, p.1)) =~= self@.take(i as int + 1));
            }
            i = i + 1;
        }
        proof {
            assert(self@.take(n as int) =~= self@);
        }
        r
    }
}

} // verus!
