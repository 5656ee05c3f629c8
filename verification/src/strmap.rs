//! A small map keyed by strings, kept as a list of distinct keys.

use vstd::prelude::*;
use vstd::string::StringExecFns;

verus! {

/// A map from strings to values that keeps its entries in insertion order.
pub struct StrMap<V> {
    entries: Vec<(String, V)>,
}

/// The key and value views of a list of entries.
pub open spec fn entry_views<V>(entries: Seq<(String, V)>) -> Seq<(Seq<char>, V)> {
    entries.map_values(|e: (String, V)| (e.0@, e.1))
}

/// No key occurs twice.
pub open spec fn distinct_keys<V>(s: Seq<(Seq<char>, V)>) -> bool {
    forall|i: int, j: int| 0 <= i < j < s.len() ==> #[trigger] s[i].0 != #[trigger] s[j].0
}

/// The map that a list of entries with distinct keys denotes.
pub open spec fn entries_map<V>(s: Seq<(Seq<char>, V)>) -> Map<Seq<char>, V> {
    Map::new(
        |k: Seq<char>| exists|i: int| 0 <= i < s.len() && #[trigger] s[i].0 == k,
        |k: Seq<char>| s[choose|i: int| 0 <= i < s.len() && #[trigger] s[i].0 == k].1,
    )
}

pub proof fn lemma_entries_map_at<V>(s: Seq<(Seq<char>, V)>, i: int)
    requires
        distinct_keys(s),
        0 <= i < s.len(),
    ensures
        entries_map(s).dom().contains(s[i].0),
        entries_map(s)[s[i].0] == s[i].1,
{
    let k = s[i].0;
    assert(exists|j: int| 0 <= j < s.len() && #[trigger] s[j].0 == k);
    let j = choose|j: int| 0 <= j < s.len() && #[trigger] s[j].0 == k;
    if j != i {
        if j < i {
            assert(s[j].0 != s[i].0);
        } else {
            assert(s[i].0 != s[j].0);
        }
    }
}

pub proof fn lemma_entries_map_remove<V>(s: Seq<(Seq<char>, V)>, i: int)
    requires
        distinct_keys(s),
        0 <= i < s.len(),
    ensures
        distinct_keys(s.remove(i)),
        entries_map(s.remove(i)) =~= entries_map(s).remove(s[i].0),
{
    let t = s.remove(i);
    assert forall|a: int, b: int| 0 <= a < b < t.len() implies #[trigger] t[a].0 != #[trigger] t[b].0 by {
        let a2 = if a < i { a } else { a + 1 };
        let b2 = if b < i { b } else { b + 1 };
        assert(t[a] == s[a2] && t[b] == s[b2]);
    }
    let m = entries_map(s).remove(s[i].0);
    assert forall|k: Seq<char>| entries_map(t).dom().contains(k) <==> m.dom().contains(k) by {
        if entries_map(t).dom().contains(k) {
            let j = choose|j: int| 0 <= j < t.len() && #[trigger] t[j].0 == k;
            let j2 = if j < i { j } else { j + 1 };
            assert(s[j2].0 == k);
            if j2 < i {
                assert(s[j2].0 != s[i].0);
            } else {
                assert(s[i].0 != s[j2].0);
            }
        }
        if m.dom().contains(k) {
            let j = choose|j: int| 0 <= j < s.len() && #[trigger] s[j].0 == k;
            assert(j != i);
            let j2 = if j < i { j } else { j - 1 };
            assert(t[j2].0 == k);
        }
    }
    assert forall|k: Seq<char>| #[trigger] entries_map(t).dom().contains(k) implies entries_map(t)[k]
        == m[k] by {
        let j = choose|j: int| 0 <= j < t.len() && #[trigger] t[j].0 == k;
        let j2 = if j < i { j } else { j + 1 };
        lemma_entries_map_at(t, j);
        lemma_entries_map_at(s, j2);
    }
}

pub proof fn lemma_entries_map_update<V>(s: Seq<(Seq<char>, V)>, i: int, v: V)
    requires
        distinct_keys(s),
        0 <= i < s.len(),
    ensures
        distinct_keys(s.update(i, (s[i].0, v))),
        entries_map(s.update(i, (s[i].0, v))) =~= entries_map(s).insert(s[i].0, v),
{
    let t = s.update(i, (s[i].0, v));
    assert forall|a: int, b: int| 0 <= a < b < t.len() implies #[trigger] t[a].0 != #[trigger] t[b].0 by {
        assert(t[a].0 == s[a].0 && t[b].0 == s[b].0);
    }
    let m = entries_map(s).insert(s[i].0, v);
    assert forall|k: Seq<char>| entries_map(t).dom().contains(k) <==> m.dom().contains(k) by {
        if entries_map(t).dom().contains(k) {
            let j = choose|j: int| 0 <= j < t.len() && #[trigger] t[j].0 == k;
            assert(s[j].0 == k);
        }
        if m.dom().contains(k) && k != s[i].0 {
            let j = choose|j: int| 0 <= j < s.len() && #[trigger] s[j].0 == k;
            assert(t[j].0 == k);
        }
        if k == s[i].0 {
            assert(t[i].0 == k);
        }
    }
    assert forall|k: Seq<char>| #[trigger] entries_map(t).dom().contains(k) implies entries_map(t)[k]
        == m[k] by {
        let j = choose|j: int| 0 <= j < t.len() && #[trigger] t[j].0 == k;
        lemma_entries_map_at(t, j);
        if j != i {
            lemma_entries_map_at(s, j);
        }
    }
}

pub proof fn lemma_entries_map_push<V>(s: Seq<(Seq<char>, V)>, k: Seq<char>, v: V)
    requires
        distinct_keys(s),
        !entries_map(s).dom().contains(k),
    ensures
        distinct_keys(s.push((k, v))),
        entries_map(s.push((k, v))) =~= entries_map(s).insert(k, v),
{
    let t = s.push((k, v));
    assert forall|a: int, b: int| 0 <= a < b < t.len() implies #[trigger] t[a].0 != #[trigger] t[b].0 by {
        if b == s.len() {
            assert(t[a] == s[a]);
            if s[a].0 == k {
                assert(entries_map(s).dom().contains(k));
            }
        }
    }
    let m = entries_map(s).insert(k, v);
    assert forall|q: Seq<char>| entries_map(t).dom().contains(q) <==> m.dom().contains(q) by {
        if entries_map(t).dom().contains(q) {
            let j = choose|j: int| 0 <= j < t.len() && #[trigger] t[j].0 == q;
            if j < s.len() {
                assert(s[j].0 == q);
            }
        }
        if m.dom().contains(q) && q != k {
            let j = choose|j: int| 0 <= j < s.len() && #[trigger] s[j].0 == q;
            assert(t[j].0 == q);
        }
        if q == k {
            assert(t[s.len() as int].0 == q);
        }
    }
    assert forall|q: Seq<char>| #[trigger] entries_map(t).dom().contains(q) implies entries_map(t)[q]
        == m[q] by {
        let j = choose|j: int| 0 <= j < t.len() && #[trigger] t[j].0 == q;
        lemma_entries_map_at(t, j);
        if j < s.len() {
            lemma_entries_map_at(s, j);
        }
    }
}

impl<V> View for StrMap<V> {
    type V = Map<Seq<char>, V>;

    closed spec fn view(&self) -> Map<Seq<char>, V> {
        entries_map(entry_views(self.entries@))
    }
}

impl<V> StrMap<V> {
    /// No key is stored twice.
    pub closed spec fn wf(self) -> bool {
        distinct_keys(entry_views(self.entries@))
    }

    /// The number of keys.
    pub closed spec fn spec_len(self) -> nat {
        self.entries@.len()
    }

    /// The key that `evict_one` removes.
    pub closed spec fn spec_oldest_key(self) -> Seq<char> {
        self.entries@[0].0@
    }

    pub fn new() -> (m: Self)
        ensures
            m.wf(),
            m@ == Map::<Seq<char>, V>::empty(),
            m.spec_len() == 0,
    {
        let m = StrMap { entries: Vec::new() };
        assert(m@ =~= Map::<Seq<char>, V>::empty());
        m
    }

    pub fn len(&self) -> (n: usize)
        requires
            self.wf(),
        ensures
            n == self.spec_len(),
            self.spec_len() == self@.dom().len(),
            self@.dom().finite(),
    {
        proof {
            self.lemma_dom_len();
        }
        self.entries.len()
    }

    /// The map's domain is finite and has one key per entry.
    pub proof fn lemma_dom_len(&self)
        requires
            self.wf(),
        ensures
            self@.dom().finite(),
            self@.dom().len() == self.spec_len(),
    {
        let s = entry_views(self.entries@);
        lemma_dom_len_seq(s);
    }

    fn find(&self, key: &str) -> (r: Option<usize>)
        requires
            self.wf(),
        ensures
            match r {
                Some(i) => i < self.entries@.len() && self.entries@[i as int].0@ == key@,
                None => !self@.dom().contains(key@),
            },
    {
        let k = String::from_str(key);
        let mut i: usize = 0;
        while i < self.entries.len()
            invariant
                i <= self.entries@.len(),
                k@ == key@,
                forall|j: int| 0 <= j < i ==> self.entries@[j].0@ != key@,
            decreases self.entries@.len() - i,
        {
            if self.entries[i].0 == k {
                return Some(i);
            }
            i = i + 1;
        }
        proof {
            let s = entry_views(self.entries@);
            if self@.dom().contains(key@) {
                let j = choose|j: int| 0 <= j < s.len() && #[trigger] s[j].0 == key@;
                assert(self.entries@[j].0@ == key@);
            }
        }
        None
    }

    pub fn contains_key(&self, key: &str) -> (r: bool)
        requires
            self.wf(),
        ensures
            r == self@.dom().contains(key@),
    {
        match self.find(key) {
            Some(i) => {
                proof {
                    lemma_entries_map_at(entry_views(self.entries@), i as int);
                }
                true
            },
            None => false,
        }
    }

    pub fn get(&self, key: &str) -> (r: Option<&V>)
        requires
            self.wf(),
        ensures
            match r {
                Some(v) => self@.dom().contains(key@) && self@[key@] == *v,
                None => !self@.dom().contains(key@),
            },
    {
        match self.find(key) {
            Some(i) => {
                proof {
                    lemma_entries_map_at(entry_views(self.entries@), i as int);
                }
                Some(&self.entries[i].1)
            },
            None => None,
        }
    }

    pub fn insert(&mut self, key: String, value: V)
        requires
            old(self).wf(),
        ensures
            final(self).wf(),
            final(self)@ == old(self)@.insert(key@, value),
            final(self).spec_len() == old(self).spec_len() + if old(self)@.dom().contains(key@) {
                0int
            } else {
                1int
            },
    {
        match self.find(key.as_str()) {
            Some(i) => {
                let ghost s = entry_views(self.entries@);
                proof {
                    lemma_entries_map_at(s, i as int);
                    lemma_entries_map_update(s, i as int, value);
                }
                self.entries.set(i, (key, value));
                assert(entry_views(self.entries@) =~= s.update(i as int, (s[i as int].0, value)));
            },
            None => {
                let ghost s = entry_views(self.entries@);
                let ghost k = key@;
                proof {
                    lemma_entries_map_push(s, k, value);
                }
                self.entries.push((key, value));
                assert(entry_views(self.entries@) =~= s.push((k, value)));
            },
        }
    }

    pub fn remove(&mut self, key: &str)
        requires
            old(self).wf(),
        ensures
            final(self).wf(),
            final(self)@ == old(self)@.remove(key@),
            final(self).spec_len() == old(self).spec_len() - if old(self)@.dom().contains(key@) {
                1int
            } else {
                0int
            },
    {
        match self.find(key) {
            Some(i) => {
                let ghost s = entry_views(self.entries@);
                proof {
                    lemma_entries_map_at(s, i as int);
                    lemma_entries_map_remove(s, i as int);
                }
                self.entries.remove(i);
                assert(entry_views(self.entries@) =~= s.remove(i as int));
            },
            None => {
                assert(old(self)@.remove(key@) =~= old(self)@);
            },
        }
    }

    /// Removes `key` and hands back its value.
    pub fn take(&mut self, key: &str) -> (r: Option<V>)
        requires
            old(self).wf(),
        ensures
            final(self).wf(),
            final(self)@ == old(self)@.remove(key@),
            match r {
                Some(v) => old(self)@.dom().contains(key@) && old(self)@[key@] == v,
                None => !old(self)@.dom().contains(key@),
            },
            final(self).spec_len() == old(self).spec_len() - if old(self)@.dom().contains(key@) {
                1int
            } else {
                0int
            },
    {
        match self.find(key) {
            Some(i) => {
                let ghost s = entry_views(self.entries@);
                proof {
                    lemma_entries_map_at(s, i as int);
                    lemma_entries_map_remove(s, i as int);
                }
                let (_k, v) = self.entries.remove(i);
                assert(entry_views(self.entries@) =~= s.remove(i as int));
                Some(v)
            },
            None => {
                assert(old(self)@.remove(key@) =~= old(self)@);
                None
            },
        }
    }

    /// Removes the oldest key when there is one.
    pub fn evict_one(&mut self)
        requires
            old(self).wf(),
            old(self).spec_len() > 0,
        ensures
            final(self).wf(),
            old(self)@.dom().contains(old(self).spec_oldest_key()),
            final(self)@ == old(self)@.remove(old(self).spec_oldest_key()),
            final(self).spec_len() == old(self).spec_len() - 1,
    {
        let ghost s = entry_views(self.entries@);
        proof {
            lemma_entries_map_at(s, 0);
            lemma_entries_map_remove(s, 0);
        }
        self.entries.remove(0);
        assert(entry_views(self.entries@) =~= s.remove(0));
    }

    /// The key and value at a position of the insertion order.
    pub fn entry_at(&self, i: usize) -> (r: (&String, &V))
        requires
            self.wf(),
            i < self.spec_len(),
        ensures
            self@.dom().contains(r.0@),
            self@[r.0@] == *r.1,
            r.0@ == self.spec_key_at(i as int),
    {
        proof {
            lemma_entries_map_at(entry_views(self.entries@), i as int);
        }
        (&self.entries[i].0, &self.entries[i].1)
    }

    /// The key at a position of the insertion order.
    pub closed spec fn spec_key_at(self, i: int) -> Seq<char> {
        self.entries@[i].0@
    }

    /// Every key occurs at some position.
    pub proof fn lemma_key_positions(&self)
        requires
            self.wf(),
        ensures
            forall|k: Seq<char>| #[trigger] self@.dom().contains(k) ==> exists|i: int|
                0 <= i < self.spec_len() && self.spec_key_at(i) == k,
            forall|i: int| 0 <= i < self.spec_len() ==> #[trigger] self@.dom().contains(
                self.spec_key_at(i),
            ),
            forall|i: int, j: int|
                0 <= i < j < self.spec_len() ==> self.spec_key_at(i) != self.spec_key_at(j),
    {
        let s = entry_views(self.entries@);
        assert forall|k: Seq<char>| #[trigger] self@.dom().contains(k) implies exists|i: int|
            0 <= i < self.spec_len() && self.spec_key_at(i) == k by {
            let j = choose|j: int| 0 <= j < s.len() && #[trigger] s[j].0 == k;
            assert(self.spec_key_at(j) == k);
        }
        assert forall|i: int| 0 <= i < self.spec_len() implies #[trigger] self@.dom().contains(
            self.spec_key_at(i),
        ) by {
            lemma_entries_map_at(s, i);
        }
        assert forall|i: int, j: int|
            0 <= i < j < self.spec_len() implies self.spec_key_at(i) != self.spec_key_at(j) by {
            assert(s[i].0 != s[j].0);
        }
    }
}

proof fn lemma_dom_len_seq<V>(s: Seq<(Seq<char>, V)>)
    requires
        distinct_keys(s),
    ensures
        entries_map(s).dom().finite(),
        entries_map(s).dom().len() == s.len(),
    decreases s.len(),
{
    if s.len() == 0 {
        assert(entries_map(s).dom() =~= Set::<Seq<char>>::empty());
    } else {
        let t = s.drop_last();
        assert(distinct_keys(t)) by {
            assert forall|a: int, b: int| 0 <= a < b < t.len() implies #[trigger] t[a].0
                != #[trigger] t[b].0 by {
                assert(t[a] == s[a] && t[b] == s[b]);
            }
        }
        lemma_dom_len_seq(t);
        let k = s.last().0;
        if entries_map(t).dom().contains(k) {
            let j = choose|j: int| 0 <= j < t.len() && #[trigger] t[j].0 == k;
            assert(s[j].0 == s[s.len() - 1].0);
        }
        lemma_entries_map_push(t, k, s.last().1);
        assert(t.push((k, s.last().1)) =~= s);
    }
}

/// String equality by characters.
pub fn str_eq(a: &str, b: &str) -> (r: bool)
    ensures
        r == (a@ == b@),
{
    let sa = String::from_str(a);
    let sb = String::from_str(b);
    sa == sb
}

} // verus!
