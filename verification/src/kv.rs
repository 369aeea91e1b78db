//! Per-vigy persistent key/value state: string keys, JSON values.

use vstd::prelude::*;
use crate::json::clone_json;
use crate::text::{chars_eq, chars_of};

verus! {

/// Keys of an association list are pairwise distinct.
pub open spec fn distinct_keys<V>(e: Seq<(Seq<char>, V)>) -> bool {
    forall|i: int, j: int| 0 <= i < e.len() && 0 <= j < e.len() && i != j ==> #[trigger] e[i].0
        != #[trigger] e[j].0
}

/// The position of key `k` in `e`.
pub open spec fn assoc_index<V>(e: Seq<(Seq<char>, V)>, k: Seq<char>) -> int {
    choose|i: int| 0 <= i < e.len() && e[i].0 == k
}

/// The map an association list with distinct keys denotes.
pub open spec fn assoc_map<V>(e: Seq<(Seq<char>, V)>) -> Map<Seq<char>, V> {
    Map::new(
        |k: Seq<char>| exists|i: int| 0 <= i < e.len() && e[i].0 == k,
        |k: Seq<char>| e[assoc_index(e, k)].1,
    )
}

pub proof fn lemma_assoc_at<V>(e: Seq<(Seq<char>, V)>, i: int)
    requires
        distinct_keys(e),
        0 <= i < e.len(),
    ensures
        assoc_map(e).contains_key(e[i].0),
        assoc_map(e)[e[i].0] == e[i].1,
{
    let k = e[i].0;
    assert(exists|j: int| 0 <= j < e.len() && e[j].0 == k);
    let c = assoc_index(e, k);
    assert(assoc_map(e).dom().contains(k));
    assert(assoc_map(e)[k] == e[c].1);
}

pub proof fn lemma_assoc_push<V>(e: Seq<(Seq<char>, V)>, k: Seq<char>, v: V)
    requires
        distinct_keys(e),
        !assoc_map(e).contains_key(k),
    ensures
        distinct_keys(e.push((k, v))),
        assoc_map(e.push((k, v))) == assoc_map(e).insert(k, v),
{
    let f = e.push((k, v));
    assert forall|i: int, j: int| 0 <= i < f.len() && 0 <= j < f.len() && i != j implies #[trigger] f[i].0
        != #[trigger] f[j].0 by {
        if i == e.len() {
            assert(f[j] == e[j]);
        } else if j == e.len() {
            assert(f[i] == e[i]);
        } else {
            assert(f[i] == e[i] && f[j] == e[j]);
        }
    }
    let m1 = assoc_map(f);
    let m2 = assoc_map(e).insert(k, v);
    assert forall|x: Seq<char>| m1.contains_key(x) <==> m2.contains_key(x) by {
        if m1.contains_key(x) && x != k {
            let i = choose|i: int| 0 <= i < f.len() && f[i].0 == x;
            assert(e[i].0 == x);
        }
        if m2.contains_key(x) && x != k {
            let i = choose|i: int| 0 <= i < e.len() && e[i].0 == x;
            assert(f[i].0 == x);
        }
        if x == k {
            assert(f[e.len() as int].0 == x);
        }
    }
    assert forall|x: Seq<char>| #[trigger] m1.contains_key(x) implies m1[x] == m2[x] by {
        let i = choose|i: int| 0 <= i < f.len() && f[i].0 == x;
        lemma_assoc_at(f, i);
        if i < e.len() {
            lemma_assoc_at(e, i);
        }
    }
    assert(m1 =~= m2);
}

pub proof fn lemma_assoc_update<V>(e: Seq<(Seq<char>, V)>, i: int, v: V)
    requires
        distinct_keys(e),
        0 <= i < e.len(),
    ensures
        distinct_keys(e.update(i, (e[i].0, v))),
        assoc_map(e.update(i, (e[i].0, v))) == assoc_map(e).insert(e[i].0, v),
{
    let k = e[i].0;
    let f = e.update(i, (k, v));
    assert forall|a: int, b: int| 0 <= a < f.len() && 0 <= b < f.len() && a != b implies #[trigger] f[a].0
        != #[trigger] f[b].0 by {
        assert(f[a].0 == e[a].0 && f[b].0 == e[b].0);
    }
    let m1 = assoc_map(f);
    let m2 = assoc_map(e).insert(k, v);
    assert forall|x: Seq<char>| m1.contains_key(x) <==> m2.contains_key(x) by {
        if m1.contains_key(x) {
            let j = choose|j: int| 0 <= j < f.len() && f[j].0 == x;
            assert(e[j].0 == x);
        }
        if m2.contains_key(x) && x != k {
            let j = choose|j: int| 0 <= j < e.len() && e[j].0 == x;
            assert(f[j].0 == x);
        }
        if x == k {
            assert(f[i].0 == x);
        }
    }
    assert forall|x: Seq<char>| #[trigger] m1.contains_key(x) implies m1[x] == m2[x] by {
        let j = choose|j: int| 0 <= j < f.len() && f[j].0 == x;
        lemma_assoc_at(f, j);
        if j != i {
            lemma_assoc_at(e, j);
        }
    }
    assert(m1 =~= m2);
}

pub proof fn lemma_assoc_remove<V>(e: Seq<(Seq<char>, V)>, i: int)
    requires
        distinct_keys(e),
        0 <= i < e.len(),
    ensures
        distinct_keys(e.remove(i)),
        assoc_map(e.remove(i)) == assoc_map(e).remove(e[i].0),
{
    let k = e[i].0;
    let f = e.remove(i);
    assert forall|a: int, b: int| 0 <= a < f.len() && 0 <= b < f.len() && a != b implies #[trigger] f[a].0
        != #[trigger] f[b].0 by {
        let a2 = if a < i { a } else { a + 1 };
        let b2 = if b < i { b } else { b + 1 };
        assert(f[a] == e[a2] && f[b] == e[b2]);
    }
    let m1 = assoc_map(f);
    let m2 = assoc_map(e).remove(k);
    assert forall|x: Seq<char>| m1.contains_key(x) <==> m2.contains_key(x) by {
        if m1.contains_key(x) {
            let j = choose|j: int| 0 <= j < f.len() && f[j].0 == x;
            let j2 = if j < i { j } else { j + 1 };
            assert(f[j] == e[j2]);
        }
        if m2.contains_key(x) {
            let j = choose|j: int| 0 <= j < e.len() && e[j].0 == x;
            assert(j != i);
            if j < i {
                assert(f[j] == e[j]);
            } else {
                assert(f[j - 1] == e[j]);
            }
        }
    }
    assert forall|x: Seq<char>| #[trigger] m1.contains_key(x) implies m1[x] == m2[x] by {
        let j = choose|j: int| 0 <= j < f.len() && f[j].0 == x;
        lemma_assoc_at(f, j);
        let j2 = if j < i { j } else { j + 1 };
        assert(f[j] == e[j2]);
        lemma_assoc_at(e, j2);
    }
    assert(m1 =~= m2);
}

/// The map of an association list with distinct keys has as many entries.
pub proof fn lemma_assoc_len<V>(e: Seq<(Seq<char>, V)>)
    requires
        distinct_keys(e),
    ensures
        assoc_map(e).dom().finite(),
        assoc_map(e).len() == e.len(),
    decreases e.len(),
{
    if e.len() == 0 {
        assert(assoc_map(e) =~= Map::<Seq<char>, V>::empty());
    } else {
        let f = e.drop_last();
        assert forall|i: int, j: int| 0 <= i < f.len() && 0 <= j < f.len() && i != j implies #[trigger] f[i].0
            != #[trigger] f[j].0 by {
            assert(f[i] == e[i] && f[j] == e[j]);
        }
        lemma_assoc_len(f);
        if assoc_map(f).contains_key(e.last().0) {
            let i = choose|i: int| 0 <= i < f.len() && f[i].0 == e.last().0;
            assert(e[i].0 == e[e.len() - 1].0);
        }
        lemma_assoc_push(f, e.last().0, e.last().1);
        assert(f.push(e.last()) =~= e);
    }
}

pub proof fn lemma_assoc_absent<V>(e: Seq<(Seq<char>, V)>, k: Seq<char>)
    requires
        forall|j: int| 0 <= j < e.len() ==> (#[trigger] e[j]).0 != k,
    ensures
        !assoc_map(e).contains_key(k),
{
}

/// The character view of key/value entries.
pub open spec fn kv_entries_view(s: Seq<(String, serde_json::Value)>) -> Seq<
    (Seq<char>, serde_json::Value),
> {
    s.map_values(|x: (String, serde_json::Value)| (x.0@, x.1))
}

/// A string-keyed map of JSON values.
#[derive(Debug)]
pub struct KvMap {
    entries: Vec<(String, serde_json::Value)>,
}

impl KvMap {
    /// The entries, in the order they are kept.
    pub closed spec fn spec_entries(self) -> Seq<(Seq<char>, serde_json::Value)> {
        kv_entries_view(self.entries@)
    }

    #[verifier::type_invariant]
    closed spec fn inv(self) -> bool {
        distinct_keys(self.spec_entries())
    }
}

impl View for KvMap {
    type V = Map<Seq<char>, serde_json::Value>;

    open spec fn view(&self) -> Map<Seq<char>, serde_json::Value> {
        assoc_map(self.spec_entries())
    }
}

impl KvMap {
    /// An empty map.
    pub fn new() -> (r: KvMap)
        ensures
            r@ == Map::<Seq<char>, serde_json::Value>::empty(),
    {
        let r = KvMap { entries: Vec::new() };
        assert(r@ =~= Map::<Seq<char>, serde_json::Value>::empty());
        r
    }

    fn position(&self, key: &[char]) -> (r: Option<usize>)
        ensures
            match r {
                Some(i) => i < self.spec_entries().len() && self.spec_entries()[i as int].0
                    == key@ && self@.contains_key(key@) && self@[key@]
                    == self.spec_entries()[i as int].1,
                None => !self@.contains_key(key@),
            },
    {
        proof {
            use_type_invariant(self);
        }
        let mut i: usize = 0;
        while i < self.entries.len()
            invariant
                i <= self.entries@.len(),
                distinct_keys(self.spec_entries()),
                forall|j: int| 0 <= j < i ==> (#[trigger] self.spec_entries()[j]).0 != key@,
            decreases self.entries@.len() - i,
        {
            let k = chars_of(self.entries[i].0.as_str());
            if chars_eq(k.as_slice(), key) {
                proof {
                    lemma_assoc_at(self.spec_entries(), i as int);
                }
                return Some(i);
            }
            i += 1;
        }
        None
    }

    /// The value under `key`, if any.
    pub fn get(&self, key: &str) -> (r: Option<&serde_json::Value>)
        ensures
            match r {
                Some(v) => self@.contains_key(key@) && *v == self@[key@],
                None => !self@.contains_key(key@),
            },
    {
        let kc = chars_of(key);
        match self.position(kc.as_slice()) {
            Some(i) => Some(&self.entries[i].1),
            None => None,
        }
    }

    /// Whether `key` is present.
    pub fn contains_key(&self, key: &str) -> (r: bool)
        ensures
            r == self@.contains_key(key@),
    {
        let kc = chars_of(key);
        self.position(kc.as_slice()).is_some()
    }

    /// Sets `key` to `value`.
    pub fn insert(&mut self, key: String, value: serde_json::Value)
        ensures
            final(self)@ == old(self)@.insert(key@, value),
    {
        proof {
            use_type_invariant(&*self);
        }
        let kc = chars_of(key.as_str());
        let pos = self.position(kc.as_slice());
        let ghost old_e = self.spec_entries();
        let mut e: Vec<(String, serde_json::Value)> = Vec::new();
        std::mem::swap(&mut e, &mut self.entries);
        match pos {
            Some(i) => {
                proof {
                    lemma_assoc_update(old_e, i as int, value);
                }
                e.set(i, (key, value));
                assert(kv_entries_view(e@) =~= old_e.update(i as int, (old_e[i as int].0, value)));
            },
            None => {
                proof {
                    lemma_assoc_push(old_e, key@, value);
                }
                e.push((key, value));
                assert(kv_entries_view(e@) =~= old_e.push((key@, value)));
            },
        }
        self.entries = e;
    }

    /// Removes `key`; tells whether it was present.
    pub fn remove(&mut self, key: &str) -> (r: bool)
        ensures
            r == old(self)@.contains_key(key@),
            final(self)@ == old(self)@.remove(key@),
    {
        proof {
            use_type_invariant(&*self);
        }
        let kc = chars_of(key);
        let pos = self.position(kc.as_slice());
        match pos {
            Some(i) => {
                let ghost old_e = self.spec_entries();
                let mut e: Vec<(String, serde_json::Value)> = Vec::new();
                std::mem::swap(&mut e, &mut self.entries);
                proof {
                    lemma_assoc_remove(old_e, i as int);
                }
                let _ = e.remove(i);
                assert(kv_entries_view(e@) =~= old_e.remove(i as int));
                self.entries = e;
                true
            },
            None => {
                assert(old(self)@.remove(key@) =~= old(self)@);
                false
            },
        }
    }

    /// The entries, each key once.
    pub fn entries(&self) -> (r: Vec<(String, serde_json::Value)>)
        ensures
            distinct_keys(kv_entries_view(r@)),
            assoc_map(kv_entries_view(r@)) == self@,
    {
        proof {
            use_type_invariant(self);
        }
        let mut r: Vec<(String, serde_json::Value)> = Vec::new();
        let mut i: usize = 0;
        while i < self.entries.len()
            invariant
                i <= self.entries@.len(),
                kv_entries_view(r@) == self.spec_entries().take(i as int),
            decreases self.entries@.len() - i,
        {
            let ghost old_r = r@;
            assert(kv_entries_view(old_r).len() == old_r.len());
            r.push((self.entries[i].0.clone(), clone_json(&self.entries[i].1)));
            assert(kv_entries_view(r@) =~= self.spec_entries().take(i + 1)) by {
                assert forall|j: int| 0 <= j < i implies kv_entries_view(r@)[j]
                    == self.spec_entries()[j] by {
                    assert(r@[j] == old_r[j]);
                    assert(kv_entries_view(old_r)[j] == self.spec_entries().take(i as int)[j]);
                }
            }
            i += 1;
        }
        assert(self.spec_entries().take(i as int) =~= self.spec_entries());
        r
    }

    /// A copy of the map.
    pub fn duplicate(&self) -> (r: KvMap)
        ensures
            r@ == self@,
    {
        let entries = self.entries();
        KvMap { entries }
    }
}

} // verus!
