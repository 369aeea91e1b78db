//! In-memory persistence: vigies, their runs, and their key/value state.

use vstd::prelude::*;
use crate::action::ResultStatus;
use crate::clock::Timestamp;
use crate::error::Error;
use crate::id::VigyId;
use crate::kv::{
    assoc_map, distinct_keys, lemma_assoc_absent, lemma_assoc_at, lemma_assoc_push,
    lemma_assoc_remove, lemma_assoc_update, KvMap,
};
use crate::label::selects;
use crate::run::{RunView, VigyRun};
use crate::text::{chars_eq, chars_of};
use crate::vigy::{Vigy, VigyView};

verus! {

/// Errors of the store.
#[derive(Debug)]
pub enum StoreError {
    /// No record of `kind` under `id`.
    NotFound { kind: &'static str, id: String },
    /// A domain validation error (such as a malformed label selector).
    Types(Error),
    /// A stored field that does not decode (a timestamp or JSON); the
    /// decoder's message.
    Serde(String),
}

/// The `(id, vigy)` pairs of a list of vigies.
pub open spec fn vigies_assoc(s: Seq<Vigy>) -> Seq<(Seq<char>, VigyView)> {
    s.map_values(|v: Vigy| (v.id@, v@))
}

/// The views of a list of vigies.
pub open spec fn vigies_view(s: Seq<Vigy>) -> Seq<VigyView> {
    s.map_values(|v: Vigy| v@)
}

/// The views of a list of runs.
pub open spec fn runs_view(s: Seq<VigyRun>) -> Seq<RunView> {
    s.map_values(|r: VigyRun| r@)
}

/// The `(vigy id, kv)` pairs of the stored key/value maps.
pub open spec fn kvs_assoc(s: Seq<(String, KvMap)>) -> Seq<
    (Seq<char>, Map<Seq<char>, serde_json::Value>),
> {
    s.map_values(|x: (String, KvMap)| (x.0@, x.1@))
}

/// The vigies of `s` (in order) whose labels the selector accepts, or
/// `None` when the selector is malformed for one of them.
pub open spec fn select_vigies(s: Seq<VigyView>, selector: Seq<char>) -> Option<Seq<VigyView>>
    decreases s.len(),
{
    if s.len() == 0 {
        Some(Seq::empty())
    } else {
        match selects(s[0].labels, selector) {
            None => None,
            Some(b) => match select_vigies(s.drop_first(), selector) {
                None => None,
                Some(rest) => Some(
                    if b {
                        seq![s[0]] + rest
                    } else {
                        rest
                    },
                ),
            },
        }
    }
}

/// The vigies of `all` (in order) whose labels `selector` accepts; a
/// selector that is malformed for one of them is refused.
pub fn select_by_labels(all: &Vec<Vigy>, selector: &str) -> (r: Result<Vec<Vigy>, StoreError>)
    ensures
        match select_vigies(vigies_view(all@), selector@) {
            Some(chosen) => r matches Ok(v) && vigies_view(v@) == chosen,
            None => r matches Err(StoreError::Types(Error::InvalidLabelSelector { selector: s, reason }))
                && s@ == selector@ && reason == "expected key=value",
        },
{
    let ghost vs = vigies_view(all@);
    let mut out: Vec<Vigy> = Vec::new();
    let mut i: usize = 0;
    assert(vs.skip(0) =~= vs);
    while i < all.len()
        invariant
            i <= all@.len(),
            vs == vigies_view(all@),
            select_vigies(vs, selector@) == match select_vigies(vs.skip(i as int), selector@) {
                None => None,
                Some(rest) => Some(vigies_view(out@) + rest),
            },
        decreases all@.len() - i,
    {
        let ghost old_out = out@;
        let ghost rest = vs.skip(i as int);
        assert(rest[0] == all@[i as int]@);
        assert(rest.drop_first() =~= vs.skip(i + 1));
        match all[i].labels.matches_selector(selector) {
            Err(e) => {
                return Err(StoreError::Types(e));
            },
            Ok(b) => {
                if b {
                    out.push(all[i].duplicate());
                    assert(vigies_view(out@) =~= vigies_view(old_out) + seq![vs[i as int]]);
                }
            },
        }
        i += 1;
    }
    assert(vs.skip(i as int) =~= Seq::<VigyView>::empty());
    assert(vigies_view(out@) + Seq::<VigyView>::empty() =~= vigies_view(out@));
    Ok(out)
}

/// The character views of a list of strings.
pub open spec fn strs_view(s: Seq<String>) -> Seq<Seq<char>> {
    s.map_values(|x: String| x@)
}

/// `m` without the keys of `ks`, removed one after another.
pub open spec fn remove_all<V>(m: Map<Seq<char>, V>, ks: Seq<Seq<char>>) -> Map<Seq<char>, V>
    decreases ks.len(),
{
    if ks.len() == 0 {
        m
    } else {
        remove_all(m, ks.drop_last()).remove(ks.last())
    }
}

/// Places run `x` after every run of `sorted` that started no earlier.
pub open spec fn insert_desc(sorted: Seq<RunView>, x: RunView) -> Seq<RunView>
    decreases sorted.len(),
{
    if sorted.len() == 0 {
        seq![x]
    } else if sorted.last().started_at.unix_nanos >= x.started_at.unix_nanos {
        sorted.push(x)
    } else {
        insert_desc(sorted.drop_last(), x).push(sorted.last())
    }
}

/// The runs newest first; runs that started at the same time keep their
/// order (a stable sort).
pub open spec fn sort_desc(s: Seq<RunView>) -> Seq<RunView>
    decreases s.len(),
{
    if s.len() == 0 {
        s
    } else {
        insert_desc(sort_desc(s.drop_last()), s.last())
    }
}

/// The runs of `vigy_id`, in recording order.
pub open spec fn runs_of(runs: Seq<RunView>, vigy_id: Seq<char>) -> Seq<RunView> {
    runs.filter(|r: RunView| r.vigy_id == vigy_id)
}

/// What `recent_runs` answers: the newest `limit` runs of `vigy_id`.
pub open spec fn recent(runs: Seq<RunView>, vigy_id: Seq<char>, limit: u64) -> Seq<RunView> {
    let s = sort_desc(runs_of(runs, vigy_id));
    if s.len() > limit {
        s.take(limit as int)
    } else {
        s
    }
}

proof fn lemma_insert_desc_at(s: Seq<RunView>, x: RunView, p: int)
    requires
        0 <= p <= s.len(),
        forall|j: int| p <= j < s.len() ==> (#[trigger] s[j]).started_at.unix_nanos
            < x.started_at.unix_nanos,
        p == 0 || s[p - 1].started_at.unix_nanos >= x.started_at.unix_nanos,
    ensures
        insert_desc(s, x) == s.insert(p, x),
    decreases s.len(),
{
    if s.len() == 0 {
        assert(s.insert(p, x) =~= seq![x]);
    } else if p == s.len() {
        assert(s.insert(p, x) =~= s.push(x));
    } else {
        let t = s.drop_last();
        lemma_insert_desc_at(t, x, p);
        assert(s.insert(p, x) =~= t.insert(p, x).push(s.last()));
    }
}

/// In-memory store: a drop-in for tests and hosts that keep no file.
#[derive(Debug)]
pub struct InMemoryStore {
    vigies: Vec<Vigy>,
    runs: Vec<VigyRun>,
    kvs: Vec<(String, KvMap)>,
}

impl InMemoryStore {
    /// The vigies, in the order the store keeps them.
    pub closed spec fn vigy_seq(self) -> Seq<VigyView> {
        vigies_view(self.vigies@)
    }

    /// The vigies by id.
    pub closed spec fn vigy_map(self) -> Map<Seq<char>, VigyView> {
        assoc_map(vigies_assoc(self.vigies@))
    }

    /// The recorded runs, in recording order.
    pub closed spec fn run_seq(self) -> Seq<RunView> {
        runs_view(self.runs@)
    }

    /// The key/value maps by vigy id.
    pub closed spec fn kv_map(self) -> Map<Seq<char>, Map<Seq<char>, serde_json::Value>> {
        assoc_map(kvs_assoc(self.kvs@))
    }

    /// The key/value state of `vigy_id` (empty when nothing was saved).
    pub open spec fn kv_of(self, vigy_id: Seq<char>) -> Map<Seq<char>, serde_json::Value> {
        if self.kv_map().contains_key(vigy_id) {
            self.kv_map()[vigy_id]
        } else {
            Map::empty()
        }
    }

    #[verifier::type_invariant]
    closed spec fn inv(self) -> bool {
        &&& distinct_keys(vigies_assoc(self.vigies@))
        &&& distinct_keys(kvs_assoc(self.kvs@))
    }
}

impl InMemoryStore {
    /// An empty store.
    pub fn new() -> (r: InMemoryStore)
        ensures
            r.vigy_map() == Map::<Seq<char>, VigyView>::empty(),
            r.vigy_seq().len() == 0,
            r.run_seq().len() == 0,
            r.kv_map() == Map::<Seq<char>, Map<Seq<char>, serde_json::Value>>::empty(),
    {
        let r = InMemoryStore { vigies: Vec::new(), runs: Vec::new(), kvs: Vec::new() };
        assert(r.vigy_map() =~= Map::<Seq<char>, VigyView>::empty());
        assert(r.kv_map() =~= Map::<Seq<char>, Map<Seq<char>, serde_json::Value>>::empty());
        r
    }

    fn vigy_position(&self, id: &VigyId) -> (r: Option<usize>)
        ensures
            match r {
                Some(i) => i < self.vigies@.len() && self.vigies@[i as int].id@ == id@
                    && self.vigy_map().contains_key(id@) && self.vigy_map()[id@]
                    == self.vigies@[i as int]@,
                None => !self.vigy_map().contains_key(id@),
            },
    {
        proof {
            use_type_invariant(self);
        }
        let mut i: usize = 0;
        while i < self.vigies.len()
            invariant
                i <= self.vigies@.len(),
                distinct_keys(vigies_assoc(self.vigies@)),
                forall|j: int| 0 <= j < i ==> (#[trigger] self.vigies@[j]).id@ != id@,
            decreases self.vigies@.len() - i,
        {
            if self.vigies[i].id.same(id) {
                proof {
                    assert(vigies_assoc(self.vigies@)[i as int] == (self.vigies@[i as int].id@, self.vigies@[i as int]@));
                    lemma_assoc_at(vigies_assoc(self.vigies@), i as int);
                }
                return Some(i);
            }
            i += 1;
        }
        proof {
            assert forall|j: int| 0 <= j < vigies_assoc(self.vigies@).len() implies (#[trigger] vigies_assoc(self.vigies@)[j]).0 != id@ by {
                assert(vigies_assoc(self.vigies@)[j].0 == self.vigies@[j].id@);
            }
            lemma_assoc_absent(vigies_assoc(self.vigies@), id@);
        }
        None
    }

    /// Inserts the vigy, or replaces the one with the same id.
    pub fn upsert_vigy(&mut self, vigy: &Vigy) -> (r: Result<(), StoreError>)
        ensures
            r is Ok,
            final(self).vigy_map() == old(self).vigy_map().insert(vigy.id@, vigy@),
            final(self).run_seq() == old(self).run_seq(),
            final(self).kv_map() == old(self).kv_map(),
    {
        proof {
            use_type_invariant(&*self);
        }
        let pos = self.vigy_position(&vigy.id);
        let ghost old_a = vigies_assoc(self.vigies@);
        let copy = vigy.duplicate();
        let mut vs: Vec<Vigy> = Vec::new();
        std::mem::swap(&mut vs, &mut self.vigies);
        match pos {
            Some(i) => {
                proof {
                    lemma_assoc_update(old_a, i as int, vigy@);
                }
                vs.set(i, copy);
                assert(vigies_assoc(vs@) =~= old_a.update(i as int, (old_a[i as int].0, vigy@)));
            },
            None => {
                proof {
                    lemma_assoc_push(old_a, vigy.id@, vigy@);
                }
                vs.push(copy);
                assert(vigies_assoc(vs@) =~= old_a.push((vigy.id@, vigy@)));
            },
        }
        self.vigies = vs;
        Ok(())
    }

    /// The vigy stored under `id`.
    pub fn get_vigy(&self, id: &VigyId) -> (r: Result<Vigy, StoreError>)
        ensures
            self.vigy_map().contains_key(id@) ==> (r matches Ok(v) && v@ == self.vigy_map()[id@]),
            !self.vigy_map().contains_key(id@) ==> (r matches Err(
                StoreError::NotFound { kind, id: missing },
            ) && kind == "vigy" && missing@ == id@),
    {
        match self.vigy_position(id) {
            Some(i) => Ok(self.vigies[i].duplicate()),
            None => Err(StoreError::NotFound { kind: "vigy", id: id.as_str().to_owned() }),
        }
    }

    /// Turns the vigy under `id` on or off (stamping its update time).
    pub fn set_enabled(&mut self, id: &VigyId, enabled: bool) -> (r: Result<(), StoreError>)
        ensures
            old(self).vigy_map().contains_key(id@) ==> {
                let before = old(self).vigy_map()[id@];
                &&& r is Ok
                &&& final(self).vigy_map().dom() == old(self).vigy_map().dom()
                &&& forall|k: Seq<char>| k != id@ && #[trigger] old(self).vigy_map().contains_key(k)
                    ==> final(self).vigy_map()[k] == old(self).vigy_map()[k]
                &&& final(self).vigy_map()[id@] == (VigyView {
                    enabled,
                    updated_at: final(self).vigy_map()[id@].updated_at,
                    ..before
                })
            },
            !old(self).vigy_map().contains_key(id@) ==> (r matches Err(
                StoreError::NotFound { kind, id: missing },
            ) && kind == "vigy" && missing@ == id@ && final(self).vigy_map() == old(
                self,
            ).vigy_map()),
            final(self).run_seq() == old(self).run_seq(),
            final(self).kv_map() == old(self).kv_map(),
    {
        proof {
            use_type_invariant(&*self);
        }
        match self.vigy_position(id) {
            None => Err(StoreError::NotFound { kind: "vigy", id: id.as_str().to_owned() }),
            Some(i) => {
                let mut v = self.vigies[i].duplicate();
                v.enabled = enabled;
                v.updated_at = Timestamp::now_utc();
                let ghost old_a = vigies_assoc(self.vigies@);
                let ghost nv = v@;
                let mut vs: Vec<Vigy> = Vec::new();
                std::mem::swap(&mut vs, &mut self.vigies);
                proof {
                    lemma_assoc_update(old_a, i as int, nv);
                }
                vs.set(i, v);
                assert(vigies_assoc(vs@) =~= old_a.update(i as int, (old_a[i as int].0, nv)));
                self.vigies = vs;
                Ok(())
            },
        }
    }

    /// Removes the vigy under `id`; tells whether there was one.
    pub fn delete_vigy(&mut self, id: &VigyId) -> (r: Result<bool, StoreError>)
        ensures
            r == Ok::<bool, StoreError>(old(self).vigy_map().contains_key(id@)),
            final(self).vigy_map() == old(self).vigy_map().remove(id@),
            final(self).run_seq() == old(self).run_seq(),
            final(self).kv_map() == old(self).kv_map(),
    {
        proof {
            use_type_invariant(&*self);
        }
        match self.vigy_position(id) {
            None => {
                assert(old(self).vigy_map().remove(id@) =~= old(self).vigy_map());
                Ok(false)
            },
            Some(i) => {
                let ghost old_a = vigies_assoc(self.vigies@);
                let mut vs: Vec<Vigy> = Vec::new();
                std::mem::swap(&mut vs, &mut self.vigies);
                proof {
                    lemma_assoc_remove(old_a, i as int);
                }
                let _ = vs.remove(i);
                assert(vigies_assoc(vs@) =~= old_a.remove(i as int));
                self.vigies = vs;
                Ok(true)
            },
        }
    }

    /// All vigies (in store order), or those whose labels `label_selector`
    /// accepts.
    pub fn list_vigies(&self, label_selector: Option<&str>) -> (r: Result<Vec<Vigy>, StoreError>)
        ensures
            match label_selector {
                None => r matches Ok(v) && vigies_view(v@) == self.vigy_seq() && distinct_keys(
                    vigies_assoc(v@),
                ) && assoc_map(vigies_assoc(v@)) == self.vigy_map(),
                Some(sel) => match select_vigies(self.vigy_seq(), sel@) {
                    Some(chosen) => r matches Ok(v) && vigies_view(v@) == chosen,
                    None => r matches Err(
                        StoreError::Types(Error::InvalidLabelSelector { selector, reason }),
                    ) && selector@ == sel@ && reason == "expected key=value",
                },
            },
    {
        proof {
            use_type_invariant(self);
        }
        match label_selector {
            Some(sel) => return select_by_labels(&self.vigies, sel),
            None => {},
        }
        let ghost all = self.vigy_seq();
        let mut out: Vec<Vigy> = Vec::new();
        let mut i: usize = 0;
        while i < self.vigies.len()
            invariant
                i <= self.vigies@.len(),
                all == vigies_view(self.vigies@),
                out@.len() == i,
                vigies_view(out@) == all.take(i as int),
                vigies_assoc(out@) == vigies_assoc(self.vigies@).take(i as int),
            decreases self.vigies@.len() - i,
        {
            let ghost old_out = out@;
            out.push(self.vigies[i].duplicate());
            assert(vigies_view(out@) =~= all.take(i + 1)) by {
                assert forall|j: int| 0 <= j < i implies vigies_view(out@)[j] == all.take(i + 1)[j] by {
                    assert(out@[j] == old_out[j]);
                    assert(vigies_view(old_out)[j] == all.take(i as int)[j]);
                }
            }
            assert(vigies_assoc(out@) =~= vigies_assoc(self.vigies@).take(i + 1)) by {
                assert forall|j: int| 0 <= j < i implies vigies_assoc(out@)[j] == vigies_assoc(self.vigies@).take(i + 1)[j] by {
                    assert(out@[j] == old_out[j]);
                    assert(vigies_assoc(old_out)[j] == vigies_assoc(self.vigies@).take(i as int)[j]);
                }
            }
            i += 1;
        }
        assert(all.take(i as int) =~= all);
        assert(vigies_assoc(self.vigies@).take(i as int) =~= vigies_assoc(self.vigies@));
        Ok(out)
    }

    /// Records a run.
    pub fn insert_run(&mut self, run: &VigyRun) -> (r: Result<(), StoreError>)
        ensures
            r is Ok,
            final(self).run_seq() == old(self).run_seq().push(run@),
            final(self).vigy_map() == old(self).vigy_map(),
            final(self).vigy_seq() == old(self).vigy_seq(),
            final(self).kv_map() == old(self).kv_map(),
    {
        proof {
            use_type_invariant(&*self);
        }
        let ghost old_runs = self.runs@;
        let mut rs: Vec<VigyRun> = Vec::new();
        std::mem::swap(&mut rs, &mut self.runs);
        rs.push(run.duplicate());
        self.runs = rs;
        assert(runs_view(self.runs@) =~= runs_view(old_runs).push(run@));
        Ok(())
    }

    /// The newest `limit` runs of `vigy_id`, newest first.
    pub fn recent_runs(&self, vigy_id: &VigyId, limit: u64) -> (r: Result<Vec<VigyRun>, StoreError>)
        ensures
            r matches Ok(v) && runs_view(v@) == recent(self.run_seq(), vigy_id@, limit),
    {
        let ghost all = self.run_seq();
        let ghost pred = |r: RunView| r.vigy_id == vigy_id@;
        let mut out: Vec<VigyRun> = Vec::new();
        let mut i: usize = 0;
        assert(all.take(0) =~= Seq::<RunView>::empty());
        while i < self.runs.len()
            invariant
                i <= self.runs@.len(),
                all == runs_view(self.runs@),
                pred == (|r: RunView| r.vigy_id == vigy_id@),
                runs_view(out@) == sort_desc(all.take(i as int).filter(pred)),
            decreases self.runs@.len() - i,
        {
            proof {
                reveal(Seq::filter);
                assert(all.take(i + 1).drop_last() =~= all.take(i as int));
                assert(all.take(i + 1).last() == self.runs@[i as int]@);
            }
            if self.runs[i].vigy_id.same(vigy_id) {
                let x = self.runs[i].duplicate();
                let ghost xv = x@;
                let mut p: usize = out.len();
                while p > 0 && out[p - 1].started_at.unix_nanos < x.started_at.unix_nanos
                    invariant
                        p <= out@.len(),
                        forall|j: int| p <= j < out@.len() ==> (#[trigger] out@[j]).started_at.unix_nanos
                            < x.started_at.unix_nanos,
                    decreases p,
                {
                    p -= 1;
                }
                let ghost before = runs_view(out@);
                proof {
                    assert forall|j: int| p <= j < before.len() implies (#[trigger] before[j]).started_at.unix_nanos
                        < xv.started_at.unix_nanos by {
                        assert(before[j] == out@[j]@);
                    }
                    if p > 0 {
                        assert(before[p - 1] == out@[p - 1]@);
                    }
                    lemma_insert_desc_at(before, xv, p as int);
                    let f = all.take(i as int).filter(pred);
                    assert(all.take(i + 1).filter(pred) == f.push(xv));
                    assert(f.push(xv).drop_last() =~= f);
                    assert(sort_desc(f.push(xv)) == insert_desc(sort_desc(f), xv));
                }
                out.insert(p, x);
                assert(runs_view(out@) =~= before.insert(p as int, xv));
            } else {
                proof {
                    assert(all.take(i + 1).filter(pred) == all.take(i as int).filter(pred));
                }
            }
            i += 1;
        }
        assert(all.take(i as int) =~= all);
        if (out.len() as u64) > limit {
            out.truncate(limit as usize);
        }
        proof {
            assert(pred == (|r: RunView| r.vigy_id == vigy_id@));
            assert(runs_of(all, vigy_id@) == all.filter(pred));
        }
        assert(runs_view(out@) =~= recent(all, vigy_id@, limit));
        Ok(out)
    }

    fn kv_position(&self, vigy_id: &VigyId) -> (r: Option<usize>)
        ensures
            match r {
                Some(i) => i < self.kvs@.len() && self.kvs@[i as int].0@ == vigy_id@
                    && self.kv_map().contains_key(vigy_id@) && self.kv_map()[vigy_id@]
                    == self.kvs@[i as int].1@,
                None => !self.kv_map().contains_key(vigy_id@),
            },
    {
        proof {
            use_type_invariant(self);
        }
        let idc = chars_of(vigy_id.as_str());
        let mut i: usize = 0;
        while i < self.kvs.len()
            invariant
                i <= self.kvs@.len(),
                idc@ == vigy_id@,
                distinct_keys(kvs_assoc(self.kvs@)),
                forall|j: int| 0 <= j < i ==> (#[trigger] self.kvs@[j]).0@ != vigy_id@,
            decreases self.kvs@.len() - i,
        {
            let c = chars_of(self.kvs[i].0.as_str());
            if chars_eq(c.as_slice(), idc.as_slice()) {
                proof {
                    assert(kvs_assoc(self.kvs@)[i as int] == (self.kvs@[i as int].0@, self.kvs@[i as int].1@));
                    lemma_assoc_at(kvs_assoc(self.kvs@), i as int);
                }
                return Some(i);
            }
            i += 1;
        }
        proof {
            assert forall|j: int| 0 <= j < kvs_assoc(self.kvs@).len() implies (#[trigger] kvs_assoc(self.kvs@)[j]).0 != vigy_id@ by {
                assert(kvs_assoc(self.kvs@)[j].0 == self.kvs@[j].0@);
            }
            lemma_assoc_absent(kvs_assoc(self.kvs@), vigy_id@);
        }
        None
    }

    /// Every key/value pair saved for `vigy_id`.
    pub fn load_kv(&self, vigy_id: &VigyId) -> (r: Result<KvMap, StoreError>)
        ensures
            r matches Ok(m) && m@ == self.kv_of(vigy_id@),
    {
        match self.kv_position(vigy_id) {
            Some(i) => Ok(self.kvs[i].1.duplicate()),
            None => Ok(KvMap::new()),
        }
    }

    /// Saves the changed keys of `vigy_id`: `dirty` pairs are written, then
    /// the `deleted` keys are removed.
    pub fn save_kv(&mut self, vigy_id: &VigyId, dirty: &KvMap, deleted: &Vec<String>) -> (r: Result<
        (),
        StoreError,
    >)
        ensures
            r is Ok,
            final(self).kv_of(vigy_id@) == remove_all(
                old(self).kv_of(vigy_id@).union_prefer_right(dirty@),
                strs_view(deleted@),
            ),
            forall|other: Seq<char>|
                other != vigy_id@ ==> #[trigger] final(self).kv_of(other) == old(self).kv_of(other),
            final(self).vigy_map() == old(self).vigy_map(),
            final(self).vigy_seq() == old(self).vigy_seq(),
            final(self).run_seq() == old(self).run_seq(),
    {
        proof {
            use_type_invariant(&*self);
        }
        let pos = self.kv_position(vigy_id);
        let mut m = match pos {
            Some(i) => self.kvs[i].1.duplicate(),
            None => KvMap::new(),
        };
        let ghost base = m@;
        let es = dirty.entries();
        let ghost ev = crate::kv::kv_entries_view(es@);
        let mut i: usize = 0;
        assert(ev.take(0) =~= Seq::<(Seq<char>, serde_json::Value)>::empty());
        assert(base.union_prefer_right(assoc_map(ev.take(0))) =~= base);
        while i < es.len()
            invariant
                i <= es@.len(),
                ev == crate::kv::kv_entries_view(es@),
                distinct_keys(ev),
                m@ == base.union_prefer_right(assoc_map(ev.take(i as int))),
            decreases es@.len() - i,
        {
            let k = es[i].0.clone();
            let v = crate::json::clone_json(&es[i].1);
            proof {
                let t = ev.take(i as int);
                assert(distinct_keys(t));
                assert(ev.take(i + 1) =~= t.push(ev[i as int]));
                if assoc_map(t).contains_key(ev[i as int].0) {
                    let j = choose|j: int| 0 <= j < t.len() && t[j].0 == ev[i as int].0;
                    assert(ev[j].0 == ev[i as int].0);
                }
                lemma_assoc_push(t, ev[i as int].0, ev[i as int].1);
                assert(base.union_prefer_right(assoc_map(t).insert(ev[i as int].0, ev[i as int].1))
                    =~= base.union_prefer_right(assoc_map(t)).insert(ev[i as int].0, ev[i as int].1));
            }
            m.insert(k, v);
            i += 1;
        }
        assert(ev.take(i as int) =~= ev);
        let ghost mid = m@;
        let ghost dv = strs_view(deleted@);
        let mut j: usize = 0;
        assert(dv.take(0) =~= Seq::<Seq<char>>::empty());
        while j < deleted.len()
            invariant
                j <= deleted@.len(),
                dv == strs_view(deleted@),
                m@ == remove_all(mid, dv.take(j as int)),
            decreases deleted@.len() - j,
        {
            let _ = m.remove(deleted[j].as_str());
            assert(dv.take(j + 1).drop_last() =~= dv.take(j as int));
            j += 1;
        }
        assert(dv.take(j as int) =~= dv);
        let ghost newm = m@;
        let ghost old_a = kvs_assoc(self.kvs@);
        let ghost old_self_kv = self.kv_map();
        let mut kvs: Vec<(String, KvMap)> = Vec::new();
        std::mem::swap(&mut kvs, &mut self.kvs);
        match pos {
            Some(p) => {
                proof {
                    lemma_assoc_update(old_a, p as int, newm);
                }
                kvs.set(p, (vigy_id.as_str().to_owned(), m));
                assert(kvs_assoc(kvs@) =~= old_a.update(p as int, (old_a[p as int].0, newm)));
            },
            None => {
                proof {
                    lemma_assoc_push(old_a, vigy_id@, newm);
                }
                kvs.push((vigy_id.as_str().to_owned(), m));
                assert(kvs_assoc(kvs@) =~= old_a.push((vigy_id@, newm)));
            },
        }
        self.kvs = kvs;
        Ok(())
    }
}

/// Newest first: each run started no earlier than any later one.
pub open spec fn newest_first(s: Seq<RunView>) -> bool {
    forall|i: int, j: int| 0 <= i < j < s.len() ==> #[trigger] s[i].started_at.unix_nanos
        >= #[trigger] s[j].started_at.unix_nanos
}

proof fn lemma_insert_desc_props(s: Seq<RunView>, x: RunView)
    requires
        newest_first(s),
    ensures
        newest_first(insert_desc(s, x)),
        insert_desc(s, x).to_multiset() == s.to_multiset().insert(x),
        insert_desc(s, x).len() == s.len() + 1,
    decreases s.len(),
{
    broadcast use vstd::seq_lib::group_to_multiset_ensures;
    if s.len() == 0 {
        assert(seq![x] =~= Seq::<RunView>::empty().push(x));
    } else if s.last().started_at.unix_nanos >= x.started_at.unix_nanos {
    } else {
        let t = s.drop_last();
        assert forall|i: int, j: int| 0 <= i < j < t.len() implies #[trigger] t[i].started_at.unix_nanos
            >= #[trigger] t[j].started_at.unix_nanos by {
            assert(t[i] == s[i] && t[j] == s[j]);
        }
        lemma_insert_desc_props(t, x);
        let u = insert_desc(t, x);
        assert(s =~= t.push(s.last()));
        assert forall|i: int| 0 <= i < u.len() implies (#[trigger] u[i]).started_at.unix_nanos
            >= s.last().started_at.unix_nanos by {
            assert(u.to_multiset().count(u[i]) > 0);
            assert(t.to_multiset().insert(x).count(u[i]) > 0);
            if u[i] != x {
                assert(t.to_multiset().count(u[i]) > 0);
                assert(t.contains(u[i]));
                let k = choose|k: int| 0 <= k < t.len() && t[k] == u[i];
                assert(s[k] == t[k]);
            }
        }
        assert(t.push(s.last()).to_multiset() == t.to_multiset().insert(s.last()));
        assert(u.push(s.last()).to_multiset() == u.to_multiset().insert(s.last()));
        assert(t.to_multiset().insert(x).insert(s.last()) =~= t.to_multiset().insert(s.last()).insert(x));
    }
}

/// Sorting keeps the runs (as a multiset) and puts them newest first.
pub proof fn law_sort_desc(s: Seq<RunView>)
    ensures
        newest_first(sort_desc(s)),
        sort_desc(s).to_multiset() == s.to_multiset(),
        sort_desc(s).len() == s.len(),
    decreases s.len(),
{
    broadcast use vstd::seq_lib::group_to_multiset_ensures;
    if s.len() > 0 {
        law_sort_desc(s.drop_last());
        lemma_insert_desc_props(sort_desc(s.drop_last()), s.last());
        assert(s =~= s.drop_last().push(s.last()));
    }
}

/// `recent_runs` answers `limit` runs, or all the vigy's runs when it has
/// no more than that, newest first, each one of the asked vigy and recorded
/// in the store.
pub proof fn law_recent_runs(runs: Seq<RunView>, vigy_id: Seq<char>, limit: u64)
    ensures
        recent(runs, vigy_id, limit).len() <= limit,
        recent(runs, vigy_id, limit).len() == (if runs_of(runs, vigy_id).len() <= limit {
            runs_of(runs, vigy_id).len()
        } else {
            limit as nat
        }),
        runs_of(runs, vigy_id).len() <= limit ==> recent(runs, vigy_id, limit).to_multiset()
            == runs_of(runs, vigy_id).to_multiset(),
        newest_first(recent(runs, vigy_id, limit)),
        forall|i: int| 0 <= i < recent(runs, vigy_id, limit).len() ==> (#[trigger] recent(runs, vigy_id, limit)[i]).vigy_id == vigy_id
            && runs.contains(recent(runs, vigy_id, limit)[i]),
{
    broadcast use vstd::seq_lib::group_to_multiset_ensures;
    let f = runs_of(runs, vigy_id);
    let s = sort_desc(f);
    law_sort_desc(f);
    let r = recent(runs, vigy_id, limit);
    assert forall|i: int| 0 <= i < r.len() implies (#[trigger] r[i]).vigy_id == vigy_id && runs.contains(r[i]) by {
        assert(r[i] == s[i]);
        assert(s.to_multiset().count(s[i]) > 0);
        assert(f.to_multiset().count(s[i]) > 0);
        assert(f.contains(s[i]));
        runs.lemma_filter_contains_rev(|r: RunView| r.vigy_id == vigy_id, s[i]);
    }
    assert forall|i: int, j: int| 0 <= i < j < r.len() implies #[trigger] r[i].started_at.unix_nanos
        >= #[trigger] r[j].started_at.unix_nanos by {
        assert(r[i] == s[i] && r[j] == s[j]);
    }
}

/// Writing a key/value pair and loading it back gives what was written;
/// removed keys are gone; other keys keep their old values.
pub proof fn law_kv_read_after_write(
    old: Map<Seq<char>, serde_json::Value>,
    dirty: Map<Seq<char>, serde_json::Value>,
    deleted: Seq<Seq<char>>,
    k: Seq<char>,
)
    ensures
        deleted.contains(k) ==> !remove_all(old.union_prefer_right(dirty), deleted).contains_key(k),
        !deleted.contains(k) && dirty.contains_key(k) ==> remove_all(old.union_prefer_right(dirty), deleted).contains_key(k)
            && remove_all(old.union_prefer_right(dirty), deleted)[k] == dirty[k],
        !deleted.contains(k) && !dirty.contains_key(k) ==> (remove_all(old.union_prefer_right(dirty), deleted).contains_key(k)
            == old.contains_key(k)),
        !deleted.contains(k) && !dirty.contains_key(k) && old.contains_key(k) ==> remove_all(
            old.union_prefer_right(dirty),
            deleted,
        )[k] == old[k],
{
    lemma_remove_all(old.union_prefer_right(dirty), deleted, k);
}

proof fn lemma_remove_all<V>(m: Map<Seq<char>, V>, ks: Seq<Seq<char>>, k: Seq<char>)
    ensures
        remove_all(m, ks).contains_key(k) <==> (m.contains_key(k) && !ks.contains(k)),
        remove_all(m, ks).contains_key(k) ==> remove_all(m, ks)[k] == m[k],
    decreases ks.len(),
{
    if ks.len() > 0 {
        lemma_remove_all(m, ks.drop_last(), k);
        if ks.drop_last().contains(k) {
            let i = choose|i: int| 0 <= i < ks.drop_last().len() && ks.drop_last()[i] == k;
            assert(ks[i] == k);
        }
        if ks.contains(k) && k != ks.last() {
            let i = choose|i: int| 0 <= i < ks.len() && ks[i] == k;
            assert(ks.drop_last()[i] == k);
        }
        if k == ks.last() {
            assert(ks[ks.len() - 1] == k);
        }
    }
}

/// Upserting the same vigy twice leaves the store as one upsert does.
pub proof fn law_upsert_idempotent(m: Map<Seq<char>, VigyView>, id: Seq<char>, v: VigyView)
    ensures
        m.insert(id, v).insert(id, v) == m.insert(id, v),
        m.insert(id, v).contains_key(id) && m.insert(id, v)[id] == v,
{
    assert(m.insert(id, v).insert(id, v) =~= m.insert(id, v));
}

/// A deleted vigy is gone, and deleting it again finds nothing.
pub proof fn law_delete_then_absent(m: Map<Seq<char>, VigyView>, id: Seq<char>)
    ensures
        !m.remove(id).contains_key(id),
        m.remove(id).remove(id) == m.remove(id),
{
    assert(m.remove(id).remove(id) =~= m.remove(id));
}

} // verus!
