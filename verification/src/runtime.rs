//! The decisions of the tick loop: back-off after failures, the host a tick
//! starts from, and what a finished tick records and saves.

use vstd::prelude::*;
use crate::eval::VigyHost;
use crate::json::{json_as_i64, json_from_i64, json_i64, json_number, clone_json};
use crate::kv::KvMap;
use crate::run::VigyRun;
use crate::store::strs_view;
use crate::action::{actions_view, ResultStatus};

verus! {

/// Kv key under which the runtime keeps the number of ticks so far.
pub const KV_TICK_COUNT: &'static str = "__sys::tick_count";

/// Kv key under which the runtime keeps the previous tick's start.
pub const KV_PREV_TICK_MS: &'static str = "__sys::prev_tick_ms";

/// Longest back-off, in seconds.
pub const MAX_BACKOFF_SECS: u64 = 30;

/// Back-off after `failures` failed ticks in a row, in seconds: doubling
/// from one second, capped at thirty.
pub open spec fn backoff_secs(failures: u32) -> u64 {
    if failures <= 1 {
        1
    } else if failures == 2 {
        2
    } else if failures == 3 {
        4
    } else if failures == 4 {
        8
    } else if failures == 5 {
        16
    } else {
        30
    }
}

/// Seconds to wait after `failures` failed ticks in a row: 1, 2, 4, 8, 16,
/// then 30 from the sixth failure on.
pub fn backoff_for(failures: u32) -> (r: u64)
    ensures
        r == backoff_secs(failures),
{
    let shift: u32 = if failures == 0 {
        0
    } else if failures - 1 < 5 {
        failures - 1
    } else {
        5
    };
    let mut secs: u64 = 1;
    let mut i: u32 = 0;
    while i < shift
        invariant
            i <= shift <= 5,
            secs == if i == 0 { 1u64 } else if i == 1 { 2u64 } else if i == 2 { 4u64 } else if i == 3 { 8u64 } else if i == 4 { 16u64 } else { 32u64 },
        decreases shift - i,
    {
        secs = secs * 2;
        i += 1;
    }
    if secs < MAX_BACKOFF_SECS {
        secs
    } else {
        MAX_BACKOFF_SECS
    }
}

/// What the tick loop learned on one iteration.
#[derive(Debug, Clone, Copy, PartialEq, Eq, Structural)]
pub enum TickObservation {
    /// The vigy is no longer in the store.
    Missing,
    /// The vigy was disabled.
    Disabled,
    /// The vigy ticked; `failed` tells whether the run failed.
    Ran { failed: bool },
}

/// What the tick loop does next.
#[derive(Debug, Clone, Copy, PartialEq, Eq, Structural)]
pub enum LoopAction {
    /// Leave the loop.
    Exit,
    /// Sleep one interval and tick again.
    Continue,
    /// Sleep `secs` seconds more before the next interval.
    BackOff { secs: u64 },
}

/// The state the per-vigy tick loop carries between iterations.
#[derive(Debug, Clone, Copy)]
pub struct TickLoop {
    /// Failed ticks in a row.
    pub failures: u32,
}

impl TickLoop {
    /// A loop that has not failed yet.
    pub fn new() -> (r: TickLoop)
        ensures
            r.failures == 0,
    {
        TickLoop { failures: 0 }
    }

    /// The next action after `obs`: leave when the vigy is gone or disabled;
    /// after a failed run count it and back off; after a good run reset the
    /// count and continue.
    pub fn step(&mut self, obs: TickObservation) -> (r: LoopAction)
        ensures
            match obs {
                TickObservation::Missing | TickObservation::Disabled => r == LoopAction::Exit
                    && final(self).failures == old(self).failures,
                TickObservation::Ran { failed } => if failed {
                    &&& final(self).failures == (if old(self).failures == u32::MAX {
                        u32::MAX
                    } else {
                        (old(self).failures + 1) as u32
                    })
                    &&& r == (LoopAction::BackOff { secs: backoff_secs(final(self).failures) })
                } else {
                    final(self).failures == 0 && r == LoopAction::Continue
                },
            },
    {
        match obs {
            TickObservation::Missing | TickObservation::Disabled => LoopAction::Exit,
            TickObservation::Ran { failed } => {
                if failed {
                    self.failures = self.failures.saturating_add(1);
                    LoopAction::BackOff { secs: backoff_for(self.failures) }
                } else {
                    self.failures = 0;
                    LoopAction::Continue
                }
            },
        }
    }
}

/// The integer under `key` in `kv`, as `as_i64` reads it.
pub open spec fn kv_int(kv: Map<Seq<char>, serde_json::Value>, key: Seq<char>) -> Option<i64> {
    if kv.contains_key(key) {
        json_i64(kv[key])
    } else {
        None
    }
}

/// `h` is the host a tick starting at `start` gets from `kv`, after `prior`
/// ticks recorded so far and a previous tick at `prev`.
pub open spec fn tick_host(
    h: VigyHost,
    kv: Map<Seq<char>, serde_json::Value>,
    prior: Option<i64>,
    prev: Option<i64>,
    start: i64,
) -> bool {
    let count = match prior {
        Some(c) => c + 1,
        None => 1,
    };
    &&& h.tick_start_ms == start
    &&& h.previous_tick_ms == prev
    &&& h.tick_count == count
    &&& h.kv@ == kv.insert(KV_TICK_COUNT@, json_number(count as i64)).insert(
        KV_PREV_TICK_MS@,
        json_number(start),
    )
    &&& json_i64(json_number(count as i64)) == Some(count as i64)
    &&& strs_view(h.kv_dirty@) == seq![KV_TICK_COUNT@, KV_PREV_TICK_MS@]
    &&& h.kv_deleted@.len() == 0
    &&& h.actions@.len() == 0
    &&& h.log@.len() == 0
}

/// The host of a tick: the loaded `kv` with the tick count (one more than
/// `prior_count`, or one) and this tick's start written and marked dirty.
pub fn host_for_tick(
    kv: KvMap,
    prior_count: Option<i64>,
    previous_ms: Option<i64>,
    tick_start_ms: i64,
) -> (r: VigyHost)
    requires
        prior_count matches Some(c) ==> c < i64::MAX,
    ensures
        tick_host(r, kv@, prior_count, previous_ms, tick_start_ms),
{
    let tick_count: i64 = match prior_count {
        Some(c) => c + 1,
        None => 1,
    };
    let mut host = VigyHost::new(tick_start_ms);
    host.previous_tick_ms = previous_ms;
    host.tick_count = tick_count;
    host.kv = kv;
    host.kv.insert(KV_TICK_COUNT.to_owned(), json_from_i64(tick_count));
    host.kv.insert(KV_PREV_TICK_MS.to_owned(), json_from_i64(tick_start_ms));
    host.kv_dirty.push(KV_TICK_COUNT.to_owned());
    host.kv_dirty.push(KV_PREV_TICK_MS.to_owned());
    assert(strs_view(host.kv_dirty@) =~= seq![KV_TICK_COUNT@, KV_PREV_TICK_MS@]);
    host
}

/// The host a tick starting at `tick_start_ms` begins with, given the
/// saved `kv`; `None` when the saved tick count cannot grow any more.
pub fn prepare_tick(kv: KvMap, tick_start_ms: i64) -> (r: Option<VigyHost>)
    ensures
        kv_int(kv@, KV_TICK_COUNT@) == Some(i64::MAX) ==> r is None,
        kv_int(kv@, KV_TICK_COUNT@) != Some(i64::MAX) ==> (r matches Some(h) && tick_host(
            h,
            kv@,
            kv_int(kv@, KV_TICK_COUNT@),
            kv_int(kv@, KV_PREV_TICK_MS@),
            tick_start_ms,
        )),
{
    let prior = match kv.get(KV_TICK_COUNT) {
        Some(v) => json_as_i64(v),
        None => None,
    };
    let previous = match kv.get(KV_PREV_TICK_MS) {
        Some(v) => json_as_i64(v),
        None => None,
    };
    match prior {
        Some(c) => {
            if c == i64::MAX {
                return None;
            }
        },
        None => {},
    }
    Some(host_for_tick(kv, prior, previous, tick_start_ms))
}

/// The entries of `kv` whose keys are among `keys`.
pub open spec fn restrict_to(kv: Map<Seq<char>, serde_json::Value>, keys: Seq<Seq<char>>) -> Map<
    Seq<char>,
    serde_json::Value,
> {
    Map::new(|k: Seq<char>| kv.contains_key(k) && keys.contains(k), |k: Seq<char>| kv[k])
}

/// The written keys of a finished tick, with their values.
pub fn dirty_entries(host: &VigyHost) -> (r: KvMap)
    ensures
        r@ == restrict_to(host.kv@, strs_view(host.kv_dirty@)),
{
    let ghost ks = strs_view(host.kv_dirty@);
    let mut out = KvMap::new();
    let mut i: usize = 0;
    assert(out@ =~= restrict_to(host.kv@, ks.take(0)));
    while i < host.kv_dirty.len()
        invariant
            i <= host.kv_dirty@.len(),
            ks == strs_view(host.kv_dirty@),
            out@ == restrict_to(host.kv@, ks.take(i as int)),
        decreases host.kv_dirty@.len() - i,
    {
        let ghost before = out@;
        let ghost t = ks.take(i as int);
        assert(ks.take(i + 1) =~= t.push(ks[i as int]));
        proof {
            assert forall|k: Seq<char>| #[trigger] t.push(ks[i as int]).contains(k) <==> (t.contains(k) || ks[i as int] == k) by {
                if t.push(ks[i as int]).contains(k) {
                    let j = choose|j: int| 0 <= j < t.push(ks[i as int]).len() && t.push(ks[i as int])[j] == k;
                    if j < t.len() {
                        assert(t[j] == k);
                    }
                }
                if t.contains(k) {
                    let j = choose|j: int| 0 <= j < t.len() && t[j] == k;
                    assert(t.push(ks[i as int])[j] == k);
                }
                if ks[i as int] == k {
                    assert(t.push(ks[i as int])[t.len() as int] == k);
                }
            }
        }
        match host.kv.get(host.kv_dirty[i].as_str()) {
            Some(v) => {
                out.insert(host.kv_dirty[i].clone(), clone_json(v));
                assert(out@ =~= restrict_to(host.kv@, ks.take(i + 1)));
            },
            None => {
                assert(out@ =~= restrict_to(host.kv@, ks.take(i + 1)));
            },
        }
        i += 1;
    }
    assert(ks.take(i as int) =~= ks);
    out
}

/// What a finished tick records and saves: the completed run, and, when the
/// program wrote or removed keys, the changes to save.
pub fn finish_tick(run: VigyRun, outcome: Result<VigyHost, String>) -> (r: (
    VigyRun,
    Option<(KvMap, Vec<String>)>,
))
    ensures
        r.0.id@ == run.id@,
        r.0.vigy_id@ == run.vigy_id@,
        r.0.started_at == run.started_at,
        r.0.ended_at is Some,
        match outcome {
            Ok(h) => {
                let dirty = restrict_to(h.kv@, strs_view(h.kv_dirty@));
                &&& r.0.result == ResultStatus::Success
                &&& r.0.error == run.error
                &&& r.0.actions@ == h.actions@
                &&& (dirty.len() > 0 || h.kv_deleted@.len() > 0) ==> (r.1 matches Some(
                    (d, del),
                ) && d@ == dirty && del@ == h.kv_deleted@)
                &&& !(dirty.len() > 0 || h.kv_deleted@.len() > 0) ==> r.1 is None
            },
            Err(msg) => {
                &&& r.0.result == ResultStatus::Failed
                &&& r.0.error == Some(msg)
                &&& r.0.actions@ == run.actions@
                &&& r.1 is None
            },
        },
{
    match outcome {
        Ok(host) => {
            let dirty = dirty_entries(&host);
            let entries = dirty.entries();
            proof {
                crate::kv::lemma_assoc_len(crate::kv::kv_entries_view(entries@));
            }
            let save = if entries.len() > 0 || host.kv_deleted.len() > 0 {
                Some((dirty, host.kv_deleted))
            } else {
                None
            };
            (run.complete_ok(host.actions), save)
        },
        Err(msg) => (run.complete_failed(msg), None),
    }
}

/// A tick's host keeps the saved state: every key other than the two the
/// runtime writes holds what was loaded (and only loaded keys are there);
/// the tick count is written as one more than the saved one (or one), and
/// the previous-tick key as this tick's start.
pub proof fn law_tick_keeps_loaded_keys(
    h: VigyHost,
    kv: Map<Seq<char>, serde_json::Value>,
    prior: Option<i64>,
    prev: Option<i64>,
    start: i64,
    k: Seq<char>,
)
    requires
        tick_host(h, kv, prior, prev, start),
    ensures
        k != KV_TICK_COUNT@ && k != KV_PREV_TICK_MS@ ==> (h.kv@.contains_key(k) == kv.contains_key(k)),
        k != KV_TICK_COUNT@ && k != KV_PREV_TICK_MS@ && kv.contains_key(k) ==> h.kv@[k] == kv[k],
        h.kv@.contains_key(KV_TICK_COUNT@),
        json_i64(h.kv@[KV_TICK_COUNT@]) == Some(
            match prior {
                Some(c) => (c + 1) as i64,
                None => 1i64,
            },
        ),
        h.kv@.contains_key(KV_PREV_TICK_MS@),
        h.kv@[KV_PREV_TICK_MS@] == json_number(start),
        h.tick_start_ms == start,
        h.previous_tick_ms == prev,
{
    reveal_strlit("__sys::tick_count");
    reveal_strlit("__sys::prev_tick_ms");
    assert(KV_TICK_COUNT@.len() != KV_PREV_TICK_MS@.len());
}

/// The back-off is at least one second and at most thirty.
pub proof fn law_backoff_bounded(failures: u32)
    ensures
        1 <= backoff_secs(failures) <= MAX_BACKOFF_SECS,
{
}

/// More failures never shorten the back-off.
pub proof fn law_backoff_monotone(a: u32, b: u32)
    requires
        a <= b,
    ensures
        backoff_secs(a) <= backoff_secs(b),
{
}

/// `step` resets the count to zero after a good run, so the first failure
/// after it backs off one second.
pub proof fn law_backoff_first_failure()
    ensures
        backoff_secs(1) == 1,
{
}

/// The tick count survives a tick: once the written keys of a tick whose
/// program left the runtime's keys alone are saved over the loaded state,
/// the next tick reads the count this tick had.
pub proof fn law_tick_count_persists(
    h: VigyHost,
    kv: Map<Seq<char>, serde_json::Value>,
    prior: Option<i64>,
    prev: Option<i64>,
    start: i64,
)
    requires
        tick_host(h, kv, prior, prev, start),
    ensures
        kv_int(
            crate::store::remove_all(
                kv.union_prefer_right(restrict_to(h.kv@, strs_view(h.kv_dirty@))),
                Seq::<Seq<char>>::empty(),
            ),
            KV_TICK_COUNT@,
        ) == Some(h.tick_count),
{
    reveal_strlit("__sys::tick_count");
    reveal_strlit("__sys::prev_tick_ms");
    assert(KV_TICK_COUNT@.len() != KV_PREV_TICK_MS@.len());
    let ks = strs_view(h.kv_dirty@);
    assert(ks[0] == KV_TICK_COUNT@);
    assert(ks.contains(KV_TICK_COUNT@));
    let d = restrict_to(h.kv@, ks);
    assert(d.contains_key(KV_TICK_COUNT@));
    assert(h.kv@[KV_TICK_COUNT@] == json_number(h.tick_count));
}

} // verus!
