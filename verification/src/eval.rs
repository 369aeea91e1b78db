//! The per-tick host a vigy program runs against, and the decisions of the
//! `vigy-*` intrinsics.

use vstd::prelude::*;
use crate::action::{ReconcileAction, ReconcileKind};
use crate::kv::KvMap;
use crate::store::strs_view;
use crate::text::{chars_eq, chars_of};

verus! {

/// Errors of evaluating a program.
#[derive(Debug)]
pub enum EvalErr {
    /// The program text does not read.
    Parse(String),
    /// Evaluation failed.
    Eval(String),
}

/// Severity of a logged message.
#[derive(Debug, Clone, Copy, PartialEq, Eq, Structural)]
pub enum LogLevel {
    Trace,
    Debug,
    Info,
    Warn,
    Error,
}

/// The level a name stands for.
pub open spec fn spec_level(s: Seq<char>) -> Option<LogLevel> {
    if s == "trace"@ {
        Some(LogLevel::Trace)
    } else if s == "debug"@ {
        Some(LogLevel::Debug)
    } else if s == "info"@ {
        Some(LogLevel::Info)
    } else if s == "warn"@ {
        Some(LogLevel::Warn)
    } else if s == "error"@ {
        Some(LogLevel::Error)
    } else {
        None
    }
}

/// The action kind a name stands for.
pub open spec fn spec_kind(s: Seq<char>) -> Option<ReconcileKind> {
    if s == "pull"@ {
        Some(ReconcileKind::Pull)
    } else if s == "push"@ {
        Some(ReconcileKind::Push)
    } else if s == "noop"@ {
        Some(ReconcileKind::Noop)
    } else if s == "custom"@ {
        Some(ReconcileKind::Custom)
    } else {
        None
    }
}

fn is_word(cs: &Vec<char>, w: &str) -> (r: bool)
    ensures
        r == (cs@ == w@),
{
    let wc = chars_of(w);
    chars_eq(cs.as_slice(), wc.as_slice())
}

impl LogLevel {
    /// `trace`, `debug`, `info`, `warn` or `error`.
    pub fn parse(s: &str) -> (r: Option<LogLevel>)
        ensures
            r == spec_level(s@),
    {
        let cs = chars_of(s);
        if is_word(&cs, "trace") {
            Some(LogLevel::Trace)
        } else if is_word(&cs, "debug") {
            Some(LogLevel::Debug)
        } else if is_word(&cs, "info") {
            Some(LogLevel::Info)
        } else if is_word(&cs, "warn") {
            Some(LogLevel::Warn)
        } else if is_word(&cs, "error") {
            Some(LogLevel::Error)
        } else {
            None
        }
    }
}

/// `pull`, `push`, `noop` or `custom`: the kinds `vigy-emit` accepts.
pub fn parse_kind(s: &str) -> (r: Option<ReconcileKind>)
    ensures
        r == spec_kind(s@),
{
    let cs = chars_of(s);
    if is_word(&cs, "pull") {
        Some(ReconcileKind::Pull)
    } else if is_word(&cs, "push") {
        Some(ReconcileKind::Push)
    } else if is_word(&cs, "noop") {
        Some(ReconcileKind::Noop)
    } else if is_word(&cs, "custom") {
        Some(ReconcileKind::Custom)
    } else {
        None
    }
}

/// `vigy-emit` takes a kind and, optionally, a payload.
pub fn emit_arity_ok(n: usize) -> (r: bool)
    ensures
        r == (1 <= n <= 2),
{
    1 <= n && n <= 2
}

/// The pending action that `(vigy-emit kind payload?)` queues.
pub open spec fn emitted(kind: ReconcileKind, payload: Option<serde_json::Value>) -> ReconcileAction {
    ReconcileAction { kind, payload, result: None, message: None }
}

/// A structured log line.
#[derive(Debug, Clone)]
pub struct LogEntry {
    pub level: LogLevel,
    pub message: String,
}

/// The per-tick context of a vigy program: when the tick started, what the
/// previous ticks left in the key/value state, and what the program emits.
#[derive(Debug)]
pub struct VigyHost {
    /// Unix epoch milliseconds of this tick's start.
    pub tick_start_ms: i64,
    /// Start of the previous tick, if there was one.
    pub previous_tick_ms: Option<i64>,
    /// How many ticks this one is, counting from one.
    pub tick_count: i64,
    /// The key/value state, loaded before the tick.
    pub kv: KvMap,
    /// Keys written during the tick.
    pub kv_dirty: Vec<String>,
    /// Keys removed during the tick.
    pub kv_deleted: Vec<String>,
    /// Actions the program emitted, in order.
    pub actions: Vec<ReconcileAction>,
    /// Messages the program logged, in order.
    pub log: Vec<LogEntry>,
}

impl VigyHost {
    /// A host for a tick starting at `tick_start_ms`, with nothing recorded.
    pub fn new(tick_start_ms: i64) -> (r: VigyHost)
        ensures
            r.tick_start_ms == tick_start_ms,
            r.previous_tick_ms is None,
            r.tick_count == 0,
            r.kv@ == Map::<Seq<char>, serde_json::Value>::empty(),
            r.kv_dirty@.len() == 0,
            r.kv_deleted@.len() == 0,
            r.actions@.len() == 0,
            r.log@.len() == 0,
    {
        VigyHost {
            tick_start_ms,
            previous_tick_ms: None,
            tick_count: 0,
            kv: KvMap::new(),
            kv_dirty: Vec::new(),
            kv_deleted: Vec::new(),
            actions: Vec::new(),
            log: Vec::new(),
        }
    }

    /// `(vigy-emit kind payload?)`: queues a pending action of `kind`.
    pub fn emit(&mut self, kind: ReconcileKind, payload: Option<serde_json::Value>)
        ensures
            final(self).actions@ == old(self).actions@.push(emitted(kind, payload)),
            *final(self) == (VigyHost { actions: final(self).actions, ..*old(self) }),
    {
        self.actions.push(ReconcileAction { kind, payload, result: None, message: None });
    }

    /// `(vigy-pull payload)`: sugar for `(vigy-emit "pull" payload)`.
    pub fn pull(&mut self, payload: serde_json::Value)
        ensures
            final(self).actions@ == old(self).actions@.push(emitted(ReconcileKind::Pull, Some(payload))),
            *final(self) == (VigyHost { actions: final(self).actions, ..*old(self) }),
    {
        self.actions.push(ReconcileAction::pull(payload));
    }

    /// `(vigy-push payload)`: sugar for `(vigy-emit "push" payload)`.
    pub fn push(&mut self, payload: serde_json::Value)
        ensures
            final(self).actions@ == old(self).actions@.push(emitted(ReconcileKind::Push, Some(payload))),
            *final(self) == (VigyHost { actions: final(self).actions, ..*old(self) }),
    {
        self.actions.push(ReconcileAction::push(payload));
    }

    /// `(vigy-noop)`: sugar for `(vigy-emit "noop")`.
    pub fn noop(&mut self)
        ensures
            final(self).actions@ == old(self).actions@.push(emitted(ReconcileKind::Noop, None)),
            *final(self) == (VigyHost { actions: final(self).actions, ..*old(self) }),
    {
        self.emit(ReconcileKind::Noop, None);
    }

    /// `(vigy-log level message)`: records the message when `level` names
    /// a level; tells whether it did.
    pub fn log_message(&mut self, level: &str, message: String) -> (r: bool)
        ensures
            r == (spec_level(level@) is Some),
            r ==> final(self).log@ == old(self).log@.push(
                LogEntry { level: spec_level(level@)->Some_0, message },
            ),
            !r ==> final(self).log@ == old(self).log@,
            *final(self) == (VigyHost { log: final(self).log, ..*old(self) }),
    {
        match LogLevel::parse(level) {
            Some(l) => {
                self.log.push(LogEntry { level: l, message });
                true
            },
            None => false,
        }
    }

    /// `(vigy-tick)`: this tick's start.
    pub fn tick(&self) -> (r: i64)
        ensures
            r == self.tick_start_ms,
    {
        self.tick_start_ms
    }

    /// The value under `key` in the key/value state.
    pub fn kv_get(&self, key: &str) -> (r: Option<&serde_json::Value>)
        ensures
            match r {
                Some(v) => self.kv@.contains_key(key@) && *v == self.kv@[key@],
                None => !self.kv@.contains_key(key@),
            },
    {
        self.kv.get(key)
    }

    /// Writes `key`; the key is saved at the end of the tick.
    pub fn kv_set(&mut self, key: String, value: serde_json::Value)
        ensures
            final(self).kv@ == old(self).kv@.insert(key@, value),
            strs_view(final(self).kv_dirty@).contains(key@),
            !strs_view(final(self).kv_deleted@).contains(key@),
            forall|k: Seq<char>| k != key@ ==> (strs_view(final(self).kv_dirty@).contains(k)
                <==> strs_view(old(self).kv_dirty@).contains(k)),
            forall|k: Seq<char>| k != key@ ==> (strs_view(final(self).kv_deleted@).contains(k)
                <==> strs_view(old(self).kv_deleted@).contains(k)),
            *final(self) == (VigyHost {
                kv: final(self).kv,
                kv_dirty: final(self).kv_dirty,
                kv_deleted: final(self).kv_deleted,
                ..*old(self)
            }),
    {
        let k2 = key.clone();
        self.kv.insert(key, value);
        mark(&mut self.kv_dirty, &k2);
        unmark(&mut self.kv_deleted, &k2);
    }

    /// Removes `key`; the removal is saved at the end of the tick.
    pub fn kv_remove(&mut self, key: &str)
        ensures
            final(self).kv@ == old(self).kv@.remove(key@),
            strs_view(final(self).kv_deleted@).contains(key@),
            !strs_view(final(self).kv_dirty@).contains(key@),
            forall|k: Seq<char>| k != key@ ==> (strs_view(final(self).kv_dirty@).contains(k)
                <==> strs_view(old(self).kv_dirty@).contains(k)),
            forall|k: Seq<char>| k != key@ ==> (strs_view(final(self).kv_deleted@).contains(k)
                <==> strs_view(old(self).kv_deleted@).contains(k)),
            *final(self) == (VigyHost {
                kv: final(self).kv,
                kv_dirty: final(self).kv_dirty,
                kv_deleted: final(self).kv_deleted,
                ..*old(self)
            }),
    {
        let _ = self.kv.remove(key);
        let owned = key.to_owned();
        mark(&mut self.kv_deleted, &owned);
        unmark(&mut self.kv_dirty, &owned);
    }
}

/// Each kind name stands for the kind of that name and for no other: a
/// text names `Pull` exactly when it is `pull`, `Push` exactly when it is
/// `push`, `Noop` exactly when it is `noop`, `Custom` exactly when it is
/// `custom`; every other text names none.
pub proof fn law_kind_names(s: Seq<char>)
    ensures
        spec_kind(s) == Some(ReconcileKind::Pull) <==> s == "pull"@,
        spec_kind(s) == Some(ReconcileKind::Push) <==> s == "push"@,
        spec_kind(s) == Some(ReconcileKind::Noop) <==> s == "noop"@,
        spec_kind(s) == Some(ReconcileKind::Custom) <==> s == "custom"@,
        (spec_kind(s) is None) <==> (s != "pull"@ && s != "push"@ && s != "noop"@ && s != "custom"@),
{
    reveal_strlit("pull");
    reveal_strlit("push");
    reveal_strlit("noop");
    reveal_strlit("custom");
    assert("pull"@.len() == 4 && "push"@.len() == 4 && "noop"@.len() == 4 && "custom"@.len() == 6);
    assert("pull"@[2] != "push"@[2]);
    assert("pull"@[0] != "noop"@[0]);
    assert("push"@[0] != "noop"@[0]);
}

/// `(vigy-emit name payload)` with the name `pull` (or `push`) queues what
/// the `vigy-pull` (or `vigy-push`) sugar queues for the same payload.
pub proof fn law_emit_name_matches_sugar(p: serde_json::Value)
    ensures
        emitted(spec_kind("pull"@)->Some_0, Some(p)) == (ReconcileAction {
            kind: ReconcileKind::Pull,
            payload: Some(p),
            result: None,
            message: None,
        }),
        emitted(spec_kind("push"@)->Some_0, Some(p)) == (ReconcileAction {
            kind: ReconcileKind::Push,
            payload: Some(p),
            result: None,
            message: None,
        }),
{
    law_kind_names("pull"@);
    law_kind_names("push"@);
}


impl Default for VigyHost {
    /// A host for a tick at epoch zero, with nothing recorded.
    fn default() -> (r: VigyHost)
        ensures
            r.tick_start_ms == 0,
            r.previous_tick_ms is None,
            r.tick_count == 0,
            r.kv@ == Map::<Seq<char>, serde_json::Value>::empty(),
            r.kv_dirty@.len() == 0,
            r.kv_deleted@.len() == 0,
            r.actions@.len() == 0,
            r.log@.len() == 0,
    {
        VigyHost::new(0)
    }
}

proof fn lemma_contains_push(x: Seq<Seq<char>>, y: Seq<char>)
    ensures
        forall|k: Seq<char>| #[trigger] x.push(y).contains(k) <==> (x.contains(k) || y == k),
{
    assert forall|k: Seq<char>| #[trigger] x.push(y).contains(k) <==> (x.contains(k) || y == k) by {
        if x.push(y).contains(k) {
            let j = choose|j: int| 0 <= j < x.push(y).len() && x.push(y)[j] == k;
            if j < x.len() {
                assert(x[j] == k);
            }
        }
        if x.contains(k) {
            let j = choose|j: int| 0 <= j < x.len() && x[j] == k;
            assert(x.push(y)[j] == k);
        }
        if y == k {
            assert(x.push(y)[x.len() as int] == k);
        }
    }
}

/// Adds `key` to the set `s` unless it is there.
fn mark(s: &mut Vec<String>, key: &String)
    ensures
        strs_view(final(s)@).contains(key@),
        forall|k: Seq<char>| k != key@ ==> (strs_view(final(s)@).contains(k) <==> strs_view(old(s)@).contains(k)),
{
    let kc = chars_of(key.as_str());
    let mut i: usize = 0;
    while i < s.len()
        invariant
            i <= s@.len(),
            kc@ == key@,
            forall|j: int| 0 <= j < i ==> (#[trigger] s@[j])@ != key@,
        decreases s@.len() - i,
    {
        let c = chars_of(s[i].as_str());
        if chars_eq(c.as_slice(), kc.as_slice()) {
            assert(strs_view(s@)[i as int] == key@);
            return;
        }
        i += 1;
    }
    let ghost before = s@;
    s.push(key.clone());
    assert(strs_view(s@) =~= strs_view(before).push(key@));
    assert(strs_view(s@)[before.len() as int] == key@);
    assert forall|k: Seq<char>| k != key@ implies (strs_view(s@).contains(k) <==> strs_view(before).contains(k)) by {
        if strs_view(s@).contains(k) {
            let j = choose|j: int| 0 <= j < strs_view(s@).len() && strs_view(s@)[j] == k;
            assert(strs_view(before)[j] == k);
        }
        if strs_view(before).contains(k) {
            let j = choose|j: int| 0 <= j < strs_view(before).len() && strs_view(before)[j] == k;
            assert(strs_view(s@)[j] == k);
        }
    }
}

/// Removes every copy of `key` from `s`.
fn unmark(s: &mut Vec<String>, key: &String)
    ensures
        !strs_view(final(s)@).contains(key@),
        forall|k: Seq<char>| k != key@ ==> (strs_view(final(s)@).contains(k) <==> strs_view(old(s)@).contains(k)),
{
    let kc = chars_of(key.as_str());
    let mut out: Vec<String> = Vec::new();
    let mut i: usize = 0;
    while i < s.len()
        invariant
            i <= s@.len(),
            kc@ == key@,
            !strs_view(out@).contains(key@),
            forall|k: Seq<char>| k != key@ ==> (strs_view(out@).contains(k) <==> strs_view(s@.take(i as int)).contains(k)),
        decreases s@.len() - i,
    {
        let c = chars_of(s[i].as_str());
        let ghost before = out@;
        let ghost t = s@.take(i as int);
        assert(strs_view(s@.take(i + 1)) =~= strs_view(t).push(s@[i as int]@));
        let keep = !chars_eq(c.as_slice(), kc.as_slice());
        if keep {
            out.push(s[i].clone());
            assert(strs_view(out@) =~= strs_view(before).push(s@[i as int]@));
        }
        proof {
            lemma_contains_push(strs_view(t), s@[i as int]@);
            if keep {
                lemma_contains_push(strs_view(before), s@[i as int]@);
            }
        }
        i += 1;
    }
    assert(s@.take(i as int) =~= s@);
    *s = out;
}

} // verus!
