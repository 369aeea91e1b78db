//! Reconcile actions: what a vigy decides to do on a tick.

use vstd::prelude::*;
use crate::json::clone_json;

verus! {

/// Classification of a reconcile action.
#[derive(Debug, Clone, Copy, PartialEq, Eq, Structural)]
pub enum ReconcileKind {
    /// Fetch state from an upstream and apply it locally.
    Pull,
    /// Push local state to an upstream.
    Push,
    /// Nothing to do; recorded for audit.
    Noop,
    /// Host-app-defined.
    Custom,
}

/// The outcome of executing an action (or of a whole run).
#[derive(Debug, Clone, Copy, PartialEq, Eq, Structural)]
pub enum ResultStatus {
    Success,
    Failed,
    Skipped,
}

/// The lowercase name under which a status is stored.
pub open spec fn status_name(s: ResultStatus) -> Seq<char> {
    match s {
        ResultStatus::Success => "ok"@,
        ResultStatus::Failed => "failed"@,
        ResultStatus::Skipped => "skipped"@,
    }
}

/// The status a stored name reads as.
pub open spec fn status_from(s: Seq<char>) -> ResultStatus {
    if s == "ok"@ {
        ResultStatus::Success
    } else if s == "failed"@ {
        ResultStatus::Failed
    } else {
        ResultStatus::Skipped
    }
}

/// Storing a status by name and reading it back gives the same status.
pub proof fn law_status_round_trip(st: ResultStatus)
    ensures
        status_from(status_name(st)) == st,
{
    reveal_strlit("ok");
    reveal_strlit("failed");
    reveal_strlit("skipped");
    assert("ok"@.len() == 2);
    assert("failed"@.len() == 6);
    assert("skipped"@.len() == 7);
}

impl ResultStatus {
    /// The status's stored name: `ok`, `failed` or `skipped`.
    pub fn as_str(&self) -> (r: &'static str)
        ensures
            r@ == status_name(*self),
    {
        match self {
            ResultStatus::Success => "ok",
            ResultStatus::Failed => "failed",
            ResultStatus::Skipped => "skipped",
        }
    }

    /// Reads a stored status name: `ok` and `failed` map to their status,
    /// anything else to `Skipped`.
    pub fn from_stored(s: &str) -> (r: ResultStatus)
        ensures
            r == status_from(s@),
    {
        proof {
            reveal_strlit("ok");
            reveal_strlit("failed");
            assert("ok"@.len() == 2);
            assert("failed"@.len() == 6);
        }
        let cs = crate::text::chars_of(s);
        let ok = crate::text::chars_of("ok");
        let failed = crate::text::chars_of("failed");
        if crate::text::chars_eq(cs.as_slice(), ok.as_slice()) {
            ResultStatus::Success
        } else if crate::text::chars_eq(cs.as_slice(), failed.as_slice()) {
            ResultStatus::Failed
        } else {
            ResultStatus::Skipped
        }
    }
}

/// A queued or executed action.
#[derive(Debug, Clone)]
pub struct ReconcileAction {
    pub kind: ReconcileKind,
    /// Host-defined JSON describing the action.
    pub payload: Option<serde_json::Value>,
    pub result: Option<ResultStatus>,
    pub message: Option<String>,
}

/// The plain contents of an action.
pub struct ActionView {
    pub kind: ReconcileKind,
    pub payload: Option<serde_json::Value>,
    pub result: Option<ResultStatus>,
    pub message: Option<Seq<char>>,
}

/// The view of an optional string.
pub open spec fn opt_str_view(s: Option<String>) -> Option<Seq<char>> {
    match s {
        Some(t) => Some(t@),
        None => None,
    }
}

impl View for ReconcileAction {
    type V = ActionView;

    open spec fn view(&self) -> ActionView {
        ActionView {
            kind: self.kind,
            payload: self.payload,
            result: self.result,
            message: opt_str_view(self.message),
        }
    }
}

/// A copy of an optional string.
pub fn clone_opt_string(s: &Option<String>) -> (r: Option<String>)
    ensures
        opt_str_view(r) == opt_str_view(*s),
{
    match s {
        Some(t) => Some(t.clone()),
        None => None,
    }
}

impl ReconcileAction {
    /// A `Noop` that already succeeded.
    pub fn noop() -> (r: ReconcileAction)
        ensures
            r.kind == ReconcileKind::Noop,
            r.payload is None,
            r.result == Some(ResultStatus::Success),
            r.message is None,
    {
        ReconcileAction { kind: ReconcileKind::Noop, payload: None, result: Some(ResultStatus::Success), message: None }
    }

    /// A pending `Pull` carrying `payload`.
    pub fn pull(payload: serde_json::Value) -> (r: ReconcileAction)
        ensures
            r.kind == ReconcileKind::Pull,
            r.payload == Some(payload),
            r.result is None,
            r.message is None,
    {
        ReconcileAction { kind: ReconcileKind::Pull, payload: Some(payload), result: None, message: None }
    }

    /// A pending `Push` carrying `payload`.
    pub fn push(payload: serde_json::Value) -> (r: ReconcileAction)
        ensures
            r.kind == ReconcileKind::Push,
            r.payload == Some(payload),
            r.result is None,
            r.message is None,
    {
        ReconcileAction { kind: ReconcileKind::Push, payload: Some(payload), result: None, message: None }
    }

    /// A pending `Custom` action carrying `payload`.
    pub fn custom(payload: serde_json::Value) -> (r: ReconcileAction)
        ensures
            r.kind == ReconcileKind::Custom,
            r.payload == Some(payload),
            r.result is None,
            r.message is None,
    {
        ReconcileAction { kind: ReconcileKind::Custom, payload: Some(payload), result: None, message: None }
    }

    /// The same action with its outcome recorded.
    pub fn with_result(self, result: ResultStatus, message: Option<String>) -> (r: ReconcileAction)
        ensures
            r.kind == self.kind,
            r.payload == self.payload,
            r.result == Some(result),
            r.message == message,
    {
        let mut a = self;
        a.result = Some(result);
        a.message = message;
        a
    }

    /// A copy of the action.
    pub fn duplicate(&self) -> (r: ReconcileAction)
        ensures
            r@ == self@,
    {
        let payload = match &self.payload {
            Some(p) => Some(clone_json(p)),
            None => None,
        };
        ReconcileAction {
            kind: self.kind,
            payload,
            result: self.result,
            message: clone_opt_string(&self.message),
        }
    }
}

/// The views of a list of actions.
pub open spec fn actions_view(s: Seq<ReconcileAction>) -> Seq<ActionView> {
    s.map_values(|a: ReconcileAction| a@)
}

/// A copy of a list of actions.
pub fn clone_actions(v: &Vec<ReconcileAction>) -> (r: Vec<ReconcileAction>)
    ensures
        actions_view(r@) == actions_view(v@),
{
    let mut r: Vec<ReconcileAction> = Vec::new();
    let mut i: usize = 0;
    while i < v.len()
        invariant
            i <= v@.len(),
            r@.len() == i,
            forall|j: int| 0 <= j < i ==> (#[trigger] r@[j])@ == v@[j]@,
        decreases v@.len() - i,
    {
        r.push(v[i].duplicate());
        i += 1;
    }
    assert(actions_view(r@) =~= actions_view(v@));
    r
}

} // verus!
