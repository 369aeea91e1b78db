//! One recorded execution of a vigy.

use vstd::prelude::*;
use crate::action::{actions_view, clone_actions, clone_opt_string, opt_str_view, ActionView, ReconcileAction, ResultStatus};
use crate::clock::Timestamp;
use crate::id::{VigyId, VigyRunId};

verus! {

/// A run: started, then completed either with actions or with an error.
#[derive(Debug, Clone)]
pub struct VigyRun {
    pub id: VigyRunId,
    pub vigy_id: VigyId,
    pub started_at: Timestamp,
    pub ended_at: Option<Timestamp>,
    pub result: ResultStatus,
    pub error: Option<String>,
    pub actions: Vec<ReconcileAction>,
}

/// The plain contents of a run.
pub struct RunView {
    pub id: Seq<char>,
    pub vigy_id: Seq<char>,
    pub started_at: Timestamp,
    pub ended_at: Option<Timestamp>,
    pub result: ResultStatus,
    pub error: Option<Seq<char>>,
    pub actions: Seq<ActionView>,
}

impl View for VigyRun {
    type V = RunView;

    open spec fn view(&self) -> RunView {
        RunView {
            id: self.id@,
            vigy_id: self.vigy_id@,
            started_at: self.started_at,
            ended_at: self.ended_at,
            result: self.result,
            error: opt_str_view(self.error),
            actions: actions_view(self.actions@),
        }
    }
}

impl VigyRun {
    /// A run of `vigy_id` that starts now: fresh id, `Skipped` until it
    /// completes, no error, no actions.
    pub fn started(vigy_id: VigyId) -> (r: VigyRun)
        ensures
            r.vigy_id@ == vigy_id@,
            r.id@.len() == 36,
            r.id@[14] == '7',
            crate::id::uuid_parses(vstd::utf8::encode_utf8(r.id@)),
            r.ended_at is None,
            r.result == ResultStatus::Skipped,
            r.error is None,
            r.actions@.len() == 0,
    {
        VigyRun {
            id: VigyRunId::new(),
            vigy_id,
            started_at: Timestamp::now_utc(),
            ended_at: None,
            result: ResultStatus::Skipped,
            error: None,
            actions: Vec::new(),
        }
    }

    /// The run completed successfully with `actions`.
    pub fn complete_ok(self, actions: Vec<ReconcileAction>) -> (r: VigyRun)
        ensures
            r.id@ == self.id@,
            r.vigy_id@ == self.vigy_id@,
            r.started_at == self.started_at,
            r.ended_at is Some,
            r.result == ResultStatus::Success,
            r.error == self.error,
            r.actions@ == actions@,
    {
        let mut run = self;
        run.actions = actions;
        run.result = ResultStatus::Success;
        run.ended_at = Some(Timestamp::now_utc());
        run
    }

    /// The run failed with `error`; its actions stay as they were.
    pub fn complete_failed(self, error: String) -> (r: VigyRun)
        ensures
            r.id@ == self.id@,
            r.vigy_id@ == self.vigy_id@,
            r.started_at == self.started_at,
            r.ended_at is Some,
            r.result == ResultStatus::Failed,
            r.error == Some(error),
            r.actions@ == self.actions@,
    {
        let mut run = self;
        run.result = ResultStatus::Failed;
        run.error = Some(error);
        run.ended_at = Some(Timestamp::now_utc());
        run
    }

    /// A copy of the run.
    pub fn duplicate(&self) -> (r: VigyRun)
        ensures
            r@ == self@,
    {
        VigyRun {
            id: self.id.duplicate(),
            vigy_id: self.vigy_id.duplicate(),
            started_at: self.started_at,
            ended_at: self.ended_at,
            result: self.result,
            error: clone_opt_string(&self.error),
            actions: clone_actions(&self.actions),
        }
    }
}

} // verus!
