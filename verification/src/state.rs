//! Snapshot of a vigy's view of the world at a moment in time.

use vstd::prelude::*;
use crate::action::{actions_view, ReconcileAction};
use crate::clock::Timestamp;
use crate::id::VigyId;

verus! {

/// What a vigy declared on its latest tick: desired and observed state
/// (arbitrary JSON) and the actions it queued.
#[derive(Debug, Clone)]
pub struct VigyState {
    pub vigy_id: VigyId,
    pub desired: Option<serde_json::Value>,
    pub observed: Option<serde_json::Value>,
    pub pending: Vec<ReconcileAction>,
    pub captured_at: Timestamp,
}

impl VigyState {
    /// A snapshot of `vigy_id` taken now, with nothing declared.
    pub fn empty(vigy_id: VigyId) -> (r: VigyState)
        ensures
            r.vigy_id@ == vigy_id@,
            r.desired is None,
            r.observed is None,
            r.pending@.len() == 0,
    {
        VigyState {
            vigy_id,
            desired: None,
            observed: None,
            pending: Vec::new(),
            captured_at: Timestamp::now_utc(),
        }
    }

    /// The snapshot that the state endpoint serves: the actions of the most
    /// recent run (if any) as `pending`, nothing declared.
    pub fn from_latest_run(vigy_id: VigyId, latest: Option<Vec<ReconcileAction>>) -> (r: VigyState)
        ensures
            r.vigy_id@ == vigy_id@,
            r.desired is None,
            r.observed is None,
            match latest {
                Some(a) => r.pending@ == a@,
                None => r.pending@.len() == 0,
            },
    {
        let pending = match latest {
            Some(a) => a,
            None => Vec::new(),
        };
        VigyState { vigy_id, desired: None, observed: None, pending, captured_at: Timestamp::now_utc() }
    }
}

} // verus!
