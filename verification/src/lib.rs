//! vigy — typed domain, label selectors, schedules, an in-memory store and
//! the tick decisions of an always-on reconciler runtime.

pub mod action;
pub mod api;
pub mod clock;
pub mod error;
pub mod eval;
pub mod id;
pub mod json;
pub mod kv;
pub mod label;
pub mod row;
pub mod run;
pub mod runtime;
pub mod schedule;
pub mod state;
pub mod store;
pub mod text;
pub mod vigy;

pub use action::{ReconcileAction, ReconcileKind, ResultStatus};
pub use clock::Timestamp;
pub use error::Error;
pub use id::{VigyId, VigyRunId};
pub use label::Labels;
pub use run::VigyRun;
pub use state::VigyState;
pub use vigy::{TickInterval, Vigy};
