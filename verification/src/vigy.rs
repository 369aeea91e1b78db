//! Tick intervals and the vigy record itself.

use vstd::prelude::*;
use crate::clock::Timestamp;
use crate::error::Error;
use crate::id::{spec_vigy_id, VigyId};
use crate::label::Labels;
use crate::text::{chars_of, trim, trim_bounds};

verus! {

/// Minimum allowable tick interval in milliseconds.
pub const MIN_TICK_INTERVAL_MS: u64 = 100;

/// A tick interval of at least [`MIN_TICK_INTERVAL_MS`] milliseconds.
#[derive(Debug, Clone, Copy, PartialEq, Eq)]
pub struct TickInterval {
    ms: u64,
}

impl TickInterval {
    /// The interval in milliseconds.
    pub closed spec fn spec_ms(self) -> u64 {
        self.ms
    }

    #[verifier::type_invariant]
    closed spec fn wf(self) -> bool {
        self.ms >= MIN_TICK_INTERVAL_MS
    }

    /// Accepts `ms` when it is at least the minimum interval.
    pub fn from_millis(ms: u64) -> (r: Result<TickInterval, Error>)
        ensures
            ms >= MIN_TICK_INTERVAL_MS ==> (r matches Ok(t) && t.spec_ms() == ms),
            ms < MIN_TICK_INTERVAL_MS ==> r == Err::<TickInterval, Error>(Error::InvalidTickInterval { ms }),
    {
        if ms < MIN_TICK_INTERVAL_MS {
            return Err(Error::InvalidTickInterval { ms });
        }
        Ok(TickInterval { ms })
    }

    /// The default interval: one second.
    pub fn default_interval() -> (r: TickInterval)
        ensures
            r.spec_ms() == 1000,
    {
        TickInterval { ms: 1000 }
    }

    /// The interval as a `std::time::Duration`.
    ///
    /// Calls `Duration::from_millis`; nothing is stated of the opaque result.
    #[verifier::external_body]
    pub fn as_duration(&self) -> std::time::Duration {
        std::time::Duration::from_millis(self.ms)
    }

    /// The interval in milliseconds.
    pub fn as_millis(&self) -> (r: u64)
        ensures
            r == self.spec_ms(),
            r >= MIN_TICK_INTERVAL_MS,
    {
        proof { use_type_invariant(self); }
        self.ms
    }
}

impl Default for TickInterval {
    /// One second.
    fn default() -> (r: TickInterval)
        ensures
            r.spec_ms() == 1000,
    {
        TickInterval::default_interval()
    }
}

/// Whether a program is empty once trimmed.
pub open spec fn blank_program(p: Seq<char>) -> bool {
    trim(p).len() == 0
}

/// One reconciler: a tatara-lisp program ticked at an interval.
#[derive(Debug, Clone)]
pub struct Vigy {
    pub id: VigyId,
    pub name: String,
    /// Raw tatara-lisp source, evaluated on every tick.
    pub program: String,
    pub tick_interval: TickInterval,
    pub enabled: bool,
    pub created_at: Timestamp,
    pub updated_at: Timestamp,
    pub labels: Labels,
}

/// The plain contents of a vigy.
pub struct VigyView {
    pub id: Seq<char>,
    pub name: Seq<char>,
    pub program: Seq<char>,
    pub tick_ms: u64,
    pub enabled: bool,
    pub created_at: Timestamp,
    pub updated_at: Timestamp,
    pub labels: Map<Seq<char>, Seq<char>>,
}

impl View for Vigy {
    type V = VigyView;

    open spec fn view(&self) -> VigyView {
        VigyView {
            id: self.id@,
            name: self.name@,
            program: self.program@,
            tick_ms: self.tick_interval.spec_ms(),
            enabled: self.enabled,
            created_at: self.created_at,
            updated_at: self.updated_at,
            labels: self.labels@,
        }
    }
}

/// Whether `p`, trimmed, is empty.
pub fn is_blank(p: &str) -> (r: bool)
    ensures
        r == blank_program(p@),
{
    let cs = chars_of(p);
    let (a, b) = trim_bounds(cs.as_slice());
    a == b
}

impl Vigy {
    /// A fresh, enabled vigy without labels; its id comes from name and
    /// program. A program that is only whitespace is rejected.
    pub fn new(name: String, program: String, tick_interval: TickInterval) -> (r: Result<
        Vigy,
        Error,
    >)
        ensures
            blank_program(program@) ==> r == Err::<Vigy, Error>(Error::EmptyProgram),
            !blank_program(program@) ==> (r matches Ok(v) && v.id@ == spec_vigy_id(name@, program@)
                && v.name@ == name@ && v.program@ == program@ && v.tick_interval == tick_interval
                && v.enabled && v.created_at == v.updated_at && v.labels@.len() == 0
                && v.labels@ == Map::<Seq<char>, Seq<char>>::empty()),
    {
        if is_blank(program.as_str()) {
            return Err(Error::EmptyProgram);
        }
        let id = VigyId::from_name_and_program(name.as_str(), program.as_str());
        let now = Timestamp::now_utc();
        Ok(Vigy {
            id,
            name,
            program,
            tick_interval,
            enabled: true,
            created_at: now,
            updated_at: now,
            labels: Labels::new(),
        })
    }

    /// A copy of the vigy.
    pub fn duplicate(&self) -> (r: Vigy)
        ensures
            r@ == self@,
    {
        Vigy {
            id: self.id.duplicate(),
            name: self.name.clone(),
            program: self.program.clone(),
            tick_interval: self.tick_interval,
            enabled: self.enabled,
            created_at: self.created_at,
            updated_at: self.updated_at,
            labels: self.labels.duplicate(),
        }
    }
}

} // verus!
