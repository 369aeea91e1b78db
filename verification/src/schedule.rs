//! When a vigy ticks: the `Schedule` trait, the serialisable
//! `ScheduleSpec`, and the fixed-interval schedule.

use vstd::prelude::*;
use vstd::string::StringExecFns;
use crate::clock::Timestamp;
use crate::error::Error;
use crate::vigy::{TickInterval, MIN_TICK_INTERVAL_MS};

verus! {

/// The decimal digits of `n`, without leading zeros.
pub open spec fn decimal(n: nat) -> Seq<char>
    decreases n,
{
    if n < 10 {
        seq![digit_char(n)]
    } else {
        decimal(n / 10).push(digit_char(n % 10))
    }
}

/// The character of a decimal digit.
pub open spec fn digit_char(d: nat) -> char {
    if d == 0 { '0' }
    else if d == 1 { '1' }
    else if d == 2 { '2' }
    else if d == 3 { '3' }
    else if d == 4 { '4' }
    else if d == 5 { '5' }
    else if d == 6 { '6' }
    else if d == 7 { '7' }
    else if d == 8 { '8' }
    else { '9' }
}

/// The text that `{:?}` writes for a string.
pub uninterp spec fn debug_str(s: Seq<char>) -> Seq<char>;

/// The text of a single decimal digit.
fn digit_text(d: u64) -> (r: &'static str)
    requires
        d < 10,
    ensures
        r@ == seq![digit_char(d as nat)],
{
    proof {
        reveal_strlit("0");
        reveal_strlit("1");
        reveal_strlit("2");
        reveal_strlit("3");
        reveal_strlit("4");
        reveal_strlit("5");
        reveal_strlit("6");
        reveal_strlit("7");
        reveal_strlit("8");
        reveal_strlit("9");
    }
    let r = if d == 0 {
        "0"
    } else if d == 1 {
        "1"
    } else if d == 2 {
        "2"
    } else if d == 3 {
        "3"
    } else if d == 4 {
        "4"
    } else if d == 5 {
        "5"
    } else if d == 6 {
        "6"
    } else if d == 7 {
        "7"
    } else if d == 8 {
        "8"
    } else {
        "9"
    };
    assert(r@ =~= seq![digit_char(d as nat)]);
    r
}

/// Appends the decimal digits of `n` to `s`.
fn append_decimal(s: &mut String, n: u64)
    ensures
        final(s)@ == old(s)@ + decimal(n as nat),
    decreases n,
{
    if n < 10 {
        s.append(digit_text(n));
    } else {
        append_decimal(s, n / 10);
        s.append(digit_text(n % 10));
        assert(decimal(n as nat) == decimal((n / 10) as nat).push(digit_char((n % 10) as nat)));
        assert(old(s)@ + decimal((n / 10) as nat) + seq![digit_char((n % 10) as nat)] =~= old(s)@
            + decimal(n as nat));
    }
}

/// `fixed(<ms>ms)`.
fn fixed_description(ms: u64) -> (r: String)
    ensures
        r@ == "fixed("@ + decimal(ms as nat) + "ms)"@,
{
    let mut r = String::from_str("fixed(");
    append_decimal(&mut r, ms);
    r.append("ms)");
    r
}

/// The `Debug` text of a string (quoted, escaped).
///
/// Formats with `format!` and `{:?}`.
#[verifier::external_body]
fn debug_text(s: &str) -> (r: String)
    ensures
        r@ == debug_str(s@),
{
    format!("{s:?}")
}

/// `expr <expr as {:?}>`.
fn cron_detail(expr: &str) -> (r: String)
    ensures
        r@ == "expr "@ + debug_str(expr@),
{
    let mut r = String::from_str("expr ");
    let d = debug_text(expr);
    r.append(d.as_str());
    r
}

/// Computes when a vigy should next tick.
pub trait Schedule {
    /// Whether a next tick after `previous` is representable.
    spec fn can_follow(&self, previous: Timestamp) -> bool;

    /// Given the current time and the previous tick's start (`None` before
    /// the first tick), when the next tick should fire.
    fn next_tick(&self, now: Timestamp, previous: Option<Timestamp>) -> (r: Timestamp)
        requires
            previous matches Some(p) ==> self.can_follow(p),
    ;

    /// A short description for logs.
    fn describe(&self) -> String;
}

/// Fires every `interval_ms` milliseconds (at least the minimum interval).
#[derive(Debug)]
pub struct FixedSchedule {
    interval_ms: u64,
}

impl FixedSchedule {
    /// The interval in milliseconds.
    pub closed spec fn spec_interval_ms(self) -> u64 {
        self.interval_ms
    }

    #[verifier::type_invariant]
    closed spec fn inv(self) -> bool {
        self.interval_ms >= MIN_TICK_INTERVAL_MS
    }

    /// A fixed schedule of `interval_ms`, refused below the minimum.
    pub fn new(interval_ms: u64) -> (r: Result<FixedSchedule, Error>)
        ensures
            interval_ms >= MIN_TICK_INTERVAL_MS ==> (r matches Ok(s) && s.spec_interval_ms()
                == interval_ms),
            interval_ms < MIN_TICK_INTERVAL_MS ==> r == Err::<FixedSchedule, Error>(
                Error::InvalidTickInterval { ms: interval_ms },
            ),
    {
        if interval_ms < MIN_TICK_INTERVAL_MS {
            return Err(Error::InvalidTickInterval { ms: interval_ms });
        }
        Ok(FixedSchedule { interval_ms })
    }

    /// The interval in milliseconds.
    pub fn interval_ms(&self) -> (r: u64)
        ensures
            r == self.spec_interval_ms(),
            r >= MIN_TICK_INTERVAL_MS,
    {
        proof {
            use_type_invariant(self);
        }
        self.interval_ms
    }
}

impl Schedule for FixedSchedule {
    open spec fn can_follow(&self, previous: Timestamp) -> bool {
        previous.unix_nanos + self.spec_interval_ms() * 1_000_000 <= i128::MAX
    }

    /// Fires at once on the first tick; afterwards one interval after the
    /// previous tick's start, so a slow tick does not make the schedule drift.
    fn next_tick(&self, now: Timestamp, previous: Option<Timestamp>) -> (r: Timestamp)
        ensures
            match previous {
                None => r == now,
                Some(p) => r.unix_nanos == p.unix_nanos + self.spec_interval_ms() * 1_000_000,
            },
    {
        match previous {
            None => now,
            Some(prev) => prev.plus_millis(self.interval_ms),
        }
    }

    /// `fixed(<ms>ms)`.
    fn describe(&self) -> (r: String)
        ensures
            r@ == "fixed("@ + decimal(self.spec_interval_ms() as nat) + "ms)"@,
    {
        fixed_description(self.interval_ms)
    }
}

/// A serialisable schedule description.
#[derive(Debug, Clone, PartialEq, Eq)]
pub enum ScheduleSpec {
    /// Every `interval_ms` milliseconds (at least the minimum).
    Fixed { interval_ms: u64 },
    /// A cron expression; not implemented yet.
    Cron { expr: String },
    /// An interval between bounds steered by a kv hint; not implemented yet.
    Adaptive { min_ms: u64, max_ms: u64, hint_key: String },
}

impl ScheduleSpec {
    /// The default spec: fixed, every second.
    pub fn default_spec() -> (r: ScheduleSpec)
        ensures
            r == (ScheduleSpec::Fixed { interval_ms: 1000 }),
    {
        ScheduleSpec::Fixed { interval_ms: 1000 }
    }

    /// The fixed spec of a tick interval.
    pub fn from_interval(t: TickInterval) -> (r: ScheduleSpec)
        ensures
            r == (ScheduleSpec::Fixed { interval_ms: t.spec_ms() }),
    {
        ScheduleSpec::Fixed { interval_ms: t.as_millis() }
    }

    /// The runtime schedule of this spec. Only `Fixed` has one; `Cron` and
    /// `Adaptive` are reported as not implemented yet.
    pub fn build(&self) -> (r: Result<FixedSchedule, Error>)
        ensures
            match *self {
                ScheduleSpec::Fixed { interval_ms } => {
                    &&& interval_ms >= MIN_TICK_INTERVAL_MS ==> (r matches Ok(s)
                        && s.spec_interval_ms() == interval_ms)
                    &&& interval_ms < MIN_TICK_INTERVAL_MS ==> r == Err::<FixedSchedule, Error>(
                        Error::InvalidTickInterval { ms: interval_ms },
                    )
                },
                ScheduleSpec::Cron { expr } => r matches Err(
                    Error::ScheduleNotYetImplemented { variant, detail },
                ) && variant == "cron" && detail@ == "expr "@ + debug_str(expr@),
                ScheduleSpec::Adaptive { .. } => r matches Err(
                    Error::ScheduleNotYetImplemented { variant, detail },
                ) && variant == "adaptive" && detail@ == "min/max/hint_key parsing pending"@,
            },
    {
        match self {
            ScheduleSpec::Fixed { interval_ms } => FixedSchedule::new(*interval_ms),
            ScheduleSpec::Cron { expr } => Err(
                Error::ScheduleNotYetImplemented { variant: "cron", detail: cron_detail(expr.as_str()) },
            ),
            ScheduleSpec::Adaptive { .. } => Err(
                Error::ScheduleNotYetImplemented {
                    variant: "adaptive",
                    detail: "min/max/hint_key parsing pending".to_owned(),
                },
            ),
        }
    }
}

} // verus!
