//! Reading stored rows back into domain values, and the stored text of
//! timestamps.

use vstd::prelude::*;
use crate::action::{actions_view, law_status_round_trip, opt_str_view, status_from, status_name, ActionView, ReconcileAction, ResultStatus};
use crate::clock::Timestamp;
use crate::error::Error;
use crate::id::{uuid_parses, valid_vigy_id, VigyId, VigyRunId};
use crate::label::Labels;
use crate::run::{RunView, VigyRun};
use crate::store::StoreError;
use crate::vigy::{TickInterval, Vigy, MIN_TICK_INTERVAL_MS};

verus! {

/// What `time` makes of RFC 3339 text: the instant it denotes, in
/// nanoseconds since the Unix epoch, or the text of the parse error.
pub uninterp spec fn rfc3339_parse(text: Seq<char>) -> Result<i128, Seq<char>>;

/// The instant that RFC 3339 text denotes, if it parses.
pub open spec fn rfc3339_instant(text: Seq<char>) -> Option<i128> {
    match rfc3339_parse(text) {
        Ok(n) => Some(n),
        Err(_) => None,
    }
}

/// Parses RFC 3339 text.
///
/// Calls `time::OffsetDateTime::parse` with the `Rfc3339` description and
/// reads the instant back with `unix_timestamp_nanos`; a refusal is turned
/// into the error's text.
#[verifier::external_body]
pub(crate) fn parse_rfc3339(text: &str) -> (r: Result<Timestamp, String>)
    ensures
        match r {
            Ok(t) => rfc3339_parse(text@) == Ok::<i128, Seq<char>>(t.unix_nanos),
            Err(m) => rfc3339_parse(text@) == Err::<i128, Seq<char>>(m@),
        },
{
    time::OffsetDateTime::parse(text, &time::format_description::well_known::Rfc3339)
        .map(|t| Timestamp { unix_nanos: t.unix_timestamp_nanos() })
        .map_err(|e| e.to_string())
}

/// The interval a stored (signed) millisecond count denotes, read as the
/// unsigned value with the same bits.
pub open spec fn stored_ms(ms: i64) -> u64 {
    if ms >= 0 {
        ms as u64
    } else {
        (ms + 0x1_0000_0000_0000_0000int) as u64
    }
}

fn to_u64_bits(ms: i64) -> (r: u64)
    ensures
        r == stored_ms(ms),
{
    if ms >= 0 {
        ms as u64
    } else {
        let a: u64 = ((ms + 1) + i64::MAX) as u64;
        a + 9223372036854775808u64
    }
}

/// `r` is the decoding error whose text is `m`.
pub open spec fn decode_error<T>(r: Result<T, StoreError>, m: Seq<char>) -> bool {
    r matches Err(StoreError::Serde(t)) && t@ == m
}

/// A stored vigy row read back. The checks run in this order, and the first
/// that fails decides the error: the id, the interval (at least the
/// minimum), the labels' decoding (`labels` is its outcome), then the two
/// timestamps, which must be RFC 3339.
pub fn vigy_from_row(
    id: String,
    name: String,
    program: String,
    tick_interval_ms: i64,
    enabled: bool,
    labels: Result<Labels, String>,
    created_at: &str,
    updated_at: &str,
) -> (r: Result<Vigy, StoreError>)
    ensures
        !valid_vigy_id(id@) ==> (r matches Err(StoreError::Types(Error::InvalidId { id: bad, reason }))
            && bad@ == id@ && reason == "must be 16 lowercase hex chars"),
        valid_vigy_id(id@) && stored_ms(tick_interval_ms) < MIN_TICK_INTERVAL_MS ==> r == Err::<
            Vigy,
            StoreError,
        >(StoreError::Types(Error::InvalidTickInterval { ms: stored_ms(tick_interval_ms) })),
        valid_vigy_id(id@) && stored_ms(tick_interval_ms) >= MIN_TICK_INTERVAL_MS ==> {
            match labels {
                Err(lm) => decode_error(r, lm@),
                Ok(ls) => match rfc3339_parse(created_at@) {
                    Err(cm) => decode_error(r, cm),
                    Ok(c) => match rfc3339_parse(updated_at@) {
                        Err(um) => decode_error(r, um),
                        Ok(u) => r matches Ok(v) && v.id@ == id@ && v.name@ == name@ && v.program@
                            == program@ && v.tick_interval.spec_ms() == stored_ms(tick_interval_ms)
                            && v.enabled == enabled && v.created_at.unix_nanos == c
                            && v.updated_at.unix_nanos == u && v.labels@ == ls@,
                    },
                },
            }
        },
{
    let id = match VigyId::parse(id) {
        Ok(i) => i,
        Err(e) => return Err(StoreError::Types(e)),
    };
    let tick_interval = match TickInterval::from_millis(to_u64_bits(tick_interval_ms)) {
        Ok(t) => t,
        Err(e) => return Err(StoreError::Types(e)),
    };
    let labels = match labels {
        Ok(l) => l,
        Err(m) => return Err(StoreError::Serde(m)),
    };
    let created = match parse_rfc3339(created_at) {
        Ok(t) => t,
        Err(m) => return Err(StoreError::Serde(m)),
    };
    let updated = match parse_rfc3339(updated_at) {
        Ok(t) => t,
        Err(m) => return Err(StoreError::Serde(m)),
    };
    Ok(Vigy { id, name, program, tick_interval, enabled, created_at: created, updated_at: updated, labels })
}

/// Whether the ids and timestamps of a stored run row read back.
pub open spec fn run_row_ok(
    id: Seq<char>,
    vigy_id: Seq<char>,
    started_at: Seq<char>,
    ended_at: Option<Seq<char>>,
) -> bool {
    &&& uuid_parses(vstd::utf8::encode_utf8(id))
    &&& valid_vigy_id(vigy_id)
    &&& rfc3339_instant(started_at) is Some
    &&& ended_at matches Some(e) ==> rfc3339_instant(e) is Some
}

/// The run a stored row reads back as: `None` when an id does not parse or
/// a timestamp is not RFC 3339; otherwise the row's fields, the timestamps
/// as the instants they denote and the result under its stored name.
pub open spec fn read_run(
    id: Seq<char>,
    vigy_id: Seq<char>,
    started_at: Seq<char>,
    ended_at: Option<Seq<char>>,
    result: Seq<char>,
    error: Option<Seq<char>>,
    actions: Seq<ActionView>,
) -> Option<RunView> {
    if run_row_ok(id, vigy_id, started_at, ended_at) {
        Some(
            RunView {
                id,
                vigy_id,
                started_at: Timestamp { unix_nanos: rfc3339_instant(started_at)->Some_0 },
                ended_at: match ended_at {
                    None => None,
                    Some(e) => Some(Timestamp { unix_nanos: rfc3339_instant(e)->Some_0 }),
                },
                result: status_from(result),
                error,
                actions,
            },
        )
    } else {
        None
    }
}

/// The character view of an optional `&str`.
pub open spec fn opt_text_view(s: Option<&str>) -> Option<Seq<char>> {
    match s {
        Some(e) => Some(e@),
        None => None,
    }
}

/// A stored run row read back. The checks run in this order, and the first
/// that fails decides the error: the run id (a uuid), the vigy id, the start
/// and (when present) end timestamps (RFC 3339), then the actions' decoding
/// (`actions` is its outcome). The stored result name reads as `ok`,
/// `failed` or (for anything else) `skipped`.
pub fn run_from_row(
    id: String,
    vigy_id: String,
    started_at: &str,
    ended_at: Option<&str>,
    result: &str,
    error: Option<String>,
    actions: Result<Vec<ReconcileAction>, String>,
) -> (r: Result<VigyRun, StoreError>)
    ensures
        !uuid_parses(vstd::utf8::encode_utf8(id@)) ==> (r matches Err(
            StoreError::Types(Error::InvalidId { id: bad, reason }),
        ) && bad@ == id@ && reason == "must be a uuid"),
        uuid_parses(vstd::utf8::encode_utf8(id@)) && !valid_vigy_id(vigy_id@) ==> (r matches Err(
            StoreError::Types(Error::InvalidId { id: bad, reason }),
        ) && bad@ == vigy_id@ && reason == "must be 16 lowercase hex chars"),
        uuid_parses(vstd::utf8::encode_utf8(id@)) && valid_vigy_id(vigy_id@) ==> match rfc3339_parse(
            started_at@,
        ) {
            Err(sm) => decode_error(r, sm),
            Ok(_) => match ended_at {
                Some(e) => (rfc3339_parse(e@) matches Err(em) ==> decode_error(r, em)),
                None => true,
            },
        },
        run_row_ok(id@, vigy_id@, started_at@, opt_text_view(ended_at)) ==> match actions {
            Err(am) => decode_error(r, am@),
            Ok(acts) => r matches Ok(run) && Some(run@) == read_run(
                id@,
                vigy_id@,
                started_at@,
                opt_text_view(ended_at),
                result@,
                opt_str_view(error),
                actions_view(acts@),
            ),
        },
        !run_row_ok(id@, vigy_id@, started_at@, opt_text_view(ended_at)) ==> r is Err,
{
    let rid = match VigyRunId::parse(id) {
        Ok(i) => i,
        Err(e) => return Err(StoreError::Types(e)),
    };
    let vid = match VigyId::parse(vigy_id) {
        Ok(i) => i,
        Err(e) => return Err(StoreError::Types(e)),
    };
    let started = match parse_rfc3339(started_at) {
        Ok(t) => t,
        Err(m) => return Err(StoreError::Serde(m)),
    };
    let ended = match ended_at {
        Some(s) => match parse_rfc3339(s) {
            Ok(t) => Some(t),
            Err(m) => return Err(StoreError::Serde(m)),
        },
        None => None,
    };
    let status: ResultStatus = ResultStatus::from_stored(result);
    let actions = match actions {
        Ok(a) => a,
        Err(m) => return Err(StoreError::Serde(m)),
    };
    Ok(VigyRun {
        id: rid,
        vigy_id: vid,
        started_at: started,
        ended_at: ended,
        result: status,
        error,
        actions,
    })
}

/// A run written as a row (its ids as text, each timestamp as text that
/// reads back to the same instant, its result under its stored name) reads
/// back as the same run.
pub proof fn law_run_row_round_trip(run: RunView, started_at: Seq<char>, ended_at: Option<Seq<char>>)
    requires
        uuid_parses(vstd::utf8::encode_utf8(run.id)),
        valid_vigy_id(run.vigy_id),
        rfc3339_instant(started_at) == Some(run.started_at.unix_nanos),
        match run.ended_at {
            None => ended_at is None,
            Some(t) => ended_at matches Some(e) && rfc3339_instant(e) == Some(t.unix_nanos),
        },
    ensures
        read_run(
            run.id,
            run.vigy_id,
            started_at,
            ended_at,
            status_name(run.result),
            run.error,
            run.actions,
        ) == Some(run),
{
    law_status_round_trip(run.result);
}

} // verus!
