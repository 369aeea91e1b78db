use std::time::{Duration, SystemTime, UNIX_EPOCH};

use vigy::error::Error;
use vigy::runtime::backoff_for;
use vigy::schedule::{FixedSchedule, Schedule, ScheduleSpec};
use vigy::{Labels, TickInterval, Timestamp, Vigy, VigyId, VigyRunId};

fn ts(t: SystemTime) -> Timestamp {
    Timestamp { unix_nanos: t.duration_since(UNIX_EPOCH).unwrap().as_nanos() as i128 }
}

#[test]
fn backoff_curve() {
    assert_eq!(Duration::from_secs(backoff_for(1)), Duration::from_secs(1));
    assert_eq!(Duration::from_secs(backoff_for(2)), Duration::from_secs(2));
    assert_eq!(Duration::from_secs(backoff_for(3)), Duration::from_secs(4));
    assert_eq!(Duration::from_secs(backoff_for(4)), Duration::from_secs(8));
    assert_eq!(Duration::from_secs(backoff_for(5)), Duration::from_secs(16));
    assert_eq!(Duration::from_secs(backoff_for(6)), Duration::from_secs(30));
    assert_eq!(Duration::from_secs(backoff_for(100)), Duration::from_secs(30));
}

#[test]
fn vigy_id_is_deterministic() {
    let a = VigyId::from_name_and_program("sync-tear", "(defvigy ...)");
    let b = VigyId::from_name_and_program("sync-tear", "(defvigy ...)");
    assert_eq!(a, b);
}

#[test]
fn vigy_id_changes_when_program_changes() {
    let a = VigyId::from_name_and_program("sync-tear", "(defvigy a)");
    let b = VigyId::from_name_and_program("sync-tear", "(defvigy b)");
    assert_ne!(a, b);
}

#[test]
fn vigy_id_is_16_hex_chars() {
    let id = VigyId::from_name_and_program("x", "y");
    assert_eq!(id.as_str().len(), 16);
    assert!(id.as_str().chars().all(|c| c.is_ascii_hexdigit()));
}

#[test]
fn run_id_is_uuidv7() {
    let r = VigyRunId::new();
    assert_eq!(r.as_str().len(), 36);
}

#[test]
fn insert_validates_key() {
    let mut l = Labels::new();
    assert!(l.insert("host", "mado").is_ok());
    assert!(l.insert("scope.io/v1", "tear-sync").is_ok());
    assert!(l.insert("", "x").is_err());
    assert!(l.insert("bad key", "x").is_err());
}

#[test]
fn selector_matches_and_clauses() {
    let mut l = Labels::new();
    l.insert("host", "mado").unwrap();
    l.insert("scope", "tear-sync").unwrap();
    assert!(l.matches_selector("host=mado").unwrap());
    assert!(l.matches_selector("host=mado,scope=tear-sync").unwrap());
    assert!(!l.matches_selector("host=tear").unwrap());
    assert!(!l.matches_selector("missing=x").unwrap());
}

#[test]
fn selector_rejects_malformed() {
    let l = Labels::new();
    assert!(l.matches_selector("no-equals").is_err());
}

#[test]
fn cron_and_adaptive_build_returns_unimplemented() {
    assert!(matches!(
        ScheduleSpec::Cron { expr: "* * * * *".into() }.build(),
        Err(Error::ScheduleNotYetImplemented { .. })
    ));
    assert!(matches!(
        ScheduleSpec::Adaptive { min_ms: 100, max_ms: 10_000, hint_key: "x".into() }.build(),
        Err(Error::ScheduleNotYetImplemented { .. })
    ));
}

#[test]
fn fixed_schedule_fires_immediately_on_first_tick() {
    let s = FixedSchedule::new(500).unwrap();
    let now = ts(SystemTime::now());
    assert_eq!(s.next_tick(now, None), now);
}

#[test]
fn fixed_schedule_drifts_from_previous_tick() {
    let s = FixedSchedule::new(500).unwrap();
    let prev = SystemTime::now();
    let now = prev + Duration::from_millis(100);
    let expected = prev + Duration::from_millis(500);
    assert_eq!(s.next_tick(ts(now), Some(ts(prev))), ts(expected));
}

#[test]
fn fixed_schedule_enforces_minimum_interval() {
    assert!(FixedSchedule::new(99).is_err());
}

#[test]
fn tick_interval_enforces_minimum() {
    assert!(TickInterval::from_millis(99).is_err());
    assert!(TickInterval::from_millis(100).is_ok());
    assert!(TickInterval::from_millis(5000).is_ok());
}

#[test]
fn vigy_id_stable_across_constructions() {
    let v1 = Vigy::new("sync-tear".into(), "(defvigy ...)".into(), TickInterval::default_interval()).unwrap();
    let v2 = Vigy::new("sync-tear".into(), "(defvigy ...)".into(), TickInterval::default_interval()).unwrap();
    assert_eq!(v1.id, v2.id);
}

#[test]
fn empty_program_rejected() {
    let r = Vigy::new("x".into(), "".into(), TickInterval::default_interval());
    assert!(matches!(r, Err(Error::EmptyProgram)));
}
