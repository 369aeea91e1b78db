use vigy::api::{
    add_label_args, register_from_args, LabelArgError, ListQuery, McpError, McpTool, Query,
    RegisterPayload,
};
use vigy::error::Error;
use vigy::eval::{emit_arity_ok, parse_kind, LogLevel, VigyHost};
use vigy::kv::KvMap;
use vigy::row::{run_from_row, vigy_from_row};
use vigy::runtime::{
    finish_tick, prepare_tick, LoopAction, TickLoop, TickObservation, KV_PREV_TICK_MS, KV_TICK_COUNT,
};
use vigy::schedule::{FixedSchedule, Schedule, ScheduleSpec};
use vigy::store::{select_by_labels, InMemoryStore, StoreError};
use vigy::{
    Labels, ReconcileAction, ReconcileKind, ResultStatus, TickInterval, Timestamp, Vigy, VigyId,
    VigyRun, VigyRunId, VigyState,
};

fn obj(k: &str, n: i64) -> serde_json::Value {
    let mut m = serde_json::Map::new();
    m.insert(k.to_string(), serde_json::Value::from(n));
    serde_json::Value::Object(m)
}

fn labelled(name: &str, pairs: &[(&str, &str)]) -> Vigy {
    let mut v = Vigy::new(name.to_string(), "(noop)".to_string(), TickInterval::default_interval()).unwrap();
    for (k, val) in pairs {
        v.labels.insert(k, val).unwrap();
    }
    v
}

#[test]
fn selector_is_the_conjunction_of_its_clauses() {
    let mut l = Labels::new();
    l.insert("host", "mado").unwrap();
    l.insert("scope", "tear").unwrap();
    let both = l.matches_selector("host=mado,scope=tear").unwrap();
    let a = l.matches_selector("host=mado").unwrap();
    let b = l.matches_selector("scope=tear").unwrap();
    assert_eq!(both, a && b);
    let miss = l.matches_selector("host=mado,scope=other").unwrap();
    assert!(!miss);
    assert!(l.matches_selector(" host=mado , scope=tear ").unwrap());
    assert!(!l.matches_selector("host = mado").unwrap());
}

#[test]
fn empty_selector_matches_everything() {
    let l = Labels::new();
    assert!(l.matches_selector("").unwrap());
    assert!(l.matches_selector(" , ,").unwrap());
}

#[test]
fn malformed_selector_error_names_the_selector() {
    let l = Labels::new();
    match l.matches_selector("host") {
        Err(Error::InvalidLabelSelector { selector, reason }) => {
            assert_eq!(selector, "host");
            assert_eq!(reason, "expected key=value");
        }
        other => panic!("unexpected {other:?}"),
    }
}

#[test]
fn label_key_errors_carry_a_reason() {
    let mut l = Labels::new();
    assert!(matches!(l.insert("", "x"), Err(Error::InvalidLabelKey { .. })));
    assert!(matches!(l.insert("a b", "x"), Err(Error::InvalidLabelKey { .. })));
    assert_eq!(l.len(), 0);
    l.insert("k", "v1").unwrap();
    l.insert("k", "v2").unwrap();
    assert_eq!(l.get("k"), Some("v2"));
    assert_eq!(l.len(), 1);
}

#[test]
fn labels_iterate_in_key_order() {
    let mut l = Labels::new();
    l.insert("zeta", "1").unwrap();
    l.insert("alpha", "2").unwrap();
    l.insert("mid", "3").unwrap();
    let keys: Vec<String> = l.iter().into_iter().map(|(k, _)| k).collect();
    assert_eq!(keys, vec!["alpha", "mid", "zeta"]);
}

#[test]
fn labels_from_pairs_last_wins() {
    let pairs = vec![("a".to_string(), "1".to_string()), ("a".to_string(), "2".to_string())];
    let l = Labels::from_pairs(&pairs);
    assert_eq!(l.get("a"), Some("2"));
    assert_eq!(l.len(), 1);
}

#[test]
fn status_names_round_trip() {
    for s in [ResultStatus::Success, ResultStatus::Failed, ResultStatus::Skipped] {
        assert_eq!(ResultStatus::from_stored(s.as_str()), s);
    }
    assert_eq!(ResultStatus::Success.as_str(), "ok");
    assert_eq!(ResultStatus::from_stored("weird"), ResultStatus::Skipped);
}

#[test]
fn vigy_id_parse_accepts_hex_and_rejects_the_rest() {
    assert!(VigyId::parse("0123456789abcdef".to_string()).is_ok());
    assert!(VigyId::parse("0123456789ABCDEF".to_string()).is_ok());
    match VigyId::parse("xyz".to_string()) {
        Err(Error::InvalidId { id, reason }) => {
            assert_eq!(id, "xyz");
            assert_eq!(reason, "must be 16 lowercase hex chars");
        }
        other => panic!("unexpected {other:?}"),
    }
    assert!(VigyId::parse("0123456789abcdeg".to_string()).is_err());
}

#[test]
fn generated_vigy_id_parses() {
    let id = VigyId::from_name_and_program("sync", "(defvigy x)");
    let back = VigyId::parse(id.as_str().to_string()).unwrap();
    assert_eq!(back, id);
}

#[test]
fn run_id_parse() {
    let r = VigyRunId::new();
    assert!(VigyRunId::parse(r.as_str().to_string()).is_ok());
    assert!(matches!(
        VigyRunId::parse("nope".to_string()),
        Err(Error::InvalidId { reason: "must be a uuid", .. })
    ));
}

#[test]
fn register_payload_checks_interval_then_program() {
    let p = RegisterPayload {
        name: "n".into(),
        program: "  ".into(),
        tick_interval_ms: 50,
        enabled: true,
        labels: Labels::new(),
    };
    assert_eq!(p.into_vigy().unwrap_err(), Error::InvalidTickInterval { ms: 50 });
    let p = RegisterPayload {
        name: "n".into(),
        program: " \n\t".into(),
        tick_interval_ms: 500,
        enabled: true,
        labels: Labels::new(),
    };
    assert_eq!(p.into_vigy().unwrap_err(), Error::EmptyProgram);
    let mut labels = Labels::new();
    labels.insert("host", "mado").unwrap();
    let p = RegisterPayload {
        name: "n".into(),
        program: "(noop)".into(),
        tick_interval_ms: 500,
        enabled: false,
        labels,
    };
    let v = p.into_vigy().unwrap();
    assert_eq!(v.id, VigyId::from_name_and_program("n", "(noop)"));
    assert_eq!(v.tick_interval.as_millis(), 500);
    assert!(!v.enabled);
    assert_eq!(v.labels.get("host"), Some("mado"));
}

#[test]
fn register_args_report_missing_and_bad_values() {
    let r = register_from_args(None, Some("p".into()), None, None, vec![]);
    assert!(matches!(r, Err(McpError::MissingArgument { name: "name" })));
    let r = register_from_args(Some("n".into()), None, None, None, vec![]);
    assert!(matches!(r, Err(McpError::MissingArgument { name: "program" })));
    let r = register_from_args(Some("n".into()), Some("(p)".into()), Some(10), None, vec![]);
    assert!(matches!(r, Err(McpError::Types(Error::InvalidTickInterval { ms: 10 }))));
    let r = register_from_args(Some("n".into()), Some("".into()), None, None, vec![]);
    assert!(matches!(r, Err(McpError::Types(Error::EmptyProgram))));
    let r = register_from_args(
        Some("n".into()),
        Some("(p)".into()),
        None,
        None,
        vec![("bad key".into(), Some("x".into()))],
    );
    assert!(matches!(r, Err(McpError::Types(Error::InvalidLabelKey { .. }))));
}

#[test]
fn register_args_defaults_and_labels() {
    let v = register_from_args(
        Some("n".into()),
        Some("(p)".into()),
        None,
        Some(false),
        vec![("host".into(), Some("mado".into())), ("skip".into(), None)],
    )
    .unwrap();
    assert_eq!(v.tick_interval.as_millis(), 1000);
    assert!(!v.enabled);
    assert_eq!(v.labels.get("host"), Some("mado"));
    assert_eq!(v.labels.get("skip"), None);
    let v = register_from_args(Some("n".into()), Some("(p)".into()), Some(250), None, vec![]).unwrap();
    assert!(v.enabled);
    assert_eq!(v.tick_interval.as_millis(), 250);
}

#[test]
fn label_args_split_at_the_first_equals() {
    let mut l = Labels::new();
    add_label_args(&mut l, &vec!["host=mado".to_string(), "expr=a=b".to_string()]).unwrap();
    assert_eq!(l.get("host"), Some("mado"));
    assert_eq!(l.get("expr"), Some("a=b"));
    let mut l = Labels::new();
    match add_label_args(&mut l, &vec!["ok=1".to_string(), "novalue".to_string()]) {
        Err(LabelArgError::NotKeyValue { arg }) => assert_eq!(arg, "novalue"),
        other => panic!("unexpected {other:?}"),
    }
    assert_eq!(l.get("ok"), Some("1"));
    let mut l = Labels::new();
    assert!(matches!(
        add_label_args(&mut l, &vec!["bad key=1".to_string()]),
        Err(LabelArgError::Types(Error::InvalidLabelKey { .. }))
    ));
}

#[test]
fn mcp_tool_names() {
    assert_eq!(McpTool::parse("vigy_register"), Some(McpTool::Register));
    assert_eq!(McpTool::parse("vigy_tick"), Some(McpTool::Tick));
    assert_eq!(McpTool::parse("vigy_delete"), Some(McpTool::Delete));
    assert_eq!(McpTool::parse("vigy_nope"), None);
}

#[test]
fn listing_limits() {
    let all = || vec![labelled("a", &[]), labelled("b", &[]), labelled("c", &[])];
    assert_eq!(Query::vigies_page(all(), Some(2)).len(), 2);
    assert_eq!(Query::vigies_page(all(), Some(-1)).len(), 3);
    assert_eq!(Query::vigies_page(all(), Some(10)).len(), 3);
    assert_eq!(Query::vigies_page(all(), None).len(), 3);
    let q = ListQuery { label_selector: None, limit: Some(1) };
    let page = q.apply_limit(all());
    assert_eq!(page.len(), 1);
    assert_eq!(page[0].name, "a");
}

#[test]
fn select_by_labels_keeps_order() {
    let all = vec![
        labelled("a", &[("env", "prod")]),
        labelled("b", &[("env", "dev")]),
        labelled("c", &[("env", "prod")]),
    ];
    let chosen = select_by_labels(&all, "env=prod").unwrap();
    let names: Vec<&str> = chosen.iter().map(|v| v.name.as_str()).collect();
    assert_eq!(names, vec!["a", "c"]);
    assert!(matches!(
        select_by_labels(&all, "env"),
        Err(StoreError::Types(Error::InvalidLabelSelector { .. }))
    ));
}

#[test]
fn tick_loop_backs_off_and_resets() {
    let mut l = TickLoop::new();
    assert_eq!(l.step(TickObservation::Ran { failed: true }), LoopAction::BackOff { secs: 1 });
    assert_eq!(l.step(TickObservation::Ran { failed: true }), LoopAction::BackOff { secs: 2 });
    assert_eq!(l.step(TickObservation::Ran { failed: true }), LoopAction::BackOff { secs: 4 });
    assert_eq!(l.failures, 3);
    assert_eq!(l.step(TickObservation::Ran { failed: false }), LoopAction::Continue);
    assert_eq!(l.failures, 0);
    assert_eq!(l.step(TickObservation::Disabled), LoopAction::Exit);
    assert_eq!(l.step(TickObservation::Missing), LoopAction::Exit);
}

#[test]
fn tick_count_persists_across_ticks() {
    let mut store = InMemoryStore::new();
    let v = labelled("counter", &[]);
    store.upsert_vigy(&v).unwrap();

    let host = prepare_tick(store.load_kv(&v.id).unwrap(), 1_000).unwrap();
    assert_eq!(host.tick_count, 1);
    assert_eq!(host.previous_tick_ms, None);
    let (run, save) = finish_tick(VigyRun::started(v.id.clone()), Ok(host));
    assert_eq!(run.result, ResultStatus::Success);
    let (dirty, deleted) = save.unwrap();
    store.save_kv(&v.id, &dirty, &deleted).unwrap();

    let kv = store.load_kv(&v.id).unwrap();
    assert_eq!(kv.get(KV_TICK_COUNT), Some(&serde_json::Value::from(1)));
    let host = prepare_tick(kv, 2_000).unwrap();
    assert_eq!(host.tick_count, 2);
    assert_eq!(host.previous_tick_ms, Some(1_000));
    assert_eq!(host.kv.get(KV_PREV_TICK_MS), Some(&serde_json::Value::from(2_000)));
}

#[test]
fn tick_count_at_the_limit_is_refused() {
    let mut kv = KvMap::new();
    kv.insert(KV_TICK_COUNT.to_string(), serde_json::Value::from(i64::MAX));
    assert!(prepare_tick(kv, 0).is_none());
}

#[test]
fn failed_tick_records_the_error_and_saves_nothing() {
    let id = VigyId::from_name_and_program("f", "(boom)");
    let (run, save) = finish_tick(VigyRun::started(id.clone()), Err("eval: boom".to_string()));
    assert_eq!(run.result, ResultStatus::Failed);
    assert_eq!(run.error.as_deref(), Some("eval: boom"));
    assert!(run.ended_at.is_some());
    assert!(save.is_none());
    assert_eq!(run.vigy_id, id);
}

#[test]
fn host_records_what_the_program_does() {
    let mut h = VigyHost::new(42);
    assert_eq!(h.tick(), 42);
    h.emit(ReconcileKind::Pull, Some(obj("k", 1)));
    h.noop();
    assert_eq!(h.actions.len(), 2);
    assert_eq!(h.actions[0].kind, ReconcileKind::Pull);
    assert_eq!(h.actions[0].result, None);
    assert_eq!(h.actions[1].kind, ReconcileKind::Noop);
    assert_eq!(h.actions[1].result, None);
    assert_eq!(h.actions[1].payload, None);
    assert!(h.log_message("info", "hello".to_string()));
    assert!(!h.log_message("loud", "nope".to_string()));
    assert_eq!(h.log.len(), 1);
    assert_eq!(h.log[0].level, LogLevel::Info);
    h.kv_set("a".to_string(), serde_json::Value::from(1));
    h.kv_remove("a");
    assert!(h.kv_get("a").is_none());
    assert_eq!(h.kv_deleted, vec!["a".to_string()]);
    assert!(h.kv_dirty.is_empty());
}

#[test]
fn intrinsic_names() {
    assert_eq!(LogLevel::parse("warn"), Some(LogLevel::Warn));
    assert_eq!(LogLevel::parse("WARN"), None);
    assert_eq!(parse_kind("custom"), Some(ReconcileKind::Custom));
    assert_eq!(parse_kind("other"), None);
    assert!(emit_arity_ok(1));
    assert!(emit_arity_ok(2));
    assert!(!emit_arity_ok(0));
    assert!(!emit_arity_ok(3));
}

#[test]
fn kv_map_operations() {
    let mut kv = KvMap::new();
    kv.insert("a".to_string(), serde_json::Value::from("x"));
    kv.insert("b".to_string(), serde_json::Value::from(2));
    kv.insert("a".to_string(), serde_json::Value::from("y"));
    assert_eq!(kv.get("a"), Some(&serde_json::Value::from("y")));
    assert!(kv.contains_key("b"));
    assert!(kv.remove("b"));
    assert!(!kv.remove("b"));
    assert_eq!(kv.entries(), vec![("a".to_string(), serde_json::Value::from("y"))]);
}

#[test]
fn stored_rows_read_back() {
    let id = VigyId::from_name_and_program("n", "(p)");
    let v = vigy_from_row(
        id.as_str().to_string(),
        "n".into(),
        "(p)".into(),
        1500,
        true,
        Ok(Labels::new()),
        "1970-01-01T00:00:01Z",
        "1970-01-01T00:00:02Z",
    )
    .unwrap();
    assert_eq!(v.created_at, Timestamp { unix_nanos: 1_000_000_000 });
    assert_eq!(v.updated_at, Timestamp { unix_nanos: 2_000_000_000 });
    assert_eq!(v.tick_interval.as_millis(), 1500);
    let bad = vigy_from_row(
        id.as_str().to_string(),
        "n".into(),
        "(p)".into(),
        1500,
        true,
        Ok(Labels::new()),
        "yesterday",
        "1970-01-01T00:00:02Z",
    );
    assert!(matches!(bad, Err(StoreError::Serde(_))));
    let slow = vigy_from_row(
        id.as_str().to_string(),
        "n".into(),
        "(p)".into(),
        10,
        true,
        Ok(Labels::new()),
        "1970-01-01T00:00:01Z",
        "1970-01-01T00:00:02Z",
    );
    assert!(matches!(slow, Err(StoreError::Types(Error::InvalidTickInterval { ms: 10 }))));

    let rid = VigyRunId::new();
    let r = run_from_row(
        rid.as_str().to_string(),
        id.as_str().to_string(),
        "1970-01-01T00:00:03Z",
        None,
        "failed",
        Some("boom".into()),
        Ok(vec![ReconcileAction::noop()]),
    )
    .unwrap();
    assert_eq!(r.result, ResultStatus::Failed);
    assert_eq!(r.started_at, Timestamp { unix_nanos: 3_000_000_000 });
    assert!(run_from_row("x".into(), id.as_str().to_string(), "1970-01-01T00:00:03Z", None, "ok", None, Ok(vec![])).is_err());
}

#[test]
fn fixed_schedule_describes_itself() {
    let s = ScheduleSpec::Fixed { interval_ms: 500 }.build().unwrap();
    assert_eq!(s.describe(), "fixed(500ms)");
    assert_eq!(s.interval_ms(), 500);
    assert_eq!(FixedSchedule::new(100).unwrap().describe(), "fixed(100ms)");
    assert!(matches!(
        ScheduleSpec::Fixed { interval_ms: 5 }.build(),
        Err(Error::InvalidTickInterval { ms: 5 })
    ));
    assert_eq!(ScheduleSpec::default_spec(), ScheduleSpec::Fixed { interval_ms: 1000 });
    match (ScheduleSpec::Cron { expr: "* *".into() }).build() {
        Err(Error::ScheduleNotYetImplemented { variant, detail }) => {
            assert_eq!(variant, "cron");
            assert_eq!(detail, "expr \"* *\"");
        }
        other => panic!("unexpected {other:?}"),
    }
}

#[test]
fn timestamps_in_millis() {
    let t = Timestamp { unix_nanos: 1_500_000_000 };
    assert_eq!(t.unix_millis(), 1500);
    assert_eq!(t.plus_millis(500), Timestamp { unix_nanos: 2_000_000_000 });
    assert_eq!(Timestamp { unix_nanos: -1_500_000 }.unix_millis(), -1);
}

#[test]
fn state_from_latest_run() {
    let id = VigyId::from_name_and_program("s", "(p)");
    let s = VigyState::from_latest_run(id.clone(), Some(vec![ReconcileAction::noop()]));
    assert_eq!(s.pending.len(), 1);
    assert!(s.desired.is_none());
    let s = VigyState::from_latest_run(id.clone(), None);
    assert!(s.pending.is_empty());
    assert_eq!(VigyState::empty(id).pending.len(), 0);
}

#[test]
fn action_results() {
    let a = ReconcileAction::push(serde_json::Value::from(1)).with_result(ResultStatus::Failed, Some("x".into()));
    assert_eq!(a.kind, ReconcileKind::Push);
    assert_eq!(a.result, Some(ResultStatus::Failed));
    assert_eq!(a.message.as_deref(), Some("x"));
    assert_eq!(ReconcileAction::custom(serde_json::Value::Null).kind, ReconcileKind::Custom);
    assert_eq!(ReconcileAction::pull(serde_json::Value::from(2)).payload, Some(serde_json::Value::from(2)));
}

#[test]
fn defaults_are_empty() {
    let l = Labels::default();
    assert_eq!(l.len(), 0);
    assert!(l.iter().is_empty());
    assert_eq!(l.get("k"), None);
    assert_eq!(TickInterval::default().as_millis(), 1000);
    let h = VigyHost::default();
    assert_eq!(h.tick_start_ms, 0);
    assert_eq!(h.tick_count, 0);
    assert!(h.actions.is_empty() && h.log.is_empty() && h.kv_dirty.is_empty());
}

#[test]
fn run_id_has_version_seven() {
    let r = VigyRunId::new();
    assert_eq!(r.as_str().chars().nth(14), Some('7'));
    let run = VigyRun::started(VigyId::from_name_and_program("v", "(p)"));
    assert_eq!(run.id.as_str().chars().nth(14), Some('7'));
    assert!(VigyRunId::parse(run.id.as_str().to_string()).is_ok());
}

#[test]
fn successful_tick_keeps_the_run_error_empty() {
    let id = VigyId::from_name_and_program("ok", "(p)");
    let mut host = VigyHost::new(5);
    host.noop();
    let (run, save) = finish_tick(VigyRun::started(id), Ok(host));
    assert_eq!(run.result, ResultStatus::Success);
    assert_eq!(run.error, None);
    assert_eq!(run.actions.len(), 1);
    assert!(save.is_none());
}

#[test]
fn stored_run_reads_back_the_same() {
    let text = |t: Timestamp| {
        time::OffsetDateTime::from_unix_timestamp_nanos(t.unix_nanos).unwrap().format(&time::format_description::well_known::Rfc3339).unwrap()
    };
    let id = VigyId::from_name_and_program("rt", "(p)");
    let (run, _) = finish_tick(VigyRun::started(id), Err("boom".to_string()));
    let back = run_from_row(
        run.id.as_str().to_string(),
        run.vigy_id.as_str().to_string(),
        &text(run.started_at),
        run.ended_at.map(text).as_deref(),
        run.result.as_str(),
        run.error.clone(),
        Ok(run.actions.clone()),
    )
    .unwrap();
    assert_eq!(back.id, run.id);
    assert_eq!(back.vigy_id, run.vigy_id);
    assert_eq!(back.started_at, run.started_at);
    assert_eq!(back.ended_at, run.ended_at);
    assert_eq!(back.result, run.result);
    assert_eq!(back.error, run.error);
    assert_eq!(back.actions.len(), run.actions.len());
}

#[test]
fn stored_row_errors_come_in_field_order() {
    let id = VigyId::from_name_and_program("o", "(p)");
    let bad_both = vigy_from_row(
        "nothex".into(),
        "o".into(),
        "(p)".into(),
        1000,
        true,
        Err("labels broken".into()),
        "never",
        "never",
    );
    assert!(matches!(bad_both, Err(StoreError::Types(Error::InvalidId { .. }))));
    let bad_labels = vigy_from_row(
        id.as_str().to_string(),
        "o".into(),
        "(p)".into(),
        1000,
        true,
        Err("labels broken".into()),
        "never",
        "never",
    );
    match bad_labels {
        Err(StoreError::Serde(m)) => assert_eq!(m, "labels broken"),
        other => panic!("unexpected {other:?}"),
    }
    let rid = VigyRunId::new();
    match run_from_row("x".into(), "y".into(), "never", None, "ok", None, Err("a".into())) {
        Err(StoreError::Types(Error::InvalidId { id, reason })) => {
            assert_eq!(id, "x");
            assert_eq!(reason, "must be a uuid");
        }
        other => panic!("unexpected {other:?}"),
    }
    match run_from_row(rid.as_str().to_string(), "y".into(), "never", None, "ok", None, Err("a".into())) {
        Err(StoreError::Types(Error::InvalidId { id, .. })) => assert_eq!(id, "y"),
        other => panic!("unexpected {other:?}"),
    }
    let started_bad =
        run_from_row(rid.as_str().to_string(), id.as_str().to_string(), "never", None, "ok", None, Err("a".into()));
    assert!(matches!(started_bad, Err(StoreError::Serde(ref m)) if m != "a"));
    let ended_bad = run_from_row(
        rid.as_str().to_string(),
        id.as_str().to_string(),
        "1970-01-01T00:00:03Z",
        Some("never"),
        "ok",
        None,
        Err("a".into()),
    );
    assert!(matches!(ended_bad, Err(StoreError::Serde(ref m)) if m != "a"));
    let actions_bad = run_from_row(
        rid.as_str().to_string(),
        id.as_str().to_string(),
        "1970-01-01T00:00:03Z",
        None,
        "ok",
        None,
        Err("actions broken".into()),
    );
    match actions_bad {
        Err(StoreError::Serde(m)) => assert_eq!(m, "actions broken"),
        other => panic!("unexpected {other:?}"),
    }
}
