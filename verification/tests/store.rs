use vigy::kv::KvMap;
use vigy::store::InMemoryStore;
use vigy::{ReconcileAction, ResultStatus, TickInterval, Timestamp, Vigy, VigyRun};

fn vigy(name: &str, program: &str) -> Vigy {
    Vigy::new(name.to_string(), program.to_string(), TickInterval::default_interval()).unwrap()
}

#[test]
fn round_trips_a_vigy() {
    let mut s = InMemoryStore::new();
    let v = vigy("t", "(vigy-noop)");
    s.upsert_vigy(&v).unwrap();
    let got = s.get_vigy(&v.id).unwrap();
    assert_eq!(got.id, v.id);
}

#[test]
fn kv_round_trips() {
    let mut s = InMemoryStore::new();
    let v = vigy("t", "(vigy-noop)");
    s.upsert_vigy(&v).unwrap();
    let mut dirty = KvMap::new();
    dirty.insert("k".into(), serde_json::Value::from(42));
    s.save_kv(&v.id, &dirty, &Vec::new()).unwrap();
    let loaded = s.load_kv(&v.id).unwrap();
    assert_eq!(loaded.get("k").and_then(|v| v.as_i64()), Some(42));
}

#[test]
fn inmemory_label_selector_filters() {
    let mut s = InMemoryStore::new();
    let mut a = vigy("a", "(vigy-noop)");
    a.labels.insert("host", "mado").unwrap();
    let mut b = vigy("b", "(vigy-noop)");
    b.labels.insert("host", "tear").unwrap();
    s.upsert_vigy(&a).unwrap();
    s.upsert_vigy(&b).unwrap();
    let mado_only = s.list_vigies(Some("host=mado")).unwrap();
    assert_eq!(mado_only.len(), 1);
    assert_eq!(mado_only[0].name, "a");
}

#[test]
fn upsert_is_idempotent_in_memory() {
    let mut s = InMemoryStore::new();
    let v = vigy("a", "(defvigy a)");
    s.upsert_vigy(&v).unwrap();
    s.upsert_vigy(&v).unwrap();
    assert_eq!(s.list_vigies(None).unwrap().len(), 1);
}

#[test]
fn get_of_missing_vigy_is_not_found() {
    let s = InMemoryStore::new();
    let v = vigy("a", "(defvigy a)");
    assert!(matches!(s.get_vigy(&v.id), Err(vigy::store::StoreError::NotFound { kind: "vigy", .. })));
}

#[test]
fn delete_then_get_is_not_found() {
    let mut s = InMemoryStore::new();
    let v = vigy("a", "(defvigy a)");
    s.upsert_vigy(&v).unwrap();
    assert!(s.delete_vigy(&v.id).unwrap());
    assert!(!s.delete_vigy(&v.id).unwrap());
    assert!(s.get_vigy(&v.id).is_err());
}

#[test]
fn set_enabled_toggles_the_flag() {
    let mut s = InMemoryStore::new();
    let v = vigy("a", "(defvigy a)");
    s.upsert_vigy(&v).unwrap();
    s.set_enabled(&v.id, false).unwrap();
    assert!(!s.get_vigy(&v.id).unwrap().enabled);
    s.set_enabled(&v.id, true).unwrap();
    assert!(s.get_vigy(&v.id).unwrap().enabled);
}

#[test]
fn malformed_selector_is_a_store_error() {
    let mut s = InMemoryStore::new();
    s.upsert_vigy(&vigy("a", "(defvigy a)")).unwrap();
    assert!(matches!(s.list_vigies(Some("no-equals")), Err(vigy::store::StoreError::Types(_))));
}

fn run_at(v: &Vigy, nanos: i128) -> VigyRun {
    let mut r = VigyRun::started(v.id.clone());
    r.started_at = Timestamp { unix_nanos: nanos };
    r
}

#[test]
fn recent_runs_are_newest_first_and_limited() {
    let mut s = InMemoryStore::new();
    let a = vigy("a", "(defvigy a)");
    let b = vigy("b", "(defvigy b)");
    let r1 = run_at(&a, 10);
    let r2 = run_at(&a, 30);
    let r3 = run_at(&b, 40);
    let r4 = run_at(&a, 20);
    for r in [&r1, &r2, &r3, &r4] {
        s.insert_run(r).unwrap();
    }
    let got = s.recent_runs(&a.id, 2).unwrap();
    assert_eq!(got.len(), 2);
    assert_eq!(got[0].id, r2.id);
    assert_eq!(got[1].id, r4.id);
    let all = s.recent_runs(&a.id, 10).unwrap();
    assert_eq!(all.iter().map(|r| r.started_at.unix_nanos).collect::<Vec<_>>(), vec![30, 20, 10]);
}

#[test]
fn recent_runs_keep_recording_order_on_ties() {
    let mut s = InMemoryStore::new();
    let a = vigy("a", "(defvigy a)");
    let r1 = run_at(&a, 5);
    let r2 = run_at(&a, 5);
    s.insert_run(&r1).unwrap();
    s.insert_run(&r2).unwrap();
    let got = s.recent_runs(&a.id, 5).unwrap();
    assert_eq!(got[0].id, r1.id);
    assert_eq!(got[1].id, r2.id);
}

#[test]
fn kv_save_writes_then_deletes() {
    let mut s = InMemoryStore::new();
    let a = vigy("a", "(defvigy a)");
    let mut dirty = KvMap::new();
    dirty.insert("x".into(), serde_json::Value::from(1));
    dirty.insert("y".into(), serde_json::Value::from(2));
    s.save_kv(&a.id, &dirty, &vec!["y".to_string()]).unwrap();
    let kv = s.load_kv(&a.id).unwrap();
    assert_eq!(kv.get("x"), Some(&serde_json::Value::from(1)));
    assert_eq!(kv.get("y"), None);
    let b = vigy("b", "(defvigy b)");
    assert!(s.load_kv(&b.id).unwrap().get("x").is_none());
}

#[test]
fn noop_action_already_succeeded() {
    let a = ReconcileAction::noop();
    assert_eq!(a.result, Some(ResultStatus::Success));
}

