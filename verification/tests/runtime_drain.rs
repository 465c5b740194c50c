use nextdb_server::json::{JsonNumber, JsonValue};
use nextdb_server::runtime_drain::{
    RuntimeDrainState, ensure_runtime_accepting_writes, ready_for_restart, restart_plan,
    set_runtime_drain_state,
};

#[test]
fn a_draining_node_refuses_writes_until_undrained() {
    let mut drain = RuntimeDrainState { draining: false, reason: None, updated_at_ms: None };
    assert!(ensure_runtime_accepting_writes(&drain).is_ok());
    let shown = set_runtime_drain_state(&mut drain, true, Some("  upgrade ".to_string()), 10);
    assert_eq!(shown.reason, Some("upgrade".to_string()));
    assert_eq!(
        ensure_runtime_accepting_writes(&drain).unwrap_err().message,
        "node is draining; retry another replica"
    );
    assert_eq!(
        render(&ensure_runtime_accepting_writes(&drain).unwrap_err().details.unwrap()),
        "{\"draining\":true,\"reason\":\"upgrade\",\"updatedAtMs\":10}"
    );
    set_runtime_drain_state(&mut drain, false, Some("  ".to_string()), 11);
    assert_eq!((drain.reason.clone(), drain.updated_at_ms), (None, Some(11)));
    assert!(ensure_runtime_accepting_writes(&drain).is_ok());
}

#[test]
fn a_restart_is_ready_once_writes_finish_and_asked_work_is_done() {
    let plan = restart_plan(None, None, None, None, 5000);
    assert_eq!((plan.reason.as_str(), plan.wait_for_writes_ms, plan.snapshot, plan.compact_wal), ("prepare restart", 5000, true, false));
    assert!(ready_for_restart(&plan, true, true, false));
    assert!(!ready_for_restart(&plan, true, false, false));
    assert!(!ready_for_restart(&plan, false, true, true));
    let plan = restart_plan(Some("signal".to_string()), Some(0), Some(false), Some(true), 5000);
    assert!(ready_for_restart(&plan, true, false, true));
    assert!(!ready_for_restart(&plan, true, false, false));
}

fn render(v: &JsonValue) -> String {
    match v {
        JsonValue::Null => "null".to_string(),
        JsonValue::Bool(b) => b.to_string(),
        JsonValue::Number(JsonNumber::PosInt(n)) => n.to_string(),
        JsonValue::Number(JsonNumber::NegInt(n)) => n.to_string(),
        JsonValue::Number(JsonNumber::Float(f)) => f.clone(),
        JsonValue::String(s) => format!("\"{s}\""),
        JsonValue::Array(a) => format!("[{}]", a.iter().map(render).collect::<Vec<_>>().join(",")),
        JsonValue::Object(m) => format!(
            "{{{}}}",
            m.iter().map(|(k, v)| format!("\"{k}\":{}", render(v))).collect::<Vec<_>>().join(",")
        ),
    }
}
