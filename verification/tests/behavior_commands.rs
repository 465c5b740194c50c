use nextdb_server::behavior::{
    ActorKind, BehaviorAbiEncoding, BehaviorCommand, BehaviorCommandCapability, BehaviorHostHttpScopes,
    BehaviorManifest,
};
use nextdb_server::json::JsonValue;
use nextdb_server::manifest::{validate_command_capabilities, validate_host_http_scopes_for_commands};
use nextdb_server::predicate_fields::value_at_field_path;

fn object(members: Vec<(&str, JsonValue)>) -> JsonValue {
    let mut members: Vec<(String, JsonValue)> =
        members.into_iter().map(|(k, v)| (k.to_string(), v)).collect();
    members.sort_by(|a, b| a.0.cmp(&b.0));
    JsonValue::Object(members)
}

fn text(s: &str) -> JsonValue {
    JsonValue::String(s.to_string())
}

#[test]
fn schedule_actor_reminder_command_decodes_with_capability() {
    let command = BehaviorCommand::ScheduleActorReminder {
        kind: ActorKind::Scope,
        key: "table:rooms/bucket:00".to_string(),
        reminder_id: Some("continue-1".to_string()),
        due_at_ms: None,
        delay_ms: Some(25),
        payload: Some(object(vec![("mutation", text("continue")), ("callChainId", text("chain-1"))])),
    };

    assert_eq!(command.capability(), BehaviorCommandCapability::ScheduleActorReminder);
    match command {
        BehaviorCommand::ScheduleActorReminder { kind, key, reminder_id, due_at_ms, delay_ms, payload } => {
            assert_eq!(kind, ActorKind::Scope);
            assert_eq!(key, "table:rooms/bucket:00");
            assert_eq!(reminder_id.as_deref(), Some("continue-1"));
            assert_eq!(due_at_ms, None);
            assert_eq!(delay_ms, Some(25));
            let chain = payload.as_ref().and_then(|value| value_at_field_path(value, "callChainId"));
            assert!(matches!(chain, Some(JsonValue::String(s)) if s == "chain-1"));
        }
        _ => panic!("unexpected command"),
    }
}

fn manifest(prefixes: Option<Vec<&str>>) -> BehaviorManifest {
    BehaviorManifest {
        name: "jobs".to_string(),
        version: "1".to_string(),
        module_file: "jobs.wasm".to_string(),
        abi_encoding: BehaviorAbiEncoding::Json,
        mutations: vec!["run".to_string()],
        inputs: vec![],
        reads: None,
        record_scopes: None,
        object_scopes: None,
        realtime_scopes: None,
        connection_scopes: None,
        user_scopes: None,
        event_scopes: None,
        host_http_scopes: prefixes.map(|p| BehaviorHostHttpScopes {
            allow_url_prefixes: p.into_iter().map(|s| s.to_string()).collect(),
        }),
        commands: vec![BehaviorCommandCapability::RequestHostHttp],
        max_fuel: None,
    }
}

#[test]
fn request_host_http_command_decodes_with_capability_and_scope() {
    let command = BehaviorCommand::RequestHostHttp {
        request_id: Some("http-1".to_string()),
        method: "POST".to_string(),
        url: "https://api.example.test/v1/jobs".to_string(),
        headers: vec![("authorization".to_string(), "Bearer test".to_string())],
        body: Some(object(vec![("job", text("compact"))])),
        body_base64: None,
        timeout_ms: Some(1000),
        actor_kind: ActorKind::Scope,
        actor_key: "table:jobs/bucket:00".to_string(),
        reminder_id: Some("http-1-done".to_string()),
        continuation: object(vec![
            ("type", text("behaviorContinuation")),
            ("behavior", text("jobs")),
            ("mutation", text("onHttpResult")),
        ]),
    };

    assert_eq!(command.capability(), BehaviorCommandCapability::RequestHostHttp);
    let commands = vec![command];
    let allowed = manifest(Some(vec!["https://api.example.test/v1/"]));
    assert!(validate_command_capabilities(&allowed, &commands).is_ok());
    assert!(validate_host_http_scopes_for_commands(&allowed, &commands).is_ok());

    let denied = manifest(Some(vec!["https://other.example.test/"]));
    let error = validate_host_http_scopes_for_commands(&denied, &commands).unwrap_err();
    assert!(error.message.contains("not allowed to request host HTTP"));

    let missing = manifest(None);
    let error = validate_host_http_scopes_for_commands(&missing, &commands).unwrap_err();
    assert!(error.message.contains("without hostHttpScopes"));
}
