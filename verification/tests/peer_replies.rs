use nextdb_server::api_error::{ApiError, ApiErrorKind};
use nextdb_server::json::{JsonNumber, JsonValue};
use nextdb_server::schema_proposals::{
    SchemaPeerPreflightResult, schema_peer_preflight_report, schema_preflight_http_result,
    schema_preflight_targets_for_shard,
};
use nextdb_server::topology::{PeerReply, topology_http_result};

fn s(v: &str) -> String {
    v.to_string()
}

fn err<T>(r: Result<T, ApiError>) -> ApiError {
    match r {
        Err(e) => e,
        Ok(_) => panic!("expected an error"),
    }
}

#[test]
fn a_peer_that_answers_with_success_applied_the_change() {
    let r = topology_http_result(s("n2"), s("http://n2/v1/cluster"), PeerReply::Answered { status: 204, body: s("") }, "commit");
    assert!(r.applied);
    assert_eq!(r.status, Some(204));
    assert_eq!(r.error, None);
    let r = topology_http_result(s("n2"), s("http://n2/v1/cluster"), PeerReply::Answered { status: 409, body: s("stale epoch") }, "commit");
    assert!(!r.applied);
    assert_eq!(r.status, Some(409));
    assert_eq!(r.error.as_deref(), Some("stale epoch"));
    let r = topology_http_result(s("n2"), s("http://n2/v1/cluster"), PeerReply::Failed { error: s("connection refused") }, "prepare");
    assert!(!r.applied);
    assert_eq!(r.status, None);
    assert_eq!(r.error.as_deref(), Some("prepare failed: connection refused"));
    assert_eq!(r.node_id, "n2");
    assert_eq!(r.url, "http://n2/v1/cluster");
}

#[test]
fn a_preflight_reply_is_ok_only_on_success() {
    let r = schema_preflight_http_result(Some(s("n3")), s("http://n3/x"), PeerReply::Answered { status: 200, body: s("{}") });
    assert!(r.ok);
    assert_eq!(r.error, None);
    let r = schema_preflight_http_result(None, s("http://n3/x"), PeerReply::Answered { status: 500, body: s("boom") });
    assert!(!r.ok);
    assert_eq!(r.error.as_deref(), Some("boom"));
    let r = schema_preflight_http_result(None, s("http://n3/x"), PeerReply::Failed { error: s("timeout") });
    assert_eq!(r.error.as_deref(), Some("preflight failed: timeout"));
}

#[test]
fn preflight_targets_are_the_other_replicas_with_urls() {
    let nodes = vec![(s("n1"), s("http://n1")), (s("n2"), s("http://n2"))];
    let replicas = vec![s("n1"), s("n2"), s("n9")];
    let t = schema_preflight_targets_for_shard(None, &replicas, "n1", &nodes);
    assert_eq!(t, vec![(Some(s("n2")), s("http://n2"))]);
    let t = schema_preflight_targets_for_shard(Some(vec![s("http://a"), s("http://b")]), &replicas, "n1", &nodes);
    assert_eq!(t, vec![(None, s("http://a")), (None, s("http://b"))]);
}

#[test]
fn a_preflight_needs_its_acks() {
    let result = |ok: bool| SchemaPeerPreflightResult { node_id: None, url: s("http://p"), ok, status: Some(200), error: None };
    let rep = match schema_peer_preflight_report(1, vec![result(false), result(true)]) {
        Ok(rep) => rep,
        Err(_) => panic!("expected a report"),
    };
    assert_eq!(rep.acked, 1);
    assert_eq!(rep.required_acks, 1);
    assert_eq!(rep.replicas.len(), 2);
    let e = err(schema_peer_preflight_report(2, vec![result(false), result(true)]));
    assert_eq!(e.kind, ApiErrorKind::Conflict);
    assert_eq!(e.message, "schema peer preflight requires 2 acks, got 1");
    assert_eq!(
        render(&e.details.unwrap()),
        "{\"peerPreflight\":{\"acked\":1,\"replicas\":[\
{\"error\":null,\"nodeId\":null,\"ok\":false,\"status\":200,\"url\":\"http://p\"},\
{\"error\":null,\"nodeId\":null,\"ok\":true,\"status\":200,\"url\":\"http://p\"}],\"requiredAcks\":2}}"
    );
}

fn render(v: &JsonValue) -> String {
    match v {
        JsonValue::Null => "null".to_string(),
        JsonValue::Bool(b) => b.to_string(),
        JsonValue::Number(JsonNumber::PosInt(n)) => n.to_string(),
        JsonValue::Number(JsonNumber::NegInt(n)) => n.to_string(),
        JsonValue::Number(JsonNumber::Float(f)) => f.clone(),
        JsonValue::String(s) => format!("\"{s}\""),
        JsonValue::Array(a) => format!("[{}]", a.iter().map(render).collect::<Vec<_>>().join(",")),
        JsonValue::Object(m) => format!(
            "{{{}}}",
            m.iter().map(|(k, v)| format!("\"{k}\":{}", render(v))).collect::<Vec<_>>().join(",")
        ),
    }
}
