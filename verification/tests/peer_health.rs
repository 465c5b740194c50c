use nextdb_server::json::{JsonNumber, JsonValue};
use nextdb_server::topology::{PeerHealthStatus, peer_health_endpoint, peer_health_error, peer_health_from_body};

fn body(ok: Option<bool>, lsn: Option<u64>) -> JsonValue {
    let mut members: Vec<(String, JsonValue)> = Vec::new();
    members.push(("acceptingWrites".to_string(), JsonValue::Bool(true)));
    if let Some(n) = lsn {
        members.push(("currentLsn".to_string(), JsonValue::Number(JsonNumber::PosInt(n))));
    }
    if let Some(b) = ok {
        members.push(("ok".to_string(), JsonValue::Bool(b)));
    }
    JsonValue::Object(members)
}

#[test]
fn healthy_peers_record_when_they_were_last_ok() {
    assert_eq!(peer_health_endpoint("http://n2:8080//"), "http://n2:8080/v1/health");
    let p = peer_health_from_body("n2", "http://n2", 200, &body(Some(true), Some(40)), 7, 1000, &vec![]);
    assert!(p.ok);
    assert_eq!((p.current_lsn, p.last_seen_ok_lsn, p.last_seen_ok_at_ms), (Some(40), Some(40), Some(1000)));
    assert_eq!((p.accepting_writes, p.latency_ms, p.error.clone()), (Some(true), Some(7), None));

    let previous: Vec<PeerHealthStatus> = vec![p];
    let q = peer_health_from_body("n2", "http://n2", 200, &body(Some(false), Some(55)), 9, 2000, &previous);
    assert!(!q.ok);
    assert_eq!((q.current_lsn, q.last_seen_ok_lsn, q.last_seen_ok_at_ms), (Some(55), Some(40), Some(1000)));
    assert_eq!(q.error, Some("peer health returned ok=false".to_string()));
    let r = peer_health_from_body("n2", "http://n2", 200, &body(None, None), 9, 3000, &previous);
    assert!(!r.ok);
    let e = peer_health_error("n2", "http://n2", None, 4000, &previous, "health request timed out".to_string());
    assert_eq!((e.last_seen_ok_lsn, e.last_seen_ok_at_ms), (Some(40), Some(1000)));
}
