use nextdb_server::behavior::ActorKind;
use nextdb_server::continuation::{
    ContinuationParse, RuntimeBehaviorContinuationPayload, RuntimeBehaviorContinuationReplyTarget,
    behavior_reply_input, payload_is_behavior_continuation, validate_behavior_continuation_payload,
};
use nextdb_server::json::{JsonNumber, JsonValue};

fn s(v: &str) -> JsonValue {
    JsonValue::String(v.to_string())
}

fn n(v: u64) -> JsonValue {
    JsonValue::Number(JsonNumber::PosInt(v))
}

fn obj(members: Vec<(&str, JsonValue)>) -> JsonValue {
    JsonValue::Object(members.into_iter().map(|(k, v)| (k.to_string(), v)).collect())
}

fn get<'a>(value: &'a JsonValue, key: &str) -> &'a JsonValue {
    match value {
        JsonValue::Object(members) => &members.iter().find(|(k, _)| k == key).unwrap().1,
        _ => panic!("not an object"),
    }
}

fn same(a: &JsonValue, b: &JsonValue) -> bool {
    nextdb_server::json::json_eq(a, b)
}

fn payload(behavior: &str, mutation: &str) -> RuntimeBehaviorContinuationPayload {
    RuntimeBehaviorContinuationPayload {
        payload_type: "behaviorContinuation".to_string(),
        behavior: behavior.to_string(),
        mutation: mutation.to_string(),
        user_id: None,
        client_mutation_id: None,
        input: None,
        read: None,
        context: None,
        reply_to: None,
        call_chain_id: None,
        call_depth: None,
        max_depth: None,
        deadline_ms: None,
        path: None,
    }
}

#[test]
fn behavior_continuation_payload_builds_behavior_request() {
    let mut continuation = payload("matchmaking", "tick");
    continuation.user_id = Some("system".to_string());
    continuation.input = Some(obj(vec![("roomId", s("room-a"))]));
    continuation.call_chain_id = Some("chain-1".to_string());
    continuation.call_depth = Some(1);
    continuation.max_depth = Some(4);
    continuation.deadline_ms = Some(2000);
    continuation.path = Some(vec!["matchmaking.prepare".to_string()]);
    let continuation = RuntimeBehaviorContinuationPayload::from_reminder_payload(
        ContinuationParse::Parsed(continuation),
        1000,
    )
    .ok()
    .expect("parse continuation")
    .expect("continuation payload");
    let request = continuation.into_behavior_request();

    assert_eq!(request.behavior, "matchmaking");
    assert_eq!(request.mutation, "tick");
    assert_eq!(request.user_id.as_deref(), Some("system"));
    assert!(same(get(&request.input, "roomId"), &s("room-a")));
    assert!(same(get(&request.context, "callChainId"), &s("chain-1")));
    assert!(same(get(&request.context, "callDepth"), &n(2)));
    assert!(same(get(&request.context, "maxDepth"), &n(4)));
    assert!(same(get(&request.context, "deadlineMs"), &n(2000)));
    assert!(same(
        get(&request.context, "path"),
        &JsonValue::Array(vec![s("matchmaking.prepare"), s("matchmaking.tick")])
    ));
}

#[test]
fn behavior_continuation_reply_schedules_callback_with_response_input() {
    let mut reply = payload("reply", "done");
    reply.input = Some(obj(vec![("existing", JsonValue::Bool(true))]));
    let mut continuation = payload("worker", "run");
    continuation.user_id = Some("alice".to_string());
    continuation.input = Some(obj(vec![("task", n(1))]));
    continuation.reply_to = Some(RuntimeBehaviorContinuationReplyTarget {
        actor_kind: ActorKind::Room,
        actor_key: "reply-room".to_string(),
        reminder_id: Some("reply-1".to_string()),
        continuation: Box::new(reply),
    });
    continuation.call_chain_id = Some("chain-1".to_string());
    continuation.call_depth = Some(2);
    continuation.max_depth = Some(8);
    continuation.deadline_ms = Some(10_000);
    continuation.path = Some(vec!["root.start".to_string()]);
    let response = obj(vec![
        ("metadata", obj(vec![("behavior", s("worker"))])),
        ("output", obj(vec![("result", obj(vec![("ok", JsonValue::Bool(true))]))])),
    ]);

    let request = continuation
        .reply_schedule_request(response, 100)
        .ok()
        .expect("reply schedule request")
        .expect("reply target");
    assert!(request.kind == ActorKind::Room);
    assert_eq!(request.key, "reply-room");
    assert_eq!(request.reminder_id.as_deref(), Some("reply-1"));
    assert_eq!(request.due_at_ms, Some(100));
    assert_eq!(request.delay_ms, None);

    let payload = request.continuation;
    assert_eq!(payload.payload_type, "behaviorContinuation");
    assert_eq!(payload.behavior, "reply");
    assert_eq!(payload.mutation, "done");
    assert_eq!(payload.call_chain_id.as_deref(), Some("chain-1"));
    assert_eq!(payload.call_depth, Some(3));
    assert_eq!(payload.max_depth, Some(8));
    assert_eq!(payload.deadline_ms, Some(10_000));
    assert_eq!(payload.path, Some(vec!["root.start".to_string(), "worker.run".to_string()]));
    let input = payload.input.unwrap();
    assert!(same(get(&input, "existing"), &JsonValue::Bool(true)));
    let behavior_response = get(&input, "behaviorResponse");
    assert!(same(get(get(behavior_response, "output"), "result"), &obj(vec![("ok", JsonValue::Bool(true))])));
    assert!(same(get(get(behavior_response, "metadata"), "behavior"), &s("worker")));
}

#[test]
fn behavior_continuation_payload_rejects_expired_depth_and_cycles() {
    let mut expired = payload("matchmaking", "tick");
    expired.deadline_ms = Some(999);
    assert!(RuntimeBehaviorContinuationPayload::from_reminder_payload(ContinuationParse::Parsed(expired), 1000).is_err());

    let mut too_deep = payload("matchmaking", "tick");
    too_deep.call_depth = Some(4);
    too_deep.max_depth = Some(4);
    assert!(RuntimeBehaviorContinuationPayload::from_reminder_payload(ContinuationParse::Parsed(too_deep), 1000).is_err());

    let mut cycle = payload("matchmaking", "tick");
    cycle.path = Some(vec!["matchmaking.tick".to_string()]);
    let err = RuntimeBehaviorContinuationPayload::from_reminder_payload(ContinuationParse::Parsed(cycle), 1000)
        .err()
        .unwrap();
    assert_eq!(err.message, "behavior continuation cycle detected");
}

#[test]
fn continuation_payloads_need_a_behavior_and_the_continuation_type() {
    let blank = payload(" ", "tick");
    let err = RuntimeBehaviorContinuationPayload::from_reminder_payload(ContinuationParse::Parsed(blank), 0).err().unwrap();
    assert_eq!(err.message, "behavior continuation behavior is required");
    let mut other = payload("a", "b");
    other.payload_type = "other".to_string();
    assert!(RuntimeBehaviorContinuationPayload::from_reminder_payload(ContinuationParse::Parsed(other), 0).ok().unwrap().is_none());
    let err = RuntimeBehaviorContinuationPayload::from_reminder_payload(ContinuationParse::Unreadable("bad".to_string()), 0)
        .err()
        .unwrap();
    assert_eq!(err.message, "invalid behavior continuation payload: bad");

    let typed = obj(vec![("behavior", s("a")), ("type", s("behaviorContinuation"))]);
    assert!(payload_is_behavior_continuation(&typed));
    assert!(!payload_is_behavior_continuation(&obj(vec![("type", s("x"))])));
    assert!(!payload_is_behavior_continuation(&s("behaviorContinuation")));
    let err = validate_behavior_continuation_payload(&s("x"), ContinuationParse::NotContinuation, 0).err().unwrap();
    assert_eq!(err.message, "behavior continuation payload type must be behaviorContinuation");
    assert!(validate_behavior_continuation_payload(&typed, ContinuationParse::Parsed(payload("a", "b")), 0).is_ok());
}

#[test]
fn reply_input_wraps_inputs_that_are_not_objects() {
    let resp = s("r");
    let wrapped = behavior_reply_input(Some(n(3)), resp);
    assert!(same(&wrapped, &obj(vec![("behaviorResponse", s("r")), ("input", n(3))])));
    let alone = behavior_reply_input(None, s("r"));
    assert!(same(&alone, &obj(vec![("behaviorResponse", s("r"))])));
    let merged = behavior_reply_input(Some(obj(vec![("z", n(1))])), s("r"));
    assert!(same(&merged, &obj(vec![("behaviorResponse", s("r")), ("z", n(1))])));
}

#[test]
fn context_that_is_not_an_object_is_kept_under_value() {
    let mut continuation = payload("a", "b");
    continuation.context = Some(n(5));
    let request = continuation.into_behavior_request();
    assert!(same(get(&request.context, "value"), &n(5)));
    assert!(same(get(&request.context, "callChainId"), &JsonValue::Null));
    assert!(same(get(&request.context, "callDepth"), &n(1)));
    assert!(same(get(&request.context, "maxDepth"), &n(32)));
    assert!(matches!(request.input, JsonValue::Object(ref m) if m.is_empty()));
}
