//! Behavior continuations: a behavior call that a reminder carries, the
//! limits that keep chains of such calls finite (a deadline, a depth and no
//! cycle), the request it becomes, and the reply it schedules.
use vstd::prelude::*;
use crate::api_error::{ApiError, ApiErrorKind};
use crate::behavior::{ActorKind, BehaviorReadPlan};
use crate::json::{
    JsonNumber, JsonNumberView, JsonValue, JsonView, lemma_object_view, members_view, obj_insert,
    object_insert, opt_json_view,
};
use crate::records::string_views;
use crate::text::{chars_eq, chars_of, owned, push_str_chars, string_from_chars};

verus! {

pub const DEFAULT_BEHAVIOR_CONTINUATION_MAX_DEPTH: u32 = 32;

/// A behavior call carried by a reminder's payload.
pub struct RuntimeBehaviorContinuationPayload {
    pub payload_type: String,
    pub behavior: String,
    pub mutation: String,
    pub user_id: Option<String>,
    pub client_mutation_id: Option<String>,
    pub input: Option<JsonValue>,
    pub read: Option<BehaviorReadPlan>,
    pub context: Option<JsonValue>,
    pub reply_to: Option<RuntimeBehaviorContinuationReplyTarget>,
    pub call_chain_id: Option<String>,
    pub call_depth: Option<u32>,
    pub max_depth: Option<u32>,
    pub deadline_ms: Option<u64>,
    pub path: Option<Vec<String>>,
}

/// Where a continuation's result is sent: a reminder of an actor that runs
/// the reply continuation.
pub struct RuntimeBehaviorContinuationReplyTarget {
    pub actor_kind: ActorKind,
    pub actor_key: String,
    pub reminder_id: Option<String>,
    pub continuation: Box<RuntimeBehaviorContinuationPayload>,
}

/// The request that a continuation makes of the behavior runtime.
pub struct BehaviorInvokeRequest {
    pub behavior: String,
    pub mutation: String,
    pub user_id: Option<String>,
    pub client_mutation_id: Option<String>,
    pub input: JsonValue,
    pub read: BehaviorReadPlan,
    pub context: JsonValue,
}

/// `behavior.mutation`: what a continuation calls.
pub open spec fn target_of(p: RuntimeBehaviorContinuationPayload) -> Seq<char> {
    p.behavior@ + seq!['.'] + p.mutation@
}

/// The depth of the call that carries `p`, 0 where none is given.
pub open spec fn depth_of(p: RuntimeBehaviorContinuationPayload) -> u32 {
    match p.call_depth {
        Some(d) => d,
        None => 0,
    }
}

/// The depth limit of a chain, the default where none is given.
pub open spec fn max_depth_of(p: RuntimeBehaviorContinuationPayload) -> u32 {
    match p.max_depth {
        Some(d) => d,
        None => DEFAULT_BEHAVIOR_CONTINUATION_MAX_DEPTH,
    }
}

/// The targets already called in the chain.
pub open spec fn path_of(p: RuntimeBehaviorContinuationPayload) -> Seq<Seq<char>> {
    match p.path {
        Some(v) => string_views(v@),
        None => Seq::empty(),
    }
}

/// Why a continuation may not run at `now_ms`: its deadline passed, the chain
/// reached its depth limit (taken as at least 1), or its target is already on
/// the chain's path.
pub open spec fn limits_error(p: RuntimeBehaviorContinuationPayload, now_ms: u64) -> Option<Seq<char>> {
    if p.deadline_ms is Some && now_ms > p.deadline_ms->Some_0 {
        Some("behavior continuation deadlineMs has expired"@)
    } else if depth_of(p) >= (if max_depth_of(p) < 1 { 1 } else { max_depth_of(p) }) {
        Some("behavior continuation maxDepth exceeded"@)
    } else if path_of(p).contains(target_of(p)) {
        Some("behavior continuation cycle detected"@)
    } else {
        None
    }
}

impl RuntimeBehaviorContinuationPayload {
    /// `behavior.mutation`.
    pub fn target(&self) -> (t: String)
        ensures
            t@ == target_of(*self),
    {
        let mut v = chars_of(self.behavior.as_str());
        v.push('.');
        push_str_chars(&mut v, self.mutation.as_str());
        string_from_chars(v.as_slice())
    }

    /// Checks the continuation's deadline, depth and path.
    pub fn validate_limits(&self, now_ms: u64) -> (r: Result<(), ApiError>)
        ensures
            match r {
                Ok(()) => limits_error(*self, now_ms) is None,
                Err(e) => e.kind == ApiErrorKind::BadRequest && limits_error(*self, now_ms) == Some(e.message@),
            },
    {
        if let Some(deadline_ms) = self.deadline_ms {
            if now_ms > deadline_ms {
                return Err(ApiError::bad_request(owned("behavior continuation deadlineMs has expired")));
            }
        }
        let max_depth = match self.max_depth {
            Some(d) => d,
            None => DEFAULT_BEHAVIOR_CONTINUATION_MAX_DEPTH,
        };
        let max_depth = if max_depth < 1 { 1 } else { max_depth };
        let call_depth = match self.call_depth {
            Some(d) => d,
            None => 0,
        };
        if call_depth >= max_depth {
            return Err(ApiError::bad_request(owned("behavior continuation maxDepth exceeded")));
        }
        let target = self.target();
        match &self.path {
            Some(path) => {
                if crate::records::list_contains(path, target.as_str()) {
                    return Err(ApiError::bad_request(owned("behavior continuation cycle detected")));
                }
            },
            None => {},
        }
        Ok(())
    }
}

/// A JSON number for a non-negative integer.
pub open spec fn num(n: u64) -> JsonView {
    JsonView::Number(JsonNumberView::PosInt(n))
}

/// A JSON string, or null.
pub open spec fn str_or_null(o: Option<Seq<char>>) -> JsonView {
    match o {
        Some(s) => JsonView::String(s),
        None => JsonView::Null,
    }
}

/// A JSON number, or null.
pub open spec fn num_or_null(o: Option<u64>) -> JsonView {
    match o {
        Some(n) => num(n),
        None => JsonView::Null,
    }
}

/// A JSON array of strings.
pub open spec fn strings_json(s: Seq<Seq<char>>) -> JsonView {
    JsonView::Array(s.map_values(|x: Seq<char>| JsonView::String(x)))
}

pub open spec fn opt_seq(o: Option<String>) -> Option<Seq<char>> {
    match o {
        Some(s) => Some(s@),
        None => None,
    }
}

/// The chain fields that a continuation adds to its call's context: the
/// chain id, the call's depth (one more than the continuation's, saturating),
/// the depth limit, the deadline and the path with the target appended.
/// Into an object context they are set (the id and the deadline only where
/// given); any other context becomes an object of them, with a context that is
/// not null kept under `value`.
pub open spec fn continuation_context(p: RuntimeBehaviorContinuationPayload) -> JsonView {
    let depth: u64 = if depth_of(p) == u32::MAX { u32::MAX as u64 } else { (depth_of(p) + 1) as u64 };
    let maxd = max_depth_of(p) as u64;
    let path = path_of(p).push(target_of(p));
    let chain = opt_seq(p.call_chain_id);
    match opt_json_view(p.context) {
        Some(JsonView::Object(m)) => {
            let m1 = if chain is Some {
                obj_insert(m, "callChainId"@, JsonView::String(chain->Some_0))
            } else {
                m
            };
            let m2 = obj_insert(m1, "callDepth"@, num(depth));
            let m3 = obj_insert(m2, "maxDepth"@, num(maxd));
            let m4 = if p.deadline_ms is Some {
                obj_insert(m3, "deadlineMs"@, num(p.deadline_ms->Some_0))
            } else {
                m3
            };
            JsonView::Object(obj_insert(m4, "path"@, strings_json(path)))
        },
        Some(JsonView::Null) | None => JsonView::Object(
            seq![
                ("callChainId"@, str_or_null(chain)),
                ("callDepth"@, num(depth)),
                ("deadlineMs"@, num_or_null(p.deadline_ms)),
                ("maxDepth"@, num(maxd)),
                ("path"@, strings_json(path)),
            ],
        ),
        Some(other) => JsonView::Object(
            seq![
                ("callChainId"@, str_or_null(chain)),
                ("callDepth"@, num(depth)),
                ("deadlineMs"@, num_or_null(p.deadline_ms)),
                ("maxDepth"@, num(maxd)),
                ("path"@, strings_json(path)),
                ("value"@, other),
            ],
        ),
    }
}

fn strings_array(v: &Vec<String>) -> (j: JsonValue)
    ensures
        j@ == strings_json(string_views(v@)),
{
    let mut out: Vec<JsonValue> = Vec::new();
    let mut i: usize = 0;
    while i < v.len()
        invariant
            i <= v@.len(),
            out@.len() == i,
            forall|k: int| 0 <= k < i ==> (#[trigger] out@[k])@ == JsonView::String(v@[k]@),
        decreases v@.len() - i,
    {
        out.push(JsonValue::String(v[i].clone()));
        i = i + 1;
    }
    let j = JsonValue::Array(out);
    assert(j@->Array_0 =~= string_views(v@).map_values(|x: Seq<char>| JsonView::String(x)));
    j
}

pub(crate) fn opt_string_json(o: Option<String>) -> (j: JsonValue)
    ensures
        j@ == str_or_null(opt_seq(o)),
{
    match o {
        Some(s) => JsonValue::String(s),
        None => JsonValue::Null,
    }
}

pub(crate) fn opt_number_json(o: Option<u64>) -> (j: JsonValue)
    ensures
        j@ == num_or_null(o),
{
    match o {
        Some(n) => JsonValue::Number(JsonNumber::PosInt(n)),
        None => JsonValue::Null,
    }
}

impl RuntimeBehaviorContinuationPayload {
    /// The request that the continuation makes: its call, its input (an empty
    /// object where it has none), its read plan (an empty one where it has
    /// none) and its context with the chain fields.
    pub fn into_behavior_request(self) -> (r: BehaviorInvokeRequest)
        ensures
            r.behavior == self.behavior,
            r.mutation == self.mutation,
            r.user_id == self.user_id,
            r.client_mutation_id == self.client_mutation_id,
            r.input@ == match self.input {
                Some(j) => j@,
                None => JsonView::Object(Seq::empty()),
            },
            match self.read {
                Some(plan) => r.read == plan,
                None => r.read.capabilities_spec().len() == 0 && r.read.records@.len() == 0,
            },
            r.context@ == continuation_context(self),
    {
        let ghost p = self;
        let target = self.target();
        let call_depth: u32 = match self.call_depth {
            Some(d) => d,
            None => 0,
        };
        let call_depth = call_depth.saturating_add(1);
        let max_depth: u32 = match self.max_depth {
            Some(d) => d,
            None => DEFAULT_BEHAVIOR_CONTINUATION_MAX_DEPTH,
        };
        let mut path: Vec<String> = match self.path {
            Some(v) => v,
            None => Vec::new(),
        };
        let ghost path0 = string_views(path@);
        assert(path0 =~= path_of(p));
        path.push(target);
        assert(string_views(path@) =~= path0.push(target_of(p)));
        let path_json = strings_array(&path);
        assert(call_depth as u64 == (if depth_of(p) == u32::MAX { u32::MAX as u64 } else { (depth_of(p) + 1) as u64 }));
        let depth_json = JsonValue::Number(JsonNumber::PosInt(call_depth as u64));
        let max_json = JsonValue::Number(JsonNumber::PosInt(max_depth as u64));
        let context = match self.context {
            Some(JsonValue::Object(mut members)) => {
                let ghost m0 = members_view(members@);
                proof {
                    lemma_object_view(members);
                }
                match self.call_chain_id {
                    Some(chain) => {
                        object_insert(&mut members, owned("callChainId"), JsonValue::String(chain));
                    },
                    None => {},
                }
                object_insert(&mut members, owned("callDepth"), depth_json);
                object_insert(&mut members, owned("maxDepth"), max_json);
                match self.deadline_ms {
                    Some(d) => {
                        object_insert(&mut members, owned("deadlineMs"), JsonValue::Number(JsonNumber::PosInt(d)));
                    },
                    None => {},
                }
                object_insert(&mut members, owned("path"), path_json);
                proof {
                    lemma_object_view(members);
                }
                let j = JsonValue::Object(members);
                assert(j@ == continuation_context(p));
                j
            },
            other => {
                let keep: Option<JsonValue> = match other {
                    Some(JsonValue::Null) => None,
                    None => None,
                    Some(v) => Some(v),
                };
                let mut members: Vec<(String, JsonValue)> = Vec::new();
                members.push((owned("callChainId"), opt_string_json(self.call_chain_id)));
                members.push((owned("callDepth"), depth_json));
                members.push((owned("deadlineMs"), opt_number_json(self.deadline_ms)));
                members.push((owned("maxDepth"), max_json));
                members.push((owned("path"), path_json));
                let ghost base = seq![
                    ("callChainId"@, str_or_null(opt_seq(p.call_chain_id))),
                    ("callDepth"@, num(call_depth as u64)),
                    ("deadlineMs"@, num_or_null(p.deadline_ms)),
                    ("maxDepth"@, num(max_depth as u64)),
                    ("path"@, strings_json(string_views(path@))),
                ];
                assert(members_view(members@) =~= base);
                assert(base[4].1 == strings_json(path_of(p).push(target_of(p))));
                assert(p.context is None ==> continuation_context(p) == JsonView::Object(base));
                match keep {
                    Some(v) => {
                        let ghost vv = v@;
                        assert(!(vv is Object) && !(vv is Null));
                        assert(opt_json_view(p.context) == Some(vv));
                        members.push((owned("value"), v));
                        assert(members_view(members@) =~= base.push(("value"@, vv)));
                        assert(continuation_context(p)->Object_0 =~= base.push(("value"@, vv)));
                    },
                    None => {},
                }
                proof {
                    lemma_object_view(members);
                }
                let j = JsonValue::Object(members);
                assert(j@ == JsonView::Object(members_view(members@)));
                assert(keep is None ==> j@ == JsonView::Object(base));
                assert(p.context is None ==> j@ == continuation_context(p));
                assert(p.context == Some(JsonValue::Null) ==> opt_json_view(p.context) == Some(JsonView::Null));
                assert(j@ == continuation_context(p));
                j
            },
        };
        let input = match self.input {
            Some(j) => j,
            None => JsonValue::Object(Vec::new()),
        };
        proof {
            if p.input is None {
                assert(input@->Object_0 =~= Seq::<(Seq<char>, JsonView)>::empty());
            }
        }
        let read = match self.read {
            Some(plan) => plan,
            None => BehaviorReadPlan::empty(),
        };
        BehaviorInvokeRequest {
            behavior: self.behavior,
            mutation: self.mutation,
            user_id: self.user_id,
            client_mutation_id: self.client_mutation_id,
            input,
            read,
            context,
        }
    }
}


/// The input of a reply continuation: the behavior's response set as
/// `behaviorResponse` in an object input; any other input kept under `input`
/// beside it.
pub open spec fn reply_input(existing: Option<JsonView>, response: JsonView) -> JsonView {
    match existing {
        Some(JsonView::Object(m)) => JsonView::Object(obj_insert(m, "behaviorResponse"@, response)),
        Some(v) => JsonView::Object(seq![("behaviorResponse"@, response), ("input"@, v)]),
        None => JsonView::Object(seq![("behaviorResponse"@, response)]),
    }
}

/// The input of a reply continuation, given the response as JSON.
pub fn behavior_reply_input(existing_input: Option<JsonValue>, response_value: JsonValue) -> (r: JsonValue)
    ensures
        r@ == reply_input(opt_json_view(existing_input), response_value@),
{
    let ghost rv = response_value@;
    match existing_input {
        Some(JsonValue::Object(mut members)) => {
            proof {
                lemma_object_view(members);
            }
            object_insert(&mut members, owned("behaviorResponse"), response_value);
            proof {
                lemma_object_view(members);
            }
            JsonValue::Object(members)
        },
        Some(v) => {
            let ghost vv = v@;
            assert(!(vv is Object));
            let mut members: Vec<(String, JsonValue)> = Vec::new();
            members.push((owned("behaviorResponse"), response_value));
            members.push((owned("input"), v));
            proof {
                lemma_object_view(members);
            }
            assert(members_view(members@) =~= seq![("behaviorResponse"@, rv), ("input"@, vv)]);
            JsonValue::Object(members)
        },
        None => {
            let mut members: Vec<(String, JsonValue)> = Vec::new();
            members.push((owned("behaviorResponse"), response_value));
            proof {
                lemma_object_view(members);
            }
            assert(members_view(members@) =~= seq![("behaviorResponse"@, rv)]);
            JsonValue::Object(members)
        },
    }
}

/// The reminder that a reply schedules: for the actor and reminder id of the
/// reply target, due at once, carrying the reply continuation.
pub struct ContinuationReply {
    pub kind: ActorKind,
    pub key: String,
    pub reminder_id: Option<String>,
    pub due_at_ms: Option<u64>,
    pub delay_ms: Option<u64>,
    pub continuation: RuntimeBehaviorContinuationPayload,
}

/// The reply continuation `c` made from `reply` after `p` ran with the
/// response `response`: it inherits `p`'s chain id, depth limit and deadline
/// where it has none, continues at `p`'s depth plus one and after `p`'s path
/// with `p`'s target, and gets the response in its input.
pub open spec fn reply_continuation(
    p: RuntimeBehaviorContinuationPayload,
    reply: RuntimeBehaviorContinuationPayload,
    response: JsonView,
    c: RuntimeBehaviorContinuationPayload,
) -> bool {
    &&& c.payload_type == reply.payload_type
    &&& c.behavior == reply.behavior
    &&& c.mutation == reply.mutation
    &&& c.user_id == reply.user_id
    &&& c.client_mutation_id == reply.client_mutation_id
    &&& c.read == reply.read
    &&& c.context == reply.context
    &&& c.reply_to == reply.reply_to
    &&& c.call_chain_id == (if reply.call_chain_id is None { p.call_chain_id } else { reply.call_chain_id })
    &&& c.call_depth == (if reply.call_depth is None {
        Some(if depth_of(p) == u32::MAX { u32::MAX } else { (depth_of(p) + 1) as u32 })
    } else {
        reply.call_depth
    })
    &&& c.max_depth == (if reply.max_depth is None { p.max_depth } else { reply.max_depth })
    &&& c.deadline_ms == (if reply.deadline_ms is None { p.deadline_ms } else { reply.deadline_ms })
    &&& path_of(c) == (if reply.path is None { path_of(p).push(target_of(p)) } else { path_of(reply) })
    &&& c.path is Some
    &&& opt_json_view(c.input) == Some(reply_input(opt_json_view(reply.input), response))
}

impl RuntimeBehaviorContinuationPayload {
    /// The reminder that sends the result of this continuation to its reply
    /// target: none where it has no reply target; refused where the reply
    /// continuation breaks its limits at `now_ms`.
    pub fn reply_schedule_request(self, response_value: JsonValue, now_ms: u64) -> (r: Result<Option<ContinuationReply>, ApiError>)
        ensures
            self.reply_to is None ==> r == Ok::<Option<ContinuationReply>, ApiError>(None),
            self.reply_to is Some ==> match r {
                Ok(Some(req)) => {
                    let t = self.reply_to->Some_0;
                    &&& req.kind == t.actor_kind
                    &&& req.key == t.actor_key
                    &&& req.reminder_id == t.reminder_id
                    &&& req.due_at_ms == Some(if now_ms < 1 { 1 } else { now_ms })
                    &&& req.delay_ms is None
                    &&& reply_continuation(self, *t.continuation, response_value@, req.continuation)
                    &&& limits_error(req.continuation, now_ms) is None
                },
                Ok(None) => false,
                Err(e) => exists|c: RuntimeBehaviorContinuationPayload|
                    reply_continuation(self, *self.reply_to->Some_0.continuation, response_value@, c)
                        && limits_error(c, now_ms) == Some(e.message@) && e.kind == ApiErrorKind::BadRequest,
            },
    {
        let ghost p = self;
        let target = self.target();
        let RuntimeBehaviorContinuationPayload { reply_to, call_chain_id, call_depth, max_depth, deadline_ms, path, .. } = self;
        let reply_to = match reply_to {
            Some(t) => t,
            None => {
                return Ok(None);
            },
        };
        let d: u32 = match call_depth {
            Some(d) => d,
            None => 0,
        };
        let target_depth = d.saturating_add(1);
        let mut target_path: Vec<String> = match path {
            Some(v) => v,
            None => Vec::new(),
        };
        let ghost path0 = string_views(target_path@);
        assert(path0 =~= path_of(p));
        target_path.push(target);
        assert(string_views(target_path@) =~= path0.push(target_of(p)));
        let RuntimeBehaviorContinuationReplyTarget { actor_kind, actor_key, reminder_id, continuation } = reply_to;
        let mut c = *continuation;
        let ghost c0 = c;
        if c.call_chain_id.is_none() {
            c.call_chain_id = call_chain_id;
        }
        if c.call_depth.is_none() {
            c.call_depth = Some(target_depth);
        }
        if c.max_depth.is_none() {
            c.max_depth = max_depth;
        }
        if c.deadline_ms.is_none() {
            c.deadline_ms = deadline_ms;
        }
        if c.path.is_none() {
            c.path = Some(target_path);
        }
        let existing = c.input.take();
        c.input = Some(behavior_reply_input(existing, response_value));
        match c.validate_limits(now_ms) {
            Err(e) => {
                return Err(e);
            },
            Ok(()) => {},
        }
        let due = if now_ms < 1 {
            1
        } else {
            now_ms
        };
        Ok(Some(ContinuationReply {
            kind: actor_kind,
            key: actor_key,
            reminder_id,
            due_at_ms: Some(due),
            delay_ms: None,
            continuation: c,
        }))
    }
}


/// The first member of an object's members named `k`.
pub open spec fn member(m: Seq<(Seq<char>, JsonView)>, k: Seq<char>) -> Option<JsonView>
    decreases m.len(),
{
    if m.len() == 0 {
        None
    } else if m[0].0 == k {
        Some(m[0].1)
    } else {
        member(m.drop_first(), k)
    }
}

/// Whether a reminder payload says it is a behavior continuation: an object
/// whose `type` is the string `behaviorContinuation`.
pub open spec fn is_continuation_payload(v: JsonView) -> bool {
    match v {
        JsonView::Object(m) => member(m, "type"@) == Some(JsonView::String("behaviorContinuation"@)),
        _ => false,
    }
}

/// Whether a reminder payload says it is a behavior continuation.
pub fn payload_is_behavior_continuation(payload: &JsonValue) -> (b: bool)
    ensures
        b == is_continuation_payload(payload@),
{
    match payload {
        JsonValue::Object(members) => {
            proof {
                lemma_object_view(*members);
            }
            let ghost m = members_view(members@);
            let key = chars_of("type");
            let expected = chars_of("behaviorContinuation");
            let mut i: usize = 0;
            assert(m.skip(0) =~= m);
            while i < members.len()
                invariant
                    i <= members@.len(),
                    m == members_view(members@),
                    payload@ == JsonView::Object(m),
                    key@ == "type"@,
                    expected@ == "behaviorContinuation"@,
                    member(m, "type"@) == member(m.skip(i as int), "type"@),
                decreases members@.len() - i,
            {
                assert(m.skip(i as int).drop_first() =~= m.skip(i + 1));
                assert(m.skip(i as int)[0] == m[i as int]);
                assert(m[i as int] == (members@[i as int].0@, members@[i as int].1@));
                let name = chars_of(members[i].0.as_str());
                if chars_eq(name.as_slice(), key.as_slice()) {
                    assert(member(m, "type"@) == Some(members@[i as int].1@));
                    return match &members[i].1 {
                        JsonValue::String(s) => {
                            let sc = chars_of(s.as_str());
                            chars_eq(sc.as_slice(), expected.as_slice())
                        },
                        _ => false,
                    };
                }
                i = i + 1;
            }
            assert(m.skip(i as int).len() == 0);
            false
        },
        _ => false,
    }
}

/// What reading a reminder payload as a continuation gave: it is not one, it
/// was read, or it could not be read (with the reader's message).
pub enum ContinuationParse {
    NotContinuation,
    Parsed(RuntimeBehaviorContinuationPayload),
    Unreadable(String),
}

/// The continuation that a reminder payload carries, if any: one without a
/// behavior or a mutation is refused, one of another type is none, and one
/// that breaks its limits at `now_ms` is refused.
pub open spec fn continuation_outcome(parse: ContinuationParse, now_ms: u64) -> Result<Option<RuntimeBehaviorContinuationPayload>, Seq<char>> {
    match parse {
        ContinuationParse::NotContinuation => Ok(None),
        ContinuationParse::Unreadable(msg) => Err("invalid behavior continuation payload: "@ + msg@),
        ContinuationParse::Parsed(c) => if crate::text::blank(c.behavior@) {
            Err("behavior continuation behavior is required"@)
        } else if crate::text::blank(c.mutation@) {
            Err("behavior continuation mutation is required"@)
        } else if c.payload_type@ != "behaviorContinuation"@ {
            Ok(None)
        } else if limits_error(c, now_ms) is Some {
            Err(limits_error(c, now_ms)->Some_0)
        } else {
            Ok(Some(c))
        },
    }
}

impl RuntimeBehaviorContinuationPayload {
    /// The continuation of a reminder payload, as read.
    pub fn from_reminder_payload(parse: ContinuationParse, now_ms: u64) -> (r: Result<Option<Self>, ApiError>)
        ensures
            match r {
                Ok(c) => continuation_outcome(parse, now_ms) == Ok::<Option<Self>, Seq<char>>(c),
                Err(e) => e.kind == ApiErrorKind::BadRequest
                    && continuation_outcome(parse, now_ms) == Err::<Option<Self>, Seq<char>>(e.message@),
            },
    {
        match parse {
            ContinuationParse::NotContinuation => Ok(None),
            ContinuationParse::Unreadable(msg) => {
                Err(ApiError::bad_request(crate::text::cat2("invalid behavior continuation payload: ", msg.as_str())))
            },
            ContinuationParse::Parsed(c) => {
                if crate::text::str_blank(c.behavior.as_str()) {
                    return Err(ApiError::bad_request(owned("behavior continuation behavior is required")));
                }
                if crate::text::str_blank(c.mutation.as_str()) {
                    return Err(ApiError::bad_request(owned("behavior continuation mutation is required")));
                }
                let t = chars_of(c.payload_type.as_str());
                let expected = chars_of("behaviorContinuation");
                if !chars_eq(t.as_slice(), expected.as_slice()) {
                    return Ok(None);
                }
                match c.validate_limits(now_ms) {
                    Err(e) => Err(e),
                    Ok(()) => Ok(Some(c)),
                }
            },
        }
    }
}

/// Checks a payload that must be a behavior continuation: its type, then the
/// continuation read from it.
pub fn validate_behavior_continuation_payload(
    payload: &JsonValue,
    parse: ContinuationParse,
    now_ms: u64,
) -> (r: Result<(), ApiError>)
    ensures
        !is_continuation_payload(payload@) ==> (r is Err && r->Err_0.kind == ApiErrorKind::BadRequest
            && r->Err_0.message@ == "behavior continuation payload type must be behaviorContinuation"@),
        is_continuation_payload(payload@) ==> match r {
            Ok(()) => continuation_outcome(parse, now_ms) is Ok,
            Err(e) => e.kind == ApiErrorKind::BadRequest && continuation_outcome(parse, now_ms)
                == Err::<Option<RuntimeBehaviorContinuationPayload>, Seq<char>>(e.message@),
        },
{
    if !payload_is_behavior_continuation(payload) {
        return Err(ApiError::bad_request(owned("behavior continuation payload type must be behaviorContinuation")));
    }
    match RuntimeBehaviorContinuationPayload::from_reminder_payload(parse, now_ms) {
        Err(e) => Err(e),
        Ok(_) => Ok(()),
    }
}

} // verus!
