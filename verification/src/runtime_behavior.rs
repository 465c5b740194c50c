//! The decisions of the behavior runtime that do not need the Wasm engine:
//! the epoch deadline for a fuel budget, counter aggregation, the runtime's
//! settings, which guest entry point a request goes to, and whether a guest
//! instance returns to the pool.
use vstd::prelude::*;
use crate::behavior::BehaviorManifest;
use crate::env::{env_lookup, parse_bool_setting, parse_bool_value, parse_unsigned_value, EnvVars};
use crate::text::parse_unsigned;

verus! {

pub const DEFAULT_BEHAVIOR_INSTANCE_POOL_MAX: usize = 4;
pub const DEFAULT_BEHAVIOR_MAX_FUEL: u64 = 10_000_000;
pub const BEHAVIOR_EPOCH_FUEL_PER_TICK: u64 = 1_000;
pub const BEHAVIOR_EPOCH_DEADLINE_MAX_TICKS: u64 = 100_000;
pub const DEFAULT_BEHAVIOR_POOL_TOTAL_CORE_INSTANCES: u32 = 128;
pub const DEFAULT_BEHAVIOR_POOL_TOTAL_MEMORIES: u32 = 128;
pub const DEFAULT_BEHAVIOR_POOL_TOTAL_TABLES: u32 = 128;

/// The epoch deadline, in ticks, for a fuel budget: one tick per thousand
/// units of fuel, at least one tick and at most a hundred thousand.
pub open spec fn epoch_deadline_ticks(max_fuel: u64) -> u64 {
    let t = max_fuel / 1000;
    if t < 1 {
        1
    } else if t > 100_000 {
        100_000
    } else {
        t
    }
}

pub fn behavior_epoch_deadline_ticks(max_fuel: u64) -> (ticks: u64)
    ensures
        ticks == epoch_deadline_ticks(max_fuel),
{
    let t = max_fuel / BEHAVIOR_EPOCH_FUEL_PER_TICK;
    let t = if t < 1 { 1 } else { t };
    if t > BEHAVIOR_EPOCH_DEADLINE_MAX_TICKS {
        BEHAVIOR_EPOCH_DEADLINE_MAX_TICKS
    } else {
        t
    }
}

pub struct BehaviorRuntimeCounterSnapshot {
    pub invocations: u64,
    pub handle_message_invocations: u64,
    pub unknown_message_invocations: u64,
    pub successes: u64,
    pub guest_errors: u64,
    pub command_rejections: u64,
    pub instance_create_errors: u64,
    pub instances_created: u64,
    pub instances_reused: u64,
    pub instances_returned: u64,
    pub instances_discarded: u64,
    pub pool_errors: u64,
}

impl BehaviorRuntimeCounterSnapshot {
    /// All counters zero.
    pub fn zero() -> (s: Self)
        ensures
            s.invocations == 0 && s.handle_message_invocations == 0 && s.unknown_message_invocations == 0
                && s.successes == 0 && s.guest_errors == 0 && s.command_rejections == 0
                && s.instance_create_errors == 0 && s.instances_created == 0 && s.instances_reused == 0
                && s.instances_returned == 0 && s.instances_discarded == 0 && s.pool_errors == 0,
    {
        BehaviorRuntimeCounterSnapshot {
            invocations: 0,
            handle_message_invocations: 0,
            unknown_message_invocations: 0,
            successes: 0,
            guest_errors: 0,
            command_rejections: 0,
            instance_create_errors: 0,
            instances_created: 0,
            instances_reused: 0,
            instances_returned: 0,
            instances_discarded: 0,
            pool_errors: 0,
        }
    }

    /// No counter of the sum would overflow.
    pub open spec fn can_add(&self, other: &Self) -> bool {
        &&& self.invocations + other.invocations <= u64::MAX
        &&& self.handle_message_invocations + other.handle_message_invocations <= u64::MAX
        &&& self.unknown_message_invocations + other.unknown_message_invocations <= u64::MAX
        &&& self.successes + other.successes <= u64::MAX
        &&& self.guest_errors + other.guest_errors <= u64::MAX
        &&& self.command_rejections + other.command_rejections <= u64::MAX
        &&& self.instance_create_errors + other.instance_create_errors <= u64::MAX
        &&& self.instances_created + other.instances_created <= u64::MAX
        &&& self.instances_reused + other.instances_reused <= u64::MAX
        &&& self.instances_returned + other.instances_returned <= u64::MAX
        &&& self.instances_discarded + other.instances_discarded <= u64::MAX
        &&& self.pool_errors + other.pool_errors <= u64::MAX
    }

    /// Adds every counter of `other` to this snapshot.
    pub fn add_assign(&mut self, other: &BehaviorRuntimeCounterSnapshot)
        requires
            old(self).can_add(other),
        ensures
            final(self).invocations == old(self).invocations + other.invocations,
            final(self).handle_message_invocations == old(self).handle_message_invocations + other.handle_message_invocations,
            final(self).unknown_message_invocations == old(self).unknown_message_invocations + other.unknown_message_invocations,
            final(self).successes == old(self).successes + other.successes,
            final(self).guest_errors == old(self).guest_errors + other.guest_errors,
            final(self).command_rejections == old(self).command_rejections + other.command_rejections,
            final(self).instance_create_errors == old(self).instance_create_errors + other.instance_create_errors,
            final(self).instances_created == old(self).instances_created + other.instances_created,
            final(self).instances_reused == old(self).instances_reused + other.instances_reused,
            final(self).instances_returned == old(self).instances_returned + other.instances_returned,
            final(self).instances_discarded == old(self).instances_discarded + other.instances_discarded,
            final(self).pool_errors == old(self).pool_errors + other.pool_errors,
    {
        self.invocations = self.invocations + other.invocations;
        self.handle_message_invocations = self.handle_message_invocations + other.handle_message_invocations;
        self.unknown_message_invocations = self.unknown_message_invocations + other.unknown_message_invocations;
        self.successes = self.successes + other.successes;
        self.guest_errors = self.guest_errors + other.guest_errors;
        self.command_rejections = self.command_rejections + other.command_rejections;
        self.instance_create_errors = self.instance_create_errors + other.instance_create_errors;
        self.instances_created = self.instances_created + other.instances_created;
        self.instances_reused = self.instances_reused + other.instances_reused;
        self.instances_returned = self.instances_returned + other.instances_returned;
        self.instances_discarded = self.instances_discarded + other.instances_discarded;
        self.pool_errors = self.pool_errors + other.pool_errors;
    }
}

#[derive(Clone, Copy)]
pub struct BehaviorRuntimeConfig {
    pub fuel_enabled: bool,
    pub instance_pool_max: usize,
    pub pooling_total_core_instances: u32,
    pub pooling_total_memories: u32,
    pub pooling_total_tables: u32,
}

/// A numeric setting read without trimming; `default` when unset or
/// unreadable.
pub open spec fn raw_numeric_setting(env: EnvVars, name: Seq<char>, max: nat, default: nat) -> nat {
    match env_lookup(env.vars@, name) {
        Some(v) => match parse_unsigned(v, max) {
            Some(n) => n,
            None => default,
        },
        None => default,
    }
}

pub open spec fn at_least_one(n: nat) -> nat {
    if n < 1 {
        1
    } else {
        n
    }
}

pub fn env_usize(env: &EnvVars, name: &str, default: usize) -> (n: usize)
    ensures
        n == raw_numeric_setting(*env, name@, usize::MAX as nat, default as nat),
{
    match env.get(name) {
        Some(v) => match parse_unsigned_value(v.as_str(), usize::MAX as u64) {
            Some(n) => n as usize,
            None => default,
        },
        None => default,
    }
}

pub fn env_u32(env: &EnvVars, name: &str, default: u32) -> (n: u32)
    ensures
        n == raw_numeric_setting(*env, name@, u32::MAX as nat, default as nat),
{
    match env.get(name) {
        Some(v) => match parse_unsigned_value(v.as_str(), u32::MAX as u64) {
            Some(n) => n as u32,
            None => default,
        },
        None => default,
    }
}

pub fn env_bool(env: &EnvVars, name: &str, default: bool) -> (b: bool)
    ensures
        b == match env_lookup(env.vars@, name@) {
            Some(v) => match parse_bool_setting(v) {
                Some(b) => b,
                None => default,
            },
            None => default,
        },
{
    match env.get(name) {
        Some(v) => match parse_bool_value(v.as_str()) {
            Some(b) => b,
            None => default,
        },
        None => default,
    }
}

impl BehaviorRuntimeConfig {
    pub open spec fn from_env_spec(env: EnvVars) -> Self {
        BehaviorRuntimeConfig {
            fuel_enabled: match env_lookup(env.vars@, "NEXTDB_BEHAVIOR_FUEL_ENABLED"@) {
                Some(v) => match parse_bool_setting(v) {
                    Some(b) => b,
                    None => true,
                },
                None => true,
            },
            instance_pool_max: raw_numeric_setting(env, "NEXTDB_BEHAVIOR_INSTANCE_POOL_MAX"@, usize::MAX as nat, 4) as usize,
            pooling_total_core_instances: at_least_one(raw_numeric_setting(env, "NEXTDB_BEHAVIOR_POOL_TOTAL_CORE_INSTANCES"@, u32::MAX as nat, 128)) as u32,
            pooling_total_memories: at_least_one(raw_numeric_setting(env, "NEXTDB_BEHAVIOR_POOL_TOTAL_MEMORIES"@, u32::MAX as nat, 128)) as u32,
            pooling_total_tables: at_least_one(raw_numeric_setting(env, "NEXTDB_BEHAVIOR_POOL_TOTAL_TABLES"@, u32::MAX as nat, 128)) as u32,
        }
    }

    /// The runtime settings that the environment describes; each falls back
    /// to its default, and the pool totals are at least one.
    pub fn from_env(env: &EnvVars) -> (c: Self)
        ensures
            c == Self::from_env_spec(*env),
    {
        let core = env_u32(env, "NEXTDB_BEHAVIOR_POOL_TOTAL_CORE_INSTANCES", DEFAULT_BEHAVIOR_POOL_TOTAL_CORE_INSTANCES);
        let memories = env_u32(env, "NEXTDB_BEHAVIOR_POOL_TOTAL_MEMORIES", DEFAULT_BEHAVIOR_POOL_TOTAL_MEMORIES);
        let tables = env_u32(env, "NEXTDB_BEHAVIOR_POOL_TOTAL_TABLES", DEFAULT_BEHAVIOR_POOL_TOTAL_TABLES);
        BehaviorRuntimeConfig {
            fuel_enabled: env_bool(env, "NEXTDB_BEHAVIOR_FUEL_ENABLED", true),
            instance_pool_max: env_usize(env, "NEXTDB_BEHAVIOR_INSTANCE_POOL_MAX", DEFAULT_BEHAVIOR_INSTANCE_POOL_MAX),
            pooling_total_core_instances: if core < 1 { 1 } else { core },
            pooling_total_memories: if memories < 1 { 1 } else { memories },
            pooling_total_tables: if tables < 1 { 1 } else { tables },
        }
    }
}

#[derive(PartialEq, Eq, Structural, Clone, Copy)]
pub enum BehaviorGuestEntrypoint {
    HandleMessage,
    OnUnknownMessage,
}

/// A request for a listed mutation goes to `handle_message`; any other to
/// `on_unknown_message`.
pub fn behavior_entrypoint(manifest: &BehaviorManifest, mutation: &str) -> (e: BehaviorGuestEntrypoint)
    ensures
        e == if crate::scopes::views(manifest.mutations@).contains(mutation@) {
            BehaviorGuestEntrypoint::HandleMessage
        } else {
            BehaviorGuestEntrypoint::OnUnknownMessage
        },
{
    if crate::manifest::contains_key_of(manifest.mutations.as_slice(), mutation) {
        BehaviorGuestEntrypoint::HandleMessage
    } else {
        BehaviorGuestEntrypoint::OnUnknownMessage
    }
}

/// The fuel budget of a manifest: its own, or the default.
pub fn manifest_max_fuel(manifest: &BehaviorManifest) -> (f: u64)
    ensures
        f == match manifest.max_fuel {
            Some(f) => f,
            None => 10_000_000,
        },
{
    match manifest.max_fuel {
        Some(f) => f,
        None => DEFAULT_BEHAVIOR_MAX_FUEL,
    }
}

/// A guest instance goes back to the pool while the pool holds fewer than
/// `pool_max`; otherwise it is deactivated and discarded.
pub fn pool_accepts_instance(pool_len: usize, pool_max: usize) -> (b: bool)
    ensures
        b == (pool_len < pool_max),
{
    pool_len < pool_max
}

pub struct BehaviorInvocationMetadata {
    pub behavior: String,
    pub behavior_version: String,
    pub epoch: u64,
}

#[derive(PartialEq, Eq, Structural, Clone, Copy)]
pub enum BehaviorPostcardPayloadEncoding {
    Json,
    TypedSchema,
}

/// The postcard frame around a guest payload.
pub struct BehaviorPostcardFrame {
    pub encoding: BehaviorPostcardPayloadEncoding,
    pub payload: Vec<u8>,
}

impl BehaviorPostcardFrame {
    /// A frame holding JSON bytes.
    pub fn json(json: Vec<u8>) -> (f: Self)
        ensures
            f.encoding == BehaviorPostcardPayloadEncoding::Json,
            f.payload@ == json@,
    {
        BehaviorPostcardFrame { encoding: BehaviorPostcardPayloadEncoding::Json, payload: json }
    }

    /// A frame holding a typed-schema postcard payload.
    pub fn typed_schema(payload: Vec<u8>) -> (f: Self)
        ensures
            f.encoding == BehaviorPostcardPayloadEncoding::TypedSchema,
            f.payload@ == payload@,
    {
        BehaviorPostcardFrame { encoding: BehaviorPostcardPayloadEncoding::TypedSchema, payload }
    }
}


/// The status of one loaded behavior.
pub struct BehaviorRuntimeBehaviorStatus {
    pub name: String,
    pub version: String,
    pub epoch: u64,
    pub pooled_instances: usize,
    pub instance_pool_max: usize,
    pub max_fuel: u64,
    pub fuel_enabled: bool,
    pub abi_encoding: crate::behavior::BehaviorAbiEncoding,
    pub counters: BehaviorRuntimeCounterSnapshot,
}

/// The status of the behavior runtime: its totals and each behavior's.
pub struct BehaviorRuntimeStatus {
    pub epoch: u64,
    pub behavior_count: usize,
    pub fuel_enabled: bool,
    pub instance_pool_max: usize,
    pub pooled_instances: usize,
    pub counters: BehaviorRuntimeCounterSnapshot,
    pub config: BehaviorRuntimeConfig,
    pub behaviors: Vec<BehaviorRuntimeBehaviorStatus>,
}


/// `w` placed into `s` after every status whose name is not greater.
pub open spec fn insert_by_name(s: Seq<BehaviorRuntimeBehaviorStatus>, w: BehaviorRuntimeBehaviorStatus) -> Seq<
    BehaviorRuntimeBehaviorStatus,
>
    decreases s.len(),
{
    if s.len() == 0 || !crate::order::lex_lt(w.name@, s.last().name@) {
        s.push(w)
    } else {
        insert_by_name(s.drop_last(), w).push(s.last())
    }
}

/// The statuses sorted by name, a stable sort.
pub open spec fn sort_by_name(s: Seq<BehaviorRuntimeBehaviorStatus>) -> Seq<BehaviorRuntimeBehaviorStatus>
    decreases s.len(),
{
    if s.len() == 0 {
        Seq::empty()
    } else {
        insert_by_name(sort_by_name(s.drop_last()), s.last())
    }
}

proof fn lemma_insert_by_name_at(s: Seq<BehaviorRuntimeBehaviorStatus>, w: BehaviorRuntimeBehaviorStatus, p: int)
    requires
        0 <= p <= s.len(),
        p == 0 || !crate::order::lex_lt(w.name@, s[p - 1].name@),
        forall|j: int| p <= j < s.len() ==> crate::order::lex_lt(w.name@, #[trigger] s[j].name@),
    ensures
        insert_by_name(s, w) == s.take(p).push(w) + s.skip(p),
    decreases s.len(),
{
    if p == s.len() {
        assert(s.take(p) =~= s);
        assert(s.take(p).push(w) + s.skip(p) =~= s.push(w));
    } else {
        assert(crate::order::lex_lt(w.name@, s.last().name@));
        let t = s.drop_last();
        lemma_insert_by_name_at(t, w, p);
        assert(t.take(p) =~= s.take(p));
        assert(s.take(p).push(w) + s.skip(p) =~= (t.take(p).push(w) + t.skip(p)).push(s.last()));
    }
}

/// The statuses sorted by name.
fn sort_statuses_by_name(statuses: Vec<BehaviorRuntimeBehaviorStatus>) -> (r: Vec<BehaviorRuntimeBehaviorStatus>)
    ensures
        r@ == sort_by_name(statuses@),
{
    let ghost orig = statuses@;
    let n = statuses.len();
    let mut rev = crate::merge::reversed(statuses);
    let mut out: Vec<BehaviorRuntimeBehaviorStatus> = Vec::new();
    assert(rev@.reverse() =~= orig);
    assert(orig.take(0) =~= Seq::<BehaviorRuntimeBehaviorStatus>::empty());
    while rev.len() > 0
        invariant
            n == orig.len(),
            rev@.len() <= n,
            rev@.reverse() == orig.subrange(n - rev@.len(), n as int),
            out@ == sort_by_name(orig.take(n - rev@.len())),
        decreases rev@.len(),
    {
        let ghost k = n - rev@.len();
        proof {
            crate::merge::lemma_reverse_last_pub(rev@);
            assert(orig.subrange(k, n as int)[0] == orig[k]);
            assert(orig.take(k + 1).drop_last() =~= orig.take(k));
            assert(orig.take(k + 1).last() == orig[k]);
        }
        let w = rev.pop().unwrap();
        proof {
            assert(rev@.reverse() =~= orig.subrange(k + 1, n as int)) by {
                assert(orig.subrange(k, n as int).drop_first() =~= orig.subrange(k + 1, n as int));
            }
        }
        let ghost s = out@;
        let mut p: usize = out.len();
        while p > 0 && crate::order::str_lt(w.name.as_str(), out[p - 1].name.as_str())
            invariant
                p <= out@.len(),
                s == out@,
                forall|j: int| p <= j < s.len() ==> crate::order::lex_lt(w.name@, #[trigger] s[j].name@),
            decreases p,
        {
            p = p - 1;
        }
        proof {
            lemma_insert_by_name_at(s, w, p as int);
        }
        out.insert(p, w);
        proof {
            assert(out@ =~= s.take(p as int).push(w) + s.skip(p as int));
        }
    }
    assert(orig.take(n as int) =~= orig);
    out
}

/// The sum of one counter over the behaviors.
pub open spec fn counter_total(
    bs: Seq<BehaviorRuntimeBehaviorStatus>,
    field: spec_fn(BehaviorRuntimeCounterSnapshot) -> u64,
) -> int
    decreases bs.len(),
{
    if bs.len() == 0 {
        0
    } else {
        counter_total(bs.drop_last(), field) + field(bs.last().counters)
    }
}

/// The instances pooled over the behaviors.
pub open spec fn pooled_total(bs: Seq<BehaviorRuntimeBehaviorStatus>) -> int
    decreases bs.len(),
{
    if bs.len() == 0 {
        0
    } else {
        pooled_total(bs.drop_last()) + bs.last().pooled_instances
    }
}

proof fn lemma_counter_total_prefix(
    bs: Seq<BehaviorRuntimeBehaviorStatus>,
    field: spec_fn(BehaviorRuntimeCounterSnapshot) -> u64,
    k: int,
)
    requires
        0 <= k <= bs.len(),
    ensures
        counter_total(bs.take(k), field) <= counter_total(bs, field),
    decreases bs.len() - k,
{
    if k < bs.len() {
        lemma_counter_total_prefix(bs, field, k + 1);
        assert(bs.take(k + 1).drop_last() =~= bs.take(k));
    } else {
        assert(bs.take(k) =~= bs);
    }
}

proof fn lemma_pooled_total_prefix(bs: Seq<BehaviorRuntimeBehaviorStatus>, k: int)
    requires
        0 <= k <= bs.len(),
    ensures
        pooled_total(bs.take(k)) <= pooled_total(bs),
    decreases bs.len() - k,
{
    if k < bs.len() {
        lemma_pooled_total_prefix(bs, k + 1);
        assert(bs.take(k + 1).drop_last() =~= bs.take(k));
    } else {
        assert(bs.take(k) =~= bs);
    }
}

/// The status of the runtime at `epoch` with `config` over its behaviors:
/// the behaviors sorted by name, how many there are, the instances pooled
/// over them, and each counter summed over them.
pub fn behavior_runtime_status(epoch: u64, config: BehaviorRuntimeConfig, behaviors: Vec<BehaviorRuntimeBehaviorStatus>) -> (status: BehaviorRuntimeStatus)
    requires
        pooled_total(behaviors@) <= usize::MAX,
        counter_total(behaviors@, |c: BehaviorRuntimeCounterSnapshot| c.invocations) <= u64::MAX,
        counter_total(behaviors@, |c: BehaviorRuntimeCounterSnapshot| c.handle_message_invocations) <= u64::MAX,
        counter_total(behaviors@, |c: BehaviorRuntimeCounterSnapshot| c.unknown_message_invocations) <= u64::MAX,
        counter_total(behaviors@, |c: BehaviorRuntimeCounterSnapshot| c.successes) <= u64::MAX,
        counter_total(behaviors@, |c: BehaviorRuntimeCounterSnapshot| c.guest_errors) <= u64::MAX,
        counter_total(behaviors@, |c: BehaviorRuntimeCounterSnapshot| c.command_rejections) <= u64::MAX,
        counter_total(behaviors@, |c: BehaviorRuntimeCounterSnapshot| c.instance_create_errors) <= u64::MAX,
        counter_total(behaviors@, |c: BehaviorRuntimeCounterSnapshot| c.instances_created) <= u64::MAX,
        counter_total(behaviors@, |c: BehaviorRuntimeCounterSnapshot| c.instances_reused) <= u64::MAX,
        counter_total(behaviors@, |c: BehaviorRuntimeCounterSnapshot| c.instances_returned) <= u64::MAX,
        counter_total(behaviors@, |c: BehaviorRuntimeCounterSnapshot| c.instances_discarded) <= u64::MAX,
        counter_total(behaviors@, |c: BehaviorRuntimeCounterSnapshot| c.pool_errors) <= u64::MAX,
    ensures
        status.epoch == epoch,
        status.fuel_enabled == config.fuel_enabled,
        status.instance_pool_max == config.instance_pool_max,
        status.config == config,
        status.behaviors@ == sort_by_name(behaviors@),
        status.behavior_count == behaviors@.len(),
        status.pooled_instances == pooled_total(behaviors@),
        status.counters.invocations == counter_total(behaviors@, |c: BehaviorRuntimeCounterSnapshot| c.invocations),
        status.counters.handle_message_invocations == counter_total(behaviors@, |c: BehaviorRuntimeCounterSnapshot| c.handle_message_invocations),
        status.counters.unknown_message_invocations == counter_total(behaviors@, |c: BehaviorRuntimeCounterSnapshot| c.unknown_message_invocations),
        status.counters.successes == counter_total(behaviors@, |c: BehaviorRuntimeCounterSnapshot| c.successes),
        status.counters.guest_errors == counter_total(behaviors@, |c: BehaviorRuntimeCounterSnapshot| c.guest_errors),
        status.counters.command_rejections == counter_total(behaviors@, |c: BehaviorRuntimeCounterSnapshot| c.command_rejections),
        status.counters.instance_create_errors == counter_total(behaviors@, |c: BehaviorRuntimeCounterSnapshot| c.instance_create_errors),
        status.counters.instances_created == counter_total(behaviors@, |c: BehaviorRuntimeCounterSnapshot| c.instances_created),
        status.counters.instances_reused == counter_total(behaviors@, |c: BehaviorRuntimeCounterSnapshot| c.instances_reused),
        status.counters.instances_returned == counter_total(behaviors@, |c: BehaviorRuntimeCounterSnapshot| c.instances_returned),
        status.counters.instances_discarded == counter_total(behaviors@, |c: BehaviorRuntimeCounterSnapshot| c.instances_discarded),
        status.counters.pool_errors == counter_total(behaviors@, |c: BehaviorRuntimeCounterSnapshot| c.pool_errors),
{
    let ghost bs = behaviors@;
    let mut counters = BehaviorRuntimeCounterSnapshot::zero();
    let mut pooled: usize = 0;
    let mut i: usize = 0;
    while i < behaviors.len()
        invariant
            i <= bs.len(),
            bs == behaviors@,
            pooled == pooled_total(bs.take(i as int)),
            pooled_total(bs) <= usize::MAX,
            counters.invocations == counter_total(bs.take(i as int), |c: BehaviorRuntimeCounterSnapshot| c.invocations),
            counter_total(bs, |c: BehaviorRuntimeCounterSnapshot| c.invocations) <= u64::MAX,
            counters.handle_message_invocations == counter_total(bs.take(i as int), |c: BehaviorRuntimeCounterSnapshot| c.handle_message_invocations),
            counter_total(bs, |c: BehaviorRuntimeCounterSnapshot| c.handle_message_invocations) <= u64::MAX,
            counters.unknown_message_invocations == counter_total(bs.take(i as int), |c: BehaviorRuntimeCounterSnapshot| c.unknown_message_invocations),
            counter_total(bs, |c: BehaviorRuntimeCounterSnapshot| c.unknown_message_invocations) <= u64::MAX,
            counters.successes == counter_total(bs.take(i as int), |c: BehaviorRuntimeCounterSnapshot| c.successes),
            counter_total(bs, |c: BehaviorRuntimeCounterSnapshot| c.successes) <= u64::MAX,
            counters.guest_errors == counter_total(bs.take(i as int), |c: BehaviorRuntimeCounterSnapshot| c.guest_errors),
            counter_total(bs, |c: BehaviorRuntimeCounterSnapshot| c.guest_errors) <= u64::MAX,
            counters.command_rejections == counter_total(bs.take(i as int), |c: BehaviorRuntimeCounterSnapshot| c.command_rejections),
            counter_total(bs, |c: BehaviorRuntimeCounterSnapshot| c.command_rejections) <= u64::MAX,
            counters.instance_create_errors == counter_total(bs.take(i as int), |c: BehaviorRuntimeCounterSnapshot| c.instance_create_errors),
            counter_total(bs, |c: BehaviorRuntimeCounterSnapshot| c.instance_create_errors) <= u64::MAX,
            counters.instances_created == counter_total(bs.take(i as int), |c: BehaviorRuntimeCounterSnapshot| c.instances_created),
            counter_total(bs, |c: BehaviorRuntimeCounterSnapshot| c.instances_created) <= u64::MAX,
            counters.instances_reused == counter_total(bs.take(i as int), |c: BehaviorRuntimeCounterSnapshot| c.instances_reused),
            counter_total(bs, |c: BehaviorRuntimeCounterSnapshot| c.instances_reused) <= u64::MAX,
            counters.instances_returned == counter_total(bs.take(i as int), |c: BehaviorRuntimeCounterSnapshot| c.instances_returned),
            counter_total(bs, |c: BehaviorRuntimeCounterSnapshot| c.instances_returned) <= u64::MAX,
            counters.instances_discarded == counter_total(bs.take(i as int), |c: BehaviorRuntimeCounterSnapshot| c.instances_discarded),
            counter_total(bs, |c: BehaviorRuntimeCounterSnapshot| c.instances_discarded) <= u64::MAX,
            counters.pool_errors == counter_total(bs.take(i as int), |c: BehaviorRuntimeCounterSnapshot| c.pool_errors),
            counter_total(bs, |c: BehaviorRuntimeCounterSnapshot| c.pool_errors) <= u64::MAX,
        decreases bs.len() - i,
    {
        proof {
            assert(bs.take(i as int + 1).drop_last() =~= bs.take(i as int));
            assert(bs.take(i as int + 1).last() == bs[i as int]);
            lemma_pooled_total_prefix(bs, i as int + 1);
            lemma_counter_total_prefix(bs, |c: BehaviorRuntimeCounterSnapshot| c.invocations, i as int + 1);
            lemma_counter_total_prefix(bs, |c: BehaviorRuntimeCounterSnapshot| c.handle_message_invocations, i as int + 1);
            lemma_counter_total_prefix(bs, |c: BehaviorRuntimeCounterSnapshot| c.unknown_message_invocations, i as int + 1);
            lemma_counter_total_prefix(bs, |c: BehaviorRuntimeCounterSnapshot| c.successes, i as int + 1);
            lemma_counter_total_prefix(bs, |c: BehaviorRuntimeCounterSnapshot| c.guest_errors, i as int + 1);
            lemma_counter_total_prefix(bs, |c: BehaviorRuntimeCounterSnapshot| c.command_rejections, i as int + 1);
            lemma_counter_total_prefix(bs, |c: BehaviorRuntimeCounterSnapshot| c.instance_create_errors, i as int + 1);
            lemma_counter_total_prefix(bs, |c: BehaviorRuntimeCounterSnapshot| c.instances_created, i as int + 1);
            lemma_counter_total_prefix(bs, |c: BehaviorRuntimeCounterSnapshot| c.instances_reused, i as int + 1);
            lemma_counter_total_prefix(bs, |c: BehaviorRuntimeCounterSnapshot| c.instances_returned, i as int + 1);
            lemma_counter_total_prefix(bs, |c: BehaviorRuntimeCounterSnapshot| c.instances_discarded, i as int + 1);
            lemma_counter_total_prefix(bs, |c: BehaviorRuntimeCounterSnapshot| c.pool_errors, i as int + 1);
        }
        let b = &behaviors[i];
        pooled = pooled + b.pooled_instances;
        counters.add_assign(&b.counters);
        i = i + 1;
    }
    proof {
        assert(bs.take(bs.len() as int) =~= bs);
    }
    let count = behaviors.len();
    let sorted = sort_statuses_by_name(behaviors);
    BehaviorRuntimeStatus {
        epoch,
        behavior_count: count,
        fuel_enabled: config.fuel_enabled,
        instance_pool_max: config.instance_pool_max,
        pooled_instances: pooled,
        counters,
        config,
        behaviors: sorted,
    }
}

} // verus!
