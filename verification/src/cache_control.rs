//! Client cache control: the cache profile handed to clients and the log of
//! cache invalidations, each with a generation number.
use vstd::prelude::*;
use crate::env::{env_lookup, parse_bool_setting, parse_bool_value, parse_trimmed_unsigned_value, EnvVars};
use crate::text::{parse_unsigned, trim};

verus! {

pub struct ClientCacheProfile {
    pub version: u64,
    pub lease_ttl_ms: u64,
    pub max_objects: usize,
    pub max_object_bytes: u64,
    pub max_room_messages: usize,
    pub max_user_events: usize,
    pub max_records_per_table: usize,
    pub max_nested_partitions: usize,
    pub max_pending_writes: usize,
    pub max_pending_write_bytes: u64,
    pub offline_writes: bool,
}

#[derive(PartialEq, Eq, Structural, Clone, Copy)]
pub enum ClientCacheInvalidationScope {
    All,
    Profile,
    Object,
    Room,
    User,
    Table,
    NestedTable,
}

pub struct ClientCacheInvalidationEntry {
    pub id: String,
    pub generation: u64,
    pub scope: ClientCacheInvalidationScope,
    pub key: Option<String>,
    pub table: Option<String>,
    pub parent_key: Option<String>,
    pub nested: Option<String>,
    pub min_valid_lsn: u64,
    pub reason: String,
    pub created_at_ms: u64,
}

/// An invalidation entry as plain values.
pub struct InvalidationView {
    pub id: Seq<char>,
    pub generation: u64,
    pub scope: ClientCacheInvalidationScope,
    pub key: Option<Seq<char>>,
    pub table: Option<Seq<char>>,
    pub parent_key: Option<Seq<char>>,
    pub nested: Option<Seq<char>>,
    pub min_valid_lsn: u64,
    pub reason: Seq<char>,
    pub created_at_ms: u64,
}

pub open spec fn opt_string_view(o: Option<String>) -> Option<Seq<char>> {
    match o {
        Some(s) => Some(s@),
        None => None,
    }
}

fn clone_opt(o: &Option<String>) -> (r: Option<String>)
    ensures
        opt_string_view(r) == opt_string_view(*o),
{
    match o {
        Some(s) => Some(s.clone()),
        None => None,
    }
}

impl View for ClientCacheInvalidationEntry {
    type V = InvalidationView;

    open spec fn view(&self) -> InvalidationView {
        InvalidationView {
            id: self.id@,
            generation: self.generation,
            scope: self.scope,
            key: opt_string_view(self.key),
            table: opt_string_view(self.table),
            parent_key: opt_string_view(self.parent_key),
            nested: opt_string_view(self.nested),
            min_valid_lsn: self.min_valid_lsn,
            reason: self.reason@,
            created_at_ms: self.created_at_ms,
        }
    }
}

impl ClientCacheInvalidationEntry {
    /// A copy of the entry.
    pub fn duplicate(&self) -> (r: Self)
        ensures
            r@ == self@,
    {
        ClientCacheInvalidationEntry {
            id: self.id.clone(),
            generation: self.generation,
            scope: self.scope,
            key: clone_opt(&self.key),
            table: clone_opt(&self.table),
            parent_key: clone_opt(&self.parent_key),
            nested: clone_opt(&self.nested),
            min_valid_lsn: self.min_valid_lsn,
            reason: self.reason.clone(),
            created_at_ms: self.created_at_ms,
        }
    }
}

pub struct ClientCacheControl {
    pub profile: ClientCacheProfile,
    pub invalidations: Vec<ClientCacheInvalidationEntry>,
}

pub fn default_max_user_events() -> (n: usize)
    ensures
        n == 10_000,
{
    10_000
}

pub fn default_max_objects() -> (n: usize)
    ensures
        n == 10_000,
{
    10_000
}

pub fn default_max_object_bytes() -> (n: u64)
    ensures
        n == 512 * 1024 * 1024,
{
    512 * 1024 * 1024
}

pub fn default_max_pending_writes() -> (n: usize)
    ensures
        n == 10_000,
{
    10_000
}

pub fn default_max_pending_write_bytes() -> (n: u64)
    ensures
        n == 512 * 1024 * 1024,
{
    512 * 1024 * 1024
}

/// A numeric setting: the trimmed value of `name` when it parses as a number
/// no larger than `max`, else `default`.
pub open spec fn numeric_setting(env: EnvVars, name: Seq<char>, max: nat, default: nat) -> nat {
    match env_lookup(env.vars@, name) {
        Some(v) => match parse_unsigned(trim(v), max) {
            Some(n) => n,
            None => default,
        },
        None => default,
    }
}

/// A boolean setting: the value of `name` when it reads as a boolean, else
/// `default`.
pub open spec fn bool_setting(env: EnvVars, name: Seq<char>, default: bool) -> bool {
    match env_lookup(env.vars@, name) {
        Some(v) => match parse_bool_setting(v) {
            Some(b) => b,
            None => default,
        },
        None => default,
    }
}

/// `NAME.trim().parse::<u64>()` from the environment.
pub fn parse_u64_env(env: &EnvVars, name: &str) -> (r: Option<u64>)
    ensures
        match r {
            Some(v) => env_lookup(env.vars@, name@) matches Some(s) && parse_unsigned(trim(s), u64::MAX as nat) == Some(v as nat),
            None => match env_lookup(env.vars@, name@) {
                Some(s) => parse_unsigned(trim(s), u64::MAX as nat) is None,
                None => true,
            },
        },
{
    match env.get(name) {
        Some(v) => parse_trimmed_unsigned_value(v.as_str(), u64::MAX),
        None => None,
    }
}

/// `NAME.trim().parse::<usize>()` from the environment.
pub fn parse_usize_env(env: &EnvVars, name: &str) -> (r: Option<usize>)
    ensures
        match r {
            Some(v) => env_lookup(env.vars@, name@) matches Some(s) && parse_unsigned(trim(s), usize::MAX as nat) == Some(v as nat),
            None => match env_lookup(env.vars@, name@) {
                Some(s) => parse_unsigned(trim(s), usize::MAX as nat) is None,
                None => true,
            },
        },
{
    match env.get(name) {
        Some(v) => match parse_trimmed_unsigned_value(v.as_str(), usize::MAX as u64) {
            Some(n) => Some(n as usize),
            None => None,
        },
        None => None,
    }
}

/// A boolean setting from the environment (see `parse_bool_setting`).
pub fn parse_bool_env(env: &EnvVars, name: &str) -> (r: Option<bool>)
    ensures
        r == match env_lookup(env.vars@, name@) {
            Some(s) => parse_bool_setting(s),
            None => None,
        },
{
    match env.get(name) {
        Some(v) => parse_bool_value(v.as_str()),
        None => None,
    }
}

fn u64_setting(env: &EnvVars, name: &str, default: u64) -> (n: u64)
    ensures
        n == numeric_setting(*env, name@, u64::MAX as nat, default as nat),
{
    match parse_u64_env(env, name) {
        Some(v) => v,
        None => default,
    }
}

fn usize_setting(env: &EnvVars, name: &str, default: usize) -> (n: usize)
    ensures
        n == numeric_setting(*env, name@, usize::MAX as nat, default as nat),
{
    match parse_usize_env(env, name) {
        Some(v) => v,
        None => default,
    }
}

impl ClientCacheProfile {
    /// The profile that the given environment describes.
    pub open spec fn from_env_spec(env: EnvVars) -> ClientCacheProfile {
        let u = u64::MAX as nat;
        let z = usize::MAX as nat;
        ClientCacheProfile {
            version: numeric_setting(env, "NEXTDB_CLIENT_CACHE_PROFILE_VERSION"@, u, 1) as u64,
            lease_ttl_ms: numeric_setting(env, "NEXTDB_CLIENT_CACHE_LEASE_MS"@, u, 60_000) as u64,
            max_objects: numeric_setting(env, "NEXTDB_CLIENT_CACHE_MAX_OBJECTS"@, z, 10_000) as usize,
            max_object_bytes: numeric_setting(env, "NEXTDB_CLIENT_CACHE_MAX_OBJECT_BYTES"@, u, 512 * 1024 * 1024) as u64,
            max_room_messages: numeric_setting(env, "NEXTDB_CLIENT_CACHE_MAX_ROOM_MESSAGES"@, z, 10_000) as usize,
            max_user_events: numeric_setting(env, "NEXTDB_CLIENT_CACHE_MAX_USER_EVENTS"@, z, 10_000) as usize,
            max_records_per_table: numeric_setting(env, "NEXTDB_CLIENT_CACHE_MAX_RECORDS_PER_TABLE"@, z, 10_000) as usize,
            max_nested_partitions: numeric_setting(env, "NEXTDB_CLIENT_CACHE_MAX_NESTED_PARTITIONS"@, z, 0) as usize,
            max_pending_writes: numeric_setting(env, "NEXTDB_CLIENT_CACHE_MAX_PENDING_WRITES"@, z, 10_000) as usize,
            max_pending_write_bytes: numeric_setting(env, "NEXTDB_CLIENT_CACHE_MAX_PENDING_WRITE_BYTES"@, u, 512 * 1024 * 1024) as u64,
            offline_writes: bool_setting(env, "NEXTDB_CLIENT_CACHE_OFFLINE_WRITES"@, true),
        }
    }
}

/// Whether an entry is newer than `generation`.
pub open spec fn newer_than(generation: u64) -> spec_fn(InvalidationView) -> bool {
    |e: InvalidationView| e.generation > generation
}

/// The views of a list of entries.
pub open spec fn entry_views(entries: Seq<ClientCacheInvalidationEntry>) -> Seq<InvalidationView> {
    entries.map_values(|e: ClientCacheInvalidationEntry| e@)
}

impl ClientCacheControl {
    /// A control with the profile that the environment describes (each
    /// setting falls back to its default when unset or unreadable) and no
    /// invalidations.
    pub fn default_with_env(env: &EnvVars) -> (c: Self)
        ensures
            c.profile == ClientCacheProfile::from_env_spec(*env),
            c.invalidations@.len() == 0,
    {
        let profile = ClientCacheProfile {
            version: u64_setting(env, "NEXTDB_CLIENT_CACHE_PROFILE_VERSION", 1),
            lease_ttl_ms: u64_setting(env, "NEXTDB_CLIENT_CACHE_LEASE_MS", 60_000),
            max_objects: usize_setting(env, "NEXTDB_CLIENT_CACHE_MAX_OBJECTS", default_max_objects()),
            max_object_bytes: u64_setting(env, "NEXTDB_CLIENT_CACHE_MAX_OBJECT_BYTES", default_max_object_bytes()),
            max_room_messages: usize_setting(env, "NEXTDB_CLIENT_CACHE_MAX_ROOM_MESSAGES", 10_000),
            max_user_events: usize_setting(env, "NEXTDB_CLIENT_CACHE_MAX_USER_EVENTS", default_max_user_events()),
            max_records_per_table: usize_setting(env, "NEXTDB_CLIENT_CACHE_MAX_RECORDS_PER_TABLE", 10_000),
            max_nested_partitions: usize_setting(env, "NEXTDB_CLIENT_CACHE_MAX_NESTED_PARTITIONS", 0),
            max_pending_writes: usize_setting(env, "NEXTDB_CLIENT_CACHE_MAX_PENDING_WRITES", default_max_pending_writes()),
            max_pending_write_bytes: u64_setting(env, "NEXTDB_CLIENT_CACHE_MAX_PENDING_WRITE_BYTES", default_max_pending_write_bytes()),
            offline_writes: match parse_bool_env(env, "NEXTDB_CLIENT_CACHE_OFFLINE_WRITES") {
                Some(b) => b,
                None => true,
            },
        };
        ClientCacheControl { profile, invalidations: Vec::new() }
    }

    /// The generation that the next invalidation takes: one past the last
    /// entry's generation (saturating), or 1 for an empty log.
    pub fn next_generation(&self) -> (g: u64)
        ensures
            g == if self.invalidations@.len() == 0 {
                1
            } else if self.invalidations@.last().generation == u64::MAX {
                u64::MAX
            } else {
                (self.invalidations@.last().generation + 1) as u64
            },
    {
        let n = self.invalidations.len();
        if n == 0 {
            1
        } else {
            self.invalidations[n - 1].generation.saturating_add(1)
        }
    }

    /// The entries newer than `generation`, in log order.
    pub fn invalidations_after(&self, generation: u64) -> (r: Vec<ClientCacheInvalidationEntry>)
        ensures
            entry_views(r@) == entry_views(self.invalidations@).filter(newer_than(generation)),
    {
        let mut r: Vec<ClientCacheInvalidationEntry> = Vec::new();
        let mut i: usize = 0;
        while i < self.invalidations.len()
            invariant
                i <= self.invalidations@.len(),
                entry_views(r@) == entry_views(self.invalidations@.subrange(0, i as int)).filter(newer_than(generation)),
            decreases self.invalidations@.len() - i,
        {
            let ghost before = r@;
            proof {
                reveal_with_fuel(Seq::<InvalidationView>::filter, 1);
                let s = entry_views(self.invalidations@.subrange(0, i + 1));
                assert(s.drop_last() =~= entry_views(self.invalidations@.subrange(0, i as int)));
            }
            if self.invalidations[i].generation > generation {
                let e = self.invalidations[i].duplicate();
                r.push(e);
                assert(entry_views(r@) =~= entry_views(before).push(e@));
            }
            i = i + 1;
        }
        assert(self.invalidations@.subrange(0, self.invalidations@.len() as int) =~= self.invalidations@);
        r
    }
}

} // verus!
