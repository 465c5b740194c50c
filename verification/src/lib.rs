pub mod text;
pub mod util;
pub mod order;
pub mod error;
pub mod api_error;
pub mod json;
pub mod scopes;
pub mod behavior;
pub mod manifest;
pub mod env;
pub mod cache_control;
pub mod records;
pub mod merge;
pub mod model;
pub mod projection;
pub mod runtime_behavior;
pub mod record_store;
pub mod actor;
pub mod runtime;
pub mod reminder_index;
pub mod sync;
pub mod sorting;
pub mod chat_log;
pub mod metrics;
pub mod endpoints;
pub mod topology;
pub mod schema_replay;
pub mod users;
pub mod wal;
pub mod batch_ids;
pub mod projection_rebuild;
pub mod continuation;
pub mod predicate_fields;
pub mod predicate_match;
pub mod failover;
pub mod sync_wait;
pub mod index_query;
pub mod record_checks;
pub mod topology_lease;
pub mod topology_proposals;
pub mod topology_overrides;
pub mod handoff_workflows;
pub mod shard_controls;
pub mod wal_replication;
pub mod wal_archive;
pub mod reminder_requests;
pub mod transaction_plan;
pub mod readiness;
pub mod runtime_drain;
pub mod schema_proposals;
pub mod record_batches;
pub mod record_commits;
pub mod predicate_scans;
pub mod wal_maintenance;
pub mod controllers;
pub mod schema_apply;
pub mod record_queries;
pub mod metrics_snapshot;
