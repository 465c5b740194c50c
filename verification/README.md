# nextdb_server

The request logic of a NextDB server node, verified with Verus.

`src/` holds the library. Each function states in its contract what it
returns for every input, over spec functions and views, and Verus proves it.
The library covers these parts of a node:

- record paths, identities, batches and transactions (`records`,
  `record_batches`, `record_commits`, `transaction_plan`, `record_checks`);
- record queries: parsing index values, planning index and list queries,
  merging hot records with stored pages, and predicate scans (`index_query`,
  `record_queries`, `merge`, `predicate_scans`, `predicate_fields`,
  `predicate_match`);
- sync pages and sync waits (`sync`, `sync_wait`);
- the write-ahead log: replication fences, archive retention, checksum
  seals, and repair (`wal`, `wal_replication`, `wal_archive`,
  `wal_maintenance`);
- cluster topology: leases, proposals, overrides, failover and handoff plans,
  the controllers, and shard freezes (`topology*`, `failover`,
  `handoff_workflows`, `controllers`, `shard_controls`);
- schemas: replay, proposals and applies (`schema_replay`,
  `schema_proposals`, `schema_apply`);
- the actor runtime: reminders, activations and behavior commands
  (`runtime`, `reminder_index`, `reminder_requests`, `continuation`,
  `behavior`, `manifest`, `runtime_behavior`);
- users, the chat log, the metrics page and client cache control (`users`,
  `chat_log`, `metrics`, `metrics_snapshot`, `cache_control`).

Laws that span several calls stand in `src/` as public proof functions. For
example, `reminder_index_is_the_same_in_every_order` proves that the reminder
index does not depend on the order of the log,
`reminder_index_holds_the_latest_schedule_of_each_key` what it holds for each
key, and
`batch_transactions_hold_every_operation` proves that a batch's transactions
hold every operation.

`app/` is ordinary Rust around the library: clocks, files, JSON through
`serde_json`, and the loops that wait on I/O. Verus does not read it.

`tests/` runs the library on concrete values.
