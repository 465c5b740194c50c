use nextdb_server::behavior::BehaviorAbiEncoding;
use nextdb_server::metrics::{
    BehaviorCounterField, bool_metric, push_behavior_counter_metrics, push_labeled_behavior_counter,
    push_metric, push_metric_help, push_metric_label_value, push_metric_type,
};
use nextdb_server::runtime_behavior::{
    BehaviorRuntimeBehaviorStatus, BehaviorRuntimeConfig, BehaviorRuntimeCounterSnapshot,
    BehaviorRuntimeStatus,
};

fn counters(invocations: u64) -> BehaviorRuntimeCounterSnapshot {
    let mut c = BehaviorRuntimeCounterSnapshot::zero();
    c.invocations = invocations;
    c
}

fn status() -> BehaviorRuntimeStatus {
    BehaviorRuntimeStatus {
        epoch: 1,
        behavior_count: 1,
        fuel_enabled: true,
        instance_pool_max: 4,
        pooled_instances: 0,
        counters: counters(3),
        config: BehaviorRuntimeConfig {
            fuel_enabled: true,
            instance_pool_max: 4,
            pooling_total_core_instances: 128,
            pooling_total_memories: 128,
            pooling_total_tables: 128,
        },
        behaviors: vec![BehaviorRuntimeBehaviorStatus {
            name: "chat\"bot".to_string(),
            version: "v1".to_string(),
            epoch: 1,
            pooled_instances: 0,
            instance_pool_max: 4,
            max_fuel: 10,
            fuel_enabled: true,
            abi_encoding: BehaviorAbiEncoding::Json,
            counters: counters(2),
        }],
    }
}

#[test]
fn metric_lines_have_the_prometheus_shape() {
    let mut out = String::new();
    push_metric_help(&mut out, "nextdb_up", "NextDB process health.");
    push_metric_type(&mut out, "nextdb_up", "gauge");
    push_metric(&mut out, "nextdb_up", &vec![], 1);
    push_metric(
        &mut out,
        "nextdb_shard_lsn",
        &vec![("shard".to_string(), "0".to_string()), ("node".to_string(), "a\\b".to_string())],
        42,
    );
    assert_eq!(
        out,
        "# HELP nextdb_up NextDB process health.\n# TYPE nextdb_up gauge\nnextdb_up 1\nnextdb_shard_lsn{shard=\"0\",node=\"a\\\\b\"} 42\n"
    );
}

#[test]
fn label_values_escape_backslash_quote_and_newline() {
    let mut out = String::new();
    push_metric_label_value(&mut out, "a\"b\\c\nd");
    assert_eq!(out, "a\\\"b\\\\c\\nd");
    assert_eq!(bool_metric(true), 1);
    assert_eq!(bool_metric(false), 0);
}

#[test]
fn behavior_counters_report_totals_and_each_behavior() {
    let mut out = String::new();
    push_labeled_behavior_counter(&mut out, "x_total", &status(), BehaviorCounterField::Invocations);
    assert_eq!(out, "x_total 3\nx_total{behavior=\"chat\\\"bot\"} 2\n");

    let mut out = String::new();
    push_behavior_counter_metrics(&mut out, &status());
    assert!(out.starts_with(
        "# HELP nextdb_behavior_invocations_total Total loaded behavior invocation attempts.\n# TYPE nextdb_behavior_invocations_total counter\nnextdb_behavior_invocations_total 3\n"
    ));
    assert_eq!(out.matches("# TYPE ").count(), 8);
    assert!(out.ends_with("nextdb_behavior_instances_discarded_total{behavior=\"chat\\\"bot\"} 0\n"));
}
