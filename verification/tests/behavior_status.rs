use nextdb_server::behavior::BehaviorAbiEncoding;
use nextdb_server::runtime_behavior::{
    BehaviorRuntimeBehaviorStatus, BehaviorRuntimeConfig, BehaviorRuntimeCounterSnapshot, behavior_runtime_status,
};

fn behavior(name: &str, pooled: usize, invocations: u64, guest_errors: u64) -> BehaviorRuntimeBehaviorStatus {
    let mut counters = BehaviorRuntimeCounterSnapshot::zero();
    counters.invocations = invocations;
    counters.guest_errors = guest_errors;
    BehaviorRuntimeBehaviorStatus {
        name: name.to_string(),
        version: "v1".to_string(),
        epoch: 2,
        pooled_instances: pooled,
        instance_pool_max: 4,
        max_fuel: 10,
        fuel_enabled: true,
        abi_encoding: BehaviorAbiEncoding::Json,
        counters,
    }
}

#[test]
fn the_runtime_status_sums_its_behaviors_sorted_by_name() {
    let config = BehaviorRuntimeConfig {
        fuel_enabled: false,
        instance_pool_max: 4,
        pooling_total_core_instances: 8,
        pooling_total_memories: 8,
        pooling_total_tables: 8,
    };
    let status = behavior_runtime_status(
        7,
        config,
        vec![behavior("zeta", 1, 5, 1), behavior("alpha", 2, 3, 0), behavior("mid", 0, 1, 2)],
    );
    assert_eq!(status.epoch, 7);
    assert_eq!(status.behavior_count, 3);
    assert!(!status.fuel_enabled);
    assert_eq!(status.instance_pool_max, 4);
    assert_eq!(status.pooled_instances, 3);
    assert_eq!(status.counters.invocations, 9);
    assert_eq!(status.counters.guest_errors, 3);
    let names: Vec<&str> = status.behaviors.iter().map(|b| b.name.as_str()).collect();
    assert_eq!(names, vec!["alpha", "mid", "zeta"]);
}
