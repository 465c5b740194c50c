use nextdb_server::runtime_behavior::{
    BEHAVIOR_EPOCH_DEADLINE_MAX_TICKS, behavior_epoch_deadline_ticks,
};

#[test]
fn behavior_epoch_deadline_ticks_tracks_fuel_budget() {
    assert_eq!(behavior_epoch_deadline_ticks(0), 1);
    assert_eq!(behavior_epoch_deadline_ticks(999), 1);
    assert_eq!(behavior_epoch_deadline_ticks(1_000), 1);
    assert_eq!(behavior_epoch_deadline_ticks(10_000), 10);
    assert_eq!(
        behavior_epoch_deadline_ticks(u64::MAX),
        BEHAVIOR_EPOCH_DEADLINE_MAX_TICKS
    );
    assert_eq!(BEHAVIOR_EPOCH_DEADLINE_MAX_TICKS, 100_000);
}
