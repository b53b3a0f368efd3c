use network_decisions::types::{
    clamp_decision_buffer_capacity, DEFAULT_DECISION_BUFFER_CAPACITY,
    MAX_DECISION_BUFFER_CAPACITY, MIN_DECISION_BUFFER_CAPACITY,
};
use network_decisions::IpAddr;

#[test]
fn clamp_rejects_zero_and_huge_values() {
    assert_eq!(
        clamp_decision_buffer_capacity(0),
        MIN_DECISION_BUFFER_CAPACITY
    );
    assert_eq!(
        clamp_decision_buffer_capacity(1),
        MIN_DECISION_BUFFER_CAPACITY
    );
    assert_eq!(
        clamp_decision_buffer_capacity(DEFAULT_DECISION_BUFFER_CAPACITY),
        DEFAULT_DECISION_BUFFER_CAPACITY
    );
    assert_eq!(
        clamp_decision_buffer_capacity(usize::MAX),
        MAX_DECISION_BUFFER_CAPACITY
    );
}

#[test]
fn clamp_keeps_the_bounds_of_the_range() {
    assert_eq!(DEFAULT_DECISION_BUFFER_CAPACITY, 4096);
    assert_eq!(clamp_decision_buffer_capacity(15), 16);
    assert_eq!(clamp_decision_buffer_capacity(16), 16);
    assert_eq!(clamp_decision_buffer_capacity(17), 17);
    assert_eq!(clamp_decision_buffer_capacity(99_999), 99_999);
    assert_eq!(clamp_decision_buffer_capacity(100_000), 100_000);
    assert_eq!(clamp_decision_buffer_capacity(100_001), 100_000);
    let once = clamp_decision_buffer_capacity(3);
    assert_eq!(clamp_decision_buffer_capacity(once), once);
}

#[test]
fn ipv4_octets_stand_from_the_most_significant() {
    assert_eq!(IpAddr::v4(1, 2, 3, 4), IpAddr::V4(0x0102_0304));
    assert_eq!(IpAddr::v4(255, 255, 255, 255), IpAddr::V4(u32::MAX));
}
