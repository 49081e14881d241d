use librepods_core::protocol_comparator::ProtocolComparator;
use librepods_core::protocol_drift::DriftStatus;

#[test]
fn test_comparator_creation() {
    let comparator = ProtocolComparator::new();
    assert_eq!(comparator.get_base_message_types().len(), 15);
    assert_eq!(comparator.get_base_uuids().len(), 4);
    assert_eq!(comparator.get_base_features().len(), 15);
}

#[test]
fn test_no_drift() {
    let comparator = ProtocolComparator::new();
    let upstream = comparator.get_base_message_types().clone();
    let drifts = comparator.compare_message_types(upstream);
    assert_eq!(drifts.len(), 0);
}

#[test]
fn test_added_message_type() {
    let comparator = ProtocolComparator::new();
    let mut upstream = comparator.get_base_message_types().clone();
    upstream.insert(0x20, "NewType".to_string());
    let drifts = comparator.compare_message_types(upstream);
    assert!(drifts.iter().any(|d| d.status == DriftStatus::Added));
}

#[test]
fn test_removed_message_type() {
    let comparator = ProtocolComparator::new();
    let mut upstream = comparator.get_base_message_types().clone();
    upstream.remove(&0x01);
    let drifts = comparator.compare_message_types(upstream);
    assert!(drifts.iter().any(|d| d.status == DriftStatus::Removed));
}

#[test]
fn test_uuid_drift() {
    let comparator = ProtocolComparator::new();
    let mut upstream = comparator.get_base_uuids().clone();
    upstream.insert("NEW-UUID".to_string(), "NewService".to_string());
    let drifts = comparator.compare_uuids(upstream);
    assert!(drifts.len() > 0);
}

#[test]
fn test_feature_drift() {
    let comparator = ProtocolComparator::new();
    let mut upstream = comparator.get_base_features().clone();
    upstream.insert("NewFeature".to_string());
    let drifts = comparator.compare_features(upstream);
    assert!(drifts.len() > 0);
}
