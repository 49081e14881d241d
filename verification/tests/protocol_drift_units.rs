use librepods_core::protocol_drift::{DriftSeverity, DriftStatus, MessageTypeDrift, ProtocolDriftReport};

#[test]
fn protocol_drift_test_report_creation() {
    let report = ProtocolDriftReport::new("1.0.0".to_string(), "1.0.1".to_string());
    assert_eq!(report.base_version, "1.0.0");
    assert_eq!(report.upstream_version, "1.0.1");
    assert!(!report.has_drift);
}

#[test]
fn protocol_drift_test_add_message_type_drift() {
    let mut report = ProtocolDriftReport::new("1.0.0".to_string(), "1.0.1".to_string());
    let drift = MessageTypeDrift {
        opcode: 0x10,
        name: "NewType".to_string(),
        status: DriftStatus::Added,
        previous_version: None,
        current_version: "1.0.1".to_string(),
        breaking_change: false,
    };
    report.add_message_type_drift(drift);
    assert!(report.has_drift);
    assert_eq!(report.total_changes, 1);
}

#[test]
fn test_severity_calculation() {
    let mut report = ProtocolDriftReport::new("1.0.0".to_string(), "1.0.1".to_string());
    for i in 0..5 {
        let drift = MessageTypeDrift {
            opcode: i,
            name: format!("Type{}", i),
            status: DriftStatus::Added,
            previous_version: None,
            current_version: "1.0.1".to_string(),
            breaking_change: false,
        };
        report.add_message_type_drift(drift);
    }
    assert_eq!(report.drift_severity, DriftSeverity::Moderate);
}

#[test]
fn protocol_drift_test_breaking_changes() {
    let mut report = ProtocolDriftReport::new("1.0.0".to_string(), "1.0.1".to_string());
    let drift = MessageTypeDrift {
        opcode: 0x10,
        name: "RemovedType".to_string(),
        status: DriftStatus::Removed,
        previous_version: Some("1.0.0".to_string()),
        current_version: "1.0.1".to_string(),
        breaking_change: true,
    };
    report.add_message_type_drift(drift);
    assert_eq!(report.breaking_changes, 1);
}
