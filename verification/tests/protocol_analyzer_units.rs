use librepods_core::protocol_analyzer::ProtocolAnalyzer;

#[test]
fn protocol_analyzer_test_analyzer_creation() {
    let analyzer = ProtocolAnalyzer::new();
    assert_eq!(analyzer.message_types().len(), 15);
    assert_eq!(analyzer.uuids().len(), 4);
    assert_eq!(analyzer.features().len(), 15);
}

#[test]
fn test_analyze_known_message_types() {
    let analyzer = ProtocolAnalyzer::new();
    let types = vec![0x01, 0x02, 0x03];
    let (known, unknown) = analyzer.analyze_message_types(types);
    assert_eq!(known.len(), 3);
    assert_eq!(unknown.len(), 0);
}

#[test]
fn test_analyze_unknown_message_types() {
    let analyzer = ProtocolAnalyzer::new();
    let types = vec![0x01, 0xFF, 0xFE];
    let (known, unknown) = analyzer.analyze_message_types(types);
    assert_eq!(known.len(), 1);
    assert_eq!(unknown.len(), 2);
}

#[test]
fn test_get_message_type_name() {
    let analyzer = ProtocolAnalyzer::new();
    let name = analyzer.get_message_type_name(0x01);
    assert_eq!(name, Some("BatteryStatus".to_string()));
}

#[test]
fn test_is_known_message_type() {
    let analyzer = ProtocolAnalyzer::new();
    assert!(analyzer.is_known_message_type(0x01));
    assert!(!analyzer.is_known_message_type(0xFF));
}

#[test]
fn test_detect_drift() {
    let analyzer = ProtocolAnalyzer::new();
    let types = vec![0x01, 0x02];
    let uuids = vec!["7DFC9000-7D1C-4951-86AA-8D9728F8D66C".to_string()];
    assert!(!analyzer.detect_drift(types, uuids));

    let types_with_unknown = vec![0x01, 0xFF];
    let uuids_with_unknown = vec!["UNKNOWN-UUID".to_string()];
    assert!(analyzer.detect_drift(types_with_unknown, uuids_with_unknown));
}
