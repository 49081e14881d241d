use librepods_core::firmware_analyzer::FirmwareAnalyzer;

#[test]
fn firmware_analyzer_test_analyzer_creation() {
    let analyzer = FirmwareAnalyzer::new();
    assert_eq!(analyzer.versions().len(), 5);
    assert_eq!(analyzer.get_all_device_models().len(), 8);
}

#[test]
fn test_get_firmware_info() {
    let analyzer = FirmwareAnalyzer::new();
    let info = analyzer.get_firmware_info("5E135");
    assert!(info.is_some());
    assert_eq!(info.unwrap().device_model, "AirPodsProGen2");
}

#[test]
fn test_is_known_version() {
    let analyzer = FirmwareAnalyzer::new();
    assert!(analyzer.is_known_version("5E135"));
    assert!(!analyzer.is_known_version("UNKNOWN"));
}

#[test]
fn test_get_latest_version() {
    let analyzer = FirmwareAnalyzer::new();
    let latest = analyzer.get_latest_version();
    assert!(latest.is_some());
}

#[test]
fn firmware_analyzer_test_get_versions_for_model() {
    let analyzer = FirmwareAnalyzer::new();
    let versions = analyzer.get_versions_for_model("AirPodsProGen2");
    assert!(versions.len() > 0);
}

#[test]
fn firmware_analyzer_test_detect_version_changes() {
    let analyzer = FirmwareAnalyzer::new();
    let old = vec!["5E135".to_string(), "5D134".to_string()];
    let new = vec!["5E135".to_string(), "5C133".to_string()];
    let (added, removed) = analyzer.detect_version_changes(old, new);
    assert_eq!(added.len(), 1);
    assert_eq!(removed.len(), 1);
}

#[test]
fn test_is_valid_device_model() {
    let analyzer = FirmwareAnalyzer::new();
    assert!(analyzer.is_valid_device_model("AirPods2"));
    assert!(!analyzer.is_valid_device_model("UnknownModel"));
}

#[test]
fn firmware_analyzer_test_extract_features() {
    let analyzer = FirmwareAnalyzer::new();
    let features = analyzer.extract_features_from_version("5E135");
    assert!(features.len() > 0);
}
