use librepods_core::firmware_version_analyzer::FirmwareVersionAnalyzer;

#[test]
fn firmware_version_analyzer_test_analyzer_creation() {
    let analyzer = FirmwareVersionAnalyzer::new();
    assert!(analyzer.versions().len() > 0);
}

#[test]
fn test_get_version_info() {
    let analyzer = FirmwareVersionAnalyzer::new();
    let info = analyzer.get_version_info("5E135");
    assert!(info.is_some());
}

#[test]
fn firmware_version_analyzer_test_detect_version_changes() {
    let analyzer = FirmwareVersionAnalyzer::new();
    let old = vec!["5E135".to_string(), "5D134".to_string()];
    let new = vec!["5E135".to_string(), "5C133".to_string()];
    let changes = analyzer.detect_version_changes(old, new);
    assert!(changes.len() > 0);
}

#[test]
fn firmware_version_analyzer_test_get_versions_for_model() {
    let analyzer = FirmwareVersionAnalyzer::new();
    let versions = analyzer.get_versions_for_model("AirPodsProGen2");
    assert!(versions.len() > 0);
}

#[test]
fn test_compare_feature_sets() {
    let analyzer = FirmwareVersionAnalyzer::new();
    let (added, removed) = analyzer.compare_feature_sets("5D134", "5E135");
    assert_eq!(added.len(), 1);
    assert_eq!(removed.len(), 0);
}

#[test]
fn firmware_version_analyzer_test_extract_features() {
    let analyzer = FirmwareVersionAnalyzer::new();
    let features = analyzer.extract_features_from_version("5E135");
    assert!(features.len() > 0);
}
