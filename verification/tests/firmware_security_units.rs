use librepods_core::firmware_security::FirmwareSecurityAnalyzer;
use librepods_core::legal_scan::{FirmwareAnalysis, LegalRisk};

#[test]
fn firmware_security_test_analyzer_creation() {
    let analyzer = FirmwareSecurityAnalyzer::new();
    assert!(!analyzer.apple_firmware_signatures().is_empty());
}

#[test]
fn test_detect_apple_firmware() {
    let analyzer = FirmwareSecurityAnalyzer::new();
    let data = "Copyright Apple Inc. 2025";
    assert!(analyzer.detect_apple_firmware(data));
}

#[test]
fn test_detect_nda_protection() {
    let analyzer = FirmwareSecurityAnalyzer::new();
    let data = "This is NDA protected material";
    assert!(analyzer.detect_nda_protection(data));
}

#[test]
fn test_detect_proprietary() {
    let analyzer = FirmwareSecurityAnalyzer::new();
    let data = "Proprietary firmware code";
    assert!(analyzer.detect_proprietary(data));
}

#[test]
fn test_analyze_firmware() {
    let analyzer = FirmwareSecurityAnalyzer::new();
    let analysis = analyzer.analyze_firmware("Normal firmware data");
    assert!(!analysis.is_apple_firmware);
    assert!(!analysis.is_nda_protected);
    assert!(!analysis.is_proprietary);
}

#[test]
fn test_safe_to_distribute() {
    let analyzer = FirmwareSecurityAnalyzer::new();
    let safe_analysis = FirmwareAnalysis {
        is_proprietary: false,
        is_nda_protected: false,
        is_apple_firmware: false,
        risk_level: LegalRisk::NoRisk,
    };
    assert!(analyzer.is_safe_to_distribute(&safe_analysis));

    let unsafe_analysis = FirmwareAnalysis {
        is_proprietary: true,
        is_nda_protected: false,
        is_apple_firmware: false,
        risk_level: LegalRisk::Critical,
    };
    assert!(!analyzer.is_safe_to_distribute(&unsafe_analysis));
}

#[test]
fn test_risk_assessment() {
    let analyzer = FirmwareSecurityAnalyzer::new();
    let analysis = FirmwareAnalysis {
        is_proprietary: false,
        is_nda_protected: true,
        is_apple_firmware: false,
        risk_level: LegalRisk::Critical,
    };
    let assessment = analyzer.get_risk_assessment(&analysis);
    assert!(assessment.contains("CRITICAL"));
}
