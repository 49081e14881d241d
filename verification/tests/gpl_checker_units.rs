use librepods_core::gpl_checker::GPLChecker;
use librepods_core::legal_scan::{LicenseHeader, LicenseType};

#[test]
fn gpl_checker_test_checker_creation() {
    let checker = GPLChecker::new();
    assert_eq!(checker.required_header(), "GPL-3.0-or-later WITH Classpath-exception-2.0");
}

#[test]
fn test_check_license_header() {
    let checker = GPLChecker::new();
    let content = "// GPL-3.0 License\n// Copyright 2025";
    let header = checker.check_license_header("test.rs", content);
    assert!(header.has_header);
    assert_eq!(header.license_type, LicenseType::GPL3);
}

#[test]
fn test_license_compatibility() {
    let checker = GPLChecker::new();
    assert!(checker.check_license_compatibility("GPL-3.0"));
    assert!(checker.check_license_compatibility("MIT"));
    assert!(!checker.check_license_compatibility("Proprietary"));
}

#[test]
fn test_verify_headers() {
    let checker = GPLChecker::new();
    let files = vec![
        LicenseHeader {
            file_path: "file1.rs".to_string(),
            has_header: true,
            license_type: LicenseType::GPL3,
            year: Some("2025".to_string()),
            author: None,
        },
        LicenseHeader {
            file_path: "file2.rs".to_string(),
            has_header: false,
            license_type: LicenseType::Unknown,
            year: None,
            author: None,
        },
    ];
    let (with, total) = checker.verify_all_files_have_headers(files);
    assert_eq!(with, 1);
    assert_eq!(total, 2);
}

#[test]
fn test_check_violations() {
    let checker = GPLChecker::new();
    let files = vec![LicenseHeader {
        file_path: "test.rs".to_string(),
        has_header: false,
        license_type: LicenseType::Unknown,
        year: None,
        author: None,
    }];
    let violations = checker.check_for_violations(files);
    assert_eq!(violations.len(), 1);
}

#[test]
fn test_dependency_licenses() {
    let checker = GPLChecker::new();
    let deps = vec![
        ("serde".to_string(), "MIT".to_string()),
        ("proprietary-lib".to_string(), "Proprietary".to_string()),
    ];
    let violations = checker.check_dependency_licenses(deps);
    assert_eq!(violations.len(), 1);
}
