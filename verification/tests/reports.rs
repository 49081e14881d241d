use librepods_core::change_applier::{AppliedChange, ChangeApplier, ChangeLog, ChangeType};
use librepods_core::ci_pipeline::{CIPipeline, PipelineStage, StageStatus};
use librepods_core::codebase_diff::{CodebaseDiffReport, DiffHunk, FileDiff, FileStatus, MergeDecision};
use librepods_core::collections::TextMap;
use librepods_core::coverage_analyzer::{CoverageAnalyzer, CoverageMetrics, CoverageReport};
use librepods_core::dmca_scanner::DMCAScanner;
use librepods_core::firmware_analyzer::{select_fresh, FirmwareAnalyzer, FirmwareInfo};
use librepods_core::firmware_security::FirmwareSecurityAnalyzer;
use librepods_core::firmware_version_analyzer::{FirmwareVersionAnalyzer, VersionChangeType};
use librepods_core::gpl_checker::GPLChecker;
use librepods_core::ingestion::DataIngestionEngine;
use librepods_core::legal_scan::{LegalRisk, LegalScanResult, LicenseHeader, LicenseType, TrademarkUsage};
use librepods_core::merge_planner::MergePlanner;
use librepods_core::protocol_analyzer::ProtocolAnalyzer;
use librepods_core::protocol_comparator::{compare_listed_types, ProtocolComparator};
use librepods_core::protocol_drift::{DriftSeverity, DriftStatus, MessageTypeDrift, ProtocolDriftReport};
use librepods_core::release_manager::{ArtifactType, Release, ReleaseArtifact, ReleaseManager, ReleaseVersion};
use librepods_core::release_notes::{ChangeEntry, ReleaseNotes};
use librepods_core::sbom_generator::{Component, ComponentType, SBOM};
use librepods_core::test_runner::{TestCase, TestRunner, TestStatus, TestSuite, TestSuiteType};
use librepods_core::three_way_diff::{MergeStatus, ThreeWayDiffAnalyzer};
use librepods_core::trademark_checker::TrademarkChecker;
use librepods_core::upstream::{Commit, FirmwareVersion};

fn s(text: &str) -> String {
    text.to_string()
}

fn strings(items: &[&str]) -> Vec<String> {
    items.iter().map(|t| t.to_string()).collect()
}

#[test]
fn ingestion_report_cuts_the_hash_after_eight_bytes() {
    let mut engine = DataIngestionEngine::new();
    engine
        .ingest_commits(vec![
            Commit {
                sha: s("éüöä1234"),
                message: s("m"),
                author: s("a"),
                date: s("2025-11-21"),
                url: s("u"),
            },
            Commit {
                sha: s("ffffffffffff"),
                message: s("m"),
                author: s("a"),
                date: s("2025-11-22"),
                url: s("u"),
            },
        ])
        .unwrap();
    let report = engine.generate_ingestion_report();
    assert!(report.starts_with("=== UPSTREAM DATA INGESTION REPORT ===\n\n"));
    assert!(report.contains("Latest Commits: 2\n  Latest: éüöä (2025-11-21)\n\nLatest Releases: 0\n"));
}

#[test]
fn ingestion_report_is_exact() {
    let mut engine = DataIngestionEngine::new();
    engine
        .ingest_repository_metadata(
            s("pods"), s("me/pods"), s("me"), s("u"), s("d"), 12, 3, 0, s("Rust"), s("GPL-3.0"),
            s("x"), s("y"),
        )
        .unwrap();
    engine
        .ingest_commits(vec![Commit {
            sha: s("a06c6734005d52dd"),
            message: s("m"),
            author: s("a"),
            date: s("2025-11-21"),
            url: s("u"),
        }])
        .unwrap();
    engine.detect_new_message_types(strings(&["T1", "T2", "T3"])).unwrap();
    let mut deps = TextMap::new();
    deps.insert(s("serde"), s("1.0"));
    deps.insert(s("crc"), s("3"));
    engine.ingest_dependency_changes(deps).unwrap();
    engine
        .ingest_firmware_versions(vec![FirmwareVersion {
            version: s("5E135"),
            device_model: s("AirPodsProGen2"),
            release_date: s("2025-11-21"),
            features: strings(&["ANC"]),
        }])
        .unwrap();
    assert_eq!(engine.get_firmware_by_version("5E135").unwrap().features, strings(&["ANC"]));
    assert!(engine.get_firmware_by_version("none").is_none());
    engine.get_diff_mut().last_sync = s("now");
    assert_eq!(
        engine.generate_ingestion_report(),
        "=== UPSTREAM DATA INGESTION REPORT ===\n\n\
         Repository: me/pods\nOwner: me\nStars: 12\nForks: 3\nOpen Issues: 0\n\n\
         Latest Commits: 1\n  Latest: a06c6734 (2025-11-21)\n\
         \nLatest Releases: 0\n\
         \nTags: 0\nFirmware Versions: 1\n\
         \nProtocol Drift: true\nBreaking Changes: true\n\
         \nNew Message Types: 3\n  - T1\n  - T2\n  - T3\n\
         \nNew UUIDs: 0\n\
         \nNew Features: 0\n\
         \nDependency Changes: 2\n  - serde: 1.0\n  - crc: 3\n\
         \nLast Sync: now\n"
    );
}

#[test]
fn protocol_analysis_report_is_exact() {
    let analyzer = ProtocolAnalyzer::new();
    assert_eq!(analyzer.get_message_type_name(0x0F), Some(s("HeadGestures")));
    assert_eq!(analyzer.get_message_type_name(0x10), None);
    assert_eq!(analyzer.get_uuid_name("180A"), Some(s("DEVICE_INFO_SERVICE")));
    assert!(analyzer.is_known_uuid("7DFC9001-7D1C-4951-86AA-8D9728F8D66C"));
    assert!(analyzer.is_known_feature("Multipoint"));
    assert!(!analyzer.is_known_feature("Teleport"));
    assert_eq!(analyzer.get_all_message_types().len(), 15);
    let mut all = analyzer.get_all_message_types();
    all.sort();
    assert_eq!(all[9], (10, s("DeviceRename")));
    assert_eq!(all.iter().map(|e| e.0).collect::<Vec<u8>>(), (1..=15).collect::<Vec<u8>>());
    assert_eq!(analyzer.get_all_uuids()[2], (s("180F"), s("BATTERY_SERVICE")));
    assert_eq!(analyzer.get_all_features()[0], "BatteryMonitoring");
    assert_eq!(analyzer.get_all_features()[14], "SpatialAudio");
    let (known, unknown) = analyzer.analyze_features(strings(&["FindMy", "X", "HeartRate"]));
    assert_eq!(known, strings(&["FindMy", "HeartRate"]));
    assert_eq!(unknown, strings(&["X"]));
    assert_eq!(
        analyzer.generate_analysis_report(vec![1, 0xFE, 2, 0x10], strings(&["180F", "X"])),
        "=== PROTOCOL ANALYSIS REPORT ===\n\n\
         Message Types:\n  Known: 2\n  Unknown: 2\n\n\
         \x20 New Message Types:\n    - 0xFE\n    - 0x10\n\n\
         UUIDs:\n  Known: 1\n  Unknown: 1\n\n\
         \x20 New UUIDs:\n    - X\n\n\
         Protocol Drift: false\n"
    );
    assert_eq!(
        analyzer.generate_analysis_report(vec![], vec![]),
        "=== PROTOCOL ANALYSIS REPORT ===\n\nMessage Types:\n  Known: 0\n  Unknown: 0\n\n\
         UUIDs:\n  Known: 0\n  Unknown: 0\n\nProtocol Drift: false\n"
    );
}

#[test]
fn firmware_reports_are_exact() {
    let rows = "  5E135 (AirPodsProGen2) - 2025-11-21\n  5D134 (AirPodsProGen2) - 2025-10-15\n\
                \x20 5C133 (AirPodsMax) - 2025-09-20\n  5B132 (AirPods4) - 2025-08-10\n\
                \x20 5A131 (AirPods3) - 2025-07-05\n";
    let analyzer = FirmwareAnalyzer::new();
    assert_eq!(
        analyzer.generate_firmware_report(),
        format!(
            "=== FIRMWARE ANALYSIS REPORT ===\n\nKnown Versions: 5\nDevice Models: 8\n\n\
             Latest Version: 5E135\nDevice: AirPodsProGen2\nRelease Date: 2025-11-21\n\
             Features: 3\n\n  - BatteryMonitoring\n  - ANC\n  - SpatialAudio\n\
             \nAll Known Versions:\n{}",
            rows
        )
    );
    assert_eq!(analyzer.get_firmware_info("5C133").unwrap().build_number, "BUILD_5C133");
    assert_eq!(analyzer.get_all_known_versions(), strings(&["5E135", "5D134", "5C133", "5B132", "5A131"]));
    assert_eq!(analyzer.get_versions_for_model("AirPodsProGen2").len(), 2);
    assert_eq!(analyzer.get_versions_for_model("AirPods2").len(), 0);

    let versions = FirmwareVersionAnalyzer::new();
    assert_eq!(
        versions.generate_version_report(),
        format!(
            "=== FIRMWARE VERSION ANALYSIS ===\n\nKnown Versions: 5\n\
             \nLatest Version: 5E135\nDevice: AirPodsProGen2\nRelease Date: 2025-11-21\n\
             Protocol Version: 1.0.0\nFeatures: 3\n\nAll Known Versions:\n{}",
            rows
        )
    );
}

#[test]
fn latest_version_is_the_last_of_the_latest_dates() {
    let mut analyzer = FirmwareAnalyzer::new();
    for (version, date) in [("6A1", "2026-01-01"), ("6A2", "2026-01-01"), ("4Z9", "2024-01-01")] {
        analyzer.add_firmware_version(FirmwareInfo {
            version: s(version),
            device_model: s("AirPods4"),
            release_date: s(date),
            features: vec![],
            build_number: s("b"),
        });
    }
    assert_eq!(analyzer.get_latest_version().unwrap().version, "6A2");
    let report = analyzer.generate_firmware_report();
    let first = report.find("  6A1 (").unwrap();
    let second = report.find("  6A2 (").unwrap();
    assert!(first < second);
    assert!(report.ends_with("  4Z9 (AirPods4) - 2024-01-01\n"));
    assert_eq!(
        select_fresh(&strings(&["b", "a", "b", "c"]), &strings(&["a"])),
        strings(&["b", "c"])
    );
    let (added, removed) =
        analyzer.detect_version_changes(strings(&["1", "2", "2"]), strings(&["2", "3", "3"]));
    assert_eq!(added, strings(&["3"]));
    assert_eq!(removed, strings(&["1"]));
}

#[test]
fn version_changes_and_feature_sets_are_exact() {
    let analyzer = FirmwareVersionAnalyzer::new();
    assert_eq!(analyzer.determine_change_type("1.0.0"), VersionChangeType::Major);
    assert_eq!(analyzer.determine_change_type("0.2.0"), VersionChangeType::Minor);
    assert_eq!(analyzer.determine_change_type("0.0.9"), VersionChangeType::Patch);
    assert_eq!(analyzer.determine_change_type("0.0"), VersionChangeType::Patch);
    assert_eq!(analyzer.determine_change_type("5E135"), VersionChangeType::Unknown);
    assert_eq!(analyzer.determine_change_type("1.x"), VersionChangeType::Unknown);
    assert_eq!(analyzer.determine_change_type(""), VersionChangeType::Unknown);

    let changes = analyzer.detect_version_changes(
        strings(&["5E135", "5D134", "gone"]),
        strings(&["5E135", "5C133", "new"]),
    );
    assert_eq!(changes.len(), 2);
    assert_eq!(changes[0].old_version, "N/A");
    assert_eq!(changes[0].new_version, "5C133");
    assert_eq!(changes[0].device_model, "AirPodsMax");
    assert_eq!(changes[0].change_type, VersionChangeType::Unknown);
    assert!(!changes[0].is_breaking);
    assert_eq!(changes[1].old_version, "5D134");
    assert_eq!(changes[1].new_version, "N/A");
    assert!(changes[1].is_breaking);

    let (added, removed) = analyzer.compare_feature_sets("5D134", "5C133");
    assert_eq!(added, strings(&["AdaptiveTransparency"]));
    assert!(removed.is_empty());
    let (added, removed) = analyzer.compare_feature_sets("5E135", "unknown");
    assert!(added.is_empty());
    assert_eq!(removed, strings(&["BatteryMonitoring", "ANC", "SpatialAudio"]));
}

#[test]
fn legal_scan_report_is_exact() {
    let mut scan = LegalScanResult::new();
    assert_eq!(
        scan.generate_report("0.0"),
        "=== LEGAL SCAN REPORT ===\n\nScan Date: 2025-11-21T23:55:00Z\nOverall Risk Level: None\n\
         Safe to Distribute: true\n\nDMCA Notices: 0\n\nGPL Violations: 0\n\nLicense Headers: 0\n\
         \x20 Consistency: 0.0%\n\nTrademark Usage: 0\n\nFirmware Analysis:\n  Proprietary: false\n\
         \x20 NDA Protected: false\n  Apple Firmware: false\n\nFindings: 0\n\nRecommendations: 0\n"
    );
    for (has_header, license_type) in
        [(true, LicenseType::GPL3), (true, LicenseType::MIT), (false, LicenseType::GPL3)]
    {
        scan.add_license_header(LicenseHeader {
            file_path: s("f"),
            has_header,
            license_type,
            year: None,
            author: None,
        });
    }
    assert_eq!(scan.count_consistent_headers(), 1);
    scan.add_trademark_usage(TrademarkUsage {
        term: s("Apple"),
        context: s("brand name"),
        compliant: false,
        reason: s("r"),
    });
    assert_eq!(scan.findings, strings(&["Non-compliant trademark usage: Apple"]));
    assert!(!scan.has_critical_issues());
    let report = scan.generate_report("33.3");
    assert!(report.contains("License Headers: 3\n  Consistency: 33.3%\n"));
    assert!(report.contains("Trademark Usage: 1\n  ✗ Apple\n"));
    assert!(report.contains("Findings: 1\n  - Non-compliant trademark usage: Apple\n"));
    assert_eq!(LegalRisk::High.rank(), 3);
    assert_eq!(LegalRisk::NoRisk.name(), "None");
}

#[test]
fn firmware_security_report_is_exact() {
    let analyzer = FirmwareSecurityAnalyzer::new();
    let analysis = analyzer.analyze_firmware("Copyright Apple Inc. 2025");
    assert!(analysis.is_apple_firmware && !analysis.is_nda_protected && !analysis.is_proprietary);
    assert_eq!(analysis.risk_level, LegalRisk::High);
    assert_eq!(
        analyzer.generate_firmware_report(&analysis),
        "=== FIRMWARE SECURITY ANALYSIS ===\n\nApple Firmware: true\nNDA Protected: false\n\
         Proprietary: false\nRisk Level: High\nSafe to Distribute: false\n\n\
         Assessment: HIGH: Apple firmware detected\n"
    );
    let file = analyzer.check_firmware_file("fw/image.bin", "plain");
    assert!(file.is_proprietary);
    assert_eq!(file.risk_level, LegalRisk::NoRisk);
    assert!(!analyzer.check_firmware_file("fw/image.txt", "plain").is_proprietary);
    assert!(analyzer.check_firmware_file("a.hex", "").is_proprietary);
    let bundle = analyzer.scan_firmware_bundle(vec![(s("a.bin"), s("x")), (s("b"), s("NDA"))]);
    assert_eq!(bundle.len(), 2);
    assert!(bundle[0].is_proprietary && !bundle[0].is_nda_protected);
    assert!(bundle[1].is_nda_protected && bundle[1].risk_level == LegalRisk::Critical);
    assert!(!analyzer.detect_nda_protection("nda in lower case"));
}

#[test]
fn dmca_report_is_exact_and_searches_in_lowercase() {
    let mut scanner = DMCAScanner::new();
    assert_eq!(
        scanner.generate_dmca_report("test-repo", "This is PROPRIETARY and Confidential"),
        "=== DMCA SCAN REPORT ===\n\nRepository: test-repo\nSafe: true\n\nNotices Found: 2\n\
         \x20 - Flagged keyword detected: proprietary (Review)\n\
         \x20 - Flagged keyword detected: confidential (Review)\n"
    );
    assert!(scanner.scan_lowered("r", "PROPRIETARY").is_empty());
    assert_eq!(scanner.scan_repository("r", "PROPRIETARY").len(), 1);
    scanner.add_blocked_repository(s("bad"));
    let notices = scanner.scan_repository("bad", "nothing to see");
    assert_eq!(notices.len(), 1);
    assert_eq!(notices[0].reason, "Repository is on blocked list");
    assert_eq!(notices[0].status, "Active");
    assert_eq!(notices[0].date, "2025-11-21");
    assert_eq!(notices[0].repository, "bad");
    assert!(scanner.check_for_takedown("bad"));
    assert!(scanner.get_notice("bad").is_none());
    assert_eq!(
        scanner.scan_commit_messages(strings(&["Fix", "Add NDA text", "restricted area", "ok"])),
        strings(&["Add NDA text", "restricted area"])
    );
    assert!(scanner.is_flagged("a trade secret"));
    assert!(!scanner.is_flagged("A TRADE SECRET"));
}

#[test]
fn gpl_checker_reads_headers_and_reports_exactly() {
    let checker = GPLChecker::new();
    let header = checker.check_license_header(
        "a.rs",
        "// GPL-3.0 License\n// Copyright  2025 by us\n// Author:  Jo Doe : more\n",
    );
    assert!(header.has_header);
    assert_eq!(header.year, Some(s("2025")));
    assert_eq!(header.author, Some(s("Jo Doe")));
    let header = checker.check_license_header("b.rs", "x2021 only\nno colon author\nauthor: me");
    assert!(!header.has_header);
    assert_eq!(header.license_type, LicenseType::Unknown);
    assert_eq!(header.year, None);
    assert_eq!(header.author, Some(s("me")));
    let far = format!("{}2025\n", "\n".repeat(20));
    assert_eq!(checker.extract_year(&far), None);
    let near = format!("{}2025\n", "\n".repeat(19));
    assert_eq!(checker.extract_year(&near), Some(s("2025")));
    assert!(!checker.check_license_compatibility("GPL-2.0"));
    assert!(!checker.check_license_compatibility("WTFPL"));
    assert!(checker.check_license_compatibility("Apache-2.0"));

    let files = vec![
        LicenseHeader { file_path: s("file1.rs"), has_header: true, license_type: LicenseType::GPL3, year: None, author: None },
        LicenseHeader { file_path: s("file2.rs"), has_header: false, license_type: LicenseType::Unknown, year: None, author: None },
        LicenseHeader { file_path: s("file3.rs"), has_header: true, license_type: LicenseType::MIT, year: None, author: None },
    ];
    assert_eq!(
        checker.generate_gpl_report(files, "66.7"),
        "=== GPL COMPLIANCE REPORT ===\n\nFiles with GPL headers: 2/3 (66.7%)\n\
         Violations found: 2\n\n  file2.rs (Missing GPL header)\n\
         \x20   File does not contain GPL-3.0 license header\n  file3.rs (Incompatible license)\n\
         \x20   File has MIT license, expected GPL-3.0\n"
    );
    assert_eq!(
        checker.generate_gpl_report(vec![], "NaN"),
        "=== GPL COMPLIANCE REPORT ===\n\nFiles with GPL headers: 0/0 (NaN%)\nViolations found: 0\n\n"
    );
    let violations = checker.check_dependency_licenses(vec![(s("lib"), s("Proprietary"))]);
    assert_eq!(violations[0].file, "Cargo.toml (lib)");
    assert_eq!(violations[0].description, "Dependency lib has incompatible license: Proprietary");
    assert_eq!(violations[0].severity, LegalRisk::High);
}

#[test]
fn trademark_checker_judges_contexts_and_reports_exactly() {
    let checker = TrademarkChecker::new();
    assert!(checker.check_trademark_usage("AirPods", "A Descriptive Use").compliant);
    assert!(!checker.check_usage_lowered("AirPods", "x", "A Descriptive Use").compliant);
    assert!(!checker.check_trademark_usage("AirPods", "descriptive use as brand name").compliant);
    assert!(!checker.check_trademark_usage("Apple", "nominative use").compliant);
    let free = checker.check_trademark_usage("Pods", "anything");
    assert!(free.compliant);
    assert_eq!(free.reason, "Trademark not in protected list");
    assert_eq!(checker.extract_context("one\nwith AirPods here\nAirPods again", "AirPods"), "with AirPods here");
    assert_eq!(checker.extract_context("nothing", "AirPods"), "AirPods");
    let usages = checker.scan_text("Apple makes them\nnominative use of AirPods");
    assert_eq!(usages.len(), 2);
    assert_eq!(usages[0].term, "AirPods");
    assert_eq!(usages[0].context, "nominative use of AirPods");
    assert!(usages[0].compliant);
    assert_eq!(usages[1].term, "Apple");
    assert!(!usages[1].compliant);
    assert!(checker.is_descriptive_use("COMPATIBILITY list"));
    assert!(!checker.mentions_descriptive_use("COMPATIBILITY list"));
    assert!(!checker.is_nominative_use("descriptive"));
    assert_eq!(
        checker.generate_trademark_report(usages),
        "=== TRADEMARK COMPLIANCE REPORT ===\n\nCompliant usages: 1/2\n\n\
         ✓ AirPods\n  Context: nominative use of AirPods\n\
         \x20 Reason: Usage is compliant with trademark policy\n\n\
         ✗ Apple\n  Context: Apple makes them\n  Reason: Usage may violate trademark policy\n\n"
    );
}

#[test]
fn drift_report_is_exact() {
    let mut report = ProtocolDriftReport::new(s("1.0.0"), s("1.1.0"));
    report.add_message_type_drift(MessageTypeDrift {
        opcode: 0x1A,
        name: s("New"),
        status: DriftStatus::Added,
        previous_version: None,
        current_version: s("New"),
        breaking_change: false,
    });
    report.add_recommendation(s("look"));
    assert_eq!(
        report.generate_report(),
        "=== PROTOCOL DRIFT ANALYSIS REPORT ===\n\nBase Version: 1.0.0\nUpstream Version: 1.1.0\n\
         Scan Date: 2025-11-21T23:55:00Z\n\nTotal Changes: 1\nBreaking Changes: 0\n\
         Has Drift: true\nDrift Severity: Minor\n\nMessage Type Drifts: 1\n  0x1A New (Added)\n\
         \nUUID Drifts: 0\n\nFeature Drifts: 0\n\nRecommendations: 1\n  - look\n"
    );
    assert_eq!(DriftSeverity::NoDrift.name(), "None");
}

#[test]
fn comparator_lists_upstream_drifts_before_removed_ones() {
    let comparator = ProtocolComparator::new();
    let base = vec![(0x01u8, s("BatteryStatus")), (0x02, s("AncControl")), (0x0F, s("HeadGestures"))];
    let listed = vec![(0x20u8, s("Extra")), (0x02, s("Renamed")), (0x01, s("BatteryStatus"))];
    let drifts = compare_listed_types(&base, &listed);
    assert_eq!(drifts.len(), 3);
    assert_eq!((drifts[0].opcode, drifts[0].status, drifts[0].breaking_change), (0x20, DriftStatus::Added, false));
    assert_eq!((drifts[1].opcode, drifts[1].status, drifts[1].breaking_change), (0x02, DriftStatus::Modified, true));
    assert_eq!(drifts[1].previous_version, Some(s("AncControl")));
    assert_eq!(drifts[1].current_version, "Renamed");
    assert_eq!((drifts[2].opcode, drifts[2].status, drifts[2].breaking_change), (0x0F, DriftStatus::Removed, true));
    assert_eq!(drifts[2].name, "HeadGestures");
    assert_eq!(drifts[2].current_version, "");
    assert!(compare_listed_types(&base, &base).is_empty());

    let mut upstream = comparator.get_base_message_types().clone();
    upstream.insert(0x02, s("Renamed"));
    upstream.insert(0x20, s("Extra"));
    upstream.remove(&0x0F);
    let mut drifts = comparator.compare_message_types(upstream.clone());
    drifts.sort_by_key(|d| d.opcode);
    assert_eq!(drifts.len(), 3);
    assert_eq!((drifts[0].opcode, drifts[0].status), (0x02, DriftStatus::Modified));
    assert_eq!((drifts[1].opcode, drifts[1].status), (0x0F, DriftStatus::Removed));
    assert_eq!((drifts[2].opcode, drifts[2].status), (0x20, DriftStatus::Added));
    assert!(comparator.detect_protocol_drift(upstream.clone()));
    assert!(!comparator.detect_protocol_drift(comparator.get_base_message_types().clone()));

    let report = comparator.generate_drift_report(
        s("1"),
        s("2"),
        upstream,
        comparator.get_base_uuids().clone(),
        comparator.get_base_features().clone(),
    );
    assert_eq!(report.total_changes, 3);
    assert_eq!(report.breaking_changes, 2);
    assert_eq!(report.drift_severity, DriftSeverity::Major);
    assert_eq!(report.recommendations, strings(&["Review breaking changes before upgrading"]));
    assert_eq!(comparator.get_base_features().len(), 15);
}

fn hunk(path: &str, base: &[&str], upstream: &[&str], local: &[&str], conflict: bool) -> DiffHunk {
    DiffHunk {
        file_path: s(path),
        hunk_id: 1,
        start_line: 1,
        end_line: 2,
        base_lines: strings(base),
        upstream_lines: strings(upstream),
        local_lines: strings(local),
        conflict,
    }
}

#[test]
fn merge_plan_and_reports_are_exact() {
    let planner = MergePlanner::new();
    assert_eq!(planner.decide_merge_action(&hunk("f", &["a"], &["b"], &["c"], true)), MergeDecision::Manual);
    assert_eq!(planner.decide_merge_action(&hunk("f", &["a"], &[], &["c"], false)), MergeDecision::Skip);
    assert_eq!(planner.decide_merge_action(&hunk("f", &["a"], &["b"], &["a"], false)), MergeDecision::Adopt);
    assert_eq!(planner.decide_merge_action(&hunk("f", &["a"], &["b"], &["c"], false)), MergeDecision::Adapt);
    assert_eq!(planner.decide_merge_action(&hunk("f", &["a"], &["a"], &["c"], false)), MergeDecision::Replace);
    assert_eq!(planner.calculate_priority("notes on Security and Documentation"), 8);
    assert_eq!(planner.calculate_priority("src/crypto.rs"), 8);
    assert_eq!(planner.calculate_priority("README.md"), 9);
    assert_eq!(planner.calculate_priority("misc.txt"), 10);
    assert_eq!(planner.calculate_priority("a/ci/b/ffi"), 3);
    assert_eq!(planner.categorize_file("Cargo.toml"), "Build/packaging");
    assert_eq!(planner.categorize_file(".github/workflows/x.yml"), "CI/CD");
    assert_eq!(planner.generate_reason("p", MergeDecision::Replace), "Replace with upstream version for p");

    let mut report = CodebaseDiffReport::new(s("1"), s("2"), s("1"));
    report.add_hunk(hunk("docs/a.md", &["a"], &["b"], &["a"], false));
    report.add_hunk(hunk("src/backends/x.rs", &["a"], &["b"], &["c"], true));
    report.add_hunk(hunk("docs/b.md", &["a"], &["b"], &["c"], false));
    report.add_hunk(hunk("src/protocol.rs", &["a"], &[], &["a"], false));
    for (path, status) in [
        ("docs/a.md", FileStatus::Modified),
        ("src/backends/x.rs", FileStatus::Conflict),
        ("docs/b.md", FileStatus::Added),
    ] {
        report.add_file_diff(FileDiff {
            file_path: s(path),
            status,
            base_content: None,
            upstream_content: Some(s("u")),
            local_content: None,
            lines_added: 10,
            lines_removed: 2,
            lines_modified: 0,
        });
    }
    let plan = planner.generate_merge_plan(&report);
    let order: Vec<(&str, u8, MergeDecision)> =
        plan.iter().map(|h| (h.hunk.file_path.as_str(), h.priority, h.decision)).collect();
    assert_eq!(
        order,
        vec![
            ("src/backends/x.rs", 1, MergeDecision::Manual),
            ("src/protocol.rs", 2, MergeDecision::Skip),
            ("docs/a.md", 9, MergeDecision::Adopt),
            ("docs/b.md", 9, MergeDecision::Adapt),
        ]
    );
    assert_eq!(plan[2].reason, "Adopt upstream changes for docs/a.md");
    assert_eq!(plan[2].hunk.base_lines, strings(&["a"]));
    assert_eq!(planner.estimate_effort(&plan), (1, 1, 1));
    let categories = planner.categorize_changes(&report);
    assert_eq!(categories.len(), 2);
    assert_eq!(categories.key_at(0), "Documentation");
    assert_eq!(categories.value_at(0).len(), 2);
    assert_eq!(categories.value_at(0)[1].file_path, "docs/b.md");
    assert_eq!(categories.key_at(1), "Bluetooth backends");
    assert_eq!(
        planner.generate_merge_plan_report(&report),
        "=== MERGE PLAN REPORT ===\n\nTotal Hunks: 4\n  Adopt: 1\n  Adapt: 1\n  Manual: 1\n\n\
         Categories:\n  Documentation (2)\n  Bluetooth backends (1)\n\nMerge Strategy:\n\
         \x20 [1] src/backends/x.rs (Manual)\n  [2] src/protocol.rs (Skip)\n\
         \x20 [9] docs/a.md (Adopt)\n  [9] docs/b.md (Adapt)\n"
    );
    assert_eq!(
        report.generate_report(),
        "=== CODEBASE DIFF REPORT ===\n\nBase Version: 1\nUpstream Version: 2\nLocal Version: 1\n\
         Scan Date: 2025-11-21T23:55:00Z\n\nTotal Files: 3\n  Added: 1\n  Modified: 1\n\
         \x20 Deleted: 0\n  Conflicted: 1\n\nTotal Hunks: 4\n  Conflicted: 1\n\nFile Changes:\n\
         \x20 docs/a.md (Modified)\n    +10 -2 ~0\n  src/backends/x.rs (Conflict)\n    +10 -2 ~0\n\
         \x20 docs/b.md (Added)\n    +10 -2 ~0\n"
    );
}

#[test]
fn three_way_diff_results_are_exact() {
    let diff = ThreeWayDiffAnalyzer::analyze(s("f"), s("a\nb\nc"), s("a\nB\nc\nd"), s("A\nb2\nc"));
    assert_eq!(diff.merge_status, MergeStatus::Conflict);
    assert_eq!(diff.conflicts.len(), 1);
    assert_eq!(diff.conflicts[0].start_line, 1);
    assert_eq!(diff.conflicts[0].base_lines, strings(&["b"]));
    assert_eq!(diff.conflicts[0].upstream_lines, strings(&["B"]));
    assert_eq!(diff.conflicts[0].local_lines, strings(&["b2"]));
    assert_eq!(
        ThreeWayDiffAnalyzer::generate_merge_result(&diff),
        "<<<<<<< LOCAL\nA\nb2\nc\n=======\na\nB\nc\nd\n>>>>>>> UPSTREAM\n"
    );
    assert_eq!(
        ThreeWayDiffAnalyzer::merge_both_modified("a\nb\nc", "a\nB\nc\nd", "A\nb2\nc"),
        "A\nb2\nc\nd\n"
    );
    let same = ThreeWayDiffAnalyzer::analyze(s("g"), s("x"), s("y"), s("y"));
    assert_eq!(same.merge_status, MergeStatus::OnlyUpstreamModified);
    assert!(ThreeWayDiffAnalyzer::can_auto_merge(&same));
    assert!(!ThreeWayDiffAnalyzer::requires_manual_merge(&same));
    assert_eq!(
        ThreeWayDiffAnalyzer::generate_diff_report(&[diff, same]),
        "=== THREE-WAY DIFF REPORT ===\n\nTotal Files: 2\n  Clean: 0\n  Conflicts: 1\n\
         \x20 Only Upstream Modified: 1\n  Only Local Modified: 0\n\nFiles:\n  f (Conflict)\n\
         \x20   Conflicts: 1\n  g (OnlyUpstreamModified)\n"
    );
}

#[test]
fn change_log_report_is_exact() {
    let mut applier = ChangeApplier::new();
    let add = applier.apply_add(s("src/a/b.rs"), s("code"));
    assert_eq!(add.change_id, "add-src-a-b.rs");
    assert_eq!(add.new_content, Some(s("code")));
    assert_eq!(add.applied_by, "system");
    let rename = applier.apply_rename(s("a/b"), s("c/d"));
    assert_eq!(rename.change_id, "rename-a-b-c-d");
    assert_eq!(rename.file_path, "c/d");
    assert_eq!(rename.old_content, Some(s("a/b")));
    assert_eq!(applier.apply_modify(s("m"), s("o"), s("n")).change_id, "modify-m");
    assert_eq!(applier.apply_delete(s("x/y"), s("o")).change_id, "delete-x-y");
    assert_eq!(applier.get_all_changes().len(), 4);
    assert_eq!(applier.get_applied_change("add-src-a-b.rs").unwrap().file_path, "src/a/b.rs");
    assert!(applier.get_applied_change("nope").is_none());

    let mut log = ChangeLog::new();
    log.add_change(add);
    log.add_change(rename);
    for message in [Some(s("disk full")), None] {
        log.add_change(AppliedChange {
            change_id: s("f"),
            file_path: s("bad.rs"),
            change_type: ChangeType::Modify,
            old_content: None,
            new_content: None,
            timestamp: s("t"),
            applied_by: s("dev"),
            success: false,
            error_message: message,
        });
    }
    assert_eq!(
        log.generate_report("50.0"),
        "=== CHANGE APPLICATION REPORT ===\n\nPeriod: 2025-11-21T00:00:00Z to \nTotal Changes: 4\n\
         \x20 Successful: 2\n  Failed: 2\nSuccess Rate: 50.0%\n\nChanges by Type:\n  Add: 1\n\
         \x20 Modify: 2\n  Delete: 0\n  Rename: 1\n\nFailed Changes: 2\n  bad.rs - disk full\n\
         \x20 bad.rs - Unknown error\n"
    );
}

#[test]
fn pipeline_report_is_exact() {
    let mut pipeline = CIPipeline::new(s("nightly"), s("main"), s("abc"));
    for (id, name) in [("s1", "Build"), ("s2", "Test"), ("s1", "Shadow")] {
        pipeline.add_stage(PipelineStage {
            stage_id: s(id),
            stage_name: s(name),
            description: s("d"),
            commands: vec![],
            timeout_seconds: 1,
            status: StageStatus::Pending,
            duration_ms: 0,
            error_message: None,
        });
    }
    assert!(pipeline.update_stage_status("s1", StageStatus::Success, 5000));
    assert!(pipeline.update_stage_status("s2", StageStatus::Failed, 1250));
    assert!(!pipeline.update_stage_status("s9", StageStatus::Success, 1));
    assert_eq!(pipeline.stages[2].status, StageStatus::Pending);
    assert!(!pipeline.is_successful());
    assert_eq!(pipeline.get_stages_by_status(StageStatus::Pending).len(), 1);
    assert_eq!(
        pipeline.generate_report("33.3", "6.2", &strings(&["5.0", "1.2", "0.0"])),
        "=== CI PIPELINE REPORT ===\n\nPipeline: nightly\nBranch: main\nCommit: abc\n\
         Started: 2025-11-21T00:00:00Z\n\nTotal Stages: 3\n  Completed: 1\n  Failed: 1\n\
         Success Rate: 33.3%\nDuration: 6.2s\n\nStages:\n  Build (Success) - 5.0s\n\
         \x20 Test (Failed) - 1.2s\n  Shadow (Pending) - 0.0s\n"
    );
    assert!(pipeline
        .generate_report("33.3", "6.2", &strings(&["5.0"]))
        .ends_with("Stages:\n  Build (Success) - 5.0s\n  Test (Failed) - s\n  Shadow (Pending) - s\n"));
}

fn case(name: &str, status: TestStatus, message: Option<&str>) -> TestCase {
    TestCase {
        test_id: s(name),
        test_name: s(name),
        status,
        duration_ms: 100,
        error_message: message.map(s),
        stack_trace: None,
    }
}

#[test]
fn test_suite_report_and_summary_are_exact() {
    let mut runner = TestRunner::new();
    let suite = runner.create_suite(s("u"), s("Units"), TestSuiteType::Unit);
    suite.add_test(case("a", TestStatus::Passed, None));
    suite.add_test(case("b", TestStatus::Failed, Some("boom")));
    suite.add_test(case("c", TestStatus::Timeout, None));
    runner.create_suite(s("e"), s("End to end"), TestSuiteType::E2E);
    runner.add_test("e", case("d", TestStatus::Passed, None));
    runner.add_test("missing", case("x", TestStatus::Passed, None));
    assert_eq!(runner.get_total_tests(), 4);
    assert_eq!(runner.get_total_passed(), 2);
    assert_eq!(runner.get_total_failed(), 2);
    assert!(!runner.is_all_passed());
    let suite: &TestSuite = runner.get_suite("u").unwrap();
    assert_eq!(suite.failed_tests, 2);
    assert!(!suite.is_all_passed());
    assert_eq!(
        suite.generate_report("33.3", "0.3"),
        "=== TEST SUITE REPORT ===\n\nSuite: Units\nType: Unit\n\nTotal Tests: 3\n  Passed: 1\n\
         \x20 Failed: 2\n  Skipped: 0\nPass Rate: 33.3%\nDuration: 0.3s\n\nFailed Tests: 1\n\
         \x20 b - boom\n"
    );
    assert_eq!(
        runner.generate_summary("50.0", &strings(&["33.3", "100.0"])),
        "=== TEST EXECUTION SUMMARY ===\n\nTotal Suites: 2\nTotal Tests: 4\n  Passed: 2\n\
         \x20 Failed: 2\nOverall Pass Rate: 50.0%\n\nSuites:\n  Units (Unit) - 33.3%\n\
         \x20 End to end (E2E) - 100.0%\n"
    );
}

#[test]
fn coverage_report_is_exact() {
    let mut analyzer = CoverageAnalyzer::new();
    analyzer.create_report(s("r"));
    analyzer.add_metrics(
        "r",
        CoverageMetrics {
            file_path: s("a.rs"),
            lines_total: 100,
            lines_covered: 80,
            branches_total: 50,
            branches_covered: 40,
            functions_total: 10,
            functions_covered: 9,
        },
    );
    analyzer.add_metrics(
        "r",
        CoverageMetrics {
            file_path: s("b.rs"),
            lines_total: 0,
            lines_covered: 0,
            branches_total: 3,
            branches_covered: 1,
            functions_total: 1,
            functions_covered: 1,
        },
    );
    let report: &CoverageReport = analyzer.get_report("r").unwrap();
    assert_eq!(report.total_branches, 53);
    assert_eq!(
        report.generate_report("80.0", "77.4", "90.9", "82.8", &strings(&["83.3", "44.4"])),
        "=== COVERAGE REPORT ===\n\nReport: r\nTimestamp: 2025-11-21T00:00:00Z\n\n\
         Line Coverage: 80.0%\n  80 / 100 lines\n\nBranch Coverage: 77.4%\n  41 / 53 branches\n\n\
         Function Coverage: 90.9%\n  10 / 11 functions\n\nOverall Coverage: 82.8%\n\nFiles:\n\
         \x20 a.rs - 83.3%\n  b.rs - 44.4%\n"
    );
}

#[test]
fn release_report_is_exact() {
    let version = ReleaseVersion::new(s("1.20.3-beta-42"));
    assert_eq!((version.major, version.minor, version.patch), (1, 20, 3));
    assert_eq!(version.prerelease, Some(s("beta")));
    assert_eq!(version.build_metadata, Some(s("42")));
    assert_eq!(version.get_semver(), "1.20.3");
    let odd = ReleaseVersion::new(s("v2.x"));
    assert_eq!((odd.major, odd.minor, odd.patch), (0, 0, 0));
    assert!(odd.is_stable());

    let mut manager = ReleaseManager::new();
    for v in ["1.2.0", "1.10.0-rc1", "1.10.0", "0.9.9"] {
        manager.create_release(s(v));
    }
    assert_eq!(manager.get_latest_release().unwrap().version.version, "1.10.0");
    assert_eq!(manager.get_stable_releases().len(), 3);
    assert_eq!(manager.get_prerelease_releases().len(), 1);
    assert!(manager.publish_release("1.10.0-rc1"));
    assert!(!manager.publish_release("3.0.0"));
    let published = manager.get_release("1.10.0-rc1").unwrap();
    assert!(!published.is_draft && published.is_prerelease);
    assert_eq!(manager.get_all_releases().len(), 4);

    let mut release = Release::new(s("2.0.0"));
    assert_eq!(release.release_id, "release-2.0.0");
    release.add_artifact(ReleaseArtifact {
        artifact_id: s("bin"),
        artifact_type: ArtifactType::Binary,
        file_path: s("p"),
        file_size: 14621200,
        checksum: s("c"),
        checksum_algorithm: s("sha256"),
    });
    release.add_artifact(ReleaseArtifact {
        artifact_id: s("sbom"),
        artifact_type: ArtifactType::SBOM,
        file_path: s("p"),
        file_size: 1024,
        checksum: s("c"),
        checksum_algorithm: s("sha256"),
    });
    assert_eq!(release.get_total_size(), 14622224);
    assert_eq!(release.get_artifacts_by_type(ArtifactType::SBOM).len(), 1);
    release.publish();
    assert_eq!(
        release.generate_report("13.9", &strings(&["13.9", "0.0"])),
        "=== RELEASE REPORT ===\n\nVersion: 2.0.0\nRelease Date: 2025-11-21T00:00:00Z\n\
         Status: Published\nPrerelease: false\n\nArtifacts: 2\nTotal Size: 13.9 MB\n\n\
         Artifacts:\n  bin (Binary) - 13.9 MB\n  sbom (SBOM) - 0.0 MB\n"
    );
}

#[test]
fn sbom_report_is_exact() {
    let mut sbom = SBOM::new(s("s1"), s("1.0"));
    for (name, license, kind) in [
        ("serde", "MIT", ComponentType::Library),
        ("core", "GPL-3.0", ComponentType::Application),
        ("crc", "MIT", ComponentType::Library),
    ] {
        sbom.add_component(Component {
            component_id: s(name),
            name: s(name),
            version: s("1"),
            component_type: kind,
            license: s(license),
            supplier: s("x"),
            purl: s("p"),
        });
    }
    assert_eq!(sbom.get_unique_licenses(), strings(&["MIT", "GPL-3.0"]));
    assert_eq!(sbom.licenses.get("MIT"), Some(&2));
    assert_eq!(sbom.get_components_by_license("MIT").len(), 2);
    assert_eq!(sbom.get_components_by_type(ComponentType::Application).len(), 1);
    assert_eq!(
        sbom.generate_report(),
        "=== SBOM REPORT ===\n\nSBOM ID: s1\nVersion: 1.0\nCreated: 2025-11-21T00:00:00Z\n\n\
         Total Components: 3\nUnique Licenses: 2\n\nLicense Distribution:\n  MIT: 2\n\
         \x20 GPL-3.0: 1\n\nComponents:\n  serde v1 (Library) - MIT\n\
         \x20 core v1 (Application) - GPL-3.0\n  crc v1 (Library) - MIT\n"
    );
}

#[test]
fn release_notes_markdown_is_exact() {
    let mut notes = ReleaseNotes::new(s("1.1.0"));
    assert_eq!(
        notes.generate_markdown(),
        "# Release 1.1.0\n\n**Release Date**: 2025-11-21T00:00:00Z\n\n"
    );
    notes.set_summary(s("Better."));
    for (kind, title, pr) in [
        (librepods_core::release_notes::ChangeType::Feature, "Spatial audio", Some(12)),
        (librepods_core::release_notes::ChangeType::Bugfix, "Fix CRC", None),
        (librepods_core::release_notes::ChangeType::Breaking, "New frames", None),
        (librepods_core::release_notes::ChangeType::Feature, "Find my", None),
        (librepods_core::release_notes::ChangeType::Improvement, "Faster", Some(3)),
        (librepods_core::release_notes::ChangeType::Deprecated, "Old API", None),
    ] {
        notes.add_change(ChangeEntry {
            entry_id: s("e"),
            change_type: kind,
            title: s(title),
            description: s("d"),
            author: s("a"),
            pr_number: pr,
        });
    }
    notes.add_known_issue(s("Flaky"));
    notes.add_contributor(s("jo"));
    notes.add_contributor(s("al"));
    notes.add_contributor(s("jo"));
    assert_eq!(notes.deprecations, strings(&["Old API"]));
    assert_eq!(notes.get_feature_count(), 2);
    assert_eq!(notes.get_bugfix_count(), 1);
    assert_eq!(
        notes.generate_markdown(),
        "# Release 1.1.0\n\n**Release Date**: 2025-11-21T00:00:00Z\n\nBetter.\n\n\
         ## ⚠️ Breaking Changes\n\n- New frames\n\n\
         ## ✨ Features\n\n- Spatial audio (#Some(12))\n- Find my (#None)\n\n\
         ## 🐛 Bug Fixes\n\n- Fix CRC\n\n\
         ## 📈 Improvements\n\n- Faster\n\n\
         ## 🔍 Known Issues\n\n- Flaky\n\n\
         ## 👥 Contributors\n\n- jo\n- al\n"
    );
}
