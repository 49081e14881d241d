use librepods_core::ingestion::DataIngestionEngine;
use librepods_core::upstream::Commit;

#[test]
fn ingestion_test_engine_creation() {
    let engine = DataIngestionEngine::new();
    assert_eq!(engine.get_diff().latest_commits.len(), 0);
}

#[test]
fn test_ingest_repository_metadata() {
    let mut engine = DataIngestionEngine::new();
    let result = engine.ingest_repository_metadata(
        "librepods".to_string(),
        "kavishdevar/librepods".to_string(),
        "kavishdevar".to_string(),
        "https://github.com/kavishdevar/librepods".to_string(),
        "AirPods liberated".to_string(),
        14382,
        434,
        52,
        "Kotlin".to_string(),
        "GPL-3.0".to_string(),
        "2025-11-21".to_string(),
        "2025-11-21".to_string(),
    );
    assert!(result.is_ok());
    assert_eq!(engine.get_diff().repository.stars, 14382);
}

#[test]
fn test_ingest_commits() {
    let mut engine = DataIngestionEngine::new();
    let commits = vec![
        Commit {
            sha: "abc123".to_string(),
            message: "test commit 1".to_string(),
            author: "Author 1".to_string(),
            date: "2025-11-21".to_string(),
            url: "https://github.com/test1".to_string(),
        },
        Commit {
            sha: "def456".to_string(),
            message: "test commit 2".to_string(),
            author: "Author 2".to_string(),
            date: "2025-11-20".to_string(),
            url: "https://github.com/test2".to_string(),
        },
    ];
    let result = engine.ingest_commits(commits);
    assert!(result.is_ok());
    assert_eq!(engine.get_diff().latest_commits.len(), 2);
}

#[test]
fn ingestion_test_protocol_drift_detection() {
    let mut engine = DataIngestionEngine::new();
    assert!(!engine.has_protocol_drift());
    let _ = engine.detect_new_message_types(vec!["NewType".to_string()]);
    assert!(engine.has_protocol_drift());
}

#[test]
fn ingestion_test_breaking_changes_detection() {
    let mut engine = DataIngestionEngine::new();
    assert!(!engine.has_breaking_changes());
    let _ = engine.detect_new_message_types(vec![
        "Type1".to_string(),
        "Type2".to_string(),
        "Type3".to_string(),
    ]);
    assert!(engine.has_breaking_changes());
}

#[test]
fn test_generate_report() {
    let engine = DataIngestionEngine::new();
    let report = engine.generate_ingestion_report();
    assert!(report.contains("UPSTREAM DATA INGESTION REPORT"));
}
