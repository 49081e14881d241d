use librepods_core::change_applier::{AppliedChange, ChangeApplier, ChangeLog, ChangeType};

#[test]
fn change_applier_test_changelog_creation() {
    let log = ChangeLog::new();
    assert_eq!(log.total_changes, 0);
}

#[test]
fn change_applier_test_add_change() {
    let mut log = ChangeLog::new();
    let change = AppliedChange {
        change_id: "test-1".to_string(),
        file_path: "test.rs".to_string(),
        change_type: ChangeType::Add,
        old_content: None,
        new_content: Some("code".to_string()),
        timestamp: "2025-11-21T00:00:00Z".to_string(),
        applied_by: "dev".to_string(),
        success: true,
        error_message: None,
    };
    log.add_change(change);
    assert_eq!(log.total_changes, 1);
    assert_eq!(log.successful_changes, 1);
}

#[test]
fn test_change_applier() {
    let mut applier = ChangeApplier::new();
    let change = applier.apply_add("test.rs".to_string(), "code".to_string());
    assert_eq!(change.change_type, ChangeType::Add);
    assert!(change.success);
}
