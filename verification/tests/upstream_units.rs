use librepods_core::upstream::{Commit, UpstreamDiff};

#[test]
fn test_upstream_diff_creation() {
    let diff = UpstreamDiff::new();
    assert_eq!(diff.latest_commits.len(), 0);
    assert_eq!(diff.latest_releases.len(), 0);
    assert!(!diff.detect_protocol_drift());
}

#[test]
fn test_add_commit() {
    let mut diff = UpstreamDiff::new();
    let commit = Commit {
        sha: "abc123".to_string(),
        message: "test commit".to_string(),
        author: "Test Author".to_string(),
        date: "2025-11-21".to_string(),
        url: "https://github.com/test".to_string(),
    };
    diff.add_commit(commit);
    assert_eq!(diff.latest_commits.len(), 1);
}

#[test]
fn upstream_test_protocol_drift_detection() {
    let mut diff = UpstreamDiff::new();
    assert!(!diff.detect_protocol_drift());
    diff.new_message_types.push("NewType".to_string());
    assert!(diff.detect_protocol_drift());
}

#[test]
fn upstream_test_breaking_changes_detection() {
    let mut diff = UpstreamDiff::new();
    assert!(!diff.has_breaking_changes());
    diff.new_message_types.push("Type1".to_string());
    diff.new_message_types.push("Type2".to_string());
    diff.new_message_types.push("Type3".to_string());
    assert!(diff.has_breaking_changes());
}
