use librepods_core::codebase_diff::{CodebaseDiffReport, DiffHunk, FileDiff, FileStatus};

#[test]
fn codebase_diff_test_report_creation() {
    let report = CodebaseDiffReport::new(
        "1.0.0".to_string(),
        "1.0.1".to_string(),
        "1.0.0".to_string(),
    );
    assert_eq!(report.base_version, "1.0.0");
    assert_eq!(report.upstream_version, "1.0.1");
}

#[test]
fn codebase_diff_test_add_file_diff() {
    let mut report = CodebaseDiffReport::new(
        "1.0.0".to_string(),
        "1.0.1".to_string(),
        "1.0.0".to_string(),
    );

    let diff = FileDiff {
        file_path: "src/test.rs".to_string(),
        status: FileStatus::Added,
        base_content: None,
        upstream_content: Some("code".to_string()),
        local_content: None,
        lines_added: 10,
        lines_removed: 0,
        lines_modified: 0,
    };

    report.add_file_diff(diff);
    assert_eq!(report.total_files, 1);
    assert_eq!(report.files_added, 1);
}

#[test]
fn codebase_diff_test_add_hunk() {
    let mut report = CodebaseDiffReport::new(
        "1.0.0".to_string(),
        "1.0.1".to_string(),
        "1.0.0".to_string(),
    );

    let hunk = DiffHunk {
        file_path: "src/test.rs".to_string(),
        hunk_id: 1,
        start_line: 1,
        end_line: 10,
        base_lines: vec!["line1".to_string()],
        upstream_lines: vec!["line2".to_string()],
        local_lines: vec!["line1".to_string()],
        conflict: false,
    };

    report.add_hunk(hunk);
    assert_eq!(report.total_hunks, 1);
}

#[test]
fn test_conflict_tracking() {
    let mut report = CodebaseDiffReport::new(
        "1.0.0".to_string(),
        "1.0.1".to_string(),
        "1.0.0".to_string(),
    );

    let hunk = DiffHunk {
        file_path: "src/test.rs".to_string(),
        hunk_id: 1,
        start_line: 1,
        end_line: 10,
        base_lines: vec!["line1".to_string()],
        upstream_lines: vec!["line2".to_string()],
        local_lines: vec!["line3".to_string()],
        conflict: true,
    };

    report.add_hunk(hunk);
    assert_eq!(report.conflicted_hunks, 1);
}
