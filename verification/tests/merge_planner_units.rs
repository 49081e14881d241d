use librepods_core::codebase_diff::{DiffHunk, MergeDecision, MergeHunk};
use librepods_core::merge_planner::MergePlanner;

#[test]
fn test_planner_creation() {
    let planner = MergePlanner::new();
    assert!(!planner.priorities().is_empty());
}

#[test]
fn merge_planner_test_calculate_priority() {
    let planner = MergePlanner::new();
    let priority = planner.calculate_priority("src/backends/bluez.rs");
    assert_eq!(priority, 1);
}

#[test]
fn merge_planner_test_categorize_file() {
    let planner = MergePlanner::new();
    let category = planner.categorize_file("src/backends/bluez.rs");
    assert_eq!(category, "Bluetooth backends");
}

#[test]
fn test_decide_merge_action() {
    let planner = MergePlanner::new();
    let hunk = DiffHunk {
        file_path: "test.rs".to_string(),
        hunk_id: 1,
        start_line: 1,
        end_line: 10,
        base_lines: vec!["line1".to_string()],
        upstream_lines: vec!["line2".to_string()],
        local_lines: vec!["line1".to_string()],
        conflict: false,
    };
    let decision = planner.decide_merge_action(&hunk);
    assert_eq!(decision, MergeDecision::Adopt);
}

#[test]
fn merge_planner_test_estimate_effort() {
    let planner = MergePlanner::new();
    let hunks = vec![
        MergeHunk {
            hunk: DiffHunk {
                file_path: "test1.rs".to_string(),
                hunk_id: 1,
                start_line: 1,
                end_line: 10,
                base_lines: vec![],
                upstream_lines: vec![],
                local_lines: vec![],
                conflict: false,
            },
            decision: MergeDecision::Adopt,
            reason: "test".to_string(),
            priority: 1,
        },
        MergeHunk {
            hunk: DiffHunk {
                file_path: "test2.rs".to_string(),
                hunk_id: 2,
                start_line: 1,
                end_line: 10,
                base_lines: vec![],
                upstream_lines: vec![],
                local_lines: vec![],
                conflict: false,
            },
            decision: MergeDecision::Adapt,
            reason: "test".to_string(),
            priority: 2,
        },
    ];
    let (adopt, adapt, manual) = planner.estimate_effort(&hunks);
    assert_eq!(adopt, 1);
    assert_eq!(adapt, 1);
    assert_eq!(manual, 0);
}
