use librepods_core::implementation_executor::{TaskCategory, TaskStatus};
use librepods_core::merge_planner::MergePlanner;
use librepods_core::verification::{
    failed_results, results_by_type, BuildStatus, TestType, VerificationResult,
};

#[test]
fn task_categories_follow_the_merge_priorities() {
    let planner = MergePlanner::new();
    let categories = [
        TaskCategory::BluetoothBackends,
        TaskCategory::ProtocolMessages,
        TaskCategory::FFIBridge,
        TaskCategory::AndroidMerge,
        TaskCategory::BuildPackaging,
        TaskCategory::CICD,
        TaskCategory::I18nA11y,
        TaskCategory::Security,
        TaskCategory::Documentation,
        TaskCategory::ReleaseChores,
    ];
    for (index, category) in categories.iter().enumerate() {
        assert_eq!(category.priority() as usize, index + 1);
        assert_eq!(planner.priorities().get(category.label()), Some(&category.priority()));
    }
    assert_eq!(TaskCategory::CICD.label(), "CI/CD");
}

#[test]
fn task_counters_move_with_the_status() {
    assert_eq!(TaskStatus::Pending.move_counters(TaskStatus::Completed, 2, 1), (3, 1));
    assert_eq!(TaskStatus::Completed.move_counters(TaskStatus::Pending, 2, 1), (1, 1));
    assert_eq!(TaskStatus::Completed.move_counters(TaskStatus::Completed, 2, 1), (2, 1));
    assert_eq!(TaskStatus::Blocked.move_counters(TaskStatus::Completed, 2, 1), (3, 0));
    assert_eq!(TaskStatus::InProgress.move_counters(TaskStatus::Blocked, 2, 1), (2, 2));
    assert_eq!(TaskStatus::Completed.move_counters(TaskStatus::Blocked, 0, 0), (0, 1));
    assert_eq!(TaskStatus::Blocked.move_counters(TaskStatus::Failed, 0, 0), (0, 0));
    assert_eq!(
        TaskStatus::Pending.move_counters(TaskStatus::Completed, usize::MAX, 0),
        (usize::MAX, 0)
    );
    assert_eq!(TaskStatus::InProgress.name(), "InProgress");
}

#[test]
fn results_are_selected_by_type_and_by_failure() {
    let mut results = vec![
        VerificationResult::record("a".to_string(), TestType::Unit, true, 100),
        VerificationResult::record("b".to_string(), TestType::Build, false, 5),
        VerificationResult::record("c".to_string(), TestType::Unit, false, 7),
    ];
    results[2].error_message = Some("boom".to_string());
    assert_eq!(results[0].timestamp, "2025-11-21T00:00:00Z");
    assert_eq!(results[0].error_message, None);
    let units: Vec<&str> =
        results_by_type(&results, TestType::Unit).iter().map(|r| r.test_name.as_str()).collect();
    assert_eq!(units, vec!["a", "c"]);
    assert!(results_by_type(&results, TestType::Lint).is_empty());
    let failed: Vec<&str> = failed_results(&results).iter().map(|r| r.test_name.as_str()).collect();
    assert_eq!(failed, vec!["b", "c"]);
    assert_eq!(TestType::Coverage.name(), "Coverage");
    assert_eq!(BuildStatus::Warning.name(), "Warning");
}
