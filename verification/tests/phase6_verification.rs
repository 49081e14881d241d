use librepods_core::ci_pipeline::{CIPipeline, PipelineStage, StageStatus};
use librepods_core::test_runner::{TestCase, TestRunner, TestStatus, TestSuite, TestSuiteType};
use librepods_core::coverage_analyzer::{CoverageMetrics, CoverageReport};

fn one_decimal(value: f32) -> String {
    format!("{:.1}", value)
}

fn share(part: usize, whole: usize) -> f32 {
    if whole == 0 {
        return 0.0;
    }
    (part as f32 / whole as f32) * 100.0
}

#[test]
fn test_ci_pipeline_creation() {
    let pipeline = CIPipeline::new("pipeline-1".to_string(), "main".to_string(), "abc123".to_string());
    assert_eq!(pipeline.pipeline_id, "pipeline-1");
    assert_eq!(pipeline.branch, "main");
    assert_eq!(pipeline.total_stages, 0);
}

#[test]
fn test_add_pipeline_stage() {
    let mut pipeline = CIPipeline::new("pipeline-1".to_string(), "main".to_string(), "abc123".to_string());
    let stage = PipelineStage {
        stage_id: "build".to_string(),
        stage_name: "Build".to_string(),
        description: "Build stage".to_string(),
        commands: vec!["cargo build".to_string()],
        timeout_seconds: 300,
        status: StageStatus::Pending,
        duration_ms: 0,
        error_message: None,
    };
    pipeline.add_stage(stage);
    assert_eq!(pipeline.total_stages, 1);
}

#[test]
fn test_update_pipeline_stage_status() {
    let mut pipeline = CIPipeline::new("pipeline-1".to_string(), "main".to_string(), "abc123".to_string());
    let stage = PipelineStage {
        stage_id: "build".to_string(),
        stage_name: "Build".to_string(),
        description: "Build stage".to_string(),
        commands: vec!["cargo build".to_string()],
        timeout_seconds: 300,
        status: StageStatus::Pending,
        duration_ms: 0,
        error_message: None,
    };
    pipeline.add_stage(stage);
    pipeline.update_stage_status("build", StageStatus::Success, 5000);
    assert_eq!(pipeline.completed_stages, 1);
}

#[test]
fn test_test_suite_creation() {
    let suite = TestSuite::new("suite-1".to_string(), "Suite 1".to_string(), TestSuiteType::Unit);
    assert_eq!(suite.suite_id, "suite-1");
    assert_eq!(suite.total_tests, 0);
}

#[test]
fn test_add_test_case() {
    let mut suite = TestSuite::new("suite-1".to_string(), "Suite 1".to_string(), TestSuiteType::Unit);
    let test = TestCase {
        test_id: "test-1".to_string(),
        test_name: "Test 1".to_string(),
        status: TestStatus::Passed,
        duration_ms: 100,
        error_message: None,
        stack_trace: None,
    };
    suite.add_test(test);
    assert_eq!(suite.total_tests, 1);
    assert_eq!(suite.passed_tests, 1);
}

#[test]
fn test_test_runner() {
    let mut runner = TestRunner::new();
    runner.create_suite("suite-1".to_string(), "Suite 1".to_string(), TestSuiteType::Unit);
    let test = TestCase {
        test_id: "test-1".to_string(),
        test_name: "Test 1".to_string(),
        status: TestStatus::Passed,
        duration_ms: 100,
        error_message: None,
        stack_trace: None,
    };
    runner.add_test("suite-1", test);
    assert_eq!(runner.get_total_tests(), 1);
}

#[test]
fn test_pipeline_report_generation() {
    let mut pipeline = CIPipeline::new("pipeline-1".to_string(), "main".to_string(), "abc123".to_string());
    let stage = PipelineStage {
        stage_id: "build".to_string(),
        stage_name: "Build".to_string(),
        description: "Build stage".to_string(),
        commands: vec!["cargo build".to_string()],
        timeout_seconds: 300,
        status: StageStatus::Success,
        duration_ms: 5000,
        error_message: None,
    };
    pipeline.add_stage(stage);
    pipeline.update_stage_status("build", StageStatus::Success, 5000);
    
    let stage_durations: Vec<String> =
        pipeline.stages.iter().map(|s| one_decimal(s.duration_ms as f32 / 1000.0)).collect();
    let report = pipeline.generate_report(
        &one_decimal(share(pipeline.completed_stages, pipeline.total_stages)),
        &one_decimal(pipeline.total_duration_ms as f32 / 1000.0),
        &stage_durations,
    );
    assert!(report.contains("CI PIPELINE REPORT"));
}

#[test]
fn test_test_suite_report_generation() {
    let mut suite = TestSuite::new("suite-1".to_string(), "Suite 1".to_string(), TestSuiteType::Unit);
    let test = TestCase {
        test_id: "test-1".to_string(),
        test_name: "Test 1".to_string(),
        status: TestStatus::Passed,
        duration_ms: 100,
        error_message: None,
        stack_trace: None,
    };
    suite.add_test(test);
    
    let report = suite.generate_report(
        &one_decimal(share(suite.passed_tests, suite.total_tests)),
        &one_decimal(suite.total_duration_ms as f32 / 1000.0),
    );
    assert!(report.contains("TEST SUITE REPORT"));
}

#[test]
fn test_coverage_report_generation() {
    let mut report = CoverageReport::new("report-1".to_string());
    let metrics = CoverageMetrics {
        file_path: "test.rs".to_string(),
        lines_total: 100,
        lines_covered: 80,
        branches_total: 50,
        branches_covered: 40,
        functions_total: 10,
        functions_covered: 9,
    };
    report.add_metrics(metrics);
    
    let lines = share(report.total_lines_covered, report.total_lines);
    let branches = share(report.total_branches_covered, report.total_branches);
    let functions = share(report.total_functions_covered, report.total_functions);
    let files: Vec<String> = report
        .metrics
        .iter()
        .map(|m| {
            one_decimal(
                (share(m.lines_covered, m.lines_total)
                    + share(m.branches_covered, m.branches_total)
                    + share(m.functions_covered, m.functions_total))
                    / 3.0,
            )
        })
        .collect();
    let report_text = report.generate_report(
        &one_decimal(lines),
        &one_decimal(branches),
        &one_decimal(functions),
        &one_decimal((lines + branches + functions) / 3.0),
        &files,
    );
    assert!(report_text.contains("COVERAGE REPORT"));
}

#[test]
fn test_test_runner_summary() {
    let mut runner = TestRunner::new();
    runner.create_suite("suite-1".to_string(), "Suite 1".to_string(), TestSuiteType::Unit);
    
    for i in 0..5 {
        let test = TestCase {
            test_id: format!("test-{}", i),
            test_name: format!("Test {}", i),
            status: TestStatus::Passed,
            duration_ms: 100,
            error_message: None,
            stack_trace: None,
        };
        runner.add_test("suite-1", test);
    }
    
    let suites = runner.suites();
    let suite_rates: Vec<String> = (0..suites.len())
        .map(|i| one_decimal(share(suites.value_at(i).passed_tests, suites.value_at(i).total_tests)))
        .collect();
    let summary = runner.generate_summary(
        &one_decimal(share(runner.get_total_passed(), runner.get_total_tests())),
        &suite_rates,
    );
    assert!(summary.contains("TEST EXECUTION SUMMARY"));
}

#[test]
fn test_pipeline_failed_stage() {
    let mut pipeline = CIPipeline::new("pipeline-1".to_string(), "main".to_string(), "abc123".to_string());
    let stage = PipelineStage {
        stage_id: "build".to_string(),
        stage_name: "Build".to_string(),
        description: "Build stage".to_string(),
        commands: vec!["cargo build".to_string()],
        timeout_seconds: 300,
        status: StageStatus::Pending,
        duration_ms: 0,
        error_message: None,
    };
    pipeline.add_stage(stage);
    pipeline.update_stage_status("build", StageStatus::Failed, 5000);
    
    assert!(!pipeline.is_successful());
    assert_eq!(pipeline.failed_stages, 1);
}
