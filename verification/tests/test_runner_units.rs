use librepods_core::test_runner::{TestCase, TestRunner, TestStatus, TestSuite, TestSuiteType};

#[test]
fn test_suite_creation() {
    let suite = TestSuite::new("suite-1".to_string(), "Suite 1".to_string(), TestSuiteType::Unit);
    assert_eq!(suite.suite_id, "suite-1");
    assert_eq!(suite.total_tests, 0);
}

#[test]
fn test_add_test() {
    let mut suite = TestSuite::new("suite-1".to_string(), "Suite 1".to_string(), TestSuiteType::Unit);
    let test = TestCase {
        test_id: "test-1".to_string(),
        test_name: "Test 1".to_string(),
        status: TestStatus::Passed,
        duration_ms: 100,
        error_message: None,
        stack_trace: None,
    };
    suite.add_test(test);
    assert_eq!(suite.total_tests, 1);
    assert_eq!(suite.passed_tests, 1);
}

#[test]
fn test_runner() {
    let mut runner = TestRunner::new();
    runner.create_suite("suite-1".to_string(), "Suite 1".to_string(), TestSuiteType::Unit);
    let test = TestCase {
        test_id: "test-1".to_string(),
        test_name: "Test 1".to_string(),
        status: TestStatus::Passed,
        duration_ms: 100,
        error_message: None,
        stack_trace: None,
    };
    runner.add_test("suite-1", test);
    assert_eq!(runner.get_total_tests(), 1);
}
