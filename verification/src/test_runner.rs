//! Test suites with their results, and the runner that keeps them by id.

use crate::collections::{
    lemma_position_of,
    lemma_select_ends,
    lemma_select_step,
    lemma_with_entry_value,
    targets,
    value_under,
    with_entry,
    TextMap,
};
use crate::text::{
    decimal,
    joined,
    lemma_joined_ends,
    lemma_joined_step,
    push_count_field,
    push_field,
    text_or_empty,
    with_texts,
};
use vstd::prelude::*;

verus! {

/// What a suite tests.
#[derive(Debug, Clone, Copy, PartialEq, Eq, Structural)]
pub enum TestSuiteType {
    Unit,
    Integration,
    E2E,
    Performance,
    Security,
}

impl TestSuiteType {
    /// The name of the type.
    pub open spec fn name_text(self) -> Seq<char> {
        match self {
            TestSuiteType::Unit => "Unit"@,
            TestSuiteType::Integration => "Integration"@,
            TestSuiteType::E2E => "E2E"@,
            TestSuiteType::Performance => "Performance"@,
            TestSuiteType::Security => "Security"@,
        }
    }

    /// The name of the type.
    pub fn name(&self) -> (name: &'static str)
        ensures
            name@ == self.name_text(),
    {
        match self {
            TestSuiteType::Unit => "Unit",
            TestSuiteType::Integration => "Integration",
            TestSuiteType::E2E => "E2E",
            TestSuiteType::Performance => "Performance",
            TestSuiteType::Security => "Security",
        }
    }
}

/// How a test ended.
#[derive(Debug, Clone, Copy, PartialEq, Eq, Structural)]
pub enum TestStatus {
    Passed,
    Failed,
    Skipped,
    Timeout,
}

/// One test with its outcome.
#[derive(Debug, Clone)]
pub struct TestCase {
    pub test_id: String,
    pub test_name: String,
    pub status: TestStatus,
    pub duration_ms: u64,
    pub error_message: Option<String>,
    pub stack_trace: Option<String>,
}

/// The error of a test in words, or that it is not known.
pub open spec fn error_text(test: TestCase) -> Seq<char> {
    match test.error_message {
        Some(message) => message@,
        None => "Unknown error"@,
    }
}

/// The line of one failed test.
pub open spec fn failed_line(test: TestCase) -> Seq<char> {
    "  "@ + test.test_name@ + " - "@ + error_text(test) + "\n"@
}

/// The tests of one suite with their counts.
#[derive(Debug, Clone)]
pub struct TestSuite {
    pub suite_id: String,
    pub suite_name: String,
    pub test_type: TestSuiteType,
    pub tests: Vec<TestCase>,
    pub total_tests: usize,
    pub passed_tests: usize,
    pub failed_tests: usize,
    pub skipped_tests: usize,
    pub total_duration_ms: u64,
}

impl TestSuite {
    /// The suite has no test yet.
    pub open spec fn is_blank(&self) -> bool {
        &&& self.tests@.len() == 0
        &&& self.total_tests == 0
        &&& self.passed_tests == 0
        &&& self.failed_tests == 0
        &&& self.skipped_tests == 0
        &&& self.total_duration_ms == 0
    }

    /// The suite with one more test: counted under its status, a timeout
    /// as a failure, and its duration added to the total.
    pub open spec fn with_test(self, tests: Vec<TestCase>, test: TestCase) -> TestSuite {
        TestSuite {
            tests,
            total_tests: (self.total_tests + 1) as usize,
            total_duration_ms: (self.total_duration_ms + test.duration_ms) as u64,
            passed_tests: if test.status == TestStatus::Passed {
                (self.passed_tests + 1) as usize
            } else {
                self.passed_tests
            },
            failed_tests: if test.status == TestStatus::Failed || test.status
                == TestStatus::Timeout {
                (self.failed_tests + 1) as usize
            } else {
                self.failed_tests
            },
            skipped_tests: if test.status == TestStatus::Skipped {
                (self.skipped_tests + 1) as usize
            } else {
                self.skipped_tests
            },
            ..self
        }
    }

    /// Whether one more test can be counted without a counter running
    /// over.
    pub open spec fn has_room(&self, test: TestCase) -> bool {
        &&& self.total_tests < usize::MAX
        &&& self.passed_tests < usize::MAX
        &&& self.failed_tests < usize::MAX
        &&& self.skipped_tests < usize::MAX
        &&& self.total_duration_ms + test.duration_ms <= u64::MAX
    }

    /// The tests with the given status, in their order.
    pub open spec fn with_status(&self, status: TestStatus) -> Seq<TestCase> {
        self.tests@.filter(|t: TestCase| t.status == status)
    }

    /// The report on the suite. The pass rate and the duration are shown as
    /// the texts that the caller made of them.
    pub open spec fn report(&self, pass_rate: Seq<char>, duration: Seq<char>) -> Seq<char> {
        let head = "=== TEST SUITE REPORT ===\n\n"@ + "Suite: "@ + self.suite_name@ + "\n"@
            + "Type: "@ + self.test_type.name_text() + "\n\n"@ + "Total Tests: "@ + decimal(
            self.total_tests as nat,
        ) + "\n"@ + "  Passed: "@ + decimal(self.passed_tests as nat) + "\n"@ + "  Failed: "@
            + decimal(self.failed_tests as nat) + "\n"@ + "  Skipped: "@ + decimal(
            self.skipped_tests as nat,
        ) + "\n"@ + "Pass Rate: "@ + pass_rate + "%\n"@ + "Duration: "@ + duration + "s\n\n"@;
        if self.with_status(TestStatus::Failed).len() > 0 {
            head + "Failed Tests: "@ + decimal(self.with_status(TestStatus::Failed).len()) + "\n"@
                + joined(self.with_status(TestStatus::Failed), |t: TestCase| failed_line(t))
        } else {
            head
        }
    }

    pub fn new(suite_id: String, suite_name: String, test_type: TestSuiteType) -> (suite: Self)
        ensures
            suite.is_blank(),
            suite.suite_id == suite_id,
            suite.suite_name == suite_name,
            suite.test_type == test_type,
    {
        Self {
            suite_id,
            suite_name,
            test_type,
            tests: Vec::new(),
            total_tests: 0,
            passed_tests: 0,
            failed_tests: 0,
            skipped_tests: 0,
            total_duration_ms: 0,
        }
    }

    /// Records a test and counts it under its status; a timeout counts as
    /// a failure.
    pub fn add_test(&mut self, test: TestCase)
        requires
            old(self).has_room(test),
        ensures
            final(self).tests@ == old(self).tests@.push(test),
            *final(self) == old(self).with_test(final(self).tests, test),
    {
        self.total_tests += 1;
        self.total_duration_ms += test.duration_ms;
        match test.status {
            TestStatus::Passed => {
                self.passed_tests += 1;
            },
            TestStatus::Failed => {
                self.failed_tests += 1;
            },
            TestStatus::Skipped => {
                self.skipped_tests += 1;
            },
            TestStatus::Timeout => {
                self.failed_tests += 1;
            },
        }
        self.tests.push(test);
    }

    /// Whether no test failed and none was skipped.
    pub fn is_all_passed(&self) -> (passed: bool)
        ensures
            passed == (self.failed_tests == 0 && self.skipped_tests == 0),
    {
        self.failed_tests == 0 && self.skipped_tests == 0
    }

    /// The tests with the given status, in their order.
    pub fn get_tests_by_status(&self, status: TestStatus) -> (found: Vec<&TestCase>)
        ensures
            targets(found@) == self.with_status(status),
    {
        let ghost items = self.tests@;
        let ghost keep = |t: TestCase| t.status == status;
        let mut found: Vec<&TestCase> = Vec::new();
        let mut i: usize = 0;
        proof {
            lemma_select_ends(items, keep);
            assert(targets(found@) =~= Seq::<TestCase>::empty());
        }
        while i < self.tests.len()
            invariant
                i <= items.len(),
                items == self.tests@,
                keep == |t: TestCase| t.status == status,
                targets(found@) == items.take(i as int).filter(keep),
            decreases items.len() - i,
        {
            proof {
                lemma_select_step(items, i as int, keep);
            }
            let test = &self.tests[i];
            if test.status == status {
                let ghost before = targets(found@);
                found.push(test);
                assert(targets(found@) =~= before.push(*test));
            }
            i += 1;
        }
        proof {
            lemma_select_ends(items, keep);
        }
        found
    }

    /// The report on the suite, as text. The pass rate and the duration in
    /// seconds are fractions, so the caller renders them and hands the
    /// texts in.
    pub fn generate_report(&self, pass_rate: &str, duration: &str) -> (report: String)
        ensures
            report@ == self.report(pass_rate@, duration@),
    {
        let mut report = String::from_str("=== TEST SUITE REPORT ===\n\n");
        push_field(&mut report, "Suite: ", self.suite_name.as_str(), "\n");
        push_field(&mut report, "Type: ", self.test_type.name(), "\n\n");
        push_count_field(&mut report, "Total Tests: ", self.total_tests, "\n");
        push_count_field(&mut report, "  Passed: ", self.passed_tests, "\n");
        push_count_field(&mut report, "  Failed: ", self.failed_tests, "\n");
        push_count_field(&mut report, "  Skipped: ", self.skipped_tests, "\n");
        push_field(&mut report, "Pass Rate: ", pass_rate, "%\n");
        push_field(&mut report, "Duration: ", duration, "s\n\n");
        let failed = self.get_tests_by_status(TestStatus::Failed);
        if failed.len() > 0 {
            push_count_field(&mut report, "Failed Tests: ", failed.len(), "\n");
            let ghost line = |t: TestCase| failed_line(t);
            let ghost head = report@;
            let ghost items = targets(failed@);
            let mut i: usize = 0;
            proof {
                lemma_joined_ends(items, line);
                assert(report@ =~= head + joined(items.take(0), line));
            }
            while i < failed.len()
                invariant
                    i <= items.len(),
                    items == targets(failed@),
                    line == |t: TestCase| failed_line(t),
                    report@ == head + joined(items.take(i as int), line),
                decreases items.len() - i,
            {
                proof {
                    lemma_joined_step(items, i as int, line);
                }
                let ghost before = report@;
                let test = failed[i];
                assert(items[i as int] == *test);
                push_field(&mut report, "  ", test.test_name.as_str(), " - ");
                match &test.error_message {
                    Some(message) => {
                        report.append(message.as_str());
                    },
                    None => {
                        report.append("Unknown error");
                    },
                }
                report.append("\n");
                assert(report@ =~= before + failed_line(items[i as int]));
                assert(report@ =~= head + joined(items.take(i + 1), line));
                i += 1;
            }
            proof {
                lemma_joined_ends(items, line);
            }
        }
        report
    }
}

impl Default for TestSuite {
    fn default() -> (suite: Self)
        ensures
            suite.is_blank(),
            suite.suite_id@ == "suite-1"@,
            suite.suite_name@ == "Test Suite 1"@,
            suite.test_type == TestSuiteType::Unit,
    {
        Self::new(
            String::from_str("suite-1"),
            String::from_str("Test Suite 1"),
            TestSuiteType::Unit,
        )
    }
}

/// The sum of a counter over the first `count` suites.
pub open spec fn summed(
    suites: Seq<(Seq<char>, TestSuite)>,
    count: int,
    counter: spec_fn(TestSuite) -> usize,
) -> int
    decreases count,
{
    if count <= 0 || count > suites.len() {
        0
    } else {
        summed(suites, count - 1, counter) + counter(suites[count - 1].1)
    }
}

/// The sum grows with the number of suites.
pub proof fn lemma_summed_grows(
    suites: Seq<(Seq<char>, TestSuite)>,
    count: int,
    counter: spec_fn(TestSuite) -> usize,
)
    requires
        0 <= count <= suites.len(),
    ensures
        0 <= summed(suites, count, counter) <= summed(suites, suites.len() as int, counter),
    decreases suites.len() - count,
{
    lemma_summed_bounds(suites, count, counter);
    if count < suites.len() {
        lemma_summed_grows(suites, count + 1, counter);
    }
}

/// The sum is not negative.
pub proof fn lemma_summed_bounds(
    suites: Seq<(Seq<char>, TestSuite)>,
    count: int,
    counter: spec_fn(TestSuite) -> usize,
)
    ensures
        0 <= summed(suites, count, counter),
    decreases count,
{
    if 0 < count <= suites.len() {
        lemma_summed_bounds(suites, count - 1, counter);
    }
}

/// The line of one suite in the summary, with the text of its pass rate.
pub open spec fn suite_line(suite: TestSuite, pass_rate: Seq<char>) -> Seq<char> {
    "  "@ + suite.suite_name@ + " ("@ + suite.test_type.name_text() + ") - "@ + pass_rate + "%\n"@
}

/// The suites by id.
pub struct TestRunner {
    suites: TextMap<TestSuite>,
}

impl View for TestRunner {
    type V = Seq<(Seq<char>, TestSuite)>;

    closed spec fn view(&self) -> Seq<(Seq<char>, TestSuite)> {
        self.suites@
    }
}

/// The number of tests of all suites.
pub open spec fn total_tests(suites: Seq<(Seq<char>, TestSuite)>) -> int {
    summed(suites, suites.len() as int, |s: TestSuite| s.total_tests)
}

/// The number of passed tests of all suites.
pub open spec fn total_passed(suites: Seq<(Seq<char>, TestSuite)>) -> int {
    summed(suites, suites.len() as int, |s: TestSuite| s.passed_tests)
}

/// The number of failed tests of all suites.
pub open spec fn total_failed(suites: Seq<(Seq<char>, TestSuite)>) -> int {
    summed(suites, suites.len() as int, |s: TestSuite| s.failed_tests)
}

/// The summary of all suites. The overall pass rate and the pass rates of
/// the suites, one for each suite in order, are shown as the texts that the
/// caller made of them; a suite beyond the end of the list is shown without
/// a number.
pub open spec fn summary(
    suites: Seq<(Seq<char>, TestSuite)>,
    overall_pass_rate: Seq<char>,
    suite_pass_rates: Seq<String>,
) -> Seq<char> {
    "=== TEST EXECUTION SUMMARY ===\n\n"@ + "Total Suites: "@ + decimal(suites.len()) + "\n"@
        + "Total Tests: "@ + decimal(total_tests(suites) as nat) + "\n"@ + "  Passed: "@
        + decimal(total_passed(suites) as nat) + "\n"@ + "  Failed: "@ + decimal(
        total_failed(suites) as nat,
    ) + "\n"@ + "Overall Pass Rate: "@ + overall_pass_rate + "%\n\n"@ + "Suites:\n"@ + joined(
        with_texts(suites, suite_pass_rates),
        |e: ((Seq<char>, TestSuite), Seq<char>)| suite_line(e.0.1, e.1),
    )
}

impl TestRunner {
    pub fn new() -> (runner: Self)
        ensures
            runner@ == Seq::<(Seq<char>, TestSuite)>::empty(),
    {
        Self { suites: TextMap::new() }
    }

    /// Files a new, empty suite under its id, over a suite that was there,
    /// and hands it out for filling.
    pub fn create_suite(&mut self, suite_id: String, suite_name: String, test_type: TestSuiteType) -> (suite:
        &mut TestSuite)
        ensures
            suite.is_blank(),
            suite.suite_id == suite_id,
            suite.suite_name == suite_name,
            suite.test_type == test_type,
            final(self)@ == with_entry(old(self)@, suite_id@, *final(suite)),
    {
        let key = suite_id.clone();
        let suite = TestSuite::new(suite_id, suite_name, test_type);
        let ghost before = self.suites@;
        proof {
            lemma_with_entry_value(before, key@, suite);
            lemma_position_of(before, key@);
            lemma_position_of(with_entry(before, key@, suite), key@);
        }
        self.suites.insert(key.clone(), suite);
        let ghost filed = self.suites@;
        let found = self.suites.get_mut(key.as_str());
        let suite = found.unwrap();
        proof {
            crate::collections::lemma_with_entry_twice(before, key@, *suite, *final(suite));
        }
        suite
    }

    /// The table of suites.
    pub fn suites(&self) -> (table: &TextMap<TestSuite>)
        ensures
            table@ == self@,
    {
        &self.suites
    }

    pub fn get_suite(&self, suite_id: &str) -> (suite: Option<&TestSuite>)
        ensures
            match suite {
                Some(s) => value_under(self@, suite_id@) == Some(*s),
                None => value_under(self@, suite_id@).is_none(),
            },
    {
        self.suites.get(suite_id)
    }

    /// Records a test in the suite under the id. Where there is no such
    /// suite, nothing happens.
    pub fn add_test(&mut self, suite_id: &str, test: TestCase)
        requires
            value_under(old(self)@, suite_id@).is_some() ==> value_under(
                old(self)@,
                suite_id@,
            ).unwrap().has_room(test),
        ensures
            match value_under(old(self)@, suite_id@) {
                Some(suite) => exists|tests: Vec<TestCase>|
                    tests@ == suite.tests@.push(test) && final(self)@ == with_entry(
                        old(self)@,
                        suite_id@,
                        suite.with_test(tests, test),
                    ),
                None => final(self)@ == old(self)@,
            },
    {
        match self.suites.get_mut(suite_id) {
            Some(suite) => {
                suite.add_test(test);
            },
            None => {},
        }
    }

    /// The number of tests of all suites.
    pub fn get_total_tests(&self) -> (total: usize)
        requires
            total_tests(self@) <= usize::MAX,
        ensures
            total == total_tests(self@),
    {
        let ghost counter = |s: TestSuite| s.total_tests;
        let mut total: usize = 0;
        let mut i: usize = 0;
        while i < self.suites.len()
            invariant
                i <= self.suites@.len(),
                counter == |s: TestSuite| s.total_tests,
                total == summed(self@, i as int, counter),
                summed(self@, self@.len() as int, counter) <= usize::MAX,
            decreases self.suites@.len() - i,
        {
            proof {
                lemma_summed_grows(self@, i + 1, counter);
            }
            total += self.suites.value_at(i).total_tests;
            i += 1;
        }
        total
    }

    /// The number of passed tests of all suites.
    pub fn get_total_passed(&self) -> (total: usize)
        requires
            total_passed(self@) <= usize::MAX,
        ensures
            total == total_passed(self@),
    {
        let ghost counter = |s: TestSuite| s.passed_tests;
        let mut total: usize = 0;
        let mut i: usize = 0;
        while i < self.suites.len()
            invariant
                i <= self.suites@.len(),
                counter == |s: TestSuite| s.passed_tests,
                total == summed(self@, i as int, counter),
                summed(self@, self@.len() as int, counter) <= usize::MAX,
            decreases self.suites@.len() - i,
        {
            proof {
                lemma_summed_grows(self@, i + 1, counter);
            }
            total += self.suites.value_at(i).passed_tests;
            i += 1;
        }
        total
    }

    /// The number of failed tests of all suites.
    pub fn get_total_failed(&self) -> (total: usize)
        requires
            total_failed(self@) <= usize::MAX,
        ensures
            total == total_failed(self@),
    {
        let ghost counter = |s: TestSuite| s.failed_tests;
        let mut total: usize = 0;
        let mut i: usize = 0;
        while i < self.suites.len()
            invariant
                i <= self.suites@.len(),
                counter == |s: TestSuite| s.failed_tests,
                total == summed(self@, i as int, counter),
                summed(self@, self@.len() as int, counter) <= usize::MAX,
            decreases self.suites@.len() - i,
        {
            proof {
                lemma_summed_grows(self@, i + 1, counter);
            }
            total += self.suites.value_at(i).failed_tests;
            i += 1;
        }
        total
    }

    /// Whether no test of any suite failed.
    pub fn is_all_passed(&self) -> (passed: bool)
        requires
            total_failed(self@) <= usize::MAX,
        ensures
            passed == (total_failed(self@) == 0),
    {
        self.get_total_failed() == 0
    }

    /// The summary of all suites, as text. Pass rates are fractions, so
    /// the caller renders them and hands the texts in: the overall rate,
    /// and one rate for each suite in order.
    pub fn generate_summary(&self, overall_pass_rate: &str, suite_pass_rates: &[String]) -> (summary:
        String)
        requires
            total_tests(self@) <= usize::MAX,
            total_passed(self@) <= usize::MAX,
            total_failed(self@) <= usize::MAX,
        ensures
            summary@ == self::summary(self@, overall_pass_rate@, suite_pass_rates@),
    {
        let mut summary = String::from_str("=== TEST EXECUTION SUMMARY ===\n\n");
        push_count_field(&mut summary, "Total Suites: ", self.suites.len(), "\n");
        push_count_field(&mut summary, "Total Tests: ", self.get_total_tests(), "\n");
        push_count_field(&mut summary, "  Passed: ", self.get_total_passed(), "\n");
        push_count_field(&mut summary, "  Failed: ", self.get_total_failed(), "\n");
        push_field(&mut summary, "Overall Pass Rate: ", overall_pass_rate, "%\n\n");
        summary.append("Suites:\n");
        let ghost line = |e: ((Seq<char>, TestSuite), Seq<char>)| suite_line(e.0.1, e.1);
        let ghost head = summary@;
        let ghost items = with_texts(self@, suite_pass_rates@);
        let mut i: usize = 0;
        proof {
            lemma_joined_ends(items, line);
            assert(summary@ =~= head + joined(items.take(0), line));
        }
        while i < self.suites.len()
            invariant
                i <= items.len(),
                items == with_texts(self@, suite_pass_rates@),
                self@ == self.suites@,
                line == |e: ((Seq<char>, TestSuite), Seq<char>)| suite_line(e.0.1, e.1),
                summary@ == head + joined(items.take(i as int), line),
            decreases items.len() - i,
        {
            proof {
                lemma_joined_step(items, i as int, line);
            }
            let ghost before = summary@;
            let suite = self.suites.value_at(i);
            push_field(&mut summary, "  ", suite.suite_name.as_str(), " (");
            summary.append(suite.test_type.name());
            push_field(&mut summary, ") - ", text_or_empty(suite_pass_rates, i), "%\n");
            assert(summary@ =~= before + suite_line(items[i as int].0.1, items[i as int].1));
            assert(summary@ =~= head + joined(items.take(i + 1), line));
            i += 1;
        }
        proof {
            lemma_joined_ends(items, line);
        }
        summary
    }
}

impl Default for TestRunner {
    fn default() -> (runner: Self)
        ensures
            runner@ == Seq::<(Seq<char>, TestSuite)>::empty(),
    {
        Self::new()
    }
}

} // verus!
