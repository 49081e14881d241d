//! The results of verification runs: which check ran, of which kind, and
//! how it ended.

use crate::collections::{lemma_select_ends, lemma_select_step, targets};
use vstd::prelude::*;

verus! {

/// The kind of a check.
#[derive(Debug, Clone, Copy, PartialEq, Eq, Structural)]
pub enum TestType {
    Unit,
    Integration,
    Build,
    Lint,
    Coverage,
    Security,
}

impl TestType {
    /// The name of the kind.
    pub open spec fn name_text(self) -> Seq<char> {
        match self {
            TestType::Unit => "Unit"@,
            TestType::Integration => "Integration"@,
            TestType::Build => "Build"@,
            TestType::Lint => "Lint"@,
            TestType::Coverage => "Coverage"@,
            TestType::Security => "Security"@,
        }
    }

    /// The name of the kind.
    pub fn name(&self) -> (name: &'static str)
        ensures
            name@ == self.name_text(),
    {
        match self {
            TestType::Unit => "Unit",
            TestType::Integration => "Integration",
            TestType::Build => "Build",
            TestType::Lint => "Lint",
            TestType::Coverage => "Coverage",
            TestType::Security => "Security",
        }
    }
}

/// How a build ended.
#[derive(Debug, Clone, Copy, PartialEq, Eq, Structural)]
pub enum BuildStatus {
    Success,
    Warning,
    Failure,
}

impl BuildStatus {
    /// The name of the status.
    pub open spec fn name_text(self) -> Seq<char> {
        match self {
            BuildStatus::Success => "Success"@,
            BuildStatus::Warning => "Warning"@,
            BuildStatus::Failure => "Failure"@,
        }
    }

    /// The name of the status.
    pub fn name(&self) -> (name: &'static str)
        ensures
            name@ == self.name_text(),
    {
        match self {
            BuildStatus::Success => "Success",
            BuildStatus::Warning => "Warning",
            BuildStatus::Failure => "Failure",
        }
    }
}

/// The outcome of one check.
#[derive(Debug, Clone)]
pub struct VerificationResult {
    pub test_name: String,
    pub test_type: TestType,
    pub passed: bool,
    pub duration_ms: u64,
    pub error_message: Option<String>,
    pub timestamp: String,
}

/// The moment that recorded results carry.
pub open spec fn recorded_at() -> Seq<char> {
    "2025-11-21T00:00:00Z"@
}

impl VerificationResult {
    /// The result of a check of the given kind, without an error message.
    pub fn record(test_name: String, test_type: TestType, passed: bool, duration_ms: u64) -> (result:
        Self)
        ensures
            result.test_name == test_name,
            result.test_type == test_type,
            result.passed == passed,
            result.duration_ms == duration_ms,
            result.error_message.is_none(),
            result.timestamp@ == recorded_at(),
    {
        Self {
            test_name,
            test_type,
            passed,
            duration_ms,
            error_message: None,
            timestamp: String::from_str("2025-11-21T00:00:00Z"),
        }
    }
}

/// The results of the given kind, in their order.
pub fn results_by_type(results: &[VerificationResult], test_type: TestType) -> (found: Vec<
    &VerificationResult,
>)
    ensures
        targets(found@) == results@.filter(|r: VerificationResult| r.test_type == test_type),
{
    let ghost items = results@;
    let ghost keep = |r: VerificationResult| r.test_type == test_type;
    let mut found: Vec<&VerificationResult> = Vec::new();
    let mut i: usize = 0;
    proof {
        lemma_select_ends(items, keep);
        assert(targets(found@) =~= Seq::<VerificationResult>::empty());
    }
    while i < results.len()
        invariant
            i <= items.len(),
            items == results@,
            keep == |r: VerificationResult| r.test_type == test_type,
            targets(found@) == items.take(i as int).filter(keep),
        decreases items.len() - i,
    {
        proof {
            lemma_select_step(items, i as int, keep);
        }
        let result = &results[i];
        if result.test_type == test_type {
            let ghost before = targets(found@);
            found.push(result);
            assert(targets(found@) =~= before.push(*result));
        }
        i += 1;
    }
    proof {
        lemma_select_ends(items, keep);
    }
    found
}

/// The results of checks that did not pass, in their order.
pub fn failed_results(results: &[VerificationResult]) -> (found: Vec<&VerificationResult>)
    ensures
        targets(found@) == results@.filter(|r: VerificationResult| !r.passed),
{
    let ghost items = results@;
    let ghost keep = |r: VerificationResult| !r.passed;
    let mut found: Vec<&VerificationResult> = Vec::new();
    let mut i: usize = 0;
    proof {
        lemma_select_ends(items, keep);
        assert(targets(found@) =~= Seq::<VerificationResult>::empty());
    }
    while i < results.len()
        invariant
            i <= items.len(),
            items == results@,
            keep == |r: VerificationResult| !r.passed,
            targets(found@) == items.take(i as int).filter(keep),
        decreases items.len() - i,
    {
        proof {
            lemma_select_step(items, i as int, keep);
        }
        let result = &results[i];
        if !result.passed {
            let ghost before = targets(found@);
            found.push(result);
            assert(targets(found@) =~= before.push(*result));
        }
        i += 1;
    }
    proof {
        lemma_select_ends(items, keep);
    }
    found
}

} // verus!
