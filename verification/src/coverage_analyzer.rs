//! Coverage figures per file and per report: lines, branches and functions
//! covered, and what share of each that is.

use crate::collections::{
    lemma_position_of,
    lemma_with_entry_twice,
    lemma_with_entry_value,
    value_under,
    with_entry,
    TextMap,
};
use crate::text::{
    decimal,
    joined,
    lemma_joined_ends,
    lemma_joined_step,
    push_count,
    push_count_field,
    push_field,
    text_or_empty,
    with_texts,
};
use vstd::prelude::*;

verus! {

/// The coverage figures of one file.
#[derive(Debug, Clone)]
pub struct CoverageMetrics {
    pub file_path: String,
    pub lines_total: usize,
    pub lines_covered: usize,
    pub branches_total: usize,
    pub branches_covered: usize,
    pub functions_total: usize,
    pub functions_covered: usize,
}

/// The moment that a fresh report carries.
pub open spec fn initial_timestamp() -> Seq<char> {
    "2025-11-21T00:00:00Z"@
}

/// The line of one file in the report, with the text of its overall
/// coverage.
pub open spec fn file_line(metrics: CoverageMetrics, overall: Seq<char>) -> Seq<char> {
    "  "@ + metrics.file_path@ + " - "@ + overall + "%\n"@
}

/// The coverage figures of several files with their totals.
#[derive(Debug, Clone)]
pub struct CoverageReport {
    pub report_id: String,
    pub timestamp: String,
    pub metrics: Vec<CoverageMetrics>,
    pub total_lines: usize,
    pub total_lines_covered: usize,
    pub total_branches: usize,
    pub total_branches_covered: usize,
    pub total_functions: usize,
    pub total_functions_covered: usize,
}

impl CoverageReport {
    /// The report has no file yet.
    pub open spec fn is_blank(&self) -> bool {
        &&& self.timestamp@ == initial_timestamp()
        &&& self.metrics@.len() == 0
        &&& self.total_lines == 0
        &&& self.total_lines_covered == 0
        &&& self.total_branches == 0
        &&& self.total_branches_covered == 0
        &&& self.total_functions == 0
        &&& self.total_functions_covered == 0
    }

    /// Whether the figures of one more file can be added without a total
    /// running over.
    pub open spec fn has_room(&self, metrics: CoverageMetrics) -> bool {
        &&& self.total_lines + metrics.lines_total <= usize::MAX
        &&& self.total_lines_covered + metrics.lines_covered <= usize::MAX
        &&& self.total_branches + metrics.branches_total <= usize::MAX
        &&& self.total_branches_covered + metrics.branches_covered <= usize::MAX
        &&& self.total_functions + metrics.functions_total <= usize::MAX
        &&& self.total_functions_covered + metrics.functions_covered <= usize::MAX
    }

    /// The report with the figures of one more file.
    pub open spec fn with_metrics(self, list: Vec<CoverageMetrics>, metrics: CoverageMetrics) -> CoverageReport {
        CoverageReport {
            metrics: list,
            total_lines: (self.total_lines + metrics.lines_total) as usize,
            total_lines_covered: (self.total_lines_covered + metrics.lines_covered) as usize,
            total_branches: (self.total_branches + metrics.branches_total) as usize,
            total_branches_covered: (self.total_branches_covered + metrics.branches_covered) as usize,
            total_functions: (self.total_functions + metrics.functions_total) as usize,
            total_functions_covered: (self.total_functions_covered
                + metrics.functions_covered) as usize,
            ..self
        }
    }

    /// The report as text. The shares of lines, branches and functions
    /// covered, the overall coverage, and the overall coverage of the
    /// files, one for each file in order, are shown as the texts that the
    /// caller made of them; a file beyond the end of the list is shown
    /// without a number.
    pub open spec fn report(
        &self,
        lines: Seq<char>,
        branches: Seq<char>,
        functions: Seq<char>,
        overall: Seq<char>,
        files: Seq<String>,
    ) -> Seq<char> {
        "=== COVERAGE REPORT ===\n\n"@ + "Report: "@ + self.report_id@ + "\n"@ + "Timestamp: "@
            + self.timestamp@ + "\n\n"@ + "Line Coverage: "@ + lines + "%\n"@ + "  "@ + decimal(
            self.total_lines_covered as nat,
        ) + " / "@ + decimal(self.total_lines as nat) + " lines\n\n"@ + "Branch Coverage: "@
            + branches + "%\n"@ + "  "@ + decimal(self.total_branches_covered as nat) + " / "@
            + decimal(self.total_branches as nat) + " branches\n\n"@ + "Function Coverage: "@
            + functions + "%\n"@ + "  "@ + decimal(self.total_functions_covered as nat) + " / "@
            + decimal(self.total_functions as nat) + " functions\n\n"@ + "Overall Coverage: "@
            + overall + "%\n\n"@ + "Files:\n"@ + joined(
            with_texts(self.metrics@, files),
            |m: (CoverageMetrics, Seq<char>)| file_line(m.0, m.1),
        )
    }

    pub fn new(report_id: String) -> (report: Self)
        ensures
            report.is_blank(),
            report.report_id == report_id,
    {
        Self {
            report_id,
            timestamp: String::from_str("2025-11-21T00:00:00Z"),
            metrics: Vec::new(),
            total_lines: 0,
            total_lines_covered: 0,
            total_branches: 0,
            total_branches_covered: 0,
            total_functions: 0,
            total_functions_covered: 0,
        }
    }

    /// Records the figures of a file and adds them to the totals.
    pub fn add_metrics(&mut self, metrics: CoverageMetrics)
        requires
            old(self).has_room(metrics),
        ensures
            final(self).metrics@ == old(self).metrics@.push(metrics),
            *final(self) == old(self).with_metrics(final(self).metrics, metrics),
    {
        self.total_lines += metrics.lines_total;
        self.total_lines_covered += metrics.lines_covered;
        self.total_branches += metrics.branches_total;
        self.total_branches_covered += metrics.branches_covered;
        self.total_functions += metrics.functions_total;
        self.total_functions_covered += metrics.functions_covered;
        self.metrics.push(metrics);
    }

    /// The report, as text. Shares of coverage are fractions, so the
    /// caller renders them and hands the texts in: the shares of lines,
    /// branches and functions covered, the overall coverage, and the overall
    /// coverage of each file in order.
    pub fn generate_report(
        &self,
        lines: &str,
        branches: &str,
        functions: &str,
        overall: &str,
        files: &[String],
    ) -> (report: String)
        ensures
            report@ == self.report(lines@, branches@, functions@, overall@, files@),
    {
        let mut report = String::from_str("=== COVERAGE REPORT ===\n\n");
        push_field(&mut report, "Report: ", self.report_id.as_str(), "\n");
        push_field(&mut report, "Timestamp: ", self.timestamp.as_str(), "\n\n");
        push_field(&mut report, "Line Coverage: ", lines, "%\n");
        push_count_field(&mut report, "  ", self.total_lines_covered, " / ");
        push_count(&mut report, self.total_lines);
        report.append(" lines\n\n");
        push_field(&mut report, "Branch Coverage: ", branches, "%\n");
        push_count_field(&mut report, "  ", self.total_branches_covered, " / ");
        push_count(&mut report, self.total_branches);
        report.append(" branches\n\n");
        push_field(&mut report, "Function Coverage: ", functions, "%\n");
        push_count_field(&mut report, "  ", self.total_functions_covered, " / ");
        push_count(&mut report, self.total_functions);
        report.append(" functions\n\n");
        push_field(&mut report, "Overall Coverage: ", overall, "%\n\n");
        report.append("Files:\n");
        let ghost line = |m: (CoverageMetrics, Seq<char>)| file_line(m.0, m.1);
        let ghost head = report@;
        let ghost items = with_texts(self.metrics@, files@);
        let mut i: usize = 0;
        proof {
            lemma_joined_ends(items, line);
            assert(report@ =~= head + joined(items.take(0), line));
        }
        while i < self.metrics.len()
            invariant
                i <= items.len(),
                items == with_texts(self.metrics@, files@),
                line == |m: (CoverageMetrics, Seq<char>)| file_line(m.0, m.1),
                report@ == head + joined(items.take(i as int), line),
            decreases items.len() - i,
        {
            proof {
                lemma_joined_step(items, i as int, line);
            }
            let ghost before = report@;
            let metrics = &self.metrics[i];
            push_field(&mut report, "  ", metrics.file_path.as_str(), " - ");
            report.append(text_or_empty(files, i));
            report.append("%\n");
            assert(report@ =~= before + file_line(items[i as int].0, items[i as int].1));
            assert(report@ =~= head + joined(items.take(i + 1), line));
            i += 1;
        }
        proof {
            lemma_joined_ends(items, line);
        }
        report
    }
}

impl Default for CoverageReport {
    fn default() -> (report: Self)
        ensures
            report.is_blank(),
            report.report_id@ == "report-1"@,
    {
        Self::new(String::from_str("report-1"))
    }
}

/// The coverage reports by id.
pub struct CoverageAnalyzer {
    reports: TextMap<CoverageReport>,
}

impl View for CoverageAnalyzer {
    type V = Seq<(Seq<char>, CoverageReport)>;

    closed spec fn view(&self) -> Seq<(Seq<char>, CoverageReport)> {
        self.reports@
    }
}

impl CoverageAnalyzer {
    pub fn new() -> (analyzer: Self)
        ensures
            analyzer@ == Seq::<(Seq<char>, CoverageReport)>::empty(),
    {
        Self { reports: TextMap::new() }
    }

    /// Files a new, empty report under its id, over a report that was
    /// there, and hands it out for filling.
    pub fn create_report(&mut self, report_id: String) -> (report: &mut CoverageReport)
        ensures
            report.is_blank(),
            report.report_id == report_id,
            final(self)@ == with_entry(old(self)@, report_id@, *final(report)),
    {
        let key = report_id.clone();
        let report = CoverageReport::new(report_id);
        let ghost before = self.reports@;
        proof {
            lemma_with_entry_value(before, key@, report);
            lemma_position_of(before, key@);
            lemma_position_of(with_entry(before, key@, report), key@);
        }
        self.reports.insert(key.clone(), report);
        let found = self.reports.get_mut(key.as_str());
        let report = found.unwrap();
        proof {
            lemma_with_entry_twice(before, key@, *report, *final(report));
        }
        report
    }

    pub fn get_report(&self, report_id: &str) -> (report: Option<&CoverageReport>)
        ensures
            match report {
                Some(r) => value_under(self@, report_id@) == Some(*r),
                None => value_under(self@, report_id@).is_none(),
            },
    {
        self.reports.get(report_id)
    }

    /// Records the figures of a file in the report under the id. Where
    /// there is no such report, nothing happens.
    pub fn add_metrics(&mut self, report_id: &str, metrics: CoverageMetrics)
        requires
            value_under(old(self)@, report_id@).is_some() ==> value_under(
                old(self)@,
                report_id@,
            ).unwrap().has_room(metrics),
        ensures
            match value_under(old(self)@, report_id@) {
                Some(report) => exists|list: Vec<CoverageMetrics>|
                    list@ == report.metrics@.push(metrics) && final(self)@ == with_entry(
                        old(self)@,
                        report_id@,
                        report.with_metrics(list, metrics),
                    ),
                None => final(self)@ == old(self)@,
            },
    {
        match self.reports.get_mut(report_id) {
            Some(report) => {
                report.add_metrics(metrics);
            },
            None => {},
        }
    }
}

impl Default for CoverageAnalyzer {
    fn default() -> (analyzer: Self)
        ensures
            analyzer@ == Seq::<(Seq<char>, CoverageReport)>::empty(),
    {
        Self::new()
    }
}

} // verus!
