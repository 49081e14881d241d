//! The record of how three versions of a codebase differ: per file and per
//! hunk, with the counts that a merge plan starts from.

use crate::text::{
    clone_strings,
    decimal,
    joined,
    lemma_joined_ends,
    lemma_joined_step,
    push_count,
    push_count_field,
    push_field,
    texts,
};
use vstd::prelude::*;

verus! {

/// What happened to a file.
#[derive(Debug, Clone, Copy, PartialEq, Eq, Hash, Structural)]
pub enum FileStatus {
    Added,
    Modified,
    Deleted,
    Renamed,
    Unchanged,
    Conflict,
}

impl FileStatus {
    /// The name of the status.
    pub open spec fn name_text(self) -> Seq<char> {
        match self {
            FileStatus::Added => "Added"@,
            FileStatus::Modified => "Modified"@,
            FileStatus::Deleted => "Deleted"@,
            FileStatus::Renamed => "Renamed"@,
            FileStatus::Unchanged => "Unchanged"@,
            FileStatus::Conflict => "Conflict"@,
        }
    }

    /// The name of the status.
    pub fn name(&self) -> (name: &'static str)
        ensures
            name@ == self.name_text(),
    {
        match self {
            FileStatus::Added => "Added",
            FileStatus::Modified => "Modified",
            FileStatus::Deleted => "Deleted",
            FileStatus::Renamed => "Renamed",
            FileStatus::Unchanged => "Unchanged",
            FileStatus::Conflict => "Conflict",
        }
    }
}

/// The difference of one file.
#[derive(Debug)]
pub struct FileDiff {
    pub file_path: String,
    pub status: FileStatus,
    pub base_content: Option<String>,
    pub upstream_content: Option<String>,
    pub local_content: Option<String>,
    pub lines_added: usize,
    pub lines_removed: usize,
    pub lines_modified: usize,
}

/// The text of an optional string.
pub open spec fn optional_text(text: Option<String>) -> Option<Seq<char>> {
    match text {
        Some(t) => Some(t@),
        None => None,
    }
}

/// A copy of an optional string.
pub fn clone_optional(text: &Option<String>) -> (copy: Option<String>)
    ensures
        optional_text(copy) == optional_text(*text),
{
    match text {
        Some(t) => Some(t.clone()),
        None => None,
    }
}

/// The mathematical content of the difference of a file.
pub ghost struct FileDiffView {
    pub file_path: Seq<char>,
    pub status: FileStatus,
    pub base_content: Option<Seq<char>>,
    pub upstream_content: Option<Seq<char>>,
    pub local_content: Option<Seq<char>>,
    pub lines_added: usize,
    pub lines_removed: usize,
    pub lines_modified: usize,
}

impl View for FileDiff {
    type V = FileDiffView;

    open spec fn view(&self) -> FileDiffView {
        FileDiffView {
            file_path: self.file_path@,
            status: self.status,
            base_content: optional_text(self.base_content),
            upstream_content: optional_text(self.upstream_content),
            local_content: optional_text(self.local_content),
            lines_added: self.lines_added,
            lines_removed: self.lines_removed,
            lines_modified: self.lines_modified,
        }
    }
}

impl Clone for FileDiff {
    fn clone(&self) -> (copy: Self)
        ensures
            copy@ == self@,
    {
        Self {
            file_path: self.file_path.clone(),
            status: self.status,
            base_content: clone_optional(&self.base_content),
            upstream_content: clone_optional(&self.upstream_content),
            local_content: clone_optional(&self.local_content),
            lines_added: self.lines_added,
            lines_removed: self.lines_removed,
            lines_modified: self.lines_modified,
        }
    }
}

/// One stretch of lines that differs, in its three versions.
#[derive(Debug)]
pub struct DiffHunk {
    pub file_path: String,
    pub hunk_id: usize,
    pub start_line: usize,
    pub end_line: usize,
    pub base_lines: Vec<String>,
    pub upstream_lines: Vec<String>,
    pub local_lines: Vec<String>,
    pub conflict: bool,
}

/// The mathematical content of a hunk.
pub ghost struct DiffHunkView {
    pub file_path: Seq<char>,
    pub hunk_id: usize,
    pub start_line: usize,
    pub end_line: usize,
    pub base_lines: Seq<Seq<char>>,
    pub upstream_lines: Seq<Seq<char>>,
    pub local_lines: Seq<Seq<char>>,
    pub conflict: bool,
}

impl View for DiffHunk {
    type V = DiffHunkView;

    open spec fn view(&self) -> DiffHunkView {
        DiffHunkView {
            file_path: self.file_path@,
            hunk_id: self.hunk_id,
            start_line: self.start_line,
            end_line: self.end_line,
            base_lines: texts(self.base_lines@),
            upstream_lines: texts(self.upstream_lines@),
            local_lines: texts(self.local_lines@),
            conflict: self.conflict,
        }
    }
}

impl Clone for DiffHunk {
    fn clone(&self) -> (copy: Self)
        ensures
            copy@ == self@,
    {
        Self {
            file_path: self.file_path.clone(),
            hunk_id: self.hunk_id,
            start_line: self.start_line,
            end_line: self.end_line,
            base_lines: clone_strings(self.base_lines.as_slice()),
            upstream_lines: clone_strings(self.upstream_lines.as_slice()),
            local_lines: clone_strings(self.local_lines.as_slice()),
            conflict: self.conflict,
        }
    }
}

/// What to do with a hunk.
#[derive(Debug, Clone, Copy, PartialEq, Eq, Structural)]
pub enum MergeDecision {
    Adopt,
    Adapt,
    Skip,
    Replace,
    Manual,
}

impl MergeDecision {
    /// The name of the decision.
    pub open spec fn name_text(self) -> Seq<char> {
        match self {
            MergeDecision::Adopt => "Adopt"@,
            MergeDecision::Adapt => "Adapt"@,
            MergeDecision::Skip => "Skip"@,
            MergeDecision::Replace => "Replace"@,
            MergeDecision::Manual => "Manual"@,
        }
    }

    /// The name of the decision.
    pub fn name(&self) -> (name: &'static str)
        ensures
            name@ == self.name_text(),
    {
        match self {
            MergeDecision::Adopt => "Adopt",
            MergeDecision::Adapt => "Adapt",
            MergeDecision::Skip => "Skip",
            MergeDecision::Replace => "Replace",
            MergeDecision::Manual => "Manual",
        }
    }
}

/// A hunk with the decision on it.
#[derive(Debug, Clone)]
pub struct MergeHunk {
    pub hunk: DiffHunk,
    pub decision: MergeDecision,
    pub reason: String,
    pub priority: u8,
}

/// The mathematical content of a hunk with the decision on it.
pub ghost struct MergeHunkView {
    pub hunk: DiffHunkView,
    pub decision: MergeDecision,
    pub reason: Seq<char>,
    pub priority: u8,
}

impl View for MergeHunk {
    type V = MergeHunkView;

    open spec fn view(&self) -> MergeHunkView {
        MergeHunkView {
            hunk: self.hunk@,
            decision: self.decision,
            reason: self.reason@,
            priority: self.priority,
        }
    }
}

/// The moment that a fresh report carries.
pub open spec fn initial_scan_date() -> Seq<char> {
    "2025-11-21T23:55:00Z"@
}

/// The lines of one file in the report.
pub open spec fn file_rows(diff: FileDiff) -> Seq<char> {
    "  "@ + diff.file_path@ + " ("@ + diff.status.name_text() + ")\n"@ + "    +"@ + decimal(
        diff.lines_added as nat,
    ) + " -"@ + decimal(diff.lines_removed as nat) + " ~"@ + decimal(diff.lines_modified as nat)
        + "\n"@
}

/// How three versions of a codebase differ.
#[derive(Debug, Clone)]
pub struct CodebaseDiffReport {
    pub scan_date: String,
    pub base_version: String,
    pub upstream_version: String,
    pub local_version: String,
    pub file_diffs: Vec<FileDiff>,
    pub hunks: Vec<DiffHunk>,
    pub total_files: usize,
    pub files_added: usize,
    pub files_modified: usize,
    pub files_deleted: usize,
    pub files_conflicted: usize,
    pub total_hunks: usize,
    pub conflicted_hunks: usize,
}

impl CodebaseDiffReport {
    /// No file and no hunk was recorded.
    pub open spec fn is_blank(&self) -> bool {
        &&& self.scan_date@ == initial_scan_date()
        &&& self.file_diffs@.len() == 0
        &&& self.hunks@.len() == 0
        &&& self.total_files == 0
        &&& self.files_added == 0
        &&& self.files_modified == 0
        &&& self.files_deleted == 0
        &&& self.files_conflicted == 0
        &&& self.total_hunks == 0
        &&& self.conflicted_hunks == 0
    }

    /// The report on the differences.
    pub open spec fn report(&self) -> Seq<char> {
        "=== CODEBASE DIFF REPORT ===\n\n"@ + "Base Version: "@ + self.base_version@ + "\n"@
            + "Upstream Version: "@ + self.upstream_version@ + "\n"@ + "Local Version: "@
            + self.local_version@ + "\n"@ + "Scan Date: "@ + self.scan_date@ + "\n\n"@
            + "Total Files: "@ + decimal(self.total_files as nat) + "\n"@ + "  Added: "@ + decimal(
            self.files_added as nat,
        ) + "\n"@ + "  Modified: "@ + decimal(self.files_modified as nat) + "\n"@
            + "  Deleted: "@ + decimal(self.files_deleted as nat) + "\n"@ + "  Conflicted: "@
            + decimal(self.files_conflicted as nat) + "\n\n"@ + "Total Hunks: "@ + decimal(
            self.total_hunks as nat,
        ) + "\n"@ + "  Conflicted: "@ + decimal(self.conflicted_hunks as nat) + "\n\n"@
            + "File Changes:\n"@ + joined(self.file_diffs@, |d: FileDiff| file_rows(d))
    }

    pub fn new(base_version: String, upstream_version: String, local_version: String) -> (report:
        Self)
        ensures
            report.is_blank(),
            report.base_version == base_version,
            report.upstream_version == upstream_version,
            report.local_version == local_version,
    {
        Self {
            scan_date: String::from_str("2025-11-21T23:55:00Z"),
            base_version,
            upstream_version,
            local_version,
            file_diffs: Vec::new(),
            hunks: Vec::new(),
            total_files: 0,
            files_added: 0,
            files_modified: 0,
            files_deleted: 0,
            files_conflicted: 0,
            total_hunks: 0,
            conflicted_hunks: 0,
        }
    }

    /// Records the difference of a file and counts it under its status.
    pub fn add_file_diff(&mut self, diff: FileDiff)
        requires
            old(self).total_files < usize::MAX,
            old(self).files_added < usize::MAX,
            old(self).files_modified < usize::MAX,
            old(self).files_deleted < usize::MAX,
            old(self).files_conflicted < usize::MAX,
        ensures
            final(self).file_diffs@ == old(self).file_diffs@.push(diff),
            *final(self) == (CodebaseDiffReport {
                file_diffs: final(self).file_diffs,
                total_files: (old(self).total_files + 1) as usize,
                files_added: if diff.status == FileStatus::Added {
                    (old(self).files_added + 1) as usize
                } else {
                    old(self).files_added
                },
                files_modified: if diff.status == FileStatus::Modified {
                    (old(self).files_modified + 1) as usize
                } else {
                    old(self).files_modified
                },
                files_deleted: if diff.status == FileStatus::Deleted {
                    (old(self).files_deleted + 1) as usize
                } else {
                    old(self).files_deleted
                },
                files_conflicted: if diff.status == FileStatus::Conflict {
                    (old(self).files_conflicted + 1) as usize
                } else {
                    old(self).files_conflicted
                },
                ..*old(self)
            }),
    {
        match diff.status {
            FileStatus::Added => {
                self.files_added += 1;
            },
            FileStatus::Modified => {
                self.files_modified += 1;
            },
            FileStatus::Deleted => {
                self.files_deleted += 1;
            },
            FileStatus::Conflict => {
                self.files_conflicted += 1;
            },
            _ => {},
        }
        self.total_files += 1;
        self.file_diffs.push(diff);
    }

    /// Records a hunk and counts it, as conflicted where it is.
    pub fn add_hunk(&mut self, hunk: DiffHunk)
        requires
            old(self).total_hunks < usize::MAX,
            old(self).conflicted_hunks < usize::MAX,
        ensures
            final(self).hunks@ == old(self).hunks@.push(hunk),
            *final(self) == (CodebaseDiffReport {
                hunks: final(self).hunks,
                total_hunks: (old(self).total_hunks + 1) as usize,
                conflicted_hunks: if hunk.conflict {
                    (old(self).conflicted_hunks + 1) as usize
                } else {
                    old(self).conflicted_hunks
                },
                ..*old(self)
            }),
    {
        if hunk.conflict {
            self.conflicted_hunks += 1;
        }
        self.total_hunks += 1;
        self.hunks.push(hunk);
    }

    /// The report on the differences, as text.
    pub fn generate_report(&self) -> (report: String)
        ensures
            report@ == self.report(),
    {
        let mut report = String::from_str("=== CODEBASE DIFF REPORT ===\n\n");
        push_field(&mut report, "Base Version: ", self.base_version.as_str(), "\n");
        push_field(&mut report, "Upstream Version: ", self.upstream_version.as_str(), "\n");
        push_field(&mut report, "Local Version: ", self.local_version.as_str(), "\n");
        push_field(&mut report, "Scan Date: ", self.scan_date.as_str(), "\n\n");
        push_count_field(&mut report, "Total Files: ", self.total_files, "\n");
        push_count_field(&mut report, "  Added: ", self.files_added, "\n");
        push_count_field(&mut report, "  Modified: ", self.files_modified, "\n");
        push_count_field(&mut report, "  Deleted: ", self.files_deleted, "\n");
        push_count_field(&mut report, "  Conflicted: ", self.files_conflicted, "\n\n");
        push_count_field(&mut report, "Total Hunks: ", self.total_hunks, "\n");
        push_count_field(&mut report, "  Conflicted: ", self.conflicted_hunks, "\n\n");
        report.append("File Changes:\n");
        let ghost line = |d: FileDiff| file_rows(d);
        let ghost head = report@;
        let ghost items = self.file_diffs@;
        let mut i: usize = 0;
        proof {
            lemma_joined_ends(items, line);
            assert(report@ =~= head + joined(items.take(0), line));
        }
        while i < self.file_diffs.len()
            invariant
                i <= items.len(),
                items == self.file_diffs@,
                line == |d: FileDiff| file_rows(d),
                report@ == head + joined(items.take(i as int), line),
            decreases items.len() - i,
        {
            proof {
                lemma_joined_step(items, i as int, line);
            }
            let ghost before = report@;
            let diff = &self.file_diffs[i];
            push_field(&mut report, "  ", diff.file_path.as_str(), " (");
            report.append(diff.status.name());
            report.append(")\n");
            push_count_field(&mut report, "    +", diff.lines_added, " -");
            push_count(&mut report, diff.lines_removed);
            report.append(" ~");
            push_count(&mut report, diff.lines_modified);
            report.append("\n");
            assert(report@ =~= before + file_rows(items[i as int]));
            assert(report@ =~= head + joined(items.take(i + 1), line));
            i += 1;
        }
        proof {
            lemma_joined_ends(items, line);
        }
        report
    }
}

impl Default for CodebaseDiffReport {
    fn default() -> (report: Self)
        ensures
            report.is_blank(),
            report.base_version@ == "1.0.0"@,
            report.upstream_version@ == "1.0.0"@,
            report.local_version@ == "1.0.0"@,
    {
        Self::new(String::from_str("1.0.0"), String::from_str("1.0.0"), String::from_str("1.0.0"))
    }
}

} // verus!
