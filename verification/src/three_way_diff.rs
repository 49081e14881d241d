//! Three-way comparison of one file: the base, the upstream version and the
//! local version, line by line.

use crate::text::{
    decimal,
    joined,
    lemma_joined_ends,
    lemma_joined_step,
    lines,
    lines_of,
    push_count_field,
    push_field,
    same_text,
    strings_equal,
    texts,
};
use vstd::prelude::*;

verus! {

/// How the three versions of a file relate.
#[derive(Debug, Clone, Copy, PartialEq, Eq, Structural)]
pub enum MergeStatus {
    Clean,
    Conflict,
    BothModified,
    OnlyUpstreamModified,
    OnlyLocalModified,
}

impl MergeStatus {
    /// The name of the status.
    pub open spec fn name_text(self) -> Seq<char> {
        match self {
            MergeStatus::Clean => "Clean"@,
            MergeStatus::Conflict => "Conflict"@,
            MergeStatus::BothModified => "BothModified"@,
            MergeStatus::OnlyUpstreamModified => "OnlyUpstreamModified"@,
            MergeStatus::OnlyLocalModified => "OnlyLocalModified"@,
        }
    }

    /// The name of the status.
    pub fn name(&self) -> (name: &'static str)
        ensures
            name@ == self.name_text(),
    {
        match self {
            MergeStatus::Clean => "Clean",
            MergeStatus::Conflict => "Conflict",
            MergeStatus::BothModified => "BothModified",
            MergeStatus::OnlyUpstreamModified => "OnlyUpstreamModified",
            MergeStatus::OnlyLocalModified => "OnlyLocalModified",
        }
    }
}

/// One line on which all three versions differ.
#[derive(Debug, Clone)]
pub struct ConflictRegion {
    pub start_line: usize,
    pub end_line: usize,
    pub base_lines: Vec<String>,
    pub upstream_lines: Vec<String>,
    pub local_lines: Vec<String>,
}

/// The mathematical content of a conflict region.
pub ghost struct ConflictRegionView {
    pub start_line: usize,
    pub end_line: usize,
    pub base_lines: Seq<Seq<char>>,
    pub upstream_lines: Seq<Seq<char>>,
    pub local_lines: Seq<Seq<char>>,
}

impl View for ConflictRegion {
    type V = ConflictRegionView;

    open spec fn view(&self) -> ConflictRegionView {
        ConflictRegionView {
            start_line: self.start_line,
            end_line: self.end_line,
            base_lines: texts(self.base_lines@),
            upstream_lines: texts(self.upstream_lines@),
            local_lines: texts(self.local_lines@),
        }
    }
}

/// The three versions of a file with what their comparison found.
#[derive(Debug, Clone)]
pub struct ThreeWayDiff {
    pub file_path: String,
    pub base_content: String,
    pub upstream_content: String,
    pub local_content: String,
    pub merge_status: MergeStatus,
    pub conflicts: Vec<ConflictRegion>,
}

/// The contents of conflict regions, in order.
pub open spec fn region_views(regions: Seq<ConflictRegion>) -> Seq<ConflictRegionView> {
    regions.map_values(|r: ConflictRegion| r@)
}

/// How three versions relate, each given as its lines: clean where all are
/// the same, in conflict where all differ, changed by the upstream alone
/// where the local version still is the base or both changed alike, changed
/// locally alone where the upstream still is the base.
pub open spec fn status_of(
    base: Seq<Seq<char>>,
    upstream: Seq<Seq<char>>,
    local: Seq<Seq<char>>,
) -> MergeStatus {
    if base == upstream && base == local {
        MergeStatus::Clean
    } else if base != upstream && base != local && upstream != local {
        MergeStatus::Conflict
    } else if base != upstream && (upstream == local || base == local) {
        MergeStatus::OnlyUpstreamModified
    } else if base == upstream && base != local {
        MergeStatus::OnlyLocalModified
    } else {
        MergeStatus::Clean
    }
}

/// The line at `index`, or the empty line behind the last one.
pub open spec fn line_at(lines: Seq<Seq<char>>, index: int) -> Seq<char> {
    if 0 <= index < lines.len() {
        lines[index]
    } else {
        Seq::empty()
    }
}

/// The largest of three lengths.
pub open spec fn longest(a: int, b: int, c: int) -> int {
    if a >= b && a >= c {
        a
    } else if b >= c {
        b
    } else {
        c
    }
}

/// Whether the three versions all differ from one another on the line.
pub open spec fn conflicts_at(
    base: Seq<Seq<char>>,
    upstream: Seq<Seq<char>>,
    local: Seq<Seq<char>>,
    index: int,
) -> bool {
    line_at(base, index) != line_at(upstream, index) && line_at(base, index) != line_at(
        local,
        index,
    ) && line_at(upstream, index) != line_at(local, index)
}

/// The conflict region of one line.
pub open spec fn region_at(
    base: Seq<Seq<char>>,
    upstream: Seq<Seq<char>>,
    local: Seq<Seq<char>>,
    index: int,
) -> ConflictRegionView {
    ConflictRegionView {
        start_line: index as usize,
        end_line: index as usize,
        base_lines: seq![line_at(base, index)],
        upstream_lines: seq![line_at(upstream, index)],
        local_lines: seq![line_at(local, index)],
    }
}

/// The conflict regions among the first `count` lines.
pub open spec fn conflicts_in(
    base: Seq<Seq<char>>,
    upstream: Seq<Seq<char>>,
    local: Seq<Seq<char>>,
    count: int,
) -> Seq<ConflictRegionView>
    decreases count,
{
    if count <= 0 {
        Seq::empty()
    } else if conflicts_at(base, upstream, local, count - 1) {
        conflicts_in(base, upstream, local, count - 1).push(
            region_at(base, upstream, local, count - 1),
        )
    } else {
        conflicts_in(base, upstream, local, count - 1)
    }
}

/// All conflict regions of three versions.
pub open spec fn conflicts_of(
    base: Seq<Seq<char>>,
    upstream: Seq<Seq<char>>,
    local: Seq<Seq<char>>,
) -> Seq<ConflictRegionView> {
    conflicts_in(
        base,
        upstream,
        local,
        longest(base.len() as int, upstream.len() as int, local.len() as int),
    )
}

/// The line that a merge of changes on both sides takes: the upstream's
/// where only the upstream changed it or both agree, else the local one.
pub open spec fn merged_line(base: Seq<char>, upstream: Seq<char>, local: Seq<char>) -> Seq<char> {
    if upstream != base && local == base {
        upstream
    } else if local != base && upstream == base {
        local
    } else if upstream == local {
        upstream
    } else {
        local
    }
}

/// The first `count` merged lines, each with a line feed.
pub open spec fn merged_lines(
    base: Seq<Seq<char>>,
    upstream: Seq<Seq<char>>,
    local: Seq<Seq<char>>,
    count: int,
) -> Seq<char>
    decreases count,
{
    if count <= 0 {
        Seq::empty()
    } else {
        merged_lines(base, upstream, local, count - 1) + merged_line(
            line_at(base, count - 1),
            line_at(upstream, count - 1),
            line_at(local, count - 1),
        ) + "\n"@
    }
}

/// The merge of changes on both sides.
pub open spec fn merged_text(base: Seq<char>, upstream: Seq<char>, local: Seq<char>) -> Seq<char> {
    merged_lines(
        lines_of(base),
        lines_of(upstream),
        lines_of(local),
        longest(
            lines_of(base).len() as int,
            lines_of(upstream).len() as int,
            lines_of(local).len() as int,
        ),
    )
}

/// The two versions of a conflict between markers.
pub open spec fn conflict_text(upstream: Seq<char>, local: Seq<char>) -> Seq<char> {
    "<<<<<<< LOCAL\n"@ + local + "\n=======\n"@ + upstream + "\n>>>>>>> UPSTREAM\n"@
}

/// The result of the merge of a compared file.
pub open spec fn merge_result(diff: ThreeWayDiff) -> Seq<char> {
    match diff.merge_status {
        MergeStatus::Clean => diff.base_content@,
        MergeStatus::OnlyUpstreamModified => diff.upstream_content@,
        MergeStatus::OnlyLocalModified => diff.local_content@,
        MergeStatus::BothModified => merged_text(
            diff.base_content@,
            diff.upstream_content@,
            diff.local_content@,
        ),
        MergeStatus::Conflict => conflict_text(diff.upstream_content@, diff.local_content@),
    }
}

/// The lines of one file in the report.
pub open spec fn diff_rows(diff: ThreeWayDiff) -> Seq<char> {
    let first = "  "@ + diff.file_path@ + " ("@ + diff.merge_status.name_text() + ")\n"@;
    if diff.conflicts@.len() > 0 {
        first + "    Conflicts: "@ + decimal(diff.conflicts@.len()) + "\n"@
    } else {
        first
    }
}

/// How many of the files have the status.
pub open spec fn with_status(diffs: Seq<ThreeWayDiff>, status: MergeStatus) -> nat {
    diffs.filter(|d: ThreeWayDiff| d.merge_status == status).len()
}

/// The report on the compared files.
pub open spec fn diff_report(diffs: Seq<ThreeWayDiff>) -> Seq<char> {
    "=== THREE-WAY DIFF REPORT ===\n\n"@ + "Total Files: "@ + decimal(diffs.len()) + "\n"@
        + "  Clean: "@ + decimal(with_status(diffs, MergeStatus::Clean)) + "\n"@
        + "  Conflicts: "@ + decimal(with_status(diffs, MergeStatus::Conflict)) + "\n"@
        + "  Only Upstream Modified: "@ + decimal(
        with_status(diffs, MergeStatus::OnlyUpstreamModified),
    ) + "\n"@ + "  Only Local Modified: "@ + decimal(
        with_status(diffs, MergeStatus::OnlyLocalModified),
    ) + "\n\n"@ + "Files:\n"@ + joined(diffs, |d: ThreeWayDiff| diff_rows(d))
}

/// The line at `index`, or the empty line behind the last one.
fn line_or_empty(lines: &[String], index: usize) -> (line: String)
    ensures
        line@ == line_at(texts(lines@), index as int),
{
    if index < lines.len() {
        lines[index].clone()
    } else {
        String::new()
    }
}

/// The largest of three lengths.
fn max_of(a: usize, b: usize, c: usize) -> (m: usize)
    ensures
        m == longest(a as int, b as int, c as int),
{
    if a >= b && a >= c {
        a
    } else if b >= c {
        b
    } else {
        c
    }
}

/// A list with one line.
fn one_line(line: String) -> (list: Vec<String>)
    ensures
        texts(list@) == seq![line@],
{
    let mut list: Vec<String> = Vec::new();
    list.push(line);
    assert(texts(list@) =~= seq![line@]);
    list
}

/// The comparison of three versions of a file.
pub struct ThreeWayDiffAnalyzer;

impl ThreeWayDiffAnalyzer {
    /// Compares three versions of a file line by line.
    pub fn analyze(file_path: String, base: String, upstream: String, local: String) -> (diff:
        ThreeWayDiff)
        ensures
            diff.file_path == file_path,
            diff.base_content == base,
            diff.upstream_content == upstream,
            diff.local_content == local,
            diff.merge_status == status_of(lines_of(base@), lines_of(upstream@), lines_of(local@)),
            region_views(diff.conflicts@) == conflicts_of(
                lines_of(base@),
                lines_of(upstream@),
                lines_of(local@),
            ),
    {
        let base_lines = lines(base.as_str());
        let upstream_lines = lines(upstream.as_str());
        let local_lines = lines(local.as_str());
        let merge_status = Self::determine_merge_status(
            base_lines.as_slice(),
            upstream_lines.as_slice(),
            local_lines.as_slice(),
        );
        let conflicts = Self::detect_conflicts(
            base_lines.as_slice(),
            upstream_lines.as_slice(),
            local_lines.as_slice(),
        );
        ThreeWayDiff {
            file_path,
            base_content: base,
            upstream_content: upstream,
            local_content: local,
            merge_status,
            conflicts,
        }
    }

    /// How three versions relate, each given as its lines.
    pub fn determine_merge_status(base: &[String], upstream: &[String], local: &[String]) -> (status:
        MergeStatus)
        ensures
            status == status_of(texts(base@), texts(upstream@), texts(local@)),
    {
        let base_upstream_same = strings_equal(base, upstream);
        let base_local_same = strings_equal(base, local);
        let upstream_local_same = strings_equal(upstream, local);
        match (base_upstream_same, base_local_same, upstream_local_same) {
            (true, true, true) => MergeStatus::Clean,
            (false, false, false) => MergeStatus::Conflict,
            (false, false, true) => MergeStatus::OnlyUpstreamModified,
            (false, true, false) => MergeStatus::OnlyUpstreamModified,
            (true, false, false) => MergeStatus::OnlyLocalModified,
            _ => MergeStatus::Clean,
        }
    }

    /// The lines on which all three versions differ from one another.
    pub fn detect_conflicts(base: &[String], upstream: &[String], local: &[String]) -> (conflicts:
        Vec<ConflictRegion>)
        ensures
            region_views(conflicts@) == conflicts_of(texts(base@), texts(upstream@), texts(local@)),
    {
        let ghost b = texts(base@);
        let ghost u = texts(upstream@);
        let ghost l = texts(local@);
        let mut conflicts: Vec<ConflictRegion> = Vec::new();
        let max_len = max_of(base.len(), upstream.len(), local.len());
        let mut i: usize = 0;
        assert(region_views(conflicts@) =~= conflicts_in(b, u, l, 0));
        while i < max_len
            invariant
                i <= max_len,
                b == texts(base@),
                u == texts(upstream@),
                l == texts(local@),
                region_views(conflicts@) == conflicts_in(b, u, l, i as int),
            decreases max_len - i,
        {
            let base_line = line_or_empty(base, i);
            let upstream_line = line_or_empty(upstream, i);
            let local_line = line_or_empty(local, i);
            if !same_text(base_line.as_str(), upstream_line.as_str()) && !same_text(
                base_line.as_str(),
                local_line.as_str(),
            ) && !same_text(upstream_line.as_str(), local_line.as_str()) {
                let ghost before = region_views(conflicts@);
                conflicts.push(
                    ConflictRegion {
                        start_line: i,
                        end_line: i,
                        base_lines: one_line(base_line),
                        upstream_lines: one_line(upstream_line),
                        local_lines: one_line(local_line),
                    },
                );
                assert(region_views(conflicts@) =~= before.push(region_at(b, u, l, i as int)));
            }
            i += 1;
        }
        conflicts
    }

    /// Whether the merge needs no decision: the file is clean or only one
    /// side changed it.
    pub fn can_auto_merge(diff: &ThreeWayDiff) -> (auto: bool)
        ensures
            auto == (diff.merge_status == MergeStatus::Clean || diff.merge_status
                == MergeStatus::OnlyUpstreamModified || diff.merge_status
                == MergeStatus::OnlyLocalModified),
    {
        match diff.merge_status {
            MergeStatus::Clean => true,
            MergeStatus::OnlyUpstreamModified => true,
            MergeStatus::OnlyLocalModified => true,
            _ => false,
        }
    }

    /// Whether the merge needs a decision by hand: the file is in conflict
    /// or has a conflict region.
    pub fn requires_manual_merge(diff: &ThreeWayDiff) -> (manual: bool)
        ensures
            manual == (diff.merge_status == MergeStatus::Conflict || diff.conflicts@.len() > 0),
    {
        let conflict = match diff.merge_status {
            MergeStatus::Conflict => true,
            _ => false,
        };
        conflict || diff.conflicts.len() > 0
    }

    /// The content that the merge of a compared file results in.
    pub fn generate_merge_result(diff: &ThreeWayDiff) -> (result: String)
        ensures
            result@ == merge_result(*diff),
    {
        match diff.merge_status {
            MergeStatus::Clean => diff.base_content.clone(),
            MergeStatus::OnlyUpstreamModified => diff.upstream_content.clone(),
            MergeStatus::OnlyLocalModified => diff.local_content.clone(),
            MergeStatus::BothModified => Self::merge_both_modified(
                diff.base_content.as_str(),
                diff.upstream_content.as_str(),
                diff.local_content.as_str(),
            ),
            MergeStatus::Conflict => Self::generate_conflict_markers(
                diff.base_content.as_str(),
                diff.upstream_content.as_str(),
                diff.local_content.as_str(),
            ),
        }
    }

    /// The merge of changes on both sides, line by line.
    pub fn merge_both_modified(base: &str, upstream: &str, local: &str) -> (result: String)
        ensures
            result@ == merged_text(base@, upstream@, local@),
    {
        let base_lines = lines(base);
        let upstream_lines = lines(upstream);
        let local_lines = lines(local);
        let ghost b = texts(base_lines@);
        let ghost u = texts(upstream_lines@);
        let ghost l = texts(local_lines@);
        let mut result = String::new();
        let max_len = max_of(base_lines.len(), upstream_lines.len(), local_lines.len());
        let mut i: usize = 0;
        while i < max_len
            invariant
                i <= max_len,
                b == texts(base_lines@),
                u == texts(upstream_lines@),
                l == texts(local_lines@),
                result@ == merged_lines(b, u, l, i as int),
            decreases max_len - i,
        {
            let base_line = line_or_empty(base_lines.as_slice(), i);
            let upstream_line = line_or_empty(upstream_lines.as_slice(), i);
            let local_line = line_or_empty(local_lines.as_slice(), i);
            let upstream_changed = !same_text(upstream_line.as_str(), base_line.as_str());
            let local_changed = !same_text(local_line.as_str(), base_line.as_str());
            if upstream_changed && !local_changed {
                result.append(upstream_line.as_str());
            } else if local_changed && !upstream_changed {
                result.append(local_line.as_str());
            } else if same_text(upstream_line.as_str(), local_line.as_str()) {
                result.append(upstream_line.as_str());
            } else {
                result.append(local_line.as_str());
            }
            result.append("\n");
            i += 1;
        }
        result
    }

    /// The two versions of a conflict between markers. The base is not
    /// shown.
    pub fn generate_conflict_markers(_base: &str, upstream: &str, local: &str) -> (result: String)
        ensures
            result@ == conflict_text(upstream@, local@),
    {
        let mut result = String::from_str("<<<<<<< LOCAL\n");
        result.append(local);
        result.append("\n=======\n");
        result.append(upstream);
        result.append("\n>>>>>>> UPSTREAM\n");
        result
    }

    /// How many of the files have the status.
    fn count_status(diffs: &[ThreeWayDiff], status: MergeStatus) -> (count: usize)
        ensures
            count == with_status(diffs@, status),
    {
        let ghost keep = |d: ThreeWayDiff| d.merge_status == status;
        let mut count: usize = 0;
        let mut i: usize = 0;
        proof {
            crate::collections::lemma_select_ends(diffs@, keep);
        }
        while i < diffs.len()
            invariant
                i <= diffs@.len(),
                keep == |d: ThreeWayDiff| d.merge_status == status,
                count == diffs@.take(i as int).filter(keep).len(),
                count <= i,
            decreases diffs@.len() - i,
        {
            proof {
                crate::collections::lemma_select_step(diffs@, i as int, keep);
            }
            if diffs[i].merge_status == status {
                count += 1;
            }
            i += 1;
        }
        proof {
            crate::collections::lemma_select_ends(diffs@, keep);
        }
        count
    }

    /// The report on the compared files, as text.
    pub fn generate_diff_report(diffs: &[ThreeWayDiff]) -> (report: String)
        ensures
            report@ == diff_report(diffs@),
    {
        let mut report = String::from_str("=== THREE-WAY DIFF REPORT ===\n\n");
        let clean = Self::count_status(diffs, MergeStatus::Clean);
        let conflicts = Self::count_status(diffs, MergeStatus::Conflict);
        let only_upstream = Self::count_status(diffs, MergeStatus::OnlyUpstreamModified);
        let only_local = Self::count_status(diffs, MergeStatus::OnlyLocalModified);
        push_count_field(&mut report, "Total Files: ", diffs.len(), "\n");
        push_count_field(&mut report, "  Clean: ", clean, "\n");
        push_count_field(&mut report, "  Conflicts: ", conflicts, "\n");
        push_count_field(&mut report, "  Only Upstream Modified: ", only_upstream, "\n");
        push_count_field(&mut report, "  Only Local Modified: ", only_local, "\n\n");
        report.append("Files:\n");
        let ghost line = |d: ThreeWayDiff| diff_rows(d);
        let ghost head = report@;
        let ghost items = diffs@;
        let mut i: usize = 0;
        proof {
            lemma_joined_ends(items, line);
            assert(report@ =~= head + joined(items.take(0), line));
        }
        while i < diffs.len()
            invariant
                i <= items.len(),
                items == diffs@,
                line == |d: ThreeWayDiff| diff_rows(d),
                report@ == head + joined(items.take(i as int), line),
            decreases items.len() - i,
        {
            proof {
                lemma_joined_step(items, i as int, line);
            }
            let ghost before = report@;
            let diff = &diffs[i];
            push_field(&mut report, "  ", diff.file_path.as_str(), " (");
            report.append(diff.merge_status.name());
            report.append(")\n");
            if diff.conflicts.len() > 0 {
                push_count_field(&mut report, "    Conflicts: ", diff.conflicts.len(), "\n");
            }
            assert(report@ =~= before + diff_rows(items[i as int]));
            assert(report@ =~= head + joined(items.take(i + 1), line));
            i += 1;
        }
        proof {
            lemma_joined_ends(items, line);
        }
        report
    }
}

} // verus!
