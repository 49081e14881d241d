//! Plans a merge: decides for each hunk what to do with it, ranks the hunks
//! by the priority of their files and sorts the files into categories.

use crate::codebase_diff::{
    CodebaseDiffReport,
    DiffHunk,
    DiffHunkView,
    FileDiff,
    FileDiffView,
    FileStatus,
    MergeDecision,
    MergeHunk,
    MergeHunkView,
};
use crate::collections::{
    lemma_mapped_values,
    lemma_mapped_with_entry,
    lemma_position_of,
    mapped_values,
    value_under,
    with_entry,
    TextMap,
};
use crate::ranking::{lemma_numbers_rank, lemma_ranked, rank_ascending, ranked, smaller_number};
use crate::text::{
    chars_contain,
    chars_of,
    contains,
    decimal,
    is_substring,
    joined,
    lemma_joined_ends,
    lemma_joined_step,
    push_count_field,
    push_decimal,
    push_field,
    strings_equal,
};
use vstd::prelude::*;

verus! {

/// The priorities of the categories, filed in this order.
pub open spec fn base_priorities() -> Seq<(Seq<char>, u8)> {
    with_entry(
        with_entry(
            with_entry(
                with_entry(
                    with_entry(
                        with_entry(
                            with_entry(
                                with_entry(
                                    with_entry(
                                        with_entry(Seq::empty(), "Bluetooth backends"@, 1u8),
                                        "Protocol messages"@,
                                        2u8,
                                    ),
                                    "FFI bridge"@,
                                    3u8,
                                ),
                                "Android merge"@,
                                4u8,
                            ),
                            "Build/packaging"@,
                            5u8,
                        ),
                        "CI/CD"@,
                        6u8,
                    ),
                    "i18n/a11y"@,
                    7u8,
                ),
                "Security"@,
                8u8,
            ),
            "Documentation"@,
            9u8,
        ),
        "Release chores"@,
        10u8,
    )
}

/// The decisions that the statuses of files call for.
pub open spec fn base_rules() -> Seq<(FileStatus, MergeDecision)> {
    seq![
        (FileStatus::Added, MergeDecision::Adopt),
        (FileStatus::Modified, MergeDecision::Adapt),
        (FileStatus::Deleted, MergeDecision::Skip),
        (FileStatus::Renamed, MergeDecision::Adapt),
        (FileStatus::Conflict, MergeDecision::Manual),
    ]
}

/// The rank of the kind of file that a path names, from 1 for Bluetooth
/// backends to 10 for everything without a name of its own.
pub open spec fn path_rank(path: Seq<char>) -> u8 {
    if is_substring("backends"@, path) {
        1
    } else if is_substring("protocol"@, path) {
        2
    } else if is_substring("ffi"@, path) {
        3
    } else if is_substring("android"@, path) {
        4
    } else if is_substring("build"@, path) || is_substring("Cargo"@, path) {
        5
    } else if is_substring("github"@, path) || is_substring("ci"@, path) {
        6
    } else if is_substring("i18n"@, path) || is_substring("a11y"@, path) {
        7
    } else if is_substring("security"@, path) || is_substring("crypto"@, path) {
        8
    } else if is_substring("docs"@, path) || is_substring("README"@, path) {
        9
    } else {
        10
    }
}

/// The name of the category of the given rank.
pub open spec fn category_name(rank: u8) -> Seq<char> {
    if rank == 1 {
        "Bluetooth backends"@
    } else if rank == 2 {
        "Protocol messages"@
    } else if rank == 3 {
        "FFI bridge"@
    } else if rank == 4 {
        "Android merge"@
    } else if rank == 5 {
        "Build/packaging"@
    } else if rank == 6 {
        "CI/CD"@
    } else if rank == 7 {
        "i18n/a11y"@
    } else if rank == 8 {
        "Security"@
    } else if rank == 9 {
        "Documentation"@
    } else {
        "Release chores"@
    }
}

/// The category of the file that a path names.
pub open spec fn category_of(path: Seq<char>) -> Seq<char> {
    category_name(path_rank(path))
}

/// The priority of the first category whose name stands in the path.
pub open spec fn named_priority(priorities: Seq<(Seq<char>, u8)>, path: Seq<char>) -> Option<u8>
    decreases priorities.len(),
{
    if priorities.len() == 0 {
        None
    } else if is_substring(priorities[0].0, path) {
        Some(priorities[0].1)
    } else {
        named_priority(priorities.skip(1), path)
    }
}

/// The priority of a file: that of the first category that its path names
/// in full, else the rank of the kind of file.
pub open spec fn priority_of(priorities: Seq<(Seq<char>, u8)>, path: Seq<char>) -> u8 {
    match named_priority(priorities, path) {
        Some(priority) => priority,
        None => path_rank(path),
    }
}

/// What to do with a hunk: review a conflict by hand, skip what the
/// upstream emptied, adopt what only the upstream changed, adapt what both
/// sides changed, replace the rest.
pub open spec fn decision_for(hunk: DiffHunkView) -> MergeDecision {
    if hunk.conflict {
        MergeDecision::Manual
    } else if hunk.upstream_lines.len() == 0 {
        MergeDecision::Skip
    } else if hunk.base_lines == hunk.local_lines {
        MergeDecision::Adopt
    } else if hunk.base_lines != hunk.upstream_lines {
        MergeDecision::Adapt
    } else {
        MergeDecision::Replace
    }
}

/// The words before the path in the reason for a decision.
pub open spec fn reason_lead(decision: MergeDecision) -> Seq<char> {
    match decision {
        MergeDecision::Adopt => "Adopt upstream changes for "@,
        MergeDecision::Adapt => "Adapt upstream changes for "@,
        MergeDecision::Skip => "Skip changes for "@,
        MergeDecision::Replace => "Replace with upstream version for "@,
        MergeDecision::Manual => "Manual review required for "@,
    }
}

/// A hunk with the decision on it, the reason and the priority of its
/// file.
pub open spec fn planned(priorities: Seq<(Seq<char>, u8)>, hunk: DiffHunkView) -> MergeHunkView {
    MergeHunkView {
        hunk,
        decision: decision_for(hunk),
        reason: reason_lead(decision_for(hunk)) + hunk.file_path,
        priority: priority_of(priorities, hunk.file_path),
    }
}

/// The contents of hunks, in order.
pub open spec fn hunk_views(hunks: Seq<DiffHunk>) -> Seq<DiffHunkView> {
    hunks.map_values(|h: DiffHunk| h@)
}

/// The contents of decided hunks, in order.
pub open spec fn merge_hunk_views(hunks: Seq<MergeHunk>) -> Seq<MergeHunkView> {
    hunks.map_values(|h: MergeHunk| h@)
}

/// The priorities of the files of the hunks, in the order of the hunks.
pub open spec fn hunk_priorities(priorities: Seq<(Seq<char>, u8)>, hunks: Seq<DiffHunkView>) -> Seq<
    u8,
> {
    hunks.map_values(|h: DiffHunkView| priority_of(priorities, h.file_path))
}

/// The plan for the hunks: each with its decision, lowest priority number
/// first, hunks of equal priority in their own order.
pub open spec fn merge_plan(priorities: Seq<(Seq<char>, u8)>, hunks: Seq<DiffHunkView>) -> Seq<
    MergeHunkView,
> {
    ranked(hunks.len(), smaller_number(hunk_priorities(priorities, hunks))).map_values(
        |at: int| planned(priorities, hunks[at]),
    )
}

/// The contents of differences of files, in order.
pub open spec fn file_diff_views(diffs: Seq<FileDiff>) -> Seq<FileDiffView> {
    diffs.map_values(|d: FileDiff| d@)
}

/// The first `count` files sorted into categories: categories in the order
/// of their first file, files in their own order.
pub open spec fn grouped(diffs: Seq<FileDiffView>, count: int) -> Seq<
    (Seq<char>, Seq<FileDiffView>),
>
    decreases count,
{
    if count <= 0 || count > diffs.len() {
        Seq::empty()
    } else {
        let earlier = grouped(diffs, count - 1);
        let category = category_of(diffs[count - 1].file_path);
        with_entry(
            earlier,
            category,
            match value_under(earlier, category) {
                Some(files) => files.push(diffs[count - 1]),
                None => seq![diffs[count - 1]],
            },
        )
    }
}

/// How many of the hunks carry the decision.
pub open spec fn decided(hunks: Seq<MergeHunk>, decision: MergeDecision) -> nat {
    hunks.filter(|h: MergeHunk| h.decision == decision).len()
}

/// The line of one category in the report.
pub open spec fn category_line(entry: (Seq<char>, Seq<FileDiffView>)) -> Seq<char> {
    "  "@ + entry.0 + " ("@ + decimal(entry.1.len()) + ")\n"@
}

/// The line of one hunk in the report.
pub open spec fn strategy_line(hunk: MergeHunkView) -> Seq<char> {
    "  ["@ + decimal(hunk.priority as nat) + "] "@ + hunk.hunk.file_path + " ("@
        + hunk.decision.name_text() + ")\n"@
}

/// The report on the plan for the given hunks and files.
pub open spec fn plan_report(
    priorities: Seq<(Seq<char>, u8)>,
    plan: Seq<MergeHunk>,
    diffs: Seq<FileDiffView>,
) -> Seq<char> {
    "=== MERGE PLAN REPORT ===\n\n"@ + "Total Hunks: "@ + decimal(plan.len()) + "\n"@
        + "  Adopt: "@ + decimal(decided(plan, MergeDecision::Adopt)) + "\n"@ + "  Adapt: "@
        + decimal(decided(plan, MergeDecision::Adapt)) + "\n"@ + "  Manual: "@ + decimal(
        decided(plan, MergeDecision::Manual),
    ) + "\n\n"@ + "Categories:\n"@ + joined(
        grouped(diffs, diffs.len() as int),
        |e: (Seq<char>, Seq<FileDiffView>)| category_line(e),
    ) + "\nMerge Strategy:\n"@ + joined(
        merge_hunk_views(plan),
        |h: MergeHunkView| strategy_line(h),
    )
}

/// The contents of a table of files by category.
pub open spec fn group_views(groups: Seq<(Seq<char>, Vec<FileDiff>)>) -> Seq<
    (Seq<char>, Seq<FileDiffView>),
> {
    mapped_values(groups, |files: Vec<FileDiff>| file_diff_views(files@))
}

/// The priorities of categories and the decisions for statuses.
pub struct MergePlanner {
    priority_map: TextMap<u8>,
    decision_rules: Vec<(FileStatus, MergeDecision)>,
}

/// The mathematical content of a planner.
pub ghost struct MergePlannerView {
    pub priorities: Seq<(Seq<char>, u8)>,
    pub rules: Seq<(FileStatus, MergeDecision)>,
}

impl View for MergePlanner {
    type V = MergePlannerView;

    closed spec fn view(&self) -> MergePlannerView {
        MergePlannerView { priorities: self.priority_map@, rules: self.decision_rules@ }
    }
}

impl MergePlanner {
    pub fn new() -> (planner: Self)
        ensures
            planner@ == (MergePlannerView { priorities: base_priorities(), rules: base_rules() }),
    {
        let mut planner = Self { priority_map: TextMap::new(), decision_rules: Vec::new() };
        planner.initialize_priorities();
        planner.initialize_rules();
        planner
    }

    /// Files the priorities of the categories.
    fn initialize_priorities(&mut self)
        requires
            old(self)@.priorities.len() == 0,
        ensures
            final(self)@ == (MergePlannerView { priorities: base_priorities(), ..old(self)@ }),
    {
        assert(self@.priorities =~= Seq::<(Seq<char>, u8)>::empty());
        self.priority_map.insert(String::from_str("Bluetooth backends"), 1);
        self.priority_map.insert(String::from_str("Protocol messages"), 2);
        self.priority_map.insert(String::from_str("FFI bridge"), 3);
        self.priority_map.insert(String::from_str("Android merge"), 4);
        self.priority_map.insert(String::from_str("Build/packaging"), 5);
        self.priority_map.insert(String::from_str("CI/CD"), 6);
        self.priority_map.insert(String::from_str("i18n/a11y"), 7);
        self.priority_map.insert(String::from_str("Security"), 8);
        self.priority_map.insert(String::from_str("Documentation"), 9);
        self.priority_map.insert(String::from_str("Release chores"), 10);
    }

    /// Files the decisions that the statuses of files call for.
    fn initialize_rules(&mut self)
        requires
            old(self)@.rules.len() == 0,
        ensures
            final(self)@ == (MergePlannerView { rules: base_rules(), ..old(self)@ }),
    {
        self.decision_rules.push((FileStatus::Added, MergeDecision::Adopt));
        self.decision_rules.push((FileStatus::Modified, MergeDecision::Adapt));
        self.decision_rules.push((FileStatus::Deleted, MergeDecision::Skip));
        self.decision_rules.push((FileStatus::Renamed, MergeDecision::Adapt));
        self.decision_rules.push((FileStatus::Conflict, MergeDecision::Manual));
        assert(self@.rules =~= base_rules());
    }

    /// The table of priorities.
    pub fn priorities(&self) -> (table: &TextMap<u8>)
        ensures
            table@ == self@.priorities,
    {
        &self.priority_map
    }

    /// The plan for the hunks of a report: each hunk with its decision, the
    /// reason and the priority of its file, lowest priority number first.
    pub fn generate_merge_plan(&self, diff_report: &CodebaseDiffReport) -> (plan: Vec<MergeHunk>)
        ensures
            merge_hunk_views(plan@) == merge_plan(
                self@.priorities,
                hunk_views(diff_report.hunks@),
            ),
    {
        let ghost hunks = hunk_views(diff_report.hunks@);
        let ghost table = self@.priorities;
        let mut priorities: Vec<u8> = Vec::new();
        let mut i: usize = 0;
        while i < diff_report.hunks.len()
            invariant
                i <= diff_report.hunks@.len(),
                hunks == hunk_views(diff_report.hunks@),
                table == self@.priorities,
                priorities@.len() == i,
                forall|j: int|
                    0 <= j < i ==> #[trigger] priorities@[j] == priority_of(
                        table,
                        hunks[j].file_path,
                    ),
            decreases diff_report.hunks@.len() - i,
        {
            priorities.push(self.calculate_priority(diff_report.hunks[i].file_path.as_str()));
            i += 1;
        }
        assert(priorities@ =~= hunk_priorities(table, hunks));
        let order = rank_ascending(priorities.as_slice());
        let ghost places = order@.map_values(|i: usize| i as int);
        proof {
            lemma_numbers_rank(priorities@);
            lemma_ranked(priorities@.len(), smaller_number(priorities@));
        }
        let mut plan: Vec<MergeHunk> = Vec::new();
        let mut k: usize = 0;
        while k < order.len()
            invariant
                k <= order@.len(),
                hunks == hunk_views(diff_report.hunks@),
                table == self@.priorities,
                places == order@.map_values(|i: usize| i as int),
                places == ranked(hunks.len(), smaller_number(hunk_priorities(table, hunks))),
                forall|j: int| 0 <= j < places.len() ==> 0 <= #[trigger] places[j] < hunks.len(),
                plan@.len() == k,
                forall|j: int|
                    0 <= j < k ==> (#[trigger] plan@[j])@ == planned(table, hunks[places[j]]),
            decreases order@.len() - k,
        {
            assert(places[k as int] == order@[k as int] as int);
            let hunk = &diff_report.hunks[order[k]];
            assert(hunks[order@[k as int] as int] == hunk@);
            let decision = self.decide_merge_action(hunk);
            let priority = self.calculate_priority(hunk.file_path.as_str());
            let reason = self.generate_reason(hunk.file_path.as_str(), decision);
            plan.push(MergeHunk { hunk: hunk.clone(), decision, reason, priority });
            k += 1;
        }
        assert(merge_hunk_views(plan@) =~= merge_plan(table, hunks));
        plan
    }

    /// What to do with a hunk.
    pub fn decide_merge_action(&self, hunk: &DiffHunk) -> (decision: MergeDecision)
        ensures
            decision == decision_for(hunk@),
    {
        if hunk.conflict {
            MergeDecision::Manual
        } else if hunk.upstream_lines.len() == 0 {
            MergeDecision::Skip
        } else if strings_equal(hunk.base_lines.as_slice(), hunk.local_lines.as_slice()) {
            MergeDecision::Adopt
        } else if !strings_equal(hunk.base_lines.as_slice(), hunk.upstream_lines.as_slice()) {
            MergeDecision::Adapt
        } else {
            MergeDecision::Replace
        }
    }

    /// The rank of the kind of file that a path names.
    pub fn rank_path(file_path: &str) -> (rank: u8)
        ensures
            rank == path_rank(file_path@),
    {
        if contains(file_path, "backends") {
            1
        } else if contains(file_path, "protocol") {
            2
        } else if contains(file_path, "ffi") {
            3
        } else if contains(file_path, "android") {
            4
        } else if contains(file_path, "build") || contains(file_path, "Cargo") {
            5
        } else if contains(file_path, "github") || contains(file_path, "ci") {
            6
        } else if contains(file_path, "i18n") || contains(file_path, "a11y") {
            7
        } else if contains(file_path, "security") || contains(file_path, "crypto") {
            8
        } else if contains(file_path, "docs") || contains(file_path, "README") {
            9
        } else {
            10
        }
    }

    /// The priority of a file: that of the first category of the table
    /// whose name stands in the path, else the rank of the kind of file.
    pub fn calculate_priority(&self, file_path: &str) -> (priority: u8)
        ensures
            priority == priority_of(self@.priorities, file_path@),
    {
        let ghost table = self@.priorities;
        let hay = chars_of(file_path);
        let mut i: usize = 0;
        assert(table.skip(0) =~= table);
        while i < self.priority_map.len()
            invariant
                i <= self.priority_map@.len(),
                table == self@.priorities,
                table == self.priority_map@,
                hay@ == file_path@,
                named_priority(table, file_path@) == named_priority(
                    table.skip(i as int),
                    file_path@,
                ),
            decreases self.priority_map@.len() - i,
        {
            let category = chars_of(self.priority_map.key_at(i).as_str());
            proof {
                assert(table.skip(i as int)[0] == table[i as int]);
                assert(table.skip(i as int).skip(1) =~= table.skip(i + 1));
            }
            if chars_contain(hay.as_slice(), category.as_slice()) {
                return *self.priority_map.value_at(i);
            }
            i += 1;
        }
        Self::rank_path(file_path)
    }

    /// The reason for a decision on a file, in words.
    pub fn generate_reason(&self, file_path: &str, decision: MergeDecision) -> (reason: String)
        ensures
            reason@ == reason_lead(decision) + file_path@,
    {
        let lead = match decision {
            MergeDecision::Adopt => "Adopt upstream changes for ",
            MergeDecision::Adapt => "Adapt upstream changes for ",
            MergeDecision::Skip => "Skip changes for ",
            MergeDecision::Replace => "Replace with upstream version for ",
            MergeDecision::Manual => "Manual review required for ",
        };
        String::from_str(lead).concat(file_path)
    }

    /// The files of a report by category: categories in the order of their
    /// first file, files in their own order.
    pub fn categorize_changes(&self, diff_report: &CodebaseDiffReport) -> (categories: TextMap<
        Vec<FileDiff>,
    >)
        ensures
            group_views(categories@) == grouped(
                file_diff_views(diff_report.file_diffs@),
                diff_report.file_diffs@.len() as int,
            ),
    {
        let ghost diffs = file_diff_views(diff_report.file_diffs@);
        let ghost view = |files: Vec<FileDiff>| file_diff_views(files@);
        let mut categories: TextMap<Vec<FileDiff>> = TextMap::new();
        let mut i: usize = 0;
        assert(group_views(categories@) =~= grouped(diffs, 0));
        while i < diff_report.file_diffs.len()
            invariant
                i <= diff_report.file_diffs@.len(),
                diffs == file_diff_views(diff_report.file_diffs@),
                view == |files: Vec<FileDiff>| file_diff_views(files@),
                group_views(categories@) == grouped(diffs, i as int),
            decreases diff_report.file_diffs@.len() - i,
        {
            let diff = &diff_report.file_diffs[i];
            assert(diffs[i as int] == diff@);
            let category = self.categorize_file(diff.file_path.as_str());
            let copy = diff.clone();
            let ghost before = categories@;
            proof {
                lemma_mapped_values(before, view, category@);
                lemma_position_of(before, category@);
            }
            if categories.contains_key(category.as_str()) {
                match categories.get_mut(category.as_str()) {
                    Some(files) => {
                        let ghost listed = files@;
                        files.push(copy);
                        proof {
                            assert(file_diff_views(files@) =~= file_diff_views(listed).push(
                                diff@,
                            ));
                            lemma_mapped_with_entry(before, view, category@, *final(files));
                        }
                    },
                    None => {},
                }
            } else {
                let mut files: Vec<FileDiff> = Vec::new();
                files.push(copy);
                proof {
                    assert(file_diff_views(files@) =~= seq![diff@]);
                    lemma_mapped_with_entry(before, view, category@, files);
                }
                categories.insert(category, files);
            }
            i += 1;
        }
        categories
    }

    /// The category of the file that a path names.
    pub fn categorize_file(&self, file_path: &str) -> (category: String)
        ensures
            category@ == category_of(file_path@),
    {
        let rank = Self::rank_path(file_path);
        let name = if rank == 1 {
            "Bluetooth backends"
        } else if rank == 2 {
            "Protocol messages"
        } else if rank == 3 {
            "FFI bridge"
        } else if rank == 4 {
            "Android merge"
        } else if rank == 5 {
            "Build/packaging"
        } else if rank == 6 {
            "CI/CD"
        } else if rank == 7 {
            "i18n/a11y"
        } else if rank == 8 {
            "Security"
        } else if rank == 9 {
            "Documentation"
        } else {
            "Release chores"
        };
        String::from_str(name)
    }

    /// How many hunks are to be adopted, how many adapted and how many
    /// reviewed by hand.
    pub fn estimate_effort(&self, merge_hunks: &[MergeHunk]) -> (counts: (usize, usize, usize))
        ensures
            counts.0 == decided(merge_hunks@, MergeDecision::Adopt),
            counts.1 == decided(merge_hunks@, MergeDecision::Adapt),
            counts.2 == decided(merge_hunks@, MergeDecision::Manual),
    {
        let ghost items = merge_hunks@;
        let ghost adopt = |h: MergeHunk| h.decision == MergeDecision::Adopt;
        let ghost adapt = |h: MergeHunk| h.decision == MergeDecision::Adapt;
        let ghost manual = |h: MergeHunk| h.decision == MergeDecision::Manual;
        let mut adopt_count: usize = 0;
        let mut adapt_count: usize = 0;
        let mut manual_count: usize = 0;
        let mut i: usize = 0;
        proof {
            crate::collections::lemma_select_ends(items, adopt);
            crate::collections::lemma_select_ends(items, adapt);
            crate::collections::lemma_select_ends(items, manual);
        }
        while i < merge_hunks.len()
            invariant
                i <= items.len(),
                items == merge_hunks@,
                adopt == |h: MergeHunk| h.decision == MergeDecision::Adopt,
                adapt == |h: MergeHunk| h.decision == MergeDecision::Adapt,
                manual == |h: MergeHunk| h.decision == MergeDecision::Manual,
                adopt_count == items.take(i as int).filter(adopt).len(),
                adapt_count == items.take(i as int).filter(adapt).len(),
                manual_count == items.take(i as int).filter(manual).len(),
                adopt_count <= i,
                adapt_count <= i,
                manual_count <= i,
            decreases items.len() - i,
        {
            proof {
                crate::collections::lemma_select_step(items, i as int, adopt);
                crate::collections::lemma_select_step(items, i as int, adapt);
                crate::collections::lemma_select_step(items, i as int, manual);
            }
            match merge_hunks[i].decision {
                MergeDecision::Adopt => {
                    adopt_count += 1;
                },
                MergeDecision::Adapt => {
                    adapt_count += 1;
                },
                MergeDecision::Manual => {
                    manual_count += 1;
                },
                _ => {},
            }
            i += 1;
        }
        proof {
            crate::collections::lemma_select_ends(items, adopt);
            crate::collections::lemma_select_ends(items, adapt);
            crate::collections::lemma_select_ends(items, manual);
        }
        (adopt_count, adapt_count, manual_count)
    }

    /// The report on the plan for a report's hunks and files, as text.
    pub fn generate_merge_plan_report(&self, diff_report: &CodebaseDiffReport) -> (report: String)
        ensures
            exists|plan: Seq<MergeHunk>|
                merge_hunk_views(plan) == merge_plan(
                    self@.priorities,
                    hunk_views(diff_report.hunks@),
                ) && report@ == plan_report(
                    self@.priorities,
                    plan,
                    file_diff_views(diff_report.file_diffs@),
                ),
    {
        let mut report = String::from_str("=== MERGE PLAN REPORT ===\n\n");
        let merge_hunks = self.generate_merge_plan(diff_report);
        let (adopt, adapt, manual) = self.estimate_effort(merge_hunks.as_slice());
        push_count_field(&mut report, "Total Hunks: ", merge_hunks.len(), "\n");
        push_count_field(&mut report, "  Adopt: ", adopt, "\n");
        push_count_field(&mut report, "  Adapt: ", adapt, "\n");
        push_count_field(&mut report, "  Manual: ", manual, "\n\n");
        let categories = self.categorize_changes(diff_report);
        report.append("Categories:\n");
        {
            let ghost line = |e: (Seq<char>, Seq<FileDiffView>)| category_line(e);
            let ghost head = report@;
            let ghost items = group_views(categories@);
            let mut i: usize = 0;
            proof {
                lemma_joined_ends(items, line);
                assert(report@ =~= head + joined(items.take(0), line));
            }
            while i < categories.len()
                invariant
                    i <= items.len(),
                    items == group_views(categories@),
                    items.len() == categories@.len(),
                    line == |e: (Seq<char>, Seq<FileDiffView>)| category_line(e),
                    report@ == head + joined(items.take(i as int), line),
                decreases items.len() - i,
            {
                proof {
                    lemma_joined_step(items, i as int, line);
                }
                let ghost before = report@;
                let files = categories.value_at(i);
                assert(items[i as int].1.len() == files@.len());
                push_field(&mut report, "  ", categories.key_at(i).as_str(), " (");
                crate::text::push_count(&mut report, files.len());
                report.append(")\n");
                assert(report@ =~= before + category_line(items[i as int]));
                assert(report@ =~= head + joined(items.take(i + 1), line));
                i += 1;
            }
            proof {
                lemma_joined_ends(items, line);
            }
        }
        report.append("\nMerge Strategy:\n");
        {
            let ghost line = |h: MergeHunkView| strategy_line(h);
            let ghost head = report@;
            let ghost items = merge_hunk_views(merge_hunks@);
            let mut i: usize = 0;
            proof {
                lemma_joined_ends(items, line);
                assert(report@ =~= head + joined(items.take(0), line));
            }
            while i < merge_hunks.len()
                invariant
                    i <= items.len(),
                    items == merge_hunk_views(merge_hunks@),
                    line == |h: MergeHunkView| strategy_line(h),
                    report@ == head + joined(items.take(i as int), line),
                decreases items.len() - i,
            {
                proof {
                    lemma_joined_step(items, i as int, line);
                }
                let ghost before = report@;
                let hunk = &merge_hunks[i];
                report.append("  [");
                push_decimal(&mut report, hunk.priority as u64);
                report.append("] ");
                report.append(hunk.hunk.file_path.as_str());
                report.append(" (");
                report.append(hunk.decision.name());
                report.append(")\n");
                assert(report@ =~= before + strategy_line(items[i as int]));
                assert(report@ =~= head + joined(items.take(i + 1), line));
                i += 1;
            }
            proof {
                lemma_joined_ends(items, line);
            }
        }
        assert(report@ == plan_report(
            self@.priorities,
            merge_hunks@,
            file_diff_views(diff_report.file_diffs@),
        ));
        report
    }
}

impl Default for MergePlanner {
    fn default() -> (planner: Self)
        ensures
            planner@ == (MergePlannerView { priorities: base_priorities(), rules: base_rules() }),
    {
        Self::new()
    }
}

} // verus!
