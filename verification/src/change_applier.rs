//! Applies planned changes and keeps a log of what was applied.

use crate::codebase_diff::{clone_optional, optional_text};
use crate::collections::{
    lemma_mapped_values,
    lemma_mapped_with_entry,
    lemma_select_ends,
    lemma_select_step,
    mapped_values,
    targets,
    value_under,
    with_entry,
    TextMap,
};
use crate::text::{
    decimal,
    joined,
    lemma_joined_ends,
    lemma_joined_step,
    push_count_field,
    push_field,
    replace_char,
    replaced,
};
use vstd::prelude::*;

verus! {

/// What a change does to a file.
#[derive(Debug, Clone, Copy, PartialEq, Eq, Structural)]
pub enum ChangeType {
    Add,
    Modify,
    Delete,
    Rename,
}

/// One change that was applied, or that failed.
#[derive(Debug)]
pub struct AppliedChange {
    pub change_id: String,
    pub file_path: String,
    pub change_type: ChangeType,
    pub old_content: Option<String>,
    pub new_content: Option<String>,
    pub timestamp: String,
    pub applied_by: String,
    pub success: bool,
    pub error_message: Option<String>,
}

/// The mathematical content of an applied change.
pub ghost struct AppliedChangeView {
    pub change_id: Seq<char>,
    pub file_path: Seq<char>,
    pub change_type: ChangeType,
    pub old_content: Option<Seq<char>>,
    pub new_content: Option<Seq<char>>,
    pub timestamp: Seq<char>,
    pub applied_by: Seq<char>,
    pub success: bool,
    pub error_message: Option<Seq<char>>,
}

impl View for AppliedChange {
    type V = AppliedChangeView;

    open spec fn view(&self) -> AppliedChangeView {
        AppliedChangeView {
            change_id: self.change_id@,
            file_path: self.file_path@,
            change_type: self.change_type,
            old_content: optional_text(self.old_content),
            new_content: optional_text(self.new_content),
            timestamp: self.timestamp@,
            applied_by: self.applied_by@,
            success: self.success,
            error_message: optional_text(self.error_message),
        }
    }
}

impl Clone for AppliedChange {
    fn clone(&self) -> (copy: Self)
        ensures
            copy@ == self@,
    {
        Self {
            change_id: self.change_id.clone(),
            file_path: self.file_path.clone(),
            change_type: self.change_type,
            old_content: clone_optional(&self.old_content),
            new_content: clone_optional(&self.new_content),
            timestamp: self.timestamp.clone(),
            applied_by: self.applied_by.clone(),
            success: self.success,
            error_message: clone_optional(&self.error_message),
        }
    }
}

/// The moment at which a fresh log starts.
pub open spec fn initial_start_time() -> Seq<char> {
    "2025-11-21T00:00:00Z"@
}

/// The error of a failed change in words, or that it is not known.
pub open spec fn error_text(change: AppliedChange) -> Seq<char> {
    match change.error_message {
        Some(message) => message@,
        None => "Unknown error"@,
    }
}

/// The line of one failed change.
pub open spec fn failed_line(change: AppliedChange) -> Seq<char> {
    "  "@ + change.file_path@ + " - "@ + error_text(change) + "\n"@
}

/// The log of applied changes with its counts.
#[derive(Debug, Clone)]
pub struct ChangeLog {
    pub changes: Vec<AppliedChange>,
    pub total_changes: usize,
    pub successful_changes: usize,
    pub failed_changes: usize,
    pub start_time: String,
    pub end_time: String,
}

impl ChangeLog {
    /// Nothing was applied yet.
    pub open spec fn is_blank(&self) -> bool {
        &&& self.changes@.len() == 0
        &&& self.total_changes == 0
        &&& self.successful_changes == 0
        &&& self.failed_changes == 0
        &&& self.start_time@ == initial_start_time()
        &&& self.end_time@.len() == 0
    }

    /// The changes of the given type, in the order of the log.
    pub open spec fn of_type(&self, change_type: ChangeType) -> Seq<AppliedChange> {
        self.changes@.filter(|c: AppliedChange| c.change_type == change_type)
    }

    /// The changes that failed, in the order of the log.
    pub open spec fn failed(&self) -> Seq<AppliedChange> {
        self.changes@.filter(|c: AppliedChange| !c.success)
    }

    /// The report on the log. The success rate is shown as the text that
    /// the caller made of it.
    pub open spec fn report(&self, success_rate: Seq<char>) -> Seq<char> {
        let head = "=== CHANGE APPLICATION REPORT ===\n\n"@ + "Period: "@ + self.start_time@
            + " to "@ + self.end_time@ + "\n"@ + "Total Changes: "@ + decimal(
            self.total_changes as nat,
        ) + "\n"@ + "  Successful: "@ + decimal(self.successful_changes as nat) + "\n"@
            + "  Failed: "@ + decimal(self.failed_changes as nat) + "\n"@ + "Success Rate: "@
            + success_rate + "%\n\n"@
            + "Changes by Type:\n"@ + "  Add: "@ + decimal(self.of_type(ChangeType::Add).len())
            + "\n"@ + "  Modify: "@ + decimal(self.of_type(ChangeType::Modify).len()) + "\n"@
            + "  Delete: "@ + decimal(self.of_type(ChangeType::Delete).len()) + "\n"@
            + "  Rename: "@ + decimal(self.of_type(ChangeType::Rename).len()) + "\n\n"@;
        if self.failed().len() > 0 {
            head + "Failed Changes: "@ + decimal(self.failed().len()) + "\n"@ + joined(
                self.failed(),
                |c: AppliedChange| failed_line(c),
            )
        } else {
            head
        }
    }

    pub fn new() -> (log: Self)
        ensures
            log.is_blank(),
    {
        Self {
            changes: Vec::new(),
            total_changes: 0,
            successful_changes: 0,
            failed_changes: 0,
            start_time: String::from_str("2025-11-21T00:00:00Z"),
            end_time: String::new(),
        }
    }

    /// Logs a change and counts it as successful or failed.
    pub fn add_change(&mut self, change: AppliedChange)
        requires
            old(self).total_changes < usize::MAX,
            old(self).successful_changes < usize::MAX,
            old(self).failed_changes < usize::MAX,
        ensures
            final(self).changes@ == old(self).changes@.push(change),
            *final(self) == (ChangeLog {
                changes: final(self).changes,
                total_changes: (old(self).total_changes + 1) as usize,
                successful_changes: if change.success {
                    (old(self).successful_changes + 1) as usize
                } else {
                    old(self).successful_changes
                },
                failed_changes: if change.success {
                    old(self).failed_changes
                } else {
                    (old(self).failed_changes + 1) as usize
                },
                ..*old(self)
            }),
    {
        self.total_changes += 1;
        if change.success {
            self.successful_changes += 1;
        } else {
            self.failed_changes += 1;
        }
        self.changes.push(change);
    }

    /// The changes of the given type, in the order of the log.
    pub fn get_changes_by_type(&self, change_type: ChangeType) -> (found: Vec<&AppliedChange>)
        ensures
            targets(found@) == self.of_type(change_type),
    {
        let ghost items = self.changes@;
        let ghost keep = |c: AppliedChange| c.change_type == change_type;
        let mut found: Vec<&AppliedChange> = Vec::new();
        let mut i: usize = 0;
        proof {
            lemma_select_ends(items, keep);
            assert(targets(found@) =~= Seq::<AppliedChange>::empty());
        }
        while i < self.changes.len()
            invariant
                i <= items.len(),
                items == self.changes@,
                keep == |c: AppliedChange| c.change_type == change_type,
                targets(found@) == items.take(i as int).filter(keep),
            decreases items.len() - i,
        {
            proof {
                lemma_select_step(items, i as int, keep);
            }
            let change = &self.changes[i];
            if change.change_type == change_type {
                let ghost before = targets(found@);
                found.push(change);
                assert(targets(found@) =~= before.push(*change));
            }
            i += 1;
        }
        proof {
            lemma_select_ends(items, keep);
        }
        found
    }

    /// The changes that failed, in the order of the log.
    pub fn get_failed_changes(&self) -> (found: Vec<&AppliedChange>)
        ensures
            targets(found@) == self.failed(),
    {
        let ghost items = self.changes@;
        let ghost keep = |c: AppliedChange| !c.success;
        let mut found: Vec<&AppliedChange> = Vec::new();
        let mut i: usize = 0;
        proof {
            lemma_select_ends(items, keep);
            assert(targets(found@) =~= Seq::<AppliedChange>::empty());
        }
        while i < self.changes.len()
            invariant
                i <= items.len(),
                items == self.changes@,
                keep == |c: AppliedChange| !c.success,
                targets(found@) == items.take(i as int).filter(keep),
            decreases items.len() - i,
        {
            proof {
                lemma_select_step(items, i as int, keep);
            }
            let change = &self.changes[i];
            if !change.success {
                let ghost before = targets(found@);
                found.push(change);
                assert(targets(found@) =~= before.push(*change));
            }
            i += 1;
        }
        proof {
            lemma_select_ends(items, keep);
        }
        found
    }

    /// The report on the log, as text. The success rate is a fraction, so
    /// the caller renders it and hands the text in.
    pub fn generate_report(&self, success_rate: &str) -> (report: String)
        ensures
            report@ == self.report(success_rate@),
    {
        let mut report = String::from_str("=== CHANGE APPLICATION REPORT ===\n\n");
        push_field(&mut report, "Period: ", self.start_time.as_str(), " to ");
        report.append(self.end_time.as_str());
        report.append("\n");
        push_count_field(&mut report, "Total Changes: ", self.total_changes, "\n");
        push_count_field(&mut report, "  Successful: ", self.successful_changes, "\n");
        push_count_field(&mut report, "  Failed: ", self.failed_changes, "\n");
        push_field(&mut report, "Success Rate: ", success_rate, "%\n\n");
        let adds = self.get_changes_by_type(ChangeType::Add).len();
        let modifies = self.get_changes_by_type(ChangeType::Modify).len();
        let deletes = self.get_changes_by_type(ChangeType::Delete).len();
        let renames = self.get_changes_by_type(ChangeType::Rename).len();
        report.append("Changes by Type:\n");
        push_count_field(&mut report, "  Add: ", adds, "\n");
        push_count_field(&mut report, "  Modify: ", modifies, "\n");
        push_count_field(&mut report, "  Delete: ", deletes, "\n");
        push_count_field(&mut report, "  Rename: ", renames, "\n\n");
        let failed = self.get_failed_changes();
        if failed.len() > 0 {
            push_count_field(&mut report, "Failed Changes: ", failed.len(), "\n");
            let ghost line = |c: AppliedChange| failed_line(c);
            let ghost head = report@;
            let ghost items = targets(failed@);
            let mut i: usize = 0;
            proof {
                lemma_joined_ends(items, line);
                assert(report@ =~= head + joined(items.take(0), line));
            }
            while i < failed.len()
                invariant
                    i <= items.len(),
                    items == targets(failed@),
                    line == |c: AppliedChange| failed_line(c),
                    report@ == head + joined(items.take(i as int), line),
                decreases items.len() - i,
            {
                proof {
                    lemma_joined_step(items, i as int, line);
                }
                let ghost before = report@;
                let change = failed[i];
                assert(items[i as int] == *change);
                push_field(&mut report, "  ", change.file_path.as_str(), " - ");
                match &change.error_message {
                    Some(message) => {
                        report.append(message.as_str());
                    },
                    None => {
                        report.append("Unknown error");
                    },
                }
                report.append("\n");
                assert(report@ =~= before + failed_line(items[i as int]));
                assert(report@ =~= head + joined(items.take(i + 1), line));
                i += 1;
            }
            proof {
                lemma_joined_ends(items, line);
            }
        }
        report
    }
}

impl Default for ChangeLog {
    fn default() -> (log: Self)
        ensures
            log.is_blank(),
    {
        Self::new()
    }
}

/// The moment that applied changes carry.
pub open spec fn applied_at() -> Seq<char> {
    "2025-11-21T00:00:00Z"@
}

/// A path with its slashes turned into hyphens, as change ids carry it.
pub open spec fn flattened(path: Seq<char>) -> Seq<char> {
    replaced(path, '/', "-"@)
}

/// A successful change by the system.
pub open spec fn applied(
    change_id: Seq<char>,
    file_path: Seq<char>,
    change_type: ChangeType,
    old_content: Option<Seq<char>>,
    new_content: Option<Seq<char>>,
) -> AppliedChangeView {
    AppliedChangeView {
        change_id,
        file_path,
        change_type,
        old_content,
        new_content,
        timestamp: applied_at(),
        applied_by: "system"@,
        success: true,
        error_message: None,
    }
}

/// The changes that were applied, by change id.
pub struct ChangeApplier {
    applied_changes: TextMap<AppliedChange>,
}

impl View for ChangeApplier {
    type V = Seq<(Seq<char>, AppliedChangeView)>;

    closed spec fn view(&self) -> Seq<(Seq<char>, AppliedChangeView)> {
        mapped_values(self.applied_changes@, |c: AppliedChange| c@)
    }
}

/// The contents of the changes that a sequence of references points to.
pub open spec fn change_views(changes: Seq<&AppliedChange>) -> Seq<AppliedChangeView> {
    changes.map_values(|c: &AppliedChange| c@)
}

/// The changes of the entries, without their keys.
pub open spec fn entry_changes(entries: Seq<(Seq<char>, AppliedChangeView)>) -> Seq<
    AppliedChangeView,
> {
    entries.map_values(|e: (Seq<char>, AppliedChangeView)| e.1)
}

impl ChangeApplier {
    pub fn new() -> (applier: Self)
        ensures
            applier@ == Seq::<(Seq<char>, AppliedChangeView)>::empty(),
    {
        let applier = Self { applied_changes: TextMap::new() };
        assert(applier@ =~= Seq::<(Seq<char>, AppliedChangeView)>::empty());
        applier
    }

    /// Files a change under its id and hands a copy back.
    fn file(&mut self, change: AppliedChange) -> (copy: AppliedChange)
        ensures
            copy@ == change@,
            final(self)@ == with_entry(old(self)@, change@.change_id, change@),
    {
        let copy = change.clone();
        let key = change.change_id.clone();
        proof {
            lemma_mapped_with_entry(self.applied_changes@, |c: AppliedChange| c@, key@, change);
        }
        self.applied_changes.insert(key, change);
        copy
    }

    /// Applies the addition of a file. The change is filed under `add-` and
    /// the flattened path.
    pub fn apply_add(&mut self, file_path: String, content: String) -> (change: AppliedChange)
        ensures
            change@ == applied(
                "add-"@ + flattened(file_path@),
                file_path@,
                ChangeType::Add,
                None,
                Some(content@),
            ),
            final(self)@ == with_entry(old(self)@, change@.change_id, change@),
    {
        let flat = replace_char(file_path.as_str(), '/', "-");
        let change = AppliedChange {
            change_id: String::from_str("add-").concat(flat.as_str()),
            file_path,
            change_type: ChangeType::Add,
            old_content: None,
            new_content: Some(content),
            timestamp: String::from_str("2025-11-21T00:00:00Z"),
            applied_by: String::from_str("system"),
            success: true,
            error_message: None,
        };
        self.file(change)
    }

    /// Applies the modification of a file. The change is filed under
    /// `modify-` and the flattened path.
    pub fn apply_modify(&mut self, file_path: String, old_content: String, new_content: String) -> (change:
        AppliedChange)
        ensures
            change@ == applied(
                "modify-"@ + flattened(file_path@),
                file_path@,
                ChangeType::Modify,
                Some(old_content@),
                Some(new_content@),
            ),
            final(self)@ == with_entry(old(self)@, change@.change_id, change@),
    {
        let flat = replace_char(file_path.as_str(), '/', "-");
        let change = AppliedChange {
            change_id: String::from_str("modify-").concat(flat.as_str()),
            file_path,
            change_type: ChangeType::Modify,
            old_content: Some(old_content),
            new_content: Some(new_content),
            timestamp: String::from_str("2025-11-21T00:00:00Z"),
            applied_by: String::from_str("system"),
            success: true,
            error_message: None,
        };
        self.file(change)
    }

    /// Applies the deletion of a file. The change is filed under `delete-`
    /// and the flattened path.
    pub fn apply_delete(&mut self, file_path: String, old_content: String) -> (change:
        AppliedChange)
        ensures
            change@ == applied(
                "delete-"@ + flattened(file_path@),
                file_path@,
                ChangeType::Delete,
                Some(old_content@),
                None,
            ),
            final(self)@ == with_entry(old(self)@, change@.change_id, change@),
    {
        let flat = replace_char(file_path.as_str(), '/', "-");
        let change = AppliedChange {
            change_id: String::from_str("delete-").concat(flat.as_str()),
            file_path,
            change_type: ChangeType::Delete,
            old_content: Some(old_content),
            new_content: None,
            timestamp: String::from_str("2025-11-21T00:00:00Z"),
            applied_by: String::from_str("system"),
            success: true,
            error_message: None,
        };
        self.file(change)
    }

    /// Applies the renaming of a file. The change is filed under `rename-`
    /// and both flattened paths; it is a change of the new path and keeps
    /// the old path as its old content.
    pub fn apply_rename(&mut self, old_path: String, new_path: String) -> (change: AppliedChange)
        ensures
            change@ == applied(
                "rename-"@ + flattened(old_path@) + "-"@ + flattened(new_path@),
                new_path@,
                ChangeType::Rename,
                Some(old_path@),
                None,
            ),
            final(self)@ == with_entry(old(self)@, change@.change_id, change@),
    {
        let flat_old = replace_char(old_path.as_str(), '/', "-");
        let flat_new = replace_char(new_path.as_str(), '/', "-");
        let mut change_id = String::from_str("rename-");
        change_id.append(flat_old.as_str());
        change_id.append("-");
        change_id.append(flat_new.as_str());
        let change = AppliedChange {
            change_id,
            file_path: new_path,
            change_type: ChangeType::Rename,
            old_content: Some(old_path),
            new_content: None,
            timestamp: String::from_str("2025-11-21T00:00:00Z"),
            applied_by: String::from_str("system"),
            success: true,
            error_message: None,
        };
        self.file(change)
    }

    pub fn get_applied_change(&self, change_id: &str) -> (change: Option<&AppliedChange>)
        ensures
            match change {
                Some(c) => value_under(self@, change_id@) == Some(c@),
                None => value_under(self@, change_id@).is_none(),
            },
    {
        proof {
            lemma_mapped_values(self.applied_changes@, |c: AppliedChange| c@, change_id@);
        }
        self.applied_changes.get(change_id)
    }

    /// All applied changes, in the order in which their ids first arrived.
    pub fn get_all_changes(&self) -> (changes: Vec<&AppliedChange>)
        ensures
            change_views(changes@) == entry_changes(self@),
    {
        let mut changes: Vec<&AppliedChange> = Vec::new();
        let mut i: usize = 0;
        while i < self.applied_changes.len()
            invariant
                i <= self.applied_changes@.len(),
                changes@.len() == i,
                forall|j: int| 0 <= j < i ==> *changes@[j] == (#[trigger] self.applied_changes@[j]).1,
            decreases self.applied_changes@.len() - i,
        {
            changes.push(self.applied_changes.value_at(i));
            i += 1;
        }
        assert(change_views(changes@) =~= entry_changes(self@));
        changes
    }
}

impl Default for ChangeApplier {
    fn default() -> (applier: Self)
        ensures
            applier@ == Seq::<(Seq<char>, AppliedChangeView)>::empty(),
    {
        Self::new()
    }
}

} // verus!
