//! Release notes: what changed in a version, what breaks, what is known to
//! be wrong and who contributed, rendered as Markdown.

use crate::collections::{
    lemma_position_of,
    lemma_select_ends,
    lemma_select_step,
    lemma_with_entry_twice,
    lemma_with_entry_value,
    targets,
    value_under,
    with_entry,
    TextMap,
};
use crate::text::{
    decimal,
    joined,
    lemma_joined_ends,
    lemma_joined_step,
    listed,
    push_decimal,
    push_field,
    push_listed,
    strings_contain,
    texts,
};
use vstd::prelude::*;

verus! {

/// What kind of change an entry tells of.
#[derive(Debug, Clone, Copy, PartialEq, Eq, Structural)]
pub enum ChangeType {
    Feature,
    Bugfix,
    Improvement,
    Security,
    Breaking,
    Deprecated,
}

/// One change of a release.
#[derive(Debug, Clone)]
pub struct ChangeEntry {
    pub entry_id: String,
    pub change_type: ChangeType,
    pub title: String,
    pub description: String,
    pub author: String,
    pub pr_number: Option<u32>,
}

/// The moment that fresh notes carry.
pub open spec fn initial_release_date() -> Seq<char> {
    "2025-11-21T00:00:00Z"@
}

/// The number of a pull request as the notes show it.
pub open spec fn pr_text(pr_number: Option<u32>) -> Seq<char> {
    match pr_number {
        Some(number) => "Some("@ + decimal(number as nat) + ")"@,
        None => "None"@,
    }
}

/// The line of one feature.
pub open spec fn feature_line(change: ChangeEntry) -> Seq<char> {
    "- "@ + change.title@ + " (#"@ + pr_text(change.pr_number) + ")\n"@
}

/// The line of one change that is named by its title alone.
pub open spec fn title_line(change: ChangeEntry) -> Seq<char> {
    "- "@ + change.title@ + "\n"@
}

/// The notes of one release.
#[derive(Debug, Clone)]
pub struct ReleaseNotes {
    pub version: String,
    pub release_date: String,
    pub summary: String,
    pub changes: Vec<ChangeEntry>,
    pub breaking_changes: Vec<String>,
    pub deprecations: Vec<String>,
    pub known_issues: Vec<String>,
    pub contributors: Vec<String>,
}

impl ReleaseNotes {
    /// The notes say nothing yet.
    pub open spec fn is_blank(&self) -> bool {
        &&& self.release_date@ == initial_release_date()
        &&& self.summary@.len() == 0
        &&& self.changes@.len() == 0
        &&& self.breaking_changes@.len() == 0
        &&& self.deprecations@.len() == 0
        &&& self.known_issues@.len() == 0
        &&& self.contributors@.len() == 0
    }

    /// The changes of the given type, in their order.
    pub open spec fn of_type(&self, change_type: ChangeType) -> Seq<ChangeEntry> {
        self.changes@.filter(|c: ChangeEntry| c.change_type == change_type)
    }

    /// The notes as Markdown: title and date, the summary, then one
    /// section for each kind of content that the notes have.
    pub open spec fn markdown(&self) -> Seq<char> {
        let head = "# Release "@ + self.version@ + "\n\n"@ + "**Release Date**: "@
            + self.release_date@ + "\n\n"@;
        let summarized = if self.summary@.len() > 0 {
            head + self.summary@ + "\n\n"@
        } else {
            head
        };
        let breaking = if self.breaking_changes@.len() > 0 {
            summarized + "## ⚠️ Breaking Changes\n\n"@ + listed(
                self.breaking_changes@,
                "- "@,
                "\n"@,
            ) + "\n"@
        } else {
            summarized
        };
        let features = if self.of_type(ChangeType::Feature).len() > 0 {
            breaking + "## ✨ Features\n\n"@ + joined(
                self.of_type(ChangeType::Feature),
                |c: ChangeEntry| feature_line(c),
            ) + "\n"@
        } else {
            breaking
        };
        let bugfixes = if self.of_type(ChangeType::Bugfix).len() > 0 {
            features + "## 🐛 Bug Fixes\n\n"@ + joined(
                self.of_type(ChangeType::Bugfix),
                |c: ChangeEntry| title_line(c),
            ) + "\n"@
        } else {
            features
        };
        let improvements = if self.of_type(ChangeType::Improvement).len() > 0 {
            bugfixes + "## 📈 Improvements\n\n"@ + joined(
                self.of_type(ChangeType::Improvement),
                |c: ChangeEntry| title_line(c),
            ) + "\n"@
        } else {
            bugfixes
        };
        let issues = if self.known_issues@.len() > 0 {
            improvements + "## 🔍 Known Issues\n\n"@ + listed(self.known_issues@, "- "@, "\n"@)
                + "\n"@
        } else {
            improvements
        };
        if self.contributors@.len() > 0 {
            issues + "## 👥 Contributors\n\n"@ + listed(self.contributors@, "- "@, "\n"@)
        } else {
            issues
        }
    }

    pub fn new(version: String) -> (notes: Self)
        ensures
            notes.is_blank(),
            notes.version == version,
    {
        Self {
            version,
            release_date: String::from_str("2025-11-21T00:00:00Z"),
            summary: String::new(),
            changes: Vec::new(),
            breaking_changes: Vec::new(),
            deprecations: Vec::new(),
            known_issues: Vec::new(),
            contributors: Vec::new(),
        }
    }

    /// Records a change. The title of a breaking change is also listed
    /// among the breaking changes, that of a deprecation among the
    /// deprecations.
    pub fn add_change(&mut self, change: ChangeEntry)
        ensures
            final(self).changes@ == old(self).changes@.push(change),
            texts(final(self).breaking_changes@) == if change.change_type == ChangeType::Breaking {
                texts(old(self).breaking_changes@).push(change.title@)
            } else {
                texts(old(self).breaking_changes@)
            },
            texts(final(self).deprecations@) == if change.change_type == ChangeType::Deprecated {
                texts(old(self).deprecations@).push(change.title@)
            } else {
                texts(old(self).deprecations@)
            },
            *final(self) == (ReleaseNotes {
                changes: final(self).changes,
                breaking_changes: final(self).breaking_changes,
                deprecations: final(self).deprecations,
                ..*old(self)
            }),
    {
        if change.change_type == ChangeType::Breaking {
            self.breaking_changes.push(change.title.clone());
            assert(texts(self.breaking_changes@) =~= texts(old(self).breaking_changes@).push(
                change.title@,
            ));
        }
        if change.change_type == ChangeType::Deprecated {
            self.deprecations.push(change.title.clone());
            assert(texts(self.deprecations@) =~= texts(old(self).deprecations@).push(
                change.title@,
            ));
        }
        self.changes.push(change);
    }

    pub fn add_known_issue(&mut self, issue: String)
        ensures
            final(self).known_issues@ == old(self).known_issues@.push(issue),
            *final(self) == (ReleaseNotes {
                known_issues: final(self).known_issues,
                ..*old(self)
            }),
    {
        self.known_issues.push(issue);
    }

    /// Lists a contributor. One who is listed already is not listed again.
    pub fn add_contributor(&mut self, contributor: String)
        ensures
            final(self).contributors@ == if texts(old(self).contributors@).contains(contributor@) {
                old(self).contributors@
            } else {
                old(self).contributors@.push(contributor)
            },
            *final(self) == (ReleaseNotes {
                contributors: final(self).contributors,
                ..*old(self)
            }),
    {
        if !strings_contain(self.contributors.as_slice(), contributor.as_str()) {
            self.contributors.push(contributor);
        }
    }

    pub fn set_summary(&mut self, summary: String)
        ensures
            *final(self) == (ReleaseNotes { summary, ..*old(self) }),
    {
        self.summary = summary;
    }

    /// The changes of the given type, in their order.
    pub fn get_changes_by_type(&self, change_type: ChangeType) -> (found: Vec<&ChangeEntry>)
        ensures
            targets(found@) == self.of_type(change_type),
    {
        let ghost items = self.changes@;
        let ghost keep = |c: ChangeEntry| c.change_type == change_type;
        let mut found: Vec<&ChangeEntry> = Vec::new();
        let mut i: usize = 0;
        proof {
            lemma_select_ends(items, keep);
            assert(targets(found@) =~= Seq::<ChangeEntry>::empty());
        }
        while i < self.changes.len()
            invariant
                i <= items.len(),
                items == self.changes@,
                keep == |c: ChangeEntry| c.change_type == change_type,
                targets(found@) == items.take(i as int).filter(keep),
            decreases items.len() - i,
        {
            proof {
                lemma_select_step(items, i as int, keep);
            }
            let change = &self.changes[i];
            if change.change_type == change_type {
                let ghost before = targets(found@);
                found.push(change);
                assert(targets(found@) =~= before.push(*change));
            }
            i += 1;
        }
        proof {
            lemma_select_ends(items, keep);
        }
        found
    }

    pub fn get_feature_count(&self) -> (count: usize)
        ensures
            count == self.of_type(ChangeType::Feature).len(),
    {
        self.get_changes_by_type(ChangeType::Feature).len()
    }

    pub fn get_bugfix_count(&self) -> (count: usize)
        ensures
            count == self.of_type(ChangeType::Bugfix).len(),
    {
        self.get_changes_by_type(ChangeType::Bugfix).len()
    }

    /// Appends one line for each change, by its title alone.
    fn push_titles(out: &mut String, changes: &Vec<&ChangeEntry>)
        ensures
            final(out)@ == old(out)@ + joined(targets(changes@), |c: ChangeEntry| title_line(c)),
    {
        let ghost line = |c: ChangeEntry| title_line(c);
        let ghost head = out@;
        let ghost items = targets(changes@);
        let mut i: usize = 0;
        proof {
            lemma_joined_ends(items, line);
            assert(out@ =~= head + joined(items.take(0), line));
        }
        while i < changes.len()
            invariant
                i <= items.len(),
                items == targets(changes@),
                line == |c: ChangeEntry| title_line(c),
                out@ == head + joined(items.take(i as int), line),
            decreases items.len() - i,
        {
            proof {
                lemma_joined_step(items, i as int, line);
            }
            let ghost before = out@;
            let change = changes[i];
            assert(items[i as int] == *change);
            push_field(out, "- ", change.title.as_str(), "\n");
            assert(out@ =~= before + title_line(items[i as int]));
            assert(out@ =~= head + joined(items.take(i + 1), line));
            i += 1;
        }
        proof {
            lemma_joined_ends(items, line);
        }
    }

    /// The notes as Markdown.
    pub fn generate_markdown(&self) -> (md: String)
        ensures
            md@ == self.markdown(),
    {
        let mut md = String::from_str("# Release ");
        md.append(self.version.as_str());
        md.append("\n\n");
        push_field(&mut md, "**Release Date**: ", self.release_date.as_str(), "\n\n");
        if self.summary.as_str().unicode_len() > 0 {
            md.append(self.summary.as_str());
            md.append("\n\n");
        }
        if self.breaking_changes.len() > 0 {
            md.append("## ⚠️ Breaking Changes\n\n");
            push_listed(&mut md, self.breaking_changes.as_slice(), "- ", "\n");
            md.append("\n");
        }
        let features = self.get_changes_by_type(ChangeType::Feature);
        if features.len() > 0 {
            md.append("## ✨ Features\n\n");
            let ghost line = |c: ChangeEntry| feature_line(c);
            let ghost head = md@;
            let ghost items = targets(features@);
            let mut i: usize = 0;
            proof {
                lemma_joined_ends(items, line);
                assert(md@ =~= head + joined(items.take(0), line));
            }
            while i < features.len()
                invariant
                    i <= items.len(),
                    items == targets(features@),
                    line == |c: ChangeEntry| feature_line(c),
                    md@ == head + joined(items.take(i as int), line),
                decreases items.len() - i,
            {
                proof {
                    lemma_joined_step(items, i as int, line);
                }
                let ghost before = md@;
                let change = features[i];
                assert(items[i as int] == *change);
                push_field(&mut md, "- ", change.title.as_str(), " (#");
                match change.pr_number {
                    Some(number) => {
                        md.append("Some(");
                        push_decimal(&mut md, number as u64);
                        md.append(")");
                    },
                    None => {
                        md.append("None");
                    },
                }
                md.append(")\n");
                assert(md@ =~= before + feature_line(items[i as int]));
                assert(md@ =~= head + joined(items.take(i + 1), line));
                i += 1;
            }
            proof {
                lemma_joined_ends(items, line);
            }
            md.append("\n");
        }
        let bugfixes = self.get_changes_by_type(ChangeType::Bugfix);
        if bugfixes.len() > 0 {
            md.append("## 🐛 Bug Fixes\n\n");
            Self::push_titles(&mut md, &bugfixes);
            md.append("\n");
        }
        let improvements = self.get_changes_by_type(ChangeType::Improvement);
        if improvements.len() > 0 {
            md.append("## 📈 Improvements\n\n");
            Self::push_titles(&mut md, &improvements);
            md.append("\n");
        }
        if self.known_issues.len() > 0 {
            md.append("## 🔍 Known Issues\n\n");
            push_listed(&mut md, self.known_issues.as_slice(), "- ", "\n");
            md.append("\n");
        }
        if self.contributors.len() > 0 {
            md.append("## 👥 Contributors\n\n");
            push_listed(&mut md, self.contributors.as_slice(), "- ", "\n");
        }
        md
    }
}

impl Default for ReleaseNotes {
    fn default() -> (notes: Self)
        ensures
            notes.is_blank(),
            notes.version@ == "1.0.0"@,
    {
        Self::new(String::from_str("1.0.0"))
    }
}

/// The notes of the entries, without their keys.
pub open spec fn entry_notes(entries: Seq<(Seq<char>, ReleaseNotes)>) -> Seq<ReleaseNotes> {
    entries.map_values(|e: (Seq<char>, ReleaseNotes)| e.1)
}

/// The release notes by version text.
pub struct ReleaseNotesGenerator {
    notes: TextMap<ReleaseNotes>,
}

impl View for ReleaseNotesGenerator {
    type V = Seq<(Seq<char>, ReleaseNotes)>;

    closed spec fn view(&self) -> Seq<(Seq<char>, ReleaseNotes)> {
        self.notes@
    }
}

impl ReleaseNotesGenerator {
    pub fn new() -> (generator: Self)
        ensures
            generator@ == Seq::<(Seq<char>, ReleaseNotes)>::empty(),
    {
        Self { notes: TextMap::new() }
    }

    /// Files new, empty notes under the version, over notes that were
    /// there, and hands them out for filling.
    pub fn create_notes(&mut self, version: String) -> (notes: &mut ReleaseNotes)
        ensures
            notes.is_blank(),
            notes.version == version,
            final(self)@ == with_entry(old(self)@, version@, *final(notes)),
    {
        let key = version.clone();
        let notes = ReleaseNotes::new(version);
        let ghost before = self.notes@;
        proof {
            lemma_with_entry_value(before, key@, notes);
            lemma_position_of(before, key@);
            lemma_position_of(with_entry(before, key@, notes), key@);
        }
        self.notes.insert(key.clone(), notes);
        let found = self.notes.get_mut(key.as_str());
        let notes = found.unwrap();
        proof {
            lemma_with_entry_twice(before, key@, *notes, *final(notes));
        }
        notes
    }

    pub fn get_notes(&self, version: &str) -> (notes: Option<&ReleaseNotes>)
        ensures
            match notes {
                Some(n) => value_under(self@, version@) == Some(*n),
                None => value_under(self@, version@).is_none(),
            },
    {
        self.notes.get(version)
    }

    /// All notes, in the order in which their versions first arrived.
    pub fn get_all_notes(&self) -> (notes: Vec<&ReleaseNotes>)
        ensures
            targets(notes@) == entry_notes(self@),
    {
        let mut notes: Vec<&ReleaseNotes> = Vec::new();
        let mut i: usize = 0;
        while i < self.notes.len()
            invariant
                i <= self.notes@.len(),
                notes@.len() == i,
                forall|j: int| 0 <= j < i ==> *notes@[j] == (#[trigger] self.notes@[j]).1,
            decreases self.notes@.len() - i,
        {
            notes.push(self.notes.value_at(i));
            i += 1;
        }
        assert(targets(notes@) =~= entry_notes(self@));
        notes
    }
}

impl Default for ReleaseNotesGenerator {
    fn default() -> (generator: Self)
        ensures
            generator@ == Seq::<(Seq<char>, ReleaseNotes)>::empty(),
    {
        Self::new()
    }
}

} // verus!
