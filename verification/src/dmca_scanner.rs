//! Looks for takedown notices: repositories on the blocked list and
//! descriptions or commit messages that use flagged words.

use crate::collections::{has_key, lemma_mapped_values, mapped_values, value_under, TextMap};
use crate::legal_scan::{DMCANotice, DMCANoticeView};
use crate::text::{
    any_occurs,
    bool_text,
    chars_contain,
    chars_of,
    contains_any,
    decimal,
    is_substring,
    joined,
    lemma_joined_ends,
    lemma_joined_step,
    lowercase,
    push_bool_field,
    push_count_field,
    push_field,
    strings_contain,
    texts,
    to_lowercase,
};
use vstd::prelude::*;

verus! {

/// The words that flag a text.
pub open spec fn base_flagged_keywords() -> Seq<Seq<char>> {
    seq!["proprietary"@, "confidential"@, "trade secret"@, "nda"@, "restricted"@]
}

/// The notice for a repository on the blocked list.
pub open spec fn blocked_notice(repository: Seq<char>) -> DMCANoticeView {
    DMCANoticeView {
        date: "2025-11-21"@,
        repository,
        reason: "Repository is on blocked list"@,
        status: "Active"@,
    }
}

/// The notice for a flagged word in a description.
pub open spec fn keyword_notice(repository: Seq<char>, keyword: Seq<char>) -> DMCANoticeView {
    DMCANoticeView {
        date: "2025-11-21"@,
        repository,
        reason: "Flagged keyword detected: "@ + keyword,
        status: "Review"@,
    }
}

/// One notice for each of the first `count` keywords that stands in the
/// text, in the order of the keywords.
pub open spec fn keyword_notices(
    keywords: Seq<Seq<char>>,
    count: int,
    repository: Seq<char>,
    lowered: Seq<char>,
) -> Seq<DMCANoticeView>
    decreases count,
{
    if count <= 0 || count > keywords.len() {
        Seq::empty()
    } else if is_substring(keywords[count - 1], lowered) {
        keyword_notices(keywords, count - 1, repository, lowered).push(
            keyword_notice(repository, keywords[count - 1]),
        )
    } else {
        keyword_notices(keywords, count - 1, repository, lowered)
    }
}

/// The contents of notices, in order.
pub open spec fn notice_views(notices: Seq<DMCANotice>) -> Seq<DMCANoticeView> {
    notices.map_values(|n: DMCANotice| n@)
}

/// The line of one notice in the report.
pub open spec fn found_line(notice: DMCANoticeView) -> Seq<char> {
    "  - "@ + notice.reason + " ("@ + notice.status + ")\n"@
}

/// What the scanner knows: notices by repository, blocked repositories and
/// flagged words.
pub struct DMCAScanner {
    known_notices: TextMap<DMCANotice>,
    blocked_repositories: Vec<String>,
    flagged_keywords: Vec<String>,
}

/// The mathematical content of a scanner.
pub ghost struct DMCAScannerView {
    pub notices: Seq<(Seq<char>, DMCANoticeView)>,
    pub blocked: Seq<Seq<char>>,
    pub keywords: Seq<Seq<char>>,
}

impl DMCAScannerView {
    /// Whether the repository is under a takedown: a notice is known for it
    /// or it is on the blocked list.
    pub open spec fn taken_down(self, repository: Seq<char>) -> bool {
        has_key(self.notices, repository) || self.blocked.contains(repository)
    }

    /// The notices for a repository whose description, in lowercase, is
    /// `lowered`: one where the repository is blocked, then one for each
    /// flagged word in the description.
    pub open spec fn found(self, repository: Seq<char>, lowered: Seq<char>) -> Seq<DMCANoticeView> {
        let first = if self.blocked.contains(repository) {
            seq![blocked_notice(repository)]
        } else {
            Seq::empty()
        };
        first + keyword_notices(self.keywords, self.keywords.len() as int, repository, lowered)
    }

    /// The report for a repository whose description, in lowercase, is
    /// `lowered`.
    pub open spec fn report(self, repository: Seq<char>, lowered: Seq<char>) -> Seq<char> {
        "=== DMCA SCAN REPORT ===\n\n"@ + "Repository: "@ + repository + "\n"@ + "Safe: "@
            + bool_text(!self.taken_down(repository)) + "\n\n"@ + "Notices Found: "@ + decimal(
            self.found(repository, lowered).len(),
        ) + "\n"@ + joined(self.found(repository, lowered), |n: DMCANoticeView| found_line(n))
    }
}

impl View for DMCAScanner {
    type V = DMCAScannerView;

    closed spec fn view(&self) -> DMCAScannerView {
        DMCAScannerView {
            notices: mapped_values(self.known_notices@, |n: DMCANotice| n@),
            blocked: texts(self.blocked_repositories@),
            keywords: texts(self.flagged_keywords@),
        }
    }
}

impl DMCAScanner {
    /// A scanner that knows no notice, blocks no repository and flags the
    /// five words of `base_flagged_keywords`.
    pub fn new() -> (scanner: Self)
        ensures
            scanner@ == (DMCAScannerView {
                notices: Seq::empty(),
                blocked: Seq::empty(),
                keywords: base_flagged_keywords(),
            }),
    {
        let mut flagged_keywords: Vec<String> = Vec::new();
        flagged_keywords.push(String::from_str("proprietary"));
        flagged_keywords.push(String::from_str("confidential"));
        flagged_keywords.push(String::from_str("trade secret"));
        flagged_keywords.push(String::from_str("nda"));
        flagged_keywords.push(String::from_str("restricted"));
        let mut scanner = Self {
            known_notices: TextMap::new(),
            blocked_repositories: Vec::new(),
            flagged_keywords,
        };
        scanner.initialize_known_notices();
        proof {
            assert(scanner@.notices =~= Seq::<(Seq<char>, DMCANoticeView)>::empty());
            assert(scanner@.blocked =~= Seq::<Seq<char>>::empty());
            assert(scanner@.keywords =~= base_flagged_keywords());
        }
        scanner
    }

    /// Files the notices that are known from the start: there are none.
    fn initialize_known_notices(&mut self)
        ensures
            *final(self) == *old(self),
    {
    }

    /// The notices for a repository with the given description. The
    /// description is searched in lowercase.
    pub fn scan_repository(&self, repo_name: &str, description: &str) -> (notices: Vec<DMCANotice>)
        ensures
            notice_views(notices@) == self@.found(repo_name@, lowercase(description@)),
    {
        let lowered = to_lowercase(description);
        self.scan_lowered(repo_name, lowered.as_str())
    }

    /// The notices for a repository whose description, brought to
    /// lowercase, is `lowered`: one where the repository is on the blocked
    /// list, then one for each flagged word that stands in the description.
    pub fn scan_lowered(&self, repo_name: &str, lowered: &str) -> (notices: Vec<DMCANotice>)
        ensures
            notice_views(notices@) == self@.found(repo_name@, lowered@),
    {
        let mut notices: Vec<DMCANotice> = Vec::new();
        if strings_contain(self.blocked_repositories.as_slice(), repo_name) {
            notices.push(
                DMCANotice {
                    date: String::from_str("2025-11-21"),
                    repository: String::from_str(repo_name),
                    reason: String::from_str("Repository is on blocked list"),
                    status: String::from_str("Active"),
                },
            );
            assert(notice_views(notices@) =~= seq![blocked_notice(repo_name@)]);
        } else {
            assert(notice_views(notices@) =~= Seq::<DMCANoticeView>::empty());
        }
        let ghost first = notice_views(notices@);
        let ghost keywords = self@.keywords;
        let hay = chars_of(lowered);
        let mut i: usize = 0;
        assert(notice_views(notices@) =~= first + keyword_notices(keywords, 0, repo_name@, lowered@));
        while i < self.flagged_keywords.len()
            invariant
                i <= self.flagged_keywords@.len(),
                keywords == self@.keywords,
                keywords == texts(self.flagged_keywords@),
                hay@ == lowered@,
                notice_views(notices@) == first + keyword_notices(
                    keywords,
                    i as int,
                    repo_name@,
                    lowered@,
                ),
            decreases self.flagged_keywords@.len() - i,
        {
            let keyword = &self.flagged_keywords[i];
            let needle = chars_of(keyword.as_str());
            assert(keywords[i as int] == keyword@);
            if chars_contain(hay.as_slice(), needle.as_slice()) {
                let ghost before = notice_views(notices@);
                notices.push(
                    DMCANotice {
                        date: String::from_str("2025-11-21"),
                        repository: String::from_str(repo_name),
                        reason: String::from_str("Flagged keyword detected: ").concat(
                            keyword.as_str(),
                        ),
                        status: String::from_str("Review"),
                    },
                );
                assert(notice_views(notices@) =~= before.push(
                    keyword_notice(repo_name@, keyword@),
                ));
            }
            assert(notice_views(notices@) =~= first + keyword_notices(
                keywords,
                i + 1,
                repo_name@,
                lowered@,
            ));
            i += 1;
        }
        notices
    }

    pub fn check_for_takedown(&self, repo_name: &str) -> (taken_down: bool)
        ensures
            taken_down == self@.taken_down(repo_name@),
    {
        proof {
            lemma_mapped_values(self.known_notices@, |n: DMCANotice| n@, repo_name@);
        }
        self.known_notices.contains_key(repo_name) || strings_contain(
            self.blocked_repositories.as_slice(),
            repo_name,
        )
    }

    pub fn get_notice(&self, repo_name: &str) -> (notice: Option<&DMCANotice>)
        ensures
            match notice {
                Some(n) => value_under(self@.notices, repo_name@) == Some(n@),
                None => value_under(self@.notices, repo_name@).is_none(),
            },
    {
        proof {
            lemma_mapped_values(self.known_notices@, |n: DMCANotice| n@, repo_name@);
        }
        self.known_notices.get(repo_name)
    }

    pub fn add_blocked_repository(&mut self, repo: String)
        ensures
            final(self)@ == (DMCAScannerView {
                blocked: old(self)@.blocked.push(repo@),
                ..old(self)@
            }),
    {
        self.blocked_repositories.push(repo);
        assert(self@.blocked =~= old(self)@.blocked.push(repo@));
    }

    pub fn is_repository_safe(&self, repo_name: &str) -> (safe: bool)
        ensures
            safe == !self@.taken_down(repo_name@),
    {
        !self.check_for_takedown(repo_name)
    }

    /// Whether a text that was brought to lowercase uses a flagged word.
    pub fn is_flagged(&self, lowered: &str) -> (flagged: bool)
        ensures
            flagged == any_occurs(self@.keywords, lowered@),
    {
        contains_any(lowered, self.flagged_keywords.as_slice())
    }

    /// The messages that use a flagged word, in their order. Each message
    /// is searched in lowercase.
    pub fn scan_commit_messages(&self, messages: Vec<String>) -> (flagged: Vec<String>)
        ensures
            flagged@ == messages@.filter(
                |m: String| any_occurs(self@.keywords, lowercase(m@)),
            ),
    {
        let ghost items = messages@;
        let ghost keywords = self@.keywords;
        let ghost keep = |m: String| any_occurs(keywords, lowercase(m@));
        let mut flagged: Vec<String> = Vec::new();
        let mut i: usize = 0;
        proof {
            crate::collections::lemma_select_ends(items, keep);
        }
        while i < messages.len()
            invariant
                i <= items.len(),
                items == messages@,
                keywords == self@.keywords,
                keep == |m: String| any_occurs(keywords, lowercase(m@)),
                flagged@ == items.take(i as int).filter(keep),
            decreases items.len() - i,
        {
            proof {
                crate::collections::lemma_select_step(items, i as int, keep);
            }
            let message = &messages[i];
            let lowered = to_lowercase(message.as_str());
            if self.is_flagged(lowered.as_str()) {
                flagged.push(message.clone());
            }
            i += 1;
        }
        proof {
            crate::collections::lemma_select_ends(items, keep);
        }
        flagged
    }

    /// The report for a repository with the given description, as text.
    pub fn generate_dmca_report(&self, repo_name: &str, description: &str) -> (report: String)
        ensures
            report@ == self@.report(repo_name@, lowercase(description@)),
    {
        let lowered = to_lowercase(description);
        self.report_lowered(repo_name, lowered.as_str())
    }

    /// The report for a repository whose description, brought to lowercase,
    /// is `lowered`.
    pub fn report_lowered(&self, repo_name: &str, lowered: &str) -> (report: String)
        ensures
            report@ == self@.report(repo_name@, lowered@),
    {
        let mut report = String::from_str("=== DMCA SCAN REPORT ===\n\n");
        push_field(&mut report, "Repository: ", repo_name, "\n");
        push_bool_field(&mut report, "Safe: ", self.is_repository_safe(repo_name), "\n\n");
        let notices = self.scan_lowered(repo_name, lowered);
        push_count_field(&mut report, "Notices Found: ", notices.len(), "\n");
        let ghost line = |n: DMCANoticeView| found_line(n);
        let ghost head = report@;
        let ghost items = notice_views(notices@);
        let mut i: usize = 0;
        proof {
            lemma_joined_ends(items, line);
            assert(report@ =~= head + joined(items.take(0), line));
        }
        while i < notices.len()
            invariant
                i <= items.len(),
                items == notice_views(notices@),
                line == |n: DMCANoticeView| found_line(n),
                report@ == head + joined(items.take(i as int), line),
            decreases items.len() - i,
        {
            proof {
                lemma_joined_step(items, i as int, line);
            }
            let ghost before = report@;
            let notice = &notices[i];
            push_field(&mut report, "  - ", notice.reason.as_str(), " (");
            report.append(notice.status.as_str());
            report.append(")\n");
            assert(report@ =~= before + found_line(items[i as int]));
            assert(report@ =~= head + joined(items.take(i + 1), line));
            i += 1;
        }
        proof {
            lemma_joined_ends(items, line);
        }
        report
    }
}

impl Default for DMCAScanner {
    fn default() -> (scanner: Self)
        ensures
            scanner@ == (DMCAScannerView {
                notices: Seq::empty(),
                blocked: Seq::empty(),
                keywords: base_flagged_keywords(),
            }),
    {
        Self::new()
    }
}

} // verus!
