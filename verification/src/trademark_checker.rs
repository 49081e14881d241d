//! Checks how protected names are used: in which contexts a trademark may
//! stand and in which it may not.

use crate::collections::{
    has_key,
    lemma_mapped_values,
    lemma_mapped_with_entry,
    mapped_values,
    value_under,
    with_entry,
    TextMap,
};
use crate::legal_scan::{compliance_mark, compliance_str, TrademarkUsage, TrademarkUsageView};
use crate::text::{
    any_occurs,
    chars_contain,
    chars_of,
    clone_strings,
    contains,
    contains_any,
    decimal,
    is_substring,
    joined,
    lemma_joined_ends,
    lemma_joined_step,
    lines,
    lines_of,
    lowercase,
    push_count,
    push_count_field,
    push_field,
    texts,
    to_lowercase,
};
use vstd::prelude::*;

verus! {

/// The policy of one trademark.
#[derive(Debug)]
pub struct TrademarkPolicy {
    pub term: String,
    pub owner: String,
    pub requires_permission: bool,
    pub allowed_contexts: Vec<String>,
    pub forbidden_contexts: Vec<String>,
}

/// The mathematical content of a policy.
pub ghost struct TrademarkPolicyView {
    pub term: Seq<char>,
    pub owner: Seq<char>,
    pub requires_permission: bool,
    pub allowed_contexts: Seq<Seq<char>>,
    pub forbidden_contexts: Seq<Seq<char>>,
}

impl View for TrademarkPolicy {
    type V = TrademarkPolicyView;

    open spec fn view(&self) -> TrademarkPolicyView {
        TrademarkPolicyView {
            term: self.term@,
            owner: self.owner@,
            requires_permission: self.requires_permission,
            allowed_contexts: texts(self.allowed_contexts@),
            forbidden_contexts: texts(self.forbidden_contexts@),
        }
    }
}

impl Clone for TrademarkPolicy {
    fn clone(&self) -> (copy: Self)
        ensures
            copy@ == self@,
    {
        Self {
            term: self.term.clone(),
            owner: self.owner.clone(),
            requires_permission: self.requires_permission,
            allowed_contexts: clone_strings(self.allowed_contexts.as_slice()),
            forbidden_contexts: clone_strings(self.forbidden_contexts.as_slice()),
        }
    }
}

/// The policies that every checker starts with, filed by term in this
/// order.
pub open spec fn base_policies() -> Seq<(Seq<char>, TrademarkPolicyView)> {
    with_entry(
        with_entry(
            Seq::empty(),
            "AirPods"@,
            TrademarkPolicyView {
                term: "AirPods"@,
                owner: "Apple Inc."@,
                requires_permission: false,
                allowed_contexts: seq![
                    "descriptive use"@,
                    "nominative use"@,
                    "compatibility statements"@,
                ],
                forbidden_contexts: seq![
                    "brand name"@,
                    "product endorsement"@,
                    "trademark registration"@,
                ],
            },
        ),
        "Apple"@,
        TrademarkPolicyView {
            term: "Apple"@,
            owner: "Apple Inc."@,
            requires_permission: true,
            allowed_contexts: seq!["descriptive use"@],
            forbidden_contexts: seq!["brand name"@, "company name"@, "product name"@],
        },
    )
}

/// The usages that are compliant by their kind.
pub open spec fn base_compliant_usages() -> Seq<Seq<char>> {
    seq!["descriptive use"@, "nominative use"@, "comparative advertising"@]
}

/// Whether a context, given in lowercase, complies with a policy: it names
/// an allowed context and no forbidden one.
pub open spec fn complies(policy: TrademarkPolicyView, lowered: Seq<char>) -> bool {
    any_occurs(policy.allowed_contexts, lowered) && !any_occurs(policy.forbidden_contexts, lowered)
}

/// The verdict on the use of `term` in `context`, where `lowered` is the
/// context in lowercase.
pub open spec fn verdict(
    policies: Seq<(Seq<char>, TrademarkPolicyView)>,
    term: Seq<char>,
    context: Seq<char>,
    lowered: Seq<char>,
) -> TrademarkUsageView {
    match value_under(policies, term) {
        Some(policy) => TrademarkUsageView {
            term,
            context,
            compliant: complies(policy, lowered),
            reason: if complies(policy, lowered) {
                "Usage is compliant with trademark policy"@
            } else {
                "Usage may violate trademark policy"@
            },
        },
        None => TrademarkUsageView {
            term,
            context,
            compliant: true,
            reason: "Trademark not in protected list"@,
        },
    }
}

/// The first of the lines that holds `term`, or `term` itself where no
/// line does.
pub open spec fn context_among(lines: Seq<Seq<char>>, term: Seq<char>) -> Seq<char>
    decreases lines.len(),
{
    if lines.len() == 0 {
        term
    } else if is_substring(term, lines[0]) {
        lines[0]
    } else {
        context_among(lines.skip(1), term)
    }
}

/// The context of `term` in `text`: the first line that holds it.
pub open spec fn context_of(text: Seq<char>, term: Seq<char>) -> Seq<char> {
    context_among(lines_of(text), term)
}

/// The usages of the first `count` protected terms in `text`: one verdict
/// for each term that stands in the text, on the line in which it first
/// stands.
pub open spec fn usages_in(
    policies: Seq<(Seq<char>, TrademarkPolicyView)>,
    count: int,
    text: Seq<char>,
) -> Seq<TrademarkUsageView>
    decreases count,
{
    if count <= 0 || count > policies.len() {
        Seq::empty()
    } else {
        let term = policies[count - 1].0;
        let earlier = usages_in(policies, count - 1, text);
        if is_substring(term, text) {
            earlier.push(
                verdict(policies, term, context_of(text, term), lowercase(context_of(text, term))),
            )
        } else {
            earlier
        }
    }
}

/// The contents of usages, in order.
pub open spec fn usage_views(usages: Seq<TrademarkUsage>) -> Seq<TrademarkUsageView> {
    usages.map_values(|u: TrademarkUsage| u@)
}

/// The lines of one usage in the report.
pub open spec fn usage_rows(usage: TrademarkUsage) -> Seq<char> {
    compliance_mark(usage.compliant) + " "@ + usage.term@ + "\n"@ + "  Context: "@
        + usage.context@ + "\n"@ + "  Reason: "@ + usage.reason@ + "\n\n"@
}

/// The report on the usages.
pub open spec fn trademark_report(usages: Seq<TrademarkUsage>) -> Seq<char> {
    "=== TRADEMARK COMPLIANCE REPORT ===\n\n"@ + "Compliant usages: "@ + decimal(
        usages.filter(|u: TrademarkUsage| u.compliant).len(),
    ) + "/"@ + decimal(usages.len()) + "\n\n"@ + joined(usages, |u: TrademarkUsage| usage_rows(u))
}

/// Whether a context, given in lowercase, speaks of descriptive use.
pub open spec fn descriptive(lowered: Seq<char>) -> bool {
    is_substring("descriptive"@, lowered) || is_substring("compatibility"@, lowered)
        || is_substring("works with"@, lowered)
}

/// Whether a context, given in lowercase, speaks of nominative use.
pub open spec fn nominative(lowered: Seq<char>) -> bool {
    is_substring("nominative"@, lowered) || is_substring("refers to"@, lowered) || is_substring(
        "compatible with"@,
        lowered,
    )
}

/// The protected trademarks with their policies.
pub struct TrademarkChecker {
    protected_trademarks: TextMap<TrademarkPolicy>,
    compliant_usages: Vec<String>,
}

/// The mathematical content of a checker.
pub ghost struct TrademarkCheckerView {
    pub policies: Seq<(Seq<char>, TrademarkPolicyView)>,
    pub compliant_usages: Seq<Seq<char>>,
}

impl View for TrademarkChecker {
    type V = TrademarkCheckerView;

    closed spec fn view(&self) -> TrademarkCheckerView {
        TrademarkCheckerView {
            policies: mapped_values(self.protected_trademarks@, |p: TrademarkPolicy| p@),
            compliant_usages: texts(self.compliant_usages@),
        }
    }
}

/// A list of three texts.
fn three(first: &str, second: &str, third: &str) -> (list: Vec<String>)
    ensures
        texts(list@) == seq![first@, second@, third@],
{
    let mut list: Vec<String> = Vec::new();
    list.push(String::from_str(first));
    list.push(String::from_str(second));
    list.push(String::from_str(third));
    assert(texts(list@) =~= seq![first@, second@, third@]);
    list
}

impl TrademarkChecker {
    pub fn new() -> (checker: Self)
        ensures
            checker@ == (TrademarkCheckerView {
                policies: base_policies(),
                compliant_usages: base_compliant_usages(),
            }),
    {
        let mut checker = Self {
            protected_trademarks: TextMap::new(),
            compliant_usages: three("descriptive use", "nominative use", "comparative advertising"),
        };
        assert(checker@.policies =~= Seq::<(Seq<char>, TrademarkPolicyView)>::empty());
        checker.initialize_trademarks();
        checker
    }

    /// Files a policy under its term.
    fn file_policy(&mut self, policy: TrademarkPolicy)
        ensures
            final(self)@ == (TrademarkCheckerView {
                policies: with_entry(old(self)@.policies, policy@.term, policy@),
                ..old(self)@
            }),
    {
        let key = policy.term.clone();
        proof {
            lemma_mapped_with_entry(
                self.protected_trademarks@,
                |p: TrademarkPolicy| p@,
                key@,
                policy,
            );
        }
        self.protected_trademarks.insert(key, policy);
    }

    /// Files the policies that are known from the start.
    fn initialize_trademarks(&mut self)
        requires
            old(self)@.policies.len() == 0,
        ensures
            final(self)@ == (TrademarkCheckerView { policies: base_policies(), ..old(self)@ }),
    {
        assert(self@.policies =~= Seq::<(Seq<char>, TrademarkPolicyView)>::empty());
        self.file_policy(
            TrademarkPolicy {
                term: String::from_str("AirPods"),
                owner: String::from_str("Apple Inc."),
                requires_permission: false,
                allowed_contexts: three(
                    "descriptive use",
                    "nominative use",
                    "compatibility statements",
                ),
                forbidden_contexts: three(
                    "brand name",
                    "product endorsement",
                    "trademark registration",
                ),
            },
        );
        let mut allowed: Vec<String> = Vec::new();
        allowed.push(String::from_str("descriptive use"));
        assert(texts(allowed@) =~= seq!["descriptive use"@]);
        self.file_policy(
            TrademarkPolicy {
                term: String::from_str("Apple"),
                owner: String::from_str("Apple Inc."),
                requires_permission: true,
                allowed_contexts: allowed,
                forbidden_contexts: three("brand name", "company name", "product name"),
            },
        );
    }

    /// Whether a term is protected.
    pub fn is_protected(&self, term: &str) -> (protected: bool)
        ensures
            protected == has_key(self@.policies, term@),
    {
        proof {
            lemma_mapped_values(self.protected_trademarks@, |p: TrademarkPolicy| p@, term@);
        }
        self.protected_trademarks.contains_key(term)
    }

    /// The verdict on the use of `term` in `context`. The context is
    /// searched in lowercase.
    pub fn check_trademark_usage(&self, term: &str, context: &str) -> (usage: TrademarkUsage)
        ensures
            usage@ == verdict(self@.policies, term@, context@, lowercase(context@)),
    {
        let lowered = to_lowercase(context);
        self.check_usage_lowered(term, context, lowered.as_str())
    }

    /// The verdict on the use of `term` in `context`, where `lowered` is
    /// the context brought to lowercase. A term that is not protected may
    /// be used; a protected one in a context that names an allowed context
    /// and no forbidden one.
    pub fn check_usage_lowered(&self, term: &str, context: &str, lowered: &str) -> (usage:
        TrademarkUsage)
        ensures
            usage@ == verdict(self@.policies, term@, context@, lowered@),
    {
        proof {
            lemma_mapped_values(self.protected_trademarks@, |p: TrademarkPolicy| p@, term@);
        }
        match self.protected_trademarks.get(term) {
            Some(policy) => {
                let compliant = contains_any(lowered, policy.allowed_contexts.as_slice())
                    && !contains_any(lowered, policy.forbidden_contexts.as_slice());
                let reason = if compliant {
                    String::from_str("Usage is compliant with trademark policy")
                } else {
                    String::from_str("Usage may violate trademark policy")
                };
                TrademarkUsage {
                    term: String::from_str(term),
                    context: String::from_str(context),
                    compliant,
                    reason,
                }
            },
            None => TrademarkUsage {
                term: String::from_str(term),
                context: String::from_str(context),
                compliant: true,
                reason: String::from_str("Trademark not in protected list"),
            },
        }
    }

    /// The verdicts on the protected terms that stand in `text`, in the
    /// order of the table.
    pub fn scan_text(&self, text: &str) -> (usages: Vec<TrademarkUsage>)
        ensures
            usage_views(usages@) == usages_in(self@.policies, self@.policies.len() as int, text@),
    {
        let ghost policies = self@.policies;
        let hay = chars_of(text);
        let mut usages: Vec<TrademarkUsage> = Vec::new();
        let mut i: usize = 0;
        assert(usage_views(usages@) =~= usages_in(policies, 0, text@));
        while i < self.protected_trademarks.len()
            invariant
                i <= self.protected_trademarks@.len(),
                policies == self@.policies,
                policies.len() == self.protected_trademarks@.len(),
                hay@ == text@,
                usage_views(usages@) == usages_in(policies, i as int, text@),
            decreases self.protected_trademarks@.len() - i,
        {
            let term = self.protected_trademarks.key_at(i);
            assert(policies[i as int].0 == term@);
            let needle = chars_of(term.as_str());
            if chars_contain(hay.as_slice(), needle.as_slice()) {
                let context = self.extract_context(text, term.as_str());
                let usage = self.check_trademark_usage(term.as_str(), context.as_str());
                let ghost before = usage_views(usages@);
                usages.push(usage);
                assert(usage_views(usages@) =~= before.push(usage@));
            }
            i += 1;
        }
        usages
    }

    /// The first line of `text` that holds `term`, or `term` itself where
    /// no line does.
    pub fn extract_context(&self, text: &str, term: &str) -> (context: String)
        ensures
            context@ == context_of(text@, term@),
    {
        let all = lines(text);
        let needle = chars_of(term);
        let ghost rows = texts(all@);
        let mut i: usize = 0;
        assert(rows.skip(0) =~= rows);
        while i < all.len()
            invariant
                i <= all@.len(),
                rows == texts(all@),
                needle@ == term@,
                context_of(text@, term@) == context_among(rows.skip(i as int), term@),
            decreases all@.len() - i,
        {
            let line = chars_of(all[i].as_str());
            proof {
                assert(rows.skip(i as int)[0] == line@);
                assert(rows.skip(i as int).skip(1) =~= rows.skip(i + 1));
            }
            if chars_contain(line.as_slice(), needle.as_slice()) {
                return all[i].clone();
            }
            i += 1;
        }
        String::from_str(term)
    }

    /// Whether a context speaks of descriptive use. The context is
    /// searched in lowercase.
    pub fn is_descriptive_use(&self, context: &str) -> (descriptive: bool)
        ensures
            descriptive == self::descriptive(lowercase(context@)),
    {
        let lowered = to_lowercase(context);
        self.mentions_descriptive_use(lowered.as_str())
    }

    /// Whether a context that was brought to lowercase speaks of
    /// descriptive use: of description, of compatibility, or of working
    /// with something.
    pub fn mentions_descriptive_use(&self, lowered: &str) -> (descriptive: bool)
        ensures
            descriptive == self::descriptive(lowered@),
    {
        contains(lowered, "descriptive") || contains(lowered, "compatibility") || contains(
            lowered,
            "works with",
        )
    }

    /// Whether a context speaks of nominative use. The context is searched
    /// in lowercase.
    pub fn is_nominative_use(&self, context: &str) -> (nominative: bool)
        ensures
            nominative == self::nominative(lowercase(context@)),
    {
        let lowered = to_lowercase(context);
        self.mentions_nominative_use(lowered.as_str())
    }

    /// Whether a context that was brought to lowercase speaks of
    /// nominative use: of naming, of referring to something, or of being
    /// compatible with it.
    pub fn mentions_nominative_use(&self, lowered: &str) -> (nominative: bool)
        ensures
            nominative == self::nominative(lowered@),
    {
        contains(lowered, "nominative") || contains(lowered, "refers to") || contains(
            lowered,
            "compatible with",
        )
    }

    pub fn check_project_description(&self, description: &str) -> (usages: Vec<TrademarkUsage>)
        ensures
            usage_views(usages@) == usages_in(
                self@.policies,
                self@.policies.len() as int,
                description@,
            ),
    {
        self.scan_text(description)
    }

    pub fn check_readme(&self, readme_content: &str) -> (usages: Vec<TrademarkUsage>)
        ensures
            usage_views(usages@) == usages_in(
                self@.policies,
                self@.policies.len() as int,
                readme_content@,
            ),
    {
        self.scan_text(readme_content)
    }

    /// The report on the usages, as text.
    pub fn generate_trademark_report(&self, usages: Vec<TrademarkUsage>) -> (report: String)
        ensures
            report@ == trademark_report(usages@),
    {
        let mut report = String::from_str("=== TRADEMARK COMPLIANCE REPORT ===\n\n");
        let ghost keep = |u: TrademarkUsage| u.compliant;
        let mut compliant: usize = 0;
        let mut k: usize = 0;
        proof {
            crate::collections::lemma_select_ends(usages@, keep);
        }
        while k < usages.len()
            invariant
                k <= usages@.len(),
                keep == |u: TrademarkUsage| u.compliant,
                compliant == usages@.take(k as int).filter(keep).len(),
                compliant <= k,
            decreases usages@.len() - k,
        {
            proof {
                crate::collections::lemma_select_step(usages@, k as int, keep);
            }
            if usages[k].compliant {
                compliant += 1;
            }
            k += 1;
        }
        proof {
            crate::collections::lemma_select_ends(usages@, keep);
        }
        push_count_field(&mut report, "Compliant usages: ", compliant, "/");
        push_count(&mut report, usages.len());
        report.append("\n\n");
        let ghost line = |u: TrademarkUsage| usage_rows(u);
        let ghost head = report@;
        let ghost items = usages@;
        let mut i: usize = 0;
        proof {
            lemma_joined_ends(items, line);
            assert(report@ =~= head + joined(items.take(0), line));
        }
        while i < usages.len()
            invariant
                i <= items.len(),
                items == usages@,
                line == |u: TrademarkUsage| usage_rows(u),
                report@ == head + joined(items.take(i as int), line),
            decreases items.len() - i,
        {
            proof {
                lemma_joined_step(items, i as int, line);
            }
            let ghost before = report@;
            let usage = &usages[i];
            report.append(compliance_str(usage.compliant));
            report.append(" ");
            report.append(usage.term.as_str());
            report.append("\n");
            push_field(&mut report, "  Context: ", usage.context.as_str(), "\n");
            push_field(&mut report, "  Reason: ", usage.reason.as_str(), "\n\n");
            assert(report@ =~= before + usage_rows(items[i as int]));
            assert(report@ =~= head + joined(items.take(i + 1), line));
            i += 1;
        }
        proof {
            lemma_joined_ends(items, line);
        }
        report
    }
}

impl Default for TrademarkChecker {
    fn default() -> (checker: Self)
        ensures
            checker@ == (TrademarkCheckerView {
                policies: base_policies(),
                compliant_usages: base_compliant_usages(),
            }),
    {
        Self::new()
    }
}

} // verus!
