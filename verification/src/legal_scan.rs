//! The result of a legal scan: notices, licence violations, licence
//! headers, trademark usage and the firmware analysis, with the overall
//! risk that follows from them.

use crate::text::{
    bool_text,
    decimal,
    joined,
    lemma_joined_ends,
    lemma_joined_step,
    listed,
    push_bool_field,
    push_count_field,
    push_field,
    push_listed,
};
use vstd::prelude::*;

verus! {

/// How grave a finding is. Later variants are graver.
#[derive(Debug, Clone, Copy, PartialEq, Eq, PartialOrd, Ord, Structural)]
pub enum LegalRisk {
    NoRisk,
    Low,
    Medium,
    High,
    Critical,
}

impl LegalRisk {
    /// The rank of the risk, from 0 for none to 4 for critical.
    pub open spec fn rank_value(self) -> int {
        match self {
            LegalRisk::NoRisk => 0,
            LegalRisk::Low => 1,
            LegalRisk::Medium => 2,
            LegalRisk::High => 3,
            LegalRisk::Critical => 4,
        }
    }

    /// The graver of two risks.
    pub open spec fn graver(self, other: LegalRisk) -> LegalRisk {
        if self.rank_value() < other.rank_value() {
            other
        } else {
            self
        }
    }

    /// The name of the risk.
    pub open spec fn name_text(self) -> Seq<char> {
        match self {
            LegalRisk::NoRisk => "None"@,
            LegalRisk::Low => "Low"@,
            LegalRisk::Medium => "Medium"@,
            LegalRisk::High => "High"@,
            LegalRisk::Critical => "Critical"@,
        }
    }

    /// The rank of the risk, from 0 for none to 4 for critical.
    pub fn rank(&self) -> (rank: u8)
        ensures
            rank == self.rank_value(),
    {
        match self {
            LegalRisk::NoRisk => 0,
            LegalRisk::Low => 1,
            LegalRisk::Medium => 2,
            LegalRisk::High => 3,
            LegalRisk::Critical => 4,
        }
    }

    /// The name of the risk.
    pub fn name(&self) -> (name: &'static str)
        ensures
            name@ == self.name_text(),
    {
        match self {
            LegalRisk::NoRisk => "None",
            LegalRisk::Low => "Low",
            LegalRisk::Medium => "Medium",
            LegalRisk::High => "High",
            LegalRisk::Critical => "Critical",
        }
    }
}

#[derive(Debug, Clone, Copy, PartialEq, Eq, Structural)]
pub enum LicenseType {
    GPL3,
    MIT,
    Apache2,
    BSD,
    Proprietary,
    Unknown,
}

impl LicenseType {
    /// The name of the licence.
    pub open spec fn name_text(self) -> Seq<char> {
        match self {
            LicenseType::GPL3 => "GPL3"@,
            LicenseType::MIT => "MIT"@,
            LicenseType::Apache2 => "Apache2"@,
            LicenseType::BSD => "BSD"@,
            LicenseType::Proprietary => "Proprietary"@,
            LicenseType::Unknown => "Unknown"@,
        }
    }

    /// The name of the licence.
    pub fn name(&self) -> (name: &'static str)
        ensures
            name@ == self.name_text(),
    {
        match self {
            LicenseType::GPL3 => "GPL3",
            LicenseType::MIT => "MIT",
            LicenseType::Apache2 => "Apache2",
            LicenseType::BSD => "BSD",
            LicenseType::Proprietary => "Proprietary",
            LicenseType::Unknown => "Unknown",
        }
    }
}

#[derive(Debug, Clone)]
pub struct LicenseHeader {
    pub file_path: String,
    pub has_header: bool,
    pub license_type: LicenseType,
    pub year: Option<String>,
    pub author: Option<String>,
}

#[derive(Debug, Clone)]
pub struct DMCANotice {
    pub date: String,
    pub repository: String,
    pub reason: String,
    pub status: String,
}

#[derive(Debug, Clone)]
pub struct GPLViolation {
    pub file: String,
    pub violation_type: String,
    pub description: String,
    pub severity: LegalRisk,
}

#[derive(Debug, Clone)]
pub struct TrademarkUsage {
    pub term: String,
    pub context: String,
    pub compliant: bool,
    pub reason: String,
}

/// The mathematical content of a licence header.
pub ghost struct LicenseHeaderView {
    pub file_path: Seq<char>,
    pub has_header: bool,
    pub license_type: LicenseType,
    pub year: Option<Seq<char>>,
    pub author: Option<Seq<char>>,
}

impl View for LicenseHeader {
    type V = LicenseHeaderView;

    open spec fn view(&self) -> LicenseHeaderView {
        LicenseHeaderView {
            file_path: self.file_path@,
            has_header: self.has_header,
            license_type: self.license_type,
            year: match self.year {
                Some(text) => Some(text@),
                None => None,
            },
            author: match self.author {
                Some(text) => Some(text@),
                None => None,
            },
        }
    }
}

/// The mathematical content of a notice.
pub ghost struct DMCANoticeView {
    pub date: Seq<char>,
    pub repository: Seq<char>,
    pub reason: Seq<char>,
    pub status: Seq<char>,
}

impl View for DMCANotice {
    type V = DMCANoticeView;

    open spec fn view(&self) -> DMCANoticeView {
        DMCANoticeView {
            date: self.date@,
            repository: self.repository@,
            reason: self.reason@,
            status: self.status@,
        }
    }
}

/// The mathematical content of a licence violation.
pub ghost struct GPLViolationView {
    pub file: Seq<char>,
    pub violation_type: Seq<char>,
    pub description: Seq<char>,
    pub severity: LegalRisk,
}

impl View for GPLViolation {
    type V = GPLViolationView;

    open spec fn view(&self) -> GPLViolationView {
        GPLViolationView {
            file: self.file@,
            violation_type: self.violation_type@,
            description: self.description@,
            severity: self.severity,
        }
    }
}

/// The mathematical content of a trademark usage.
pub ghost struct TrademarkUsageView {
    pub term: Seq<char>,
    pub context: Seq<char>,
    pub compliant: bool,
    pub reason: Seq<char>,
}

impl View for TrademarkUsage {
    type V = TrademarkUsageView;

    open spec fn view(&self) -> TrademarkUsageView {
        TrademarkUsageView {
            term: self.term@,
            context: self.context@,
            compliant: self.compliant,
            reason: self.reason@,
        }
    }
}

#[derive(Debug, Clone, Copy, PartialEq, Eq, Structural)]
pub struct FirmwareAnalysis {
    pub is_proprietary: bool,
    pub is_nda_protected: bool,
    pub is_apple_firmware: bool,
    pub risk_level: LegalRisk,
}

/// The moment that a fresh scan result carries.
pub open spec fn initial_scan_date() -> Seq<char> {
    "2025-11-21T23:55:00Z"@
}

/// Whether a header is that of the licence the project is under.
pub open spec fn is_consistent(header: LicenseHeader) -> bool {
    header.has_header && header.license_type == LicenseType::GPL3
}

/// The line of one notice.
pub open spec fn notice_line(notice: DMCANotice) -> Seq<char> {
    "  - "@ + notice.repository@ + " ("@ + notice.date@ + ")\n"@
}

/// The line of one licence violation.
pub open spec fn violation_line(violation: GPLViolation) -> Seq<char> {
    "  - "@ + violation.file@ + " ("@ + violation.severity.name_text() + ")\n"@
}

/// The mark of a compliant or a non-compliant usage.
pub open spec fn compliance_mark(compliant: bool) -> Seq<char> {
    if compliant {
        "✓"@
    } else {
        "✗"@
    }
}

/// The line of one trademark usage.
pub open spec fn usage_line(usage: TrademarkUsage) -> Seq<char> {
    "  "@ + compliance_mark(usage.compliant) + " "@ + usage.term@ + "\n"@
}

/// The mark of a compliant or a non-compliant usage.
pub fn compliance_str(compliant: bool) -> (mark: &'static str)
    ensures
        mark@ == compliance_mark(compliant),
{
    if compliant {
        "✓"
    } else {
        "✗"
    }
}

/// Everything that one scan found.
#[derive(Debug, Clone)]
pub struct LegalScanResult {
    pub scan_date: String,
    pub dmca_notices: Vec<DMCANotice>,
    pub gpl_violations: Vec<GPLViolation>,
    pub license_headers: Vec<LicenseHeader>,
    pub trademark_usage: Vec<TrademarkUsage>,
    pub firmware_analysis: FirmwareAnalysis,
    pub overall_risk: LegalRisk,
    pub is_safe_to_distribute: bool,
    pub findings: Vec<String>,
    pub recommendations: Vec<String>,
}

impl LegalScanResult {
    /// Nothing was found yet: no risk, safe to distribute.
    pub open spec fn is_blank(&self) -> bool {
        &&& self.scan_date@ == initial_scan_date()
        &&& self.dmca_notices@.len() == 0
        &&& self.gpl_violations@.len() == 0
        &&& self.license_headers@.len() == 0
        &&& self.trademark_usage@.len() == 0
        &&& self.firmware_analysis == (FirmwareAnalysis {
            is_proprietary: false,
            is_nda_protected: false,
            is_apple_firmware: false,
            risk_level: LegalRisk::NoRisk,
        })
        &&& self.overall_risk == LegalRisk::NoRisk
        &&& self.is_safe_to_distribute
        &&& self.findings@.len() == 0
        &&& self.recommendations@.len() == 0
    }

    /// Whether something of what was found is critical: a notice, a
    /// critical licence violation, or firmware under a non-disclosure
    /// agreement.
    pub open spec fn critical(&self) -> bool {
        ||| self.dmca_notices@.len() > 0
        ||| exists|i: int|
            0 <= i < self.gpl_violations@.len() && (#[trigger] self.gpl_violations@[i]).severity
                == LegalRisk::Critical
        ||| self.firmware_analysis.is_nda_protected
    }

    /// How many headers are those of the project's licence.
    pub open spec fn consistent_headers(&self) -> nat {
        self.license_headers@.filter(|h: LicenseHeader| is_consistent(h)).len()
    }

    /// The report on the scan. The share of consistent licence headers is
    /// shown as the text that the caller made of it.
    pub open spec fn report(&self, consistency: Seq<char>) -> Seq<char> {
        "=== LEGAL SCAN REPORT ===\n\n"@ + "Scan Date: "@ + self.scan_date@ + "\n"@
            + "Overall Risk Level: "@ + self.overall_risk.name_text() + "\n"@
            + "Safe to Distribute: "@ + bool_text(self.is_safe_to_distribute) + "\n\n"@
            + "DMCA Notices: "@ + decimal(self.dmca_notices@.len()) + "\n"@ + joined(
            self.dmca_notices@,
            |n: DMCANotice| notice_line(n),
        ) + "\nGPL Violations: "@ + decimal(self.gpl_violations@.len()) + "\n"@ + joined(
            self.gpl_violations@,
            |v: GPLViolation| violation_line(v),
        ) + "\nLicense Headers: "@ + decimal(self.license_headers@.len()) + "\n"@
            + "  Consistency: "@ + consistency + "%\n"@ + "\nTrademark Usage: "@ + decimal(self.trademark_usage@.len()) + "\n"@
            + joined(self.trademark_usage@, |u: TrademarkUsage| usage_line(u))
            + "\nFirmware Analysis:\n"@ + "  Proprietary: "@ + bool_text(
            self.firmware_analysis.is_proprietary,
        ) + "\n"@ + "  NDA Protected: "@ + bool_text(self.firmware_analysis.is_nda_protected)
            + "\n"@ + "  Apple Firmware: "@ + bool_text(self.firmware_analysis.is_apple_firmware)
            + "\n"@ + "\nFindings: "@ + decimal(self.findings@.len()) + "\n"@ + listed(
            self.findings@,
            "  - "@,
            "\n"@,
        ) + "\nRecommendations: "@ + decimal(self.recommendations@.len()) + "\n"@ + listed(
            self.recommendations@,
            "  - "@,
            "\n"@,
        )
    }

    pub fn new() -> (scan: Self)
        ensures
            scan.is_blank(),
    {
        Self {
            scan_date: String::from_str("2025-11-21T23:55:00Z"),
            dmca_notices: Vec::new(),
            gpl_violations: Vec::new(),
            license_headers: Vec::new(),
            trademark_usage: Vec::new(),
            firmware_analysis: FirmwareAnalysis {
                is_proprietary: false,
                is_nda_protected: false,
                is_apple_firmware: false,
                risk_level: LegalRisk::NoRisk,
            },
            overall_risk: LegalRisk::NoRisk,
            is_safe_to_distribute: true,
            findings: Vec::new(),
            recommendations: Vec::new(),
        }
    }

    /// Records a notice. A notice makes the risk critical and the result
    /// unsafe to distribute.
    pub fn add_dmca_notice(&mut self, notice: DMCANotice)
        ensures
            final(self).dmca_notices@ == old(self).dmca_notices@.push(notice),
            *final(self) == (LegalScanResult {
                dmca_notices: final(self).dmca_notices,
                overall_risk: LegalRisk::Critical,
                is_safe_to_distribute: false,
                ..*old(self)
            }),
    {
        self.dmca_notices.push(notice);
        self.overall_risk = LegalRisk::Critical;
        self.is_safe_to_distribute = false;
    }

    /// Records a licence violation. The overall risk rises to its severity
    /// where that is graver; a critical one makes the result unsafe to
    /// distribute.
    pub fn add_gpl_violation(&mut self, violation: GPLViolation)
        ensures
            final(self).gpl_violations@ == old(self).gpl_violations@.push(violation),
            *final(self) == (LegalScanResult {
                gpl_violations: final(self).gpl_violations,
                overall_risk: old(self).overall_risk.graver(violation.severity),
                is_safe_to_distribute: old(self).is_safe_to_distribute && violation.severity
                    != LegalRisk::Critical,
                ..*old(self)
            }),
    {
        let severity = violation.severity;
        if severity.rank() == 4 {
            self.is_safe_to_distribute = false;
        }
        self.gpl_violations.push(violation);
        if self.overall_risk.rank() < severity.rank() {
            self.overall_risk = severity;
        }
    }

    pub fn add_license_header(&mut self, header: LicenseHeader)
        ensures
            final(self).license_headers@ == old(self).license_headers@.push(header),
            *final(self) == (LegalScanResult {
                license_headers: final(self).license_headers,
                ..*old(self)
            }),
    {
        self.license_headers.push(header);
    }

    /// Records a trademark usage. A non-compliant one also leaves a
    /// finding that names the term.
    pub fn add_trademark_usage(&mut self, usage: TrademarkUsage)
        ensures
            final(self).trademark_usage@ == old(self).trademark_usage@.push(usage),
            usage.compliant ==> final(self).findings@ == old(self).findings@,
            !usage.compliant ==> final(self).findings@.len() == old(self).findings@.len() + 1
                && final(self).findings@.drop_last() == old(self).findings@
                && final(self).findings@.last()@ == "Non-compliant trademark usage: "@
                + usage.term@,
            *final(self) == (LegalScanResult {
                trademark_usage: final(self).trademark_usage,
                findings: final(self).findings,
                ..*old(self)
            }),
    {
        if !usage.compliant {
            let finding = String::from_str("Non-compliant trademark usage: ").concat(
                usage.term.as_str(),
            );
            self.findings.push(finding);
            assert(self.findings@.drop_last() =~= old(self).findings@);
        }
        self.trademark_usage.push(usage);
    }

    /// Records the firmware analysis. Firmware that is proprietary or under
    /// a non-disclosure agreement makes the risk critical and the result
    /// unsafe to distribute.
    pub fn set_firmware_analysis(&mut self, analysis: FirmwareAnalysis)
        ensures
            *final(self) == (if analysis.is_nda_protected || analysis.is_proprietary {
                LegalScanResult {
                    firmware_analysis: analysis,
                    is_safe_to_distribute: false,
                    overall_risk: LegalRisk::Critical,
                    ..*old(self)
                }
            } else {
                LegalScanResult { firmware_analysis: analysis, ..*old(self) }
            }),
    {
        if analysis.is_nda_protected || analysis.is_proprietary {
            self.is_safe_to_distribute = false;
            self.overall_risk = LegalRisk::Critical;
        }
        self.firmware_analysis = analysis;
    }

    pub fn add_finding(&mut self, finding: String)
        ensures
            final(self).findings@ == old(self).findings@.push(finding),
            *final(self) == (LegalScanResult { findings: final(self).findings, ..*old(self) }),
    {
        self.findings.push(finding);
    }

    pub fn add_recommendation(&mut self, recommendation: String)
        ensures
            final(self).recommendations@ == old(self).recommendations@.push(recommendation),
            *final(self) == (LegalScanResult {
                recommendations: final(self).recommendations,
                ..*old(self)
            }),
    {
        self.recommendations.push(recommendation);
    }

    pub fn has_critical_issues(&self) -> (critical: bool)
        ensures
            critical == self.critical(),
    {
        if self.dmca_notices.len() > 0 {
            return true;
        }
        let mut i: usize = 0;
        while i < self.gpl_violations.len()
            invariant
                i <= self.gpl_violations@.len(),
                forall|j: int|
                    0 <= j < i ==> (#[trigger] self.gpl_violations@[j]).severity
                        != LegalRisk::Critical,
            decreases self.gpl_violations@.len() - i,
        {
            if self.gpl_violations[i].severity.rank() == 4 {
                return true;
            }
            i += 1;
        }
        self.firmware_analysis.is_nda_protected
    }

    /// How many headers are those of the project's licence.
    pub fn count_consistent_headers(&self) -> (count: usize)
        ensures
            count == self.consistent_headers(),
    {
        let ghost keep = |h: LicenseHeader| is_consistent(h);
        let ghost items = self.license_headers@;
        let mut count: usize = 0;
        let mut i: usize = 0;
        proof {
            crate::collections::lemma_select_ends(items, keep);
        }
        while i < self.license_headers.len()
            invariant
                i <= items.len(),
                items == self.license_headers@,
                keep == |h: LicenseHeader| is_consistent(h),
                count == items.take(i as int).filter(keep).len(),
                count <= i,
            decreases items.len() - i,
        {
            proof {
                crate::collections::lemma_select_step(items, i as int, keep);
            }
            let header = &self.license_headers[i];
            let gpl = match header.license_type {
                LicenseType::GPL3 => true,
                _ => false,
            };
            if header.has_header && gpl {
                count += 1;
            }
            i += 1;
        }
        proof {
            crate::collections::lemma_select_ends(items, keep);
        }
        count
    }

    /// The report on the scan, as text. The share of consistent licence
    /// headers is a fraction, so the caller renders it and hands the text
    /// in.
    pub fn generate_report(&self, consistency: &str) -> (report: String)
        ensures
            report@ == self.report(consistency@),
    {
        let mut report = String::from_str("=== LEGAL SCAN REPORT ===\n\n");
        push_field(&mut report, "Scan Date: ", self.scan_date.as_str(), "\n");
        push_field(&mut report, "Overall Risk Level: ", self.overall_risk.name(), "\n");
        push_bool_field(&mut report, "Safe to Distribute: ", self.is_safe_to_distribute, "\n\n");
        push_count_field(&mut report, "DMCA Notices: ", self.dmca_notices.len(), "\n");
        {
            let ghost line = |n: DMCANotice| notice_line(n);
            let ghost head = report@;
            let ghost items = self.dmca_notices@;
            let mut i: usize = 0;
            proof {
                lemma_joined_ends(items, line);
                assert(report@ =~= head + joined(items.take(0), line));
            }
            while i < self.dmca_notices.len()
                invariant
                    i <= items.len(),
                    items == self.dmca_notices@,
                    line == |n: DMCANotice| notice_line(n),
                    report@ == head + joined(items.take(i as int), line),
                decreases items.len() - i,
            {
                proof {
                    lemma_joined_step(items, i as int, line);
                }
                let ghost before = report@;
                let notice = &self.dmca_notices[i];
                push_field(&mut report, "  - ", notice.repository.as_str(), " (");
                report.append(notice.date.as_str());
                report.append(")\n");
                assert(report@ =~= before + notice_line(items[i as int]));
                assert(report@ =~= head + joined(items.take(i + 1), line));
                i += 1;
            }
        }
        push_count_field(&mut report, "\nGPL Violations: ", self.gpl_violations.len(), "\n");
        {
            let ghost line = |v: GPLViolation| violation_line(v);
            let ghost head = report@;
            let ghost items = self.gpl_violations@;
            let mut i: usize = 0;
            proof {
                lemma_joined_ends(items, line);
                assert(report@ =~= head + joined(items.take(0), line));
            }
            while i < self.gpl_violations.len()
                invariant
                    i <= items.len(),
                    items == self.gpl_violations@,
                    line == |v: GPLViolation| violation_line(v),
                    report@ == head + joined(items.take(i as int), line),
                decreases items.len() - i,
            {
                proof {
                    lemma_joined_step(items, i as int, line);
                }
                let ghost before = report@;
                let violation = &self.gpl_violations[i];
                push_field(&mut report, "  - ", violation.file.as_str(), " (");
                report.append(violation.severity.name());
                report.append(")\n");
                assert(report@ =~= before + violation_line(items[i as int]));
                assert(report@ =~= head + joined(items.take(i + 1), line));
                i += 1;
            }
        }
        push_count_field(&mut report, "\nLicense Headers: ", self.license_headers.len(), "\n");
        push_field(&mut report, "  Consistency: ", consistency, "%\n");
        push_count_field(&mut report, "\nTrademark Usage: ", self.trademark_usage.len(), "\n");
        {
            let ghost line = |u: TrademarkUsage| usage_line(u);
            let ghost head = report@;
            let ghost items = self.trademark_usage@;
            let mut i: usize = 0;
            proof {
                lemma_joined_ends(items, line);
                assert(report@ =~= head + joined(items.take(0), line));
            }
            while i < self.trademark_usage.len()
                invariant
                    i <= items.len(),
                    items == self.trademark_usage@,
                    line == |u: TrademarkUsage| usage_line(u),
                    report@ == head + joined(items.take(i as int), line),
                decreases items.len() - i,
            {
                proof {
                    lemma_joined_step(items, i as int, line);
                }
                let ghost before = report@;
                let usage = &self.trademark_usage[i];
                push_field(&mut report, "  ", compliance_str(usage.compliant), " ");
                report.append(usage.term.as_str());
                report.append("\n");
                assert(report@ =~= before + usage_line(items[i as int]));
                assert(report@ =~= head + joined(items.take(i + 1), line));
                i += 1;
            }
        }
        report.append("\nFirmware Analysis:\n");
        push_bool_field(
            &mut report,
            "  Proprietary: ",
            self.firmware_analysis.is_proprietary,
            "\n",
        );
        push_bool_field(
            &mut report,
            "  NDA Protected: ",
            self.firmware_analysis.is_nda_protected,
            "\n",
        );
        push_bool_field(
            &mut report,
            "  Apple Firmware: ",
            self.firmware_analysis.is_apple_firmware,
            "\n",
        );
        push_count_field(&mut report, "\nFindings: ", self.findings.len(), "\n");
        push_listed(&mut report, self.findings.as_slice(), "  - ", "\n");
        push_count_field(&mut report, "\nRecommendations: ", self.recommendations.len(), "\n");
        push_listed(&mut report, self.recommendations.as_slice(), "  - ", "\n");
        report
    }
}

impl Default for LegalScanResult {
    fn default() -> (scan: Self)
        ensures
            scan.is_blank(),
    {
        Self::new()
    }
}

} // verus!
