//! Looks through firmware text for signs that it must not be distributed:
//! the vendor's marks, non-disclosure terms, proprietary terms.

use crate::legal_scan::{FirmwareAnalysis, LegalRisk};
use crate::text::{
    any_occurs,
    bool_text,
    contains_any,
    ends_with,
    has_suffix,
    push_bool_field,
    push_field,
    texts,
};
use vstd::prelude::*;

verus! {

/// The marks of the vendor's firmware.
pub open spec fn apple_signatures() -> Seq<Seq<char>> {
    seq!["Apple"@, "Copyright Apple"@, "Apple Inc."@, "Proprietary"@, "Confidential"@]
}

/// The terms of non-disclosure.
pub open spec fn nda_terms() -> Seq<Seq<char>> {
    seq!["NDA"@, "Non-Disclosure"@, "Confidential"@, "Trade Secret"@, "Restricted"@]
}

/// The terms of proprietary software.
pub open spec fn proprietary_terms() -> Seq<Seq<char>> {
    seq!["Proprietary"@, "Closed Source"@, "License Required"@, "Commercial"@]
}

/// The risk that the three findings amount to.
pub open spec fn risk_of(is_proprietary: bool, is_nda_protected: bool, is_apple_firmware: bool) -> LegalRisk {
    if is_nda_protected || is_proprietary {
        LegalRisk::Critical
    } else if is_apple_firmware {
        LegalRisk::High
    } else {
        LegalRisk::NoRisk
    }
}

/// The assessment of an analysis in words.
pub open spec fn assessment(analysis: FirmwareAnalysis) -> Seq<char> {
    if analysis.is_nda_protected {
        "CRITICAL: NDA-protected firmware detected"@
    } else if analysis.is_proprietary {
        "CRITICAL: Proprietary firmware detected"@
    } else if analysis.is_apple_firmware {
        "HIGH: Apple firmware detected"@
    } else {
        "SAFE: No proprietary firmware detected"@
    }
}

/// Whether firmware with this analysis may be distributed.
pub open spec fn distributable(analysis: FirmwareAnalysis) -> bool {
    !analysis.is_nda_protected && !analysis.is_proprietary && !analysis.is_apple_firmware
}

/// The report on an analysis.
pub open spec fn security_report(analysis: FirmwareAnalysis) -> Seq<char> {
    "=== FIRMWARE SECURITY ANALYSIS ===\n\n"@ + "Apple Firmware: "@ + bool_text(
        analysis.is_apple_firmware,
    ) + "\n"@ + "NDA Protected: "@ + bool_text(analysis.is_nda_protected) + "\n"@
        + "Proprietary: "@ + bool_text(analysis.is_proprietary) + "\n"@ + "Risk Level: "@
        + analysis.risk_level.name_text() + "\n"@ + "Safe to Distribute: "@ + bool_text(
        distributable(analysis),
    ) + "\n\n"@ + "Assessment: "@ + assessment(analysis) + "\n"@
}

/// The terms that the analyzer looks for.
pub struct FirmwareSecurityAnalyzer {
    apple_firmware_signatures: Vec<String>,
    nda_keywords: Vec<String>,
    proprietary_indicators: Vec<String>,
}

/// The mathematical content of an analyzer: its three lists of terms.
pub ghost struct FirmwareSecurityView {
    pub signatures: Seq<Seq<char>>,
    pub nda_keywords: Seq<Seq<char>>,
    pub indicators: Seq<Seq<char>>,
}

impl FirmwareSecurityView {
    /// What the analysis of `data` finds.
    pub open spec fn analysis(self, data: Seq<char>) -> FirmwareAnalysis {
        let is_apple_firmware = any_occurs(self.signatures, data);
        let is_nda_protected = any_occurs(self.nda_keywords, data);
        let is_proprietary = any_occurs(self.indicators, data);
        FirmwareAnalysis {
            is_proprietary,
            is_nda_protected,
            is_apple_firmware,
            risk_level: risk_of(is_proprietary, is_nda_protected, is_apple_firmware),
        }
    }

    /// What the analysis of a file finds: that of its content, and a file
    /// whose name ends in `.bin` or `.hex` counts as proprietary.
    pub open spec fn file_analysis(self, path: Seq<char>, content: Seq<char>) -> FirmwareAnalysis {
        let found = self.analysis(content);
        if has_suffix(path, ".bin"@) || has_suffix(path, ".hex"@) {
            FirmwareAnalysis { is_proprietary: true, ..found }
        } else {
            found
        }
    }
}

impl View for FirmwareSecurityAnalyzer {
    type V = FirmwareSecurityView;

    closed spec fn view(&self) -> FirmwareSecurityView {
        FirmwareSecurityView {
            signatures: texts(self.apple_firmware_signatures@),
            nda_keywords: texts(self.nda_keywords@),
            indicators: texts(self.proprietary_indicators@),
        }
    }
}

/// A list of up to five terms.
fn term_list(terms: [&'static str; 5], count: usize) -> (list: Vec<String>)
    requires
        count <= 5,
    ensures
        list@.len() == count,
        forall|i: int| 0 <= i < count ==> (#[trigger] list@[i])@ == terms@[i]@,
{
    let mut list: Vec<String> = Vec::new();
    let mut i: usize = 0;
    while i < count
        invariant
            i <= count <= 5,
            list@.len() == i,
            forall|j: int| 0 <= j < i ==> (#[trigger] list@[j])@ == terms@[j]@,
        decreases count - i,
    {
        list.push(String::from_str(terms[i]));
        i += 1;
    }
    list
}

impl FirmwareSecurityAnalyzer {
    pub fn new() -> (analyzer: Self)
        ensures
            analyzer@ == (FirmwareSecurityView {
                signatures: apple_signatures(),
                nda_keywords: nda_terms(),
                indicators: proprietary_terms(),
            }),
    {
        let analyzer = Self {
            apple_firmware_signatures: term_list(
                ["Apple", "Copyright Apple", "Apple Inc.", "Proprietary", "Confidential"],
                5,
            ),
            nda_keywords: term_list(
                ["NDA", "Non-Disclosure", "Confidential", "Trade Secret", "Restricted"],
                5,
            ),
            proprietary_indicators: term_list(
                ["Proprietary", "Closed Source", "License Required", "Commercial", ""],
                4,
            ),
        };
        assert(analyzer@.signatures =~= apple_signatures());
        assert(analyzer@.nda_keywords =~= nda_terms());
        assert(analyzer@.indicators =~= proprietary_terms());
        analyzer
    }

    /// The marks of the vendor's firmware that the analyzer looks for.
    pub fn apple_firmware_signatures(&self) -> (terms: &[String])
        ensures
            texts(terms@) == self@.signatures,
    {
        self.apple_firmware_signatures.as_slice()
    }

    pub fn analyze_firmware(&self, firmware_data: &str) -> (analysis: FirmwareAnalysis)
        ensures
            analysis == self@.analysis(firmware_data@),
    {
        let is_apple_firmware = self.detect_apple_firmware(firmware_data);
        let is_nda_protected = self.detect_nda_protection(firmware_data);
        let is_proprietary = self.detect_proprietary(firmware_data);
        let risk_level = if is_nda_protected || is_proprietary {
            LegalRisk::Critical
        } else if is_apple_firmware {
            LegalRisk::High
        } else {
            LegalRisk::NoRisk
        };
        FirmwareAnalysis { is_proprietary, is_nda_protected, is_apple_firmware, risk_level }
    }

    pub fn detect_apple_firmware(&self, data: &str) -> (found: bool)
        ensures
            found == any_occurs(self@.signatures, data@),
    {
        contains_any(data, self.apple_firmware_signatures.as_slice())
    }

    pub fn detect_nda_protection(&self, data: &str) -> (found: bool)
        ensures
            found == any_occurs(self@.nda_keywords, data@),
    {
        contains_any(data, self.nda_keywords.as_slice())
    }

    pub fn detect_proprietary(&self, data: &str) -> (found: bool)
        ensures
            found == any_occurs(self@.indicators, data@),
    {
        contains_any(data, self.proprietary_indicators.as_slice())
    }

    pub fn check_firmware_file(&self, file_path: &str, content: &str) -> (analysis: FirmwareAnalysis)
        ensures
            analysis == self@.file_analysis(file_path@, content@),
    {
        let mut analysis = self.analyze_firmware(content);
        if ends_with(file_path, ".bin") || ends_with(file_path, ".hex") {
            analysis.is_proprietary = true;
        }
        analysis
    }

    /// The analysis of every file of a bundle of paths and contents, in
    /// their order.
    pub fn scan_firmware_bundle(&self, files: Vec<(String, String)>) -> (analyses: Vec<
        FirmwareAnalysis,
    >)
        ensures
            analyses@.len() == files@.len(),
            forall|i: int|
                0 <= i < files@.len() ==> #[trigger] analyses@[i] == self@.file_analysis(
                    files@[i].0@,
                    files@[i].1@,
                ),
    {
        let mut analyses: Vec<FirmwareAnalysis> = Vec::new();
        let mut i: usize = 0;
        while i < files.len()
            invariant
                i <= files@.len(),
                analyses@.len() == i,
                forall|j: int|
                    0 <= j < i ==> #[trigger] analyses@[j] == self@.file_analysis(
                        files@[j].0@,
                        files@[j].1@,
                    ),
            decreases files@.len() - i,
        {
            let file = &files[i];
            analyses.push(self.check_firmware_file(file.0.as_str(), file.1.as_str()));
            i += 1;
        }
        analyses
    }

    pub fn is_safe_to_distribute(&self, analysis: &FirmwareAnalysis) -> (safe: bool)
        ensures
            safe == distributable(*analysis),
    {
        !analysis.is_nda_protected && !analysis.is_proprietary && !analysis.is_apple_firmware
    }

    pub fn get_risk_assessment(&self, analysis: &FirmwareAnalysis) -> (text: String)
        ensures
            text@ == assessment(*analysis),
    {
        if analysis.is_nda_protected {
            String::from_str("CRITICAL: NDA-protected firmware detected")
        } else if analysis.is_proprietary {
            String::from_str("CRITICAL: Proprietary firmware detected")
        } else if analysis.is_apple_firmware {
            String::from_str("HIGH: Apple firmware detected")
        } else {
            String::from_str("SAFE: No proprietary firmware detected")
        }
    }

    pub fn generate_firmware_report(&self, analysis: &FirmwareAnalysis) -> (report: String)
        ensures
            report@ == security_report(*analysis),
    {
        let mut report = String::from_str("=== FIRMWARE SECURITY ANALYSIS ===\n\n");
        push_bool_field(&mut report, "Apple Firmware: ", analysis.is_apple_firmware, "\n");
        push_bool_field(&mut report, "NDA Protected: ", analysis.is_nda_protected, "\n");
        push_bool_field(&mut report, "Proprietary: ", analysis.is_proprietary, "\n");
        push_field(&mut report, "Risk Level: ", analysis.risk_level.name(), "\n");
        push_bool_field(
            &mut report,
            "Safe to Distribute: ",
            self.is_safe_to_distribute(analysis),
            "\n\n",
        );
        let text = self.get_risk_assessment(analysis);
        push_field(&mut report, "Assessment: ", text.as_str(), "\n");
        report
    }
}

impl Default for FirmwareSecurityAnalyzer {
    fn default() -> (analyzer: Self)
        ensures
            analyzer@ == (FirmwareSecurityView {
                signatures: apple_signatures(),
                nda_keywords: nda_terms(),
                indicators: proprietary_terms(),
            }),
    {
        Self::new()
    }
}

} // verus!
