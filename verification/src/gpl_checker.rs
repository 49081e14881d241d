//! Checks files and dependencies against the licence of the project:
//! headers, years and authors in them, and licences that do not go with it.

use crate::collections::{value_under, with_entry, TextMap};
use crate::legal_scan::{
    GPLViolation,
    GPLViolationView,
    LegalRisk,
    LicenseHeader,
    LicenseHeaderView,
    LicenseType,
};
use crate::text::{
    chars_contain,
    chars_of,
    contains,
    decimal,
    has_prefix,
    is_substring,
    joined,
    lemma_joined_ends,
    lemma_joined_step,
    lines,
    lines_of,
    matches_at,
    push_count,
    push_count_field,
    push_field,
    split_chars,
    split_on,
    texts,
    trim,
    trimmed,
    words_of,
    words_of_chars,
};
use vstd::prelude::*;

verus! {

/// The header that files of the project must carry.
pub open spec fn required_header_text() -> Seq<char> {
    "GPL-3.0-or-later WITH Classpath-exception-2.0"@
}

/// Which licences go with the project's licence, filed in this order.
pub open spec fn base_compatibility() -> Seq<(Seq<char>, bool)> {
    with_entry(
        with_entry(
            with_entry(
                with_entry(
                    with_entry(with_entry(Seq::empty(), "GPL-3.0"@, true), "GPL-2.0"@, false),
                    "MIT"@,
                    true,
                ),
                "Apache-2.0"@,
                true,
            ),
            "BSD"@,
            true,
        ),
        "Proprietary"@,
        false,
    )
}

/// How many lines from the top are searched for a year and an author.
pub const HEADER_LINES: usize = 20;

/// The first of the texts that begins with `prefix`.
pub open spec fn first_with_prefix(words: Seq<Seq<char>>, prefix: Seq<char>) -> Option<Seq<char>>
    decreases words.len(),
{
    if words.len() == 0 {
        None
    } else if has_prefix(words[0], prefix) {
        Some(words[0])
    } else {
        first_with_prefix(words.skip(1), prefix)
    }
}

/// The year that a line names: its first word that begins with `202`.
pub open spec fn year_of_line(line: Seq<char>) -> Option<Seq<char>> {
    if is_substring("202"@, line) {
        first_with_prefix(words_of(line), "202"@)
    } else {
        None
    }
}

/// The author that a line names: where the line speaks of an author and
/// has a colon, what stands between the first colon and the second,
/// without the white space around it.
pub open spec fn author_of_line(line: Seq<char>) -> Option<Seq<char>> {
    if (is_substring("Author"@, line) || is_substring("author"@, line)) && split_on(line, ':').len()
        > 1 {
        Some(trimmed(split_on(line, ':')[1]))
    } else {
        None
    }
}

/// What the first of the first `limit` lines yields that yields anything.
pub open spec fn first_found(
    lines: Seq<Seq<char>>,
    limit: int,
    find: spec_fn(Seq<char>) -> Option<Seq<char>>,
) -> Option<Seq<char>>
    decreases lines.len(),
{
    if lines.len() == 0 || limit <= 0 {
        None
    } else {
        match find(lines[0]) {
            Some(found) => Some(found),
            None => first_found(lines.skip(1), limit - 1, find),
        }
    }
}

/// The year in the header of a file.
pub open spec fn year_in(content: Seq<char>) -> Option<Seq<char>> {
    first_found(lines_of(content), HEADER_LINES as int, |line: Seq<char>| year_of_line(line))
}

/// The author in the header of a file.
pub open spec fn author_in(content: Seq<char>) -> Option<Seq<char>> {
    first_found(lines_of(content), HEADER_LINES as int, |line: Seq<char>| author_of_line(line))
}

/// What the check of a file's header finds.
pub open spec fn header_of(file_path: Seq<char>, content: Seq<char>) -> LicenseHeaderView {
    let has_header = is_substring("GPL-3.0"@, content) || is_substring("GPL-3"@, content);
    LicenseHeaderView {
        file_path,
        has_header,
        license_type: if has_header {
            LicenseType::GPL3
        } else {
            LicenseType::Unknown
        },
        year: year_in(content),
        author: author_in(content),
    }
}

/// The violation of a file without a header.
pub open spec fn missing_header(file: Seq<char>) -> GPLViolationView {
    GPLViolationView {
        file,
        violation_type: "Missing GPL header"@,
        description: "File does not contain GPL-3.0 license header"@,
        severity: LegalRisk::Medium,
    }
}

/// The violation of a file under another licence.
pub open spec fn wrong_license(file: Seq<char>, license: LicenseType) -> GPLViolationView {
    GPLViolationView {
        file,
        violation_type: "Incompatible license"@,
        description: "File has "@ + license.name_text() + " license, expected GPL-3.0"@,
        severity: LegalRisk::High,
    }
}

/// The violation of a dependency under a licence that does not go with the
/// project's.
pub open spec fn wrong_dependency(name: Seq<char>, license: Seq<char>) -> GPLViolationView {
    GPLViolationView {
        file: "Cargo.toml ("@ + name + ")"@,
        violation_type: "Incompatible dependency license"@,
        description: "Dependency "@ + name + " has incompatible license: "@ + license,
        severity: LegalRisk::High,
    }
}

/// The violations of one file: a missing header, and a licence that is
/// neither the project's nor unknown.
pub open spec fn file_violations(file: LicenseHeaderView) -> Seq<GPLViolationView> {
    let first = if !file.has_header {
        seq![missing_header(file.file_path)]
    } else {
        Seq::empty()
    };
    if file.license_type != LicenseType::GPL3 && file.license_type != LicenseType::Unknown {
        first.push(wrong_license(file.file_path, file.license_type))
    } else {
        first
    }
}

/// The violations of the first `count` files, in their order.
pub open spec fn violations_of(files: Seq<LicenseHeader>, count: int) -> Seq<GPLViolationView>
    decreases count,
{
    if count <= 0 || count > files.len() {
        Seq::empty()
    } else {
        violations_of(files, count - 1) + file_violations(files[count - 1]@)
    }
}

/// Whether a licence goes with the project's: it is filed as compatible.
pub open spec fn compatible(table: Seq<(Seq<char>, bool)>, license: Seq<char>) -> bool {
    value_under(table, license) == Some(true)
}

/// The violations of the first `count` dependencies, in their order.
pub open spec fn dependency_violations(
    table: Seq<(Seq<char>, bool)>,
    dependencies: Seq<(String, String)>,
    count: int,
) -> Seq<GPLViolationView>
    decreases count,
{
    if count <= 0 || count > dependencies.len() {
        Seq::empty()
    } else if compatible(table, dependencies[count - 1].1@) {
        dependency_violations(table, dependencies, count - 1)
    } else {
        dependency_violations(table, dependencies, count - 1).push(
            wrong_dependency(dependencies[count - 1].0@, dependencies[count - 1].1@),
        )
    }
}

/// The contents of violations, in order.
pub open spec fn violation_views(violations: Seq<GPLViolation>) -> Seq<GPLViolationView> {
    violations.map_values(|v: GPLViolation| v@)
}

/// The lines of one violation in the report.
pub open spec fn violation_rows(violation: GPLViolationView) -> Seq<char> {
    "  "@ + violation.file + " ("@ + violation.violation_type + ")\n"@ + "    "@
        + violation.description + "\n"@
}

/// How many of the files have a header.
pub open spec fn with_header(files: Seq<LicenseHeader>) -> nat {
    files.filter(|f: LicenseHeader| f.has_header).len()
}

/// The report on the files. The share of files with a header is shown as
/// the text that the caller made of it.
pub open spec fn gpl_report(files: Seq<LicenseHeader>, header_share: Seq<char>) -> Seq<char> {
    "=== GPL COMPLIANCE REPORT ===\n\n"@ + "Files with GPL headers: "@ + decimal(
        with_header(files),
    ) + "/"@ + decimal(files.len()) + " ("@ + header_share + "%)\n"@
        + "Violations found: "@ + decimal(violations_of(files, files.len() as int).len())
        + "\n\n"@ + joined(
        violations_of(files, files.len() as int),
        |v: GPLViolationView| violation_rows(v),
    )
}

/// The licence rules of the project.
pub struct GPLChecker {
    required_header: String,
    known_violations: Vec<GPLViolation>,
    license_compatibility: TextMap<bool>,
}

/// The mathematical content of a checker.
pub ghost struct GPLCheckerView {
    pub required_header: Seq<char>,
    pub compatibility: Seq<(Seq<char>, bool)>,
}

impl View for GPLChecker {
    type V = GPLCheckerView;

    closed spec fn view(&self) -> GPLCheckerView {
        GPLCheckerView {
            required_header: self.required_header@,
            compatibility: self.license_compatibility@,
        }
    }
}

impl GPLChecker {
    pub fn new() -> (checker: Self)
        ensures
            checker@ == (GPLCheckerView {
                required_header: required_header_text(),
                compatibility: base_compatibility(),
            }),
    {
        let mut checker = Self {
            required_header: String::from_str("GPL-3.0-or-later WITH Classpath-exception-2.0"),
            known_violations: Vec::new(),
            license_compatibility: TextMap::new(),
        };
        checker.initialize_compatibility();
        checker
    }

    /// Files which licences go with the project's.
    fn initialize_compatibility(&mut self)
        requires
            old(self)@.compatibility.len() == 0,
        ensures
            final(self)@ == (GPLCheckerView {
                compatibility: base_compatibility(),
                ..old(self)@
            }),
    {
        assert(self@.compatibility =~= Seq::<(Seq<char>, bool)>::empty());
        self.license_compatibility.insert(String::from_str("GPL-3.0"), true);
        self.license_compatibility.insert(String::from_str("GPL-2.0"), false);
        self.license_compatibility.insert(String::from_str("MIT"), true);
        self.license_compatibility.insert(String::from_str("Apache-2.0"), true);
        self.license_compatibility.insert(String::from_str("BSD"), true);
        self.license_compatibility.insert(String::from_str("Proprietary"), false);
    }

    /// The header that files of the project must carry.
    pub fn required_header(&self) -> (header: &str)
        ensures
            header@ == self@.required_header,
    {
        self.required_header.as_str()
    }

    /// Looks at the content of a file: whether it names the project's
    /// licence, and which year and author its first lines name.
    pub fn check_license_header(&self, file_path: &str, content: &str) -> (header: LicenseHeader)
        ensures
            header@ == header_of(file_path@, content@),
    {
        let has_header = contains(content, "GPL-3.0") || contains(content, "GPL-3");
        let license_type = if has_header {
            LicenseType::GPL3
        } else {
            LicenseType::Unknown
        };
        let year = self.extract_year(content);
        let author = self.extract_author(content);
        LicenseHeader { file_path: String::from_str(file_path), has_header, license_type, year, author }
    }

    /// The year that the first lines of a file name.
    pub fn extract_year(&self, content: &str) -> (year: Option<String>)
        ensures
            match year {
                Some(text) => year_in(content@) == Some(text@),
                None => year_in(content@).is_none(),
            },
    {
        let all = lines(content);
        let ghost find = |line: Seq<char>| year_of_line(line);
        let ghost rows = texts(all@);
        let prefix = chars_of("202");
        let mut i: usize = 0;
        assert(rows.skip(0) =~= rows);
        while i < all.len() && i < HEADER_LINES
            invariant
                i <= all@.len(),
                i <= HEADER_LINES,
                rows == texts(all@),
                rows == lines_of(content@),
                prefix@ == "202"@,
                find == |line: Seq<char>| year_of_line(line),
                year_in(content@) == first_found(rows.skip(i as int), HEADER_LINES - i, find),
            decreases all@.len() - i,
        {
            let line = chars_of(all[i].as_str());
            proof {
                assert(rows.skip(i as int)[0] == line@);
                assert(rows.skip(i as int).skip(1) =~= rows.skip(i + 1));
            }
            if chars_contain(line.as_slice(), prefix.as_slice()) {
                let words = words_of_chars(line.as_slice());
                let ghost found = texts(words@);
                let mut k: usize = 0;
                assert(found.skip(0) =~= found);
                while k < words.len()
                    invariant
                        k <= words@.len(),
                        i < all@.len(),
                        i < HEADER_LINES,
                        found == texts(words@),
                        found == words_of(line@),
                        is_substring("202"@, line@),
                        rows.len() == all@.len(),
                        rows.skip(i as int)[0] == line@,
                        prefix@ == "202"@,
                        find == |line: Seq<char>| year_of_line(line),
                        year_in(content@) == first_found(
                            rows.skip(i as int),
                            HEADER_LINES - i,
                            find,
                        ),
                        first_with_prefix(found, "202"@) == first_with_prefix(
                            found.skip(k as int),
                            "202"@,
                        ),
                    decreases words@.len() - k,
                {
                    let word = chars_of(words[k].as_str());
                    proof {
                        assert(found.skip(k as int)[0] == word@);
                        assert(found.skip(k as int).skip(1) =~= found.skip(k + 1));
                    }
                    if matches_at(word.as_slice(), prefix.as_slice(), 0) {
                        proof {
                            let rest = rows.skip(i as int);
                            assert(first_with_prefix(found.skip(k as int), "202"@) == Some(word@));
                            assert(year_of_line(line@) == Some(word@));
                            assert(find(rest[0]) == Some(word@));
                            assert(first_found(rest, HEADER_LINES - i, find) == Some(word@));
                        }
                        return Some(words[k].clone());
                    }
                    k += 1;
                }
            }
            i += 1;
        }
        None
    }

    /// The author that the first lines of a file name.
    pub fn extract_author(&self, content: &str) -> (author: Option<String>)
        ensures
            match author {
                Some(text) => author_in(content@) == Some(text@),
                None => author_in(content@).is_none(),
            },
    {
        let all = lines(content);
        let ghost find = |line: Seq<char>| author_of_line(line);
        let ghost rows = texts(all@);
        let upper = chars_of("Author");
        let lower = chars_of("author");
        let mut i: usize = 0;
        assert(rows.skip(0) =~= rows);
        while i < all.len() && i < HEADER_LINES
            invariant
                i <= all@.len(),
                i <= HEADER_LINES,
                rows == texts(all@),
                rows == lines_of(content@),
                upper@ == "Author"@,
                lower@ == "author"@,
                find == |line: Seq<char>| author_of_line(line),
                author_in(content@) == first_found(rows.skip(i as int), HEADER_LINES - i, find),
            decreases all@.len() - i,
        {
            let line = chars_of(all[i].as_str());
            proof {
                assert(rows.skip(i as int)[0] == line@);
                assert(rows.skip(i as int).skip(1) =~= rows.skip(i + 1));
            }
            if chars_contain(line.as_slice(), upper.as_slice()) || chars_contain(
                line.as_slice(),
                lower.as_slice(),
            ) {
                let parts = split_chars(line.as_slice(), ':');
                if parts.len() > 1 {
                    proof {
                        let rest = rows.skip(i as int);
                        assert(texts(parts@)[1] == parts@[1]@);
                        assert(author_of_line(line@) == Some(trimmed(parts@[1]@)));
                        assert(find(rest[0]) == Some(trimmed(parts@[1]@)));
                    }
                    return Some(trim(parts[1].as_str()));
                }
            }
            i += 1;
        }
        None
    }

    /// Whether a licence goes with the project's. A licence that is not on
    /// file does not.
    pub fn check_license_compatibility(&self, license: &str) -> (compatible: bool)
        ensures
            compatible == self::compatible(self@.compatibility, license@),
    {
        match self.license_compatibility.get(license) {
            Some(verdict) => *verdict,
            None => false,
        }
    }

    /// How many of the files have a header, and how many files there are.
    pub fn verify_all_files_have_headers(&self, files: Vec<LicenseHeader>) -> (counts: (usize, usize))
        ensures
            counts.0 == with_header(files@),
            counts.1 == files@.len(),
    {
        (count_with_header(files.as_slice()), files.len())
    }

    /// The violations of the files, in the order of the files.
    pub fn check_for_violations(&self, files: Vec<LicenseHeader>) -> (violations: Vec<GPLViolation>)
        ensures
            violation_views(violations@) == violations_of(files@, files@.len() as int),
    {
        let mut violations: Vec<GPLViolation> = Vec::new();
        let mut i: usize = 0;
        assert(violation_views(violations@) =~= violations_of(files@, 0));
        while i < files.len()
            invariant
                i <= files@.len(),
                violation_views(violations@) == violations_of(files@, i as int),
            decreases files@.len() - i,
        {
            let file = &files[i];
            let ghost before = violation_views(violations@);
            if !file.has_header {
                violations.push(
                    GPLViolation {
                        file: file.file_path.clone(),
                        violation_type: String::from_str("Missing GPL header"),
                        description: String::from_str(
                            "File does not contain GPL-3.0 license header",
                        ),
                        severity: LegalRisk::Medium,
                    },
                );
            }
            let ghost middle = violation_views(violations@);
            let other = match file.license_type {
                LicenseType::GPL3 => false,
                LicenseType::Unknown => false,
                _ => true,
            };
            if other {
                let mut description = String::from_str("File has ");
                description.append(file.license_type.name());
                description.append(" license, expected GPL-3.0");
                violations.push(
                    GPLViolation {
                        file: file.file_path.clone(),
                        violation_type: String::from_str("Incompatible license"),
                        description,
                        severity: LegalRisk::High,
                    },
                );
            }
            assert(violation_views(violations@) =~= before + file_violations(file@));
            i += 1;
        }
        violations
    }

    /// The violations of the dependencies, given as names with licences, in
    /// their order.
    pub fn check_dependency_licenses(&self, dependencies: Vec<(String, String)>) -> (violations:
        Vec<GPLViolation>)
        ensures
            violation_views(violations@) == dependency_violations(
                self@.compatibility,
                dependencies@,
                dependencies@.len() as int,
            ),
    {
        let mut violations: Vec<GPLViolation> = Vec::new();
        let mut i: usize = 0;
        assert(violation_views(violations@) =~= dependency_violations(
            self@.compatibility,
            dependencies@,
            0,
        ));
        while i < dependencies.len()
            invariant
                i <= dependencies@.len(),
                violation_views(violations@) == dependency_violations(
                    self@.compatibility,
                    dependencies@,
                    i as int,
                ),
            decreases dependencies@.len() - i,
        {
            let dependency = &dependencies[i];
            if !self.check_license_compatibility(dependency.1.as_str()) {
                let ghost before = violation_views(violations@);
                let mut file = String::from_str("Cargo.toml (");
                file.append(dependency.0.as_str());
                file.append(")");
                let mut description = String::from_str("Dependency ");
                description.append(dependency.0.as_str());
                description.append(" has incompatible license: ");
                description.append(dependency.1.as_str());
                violations.push(
                    GPLViolation {
                        file,
                        violation_type: String::from_str("Incompatible dependency license"),
                        description,
                        severity: LegalRisk::High,
                    },
                );
                assert(violation_views(violations@) =~= before.push(
                    wrong_dependency(dependency.0@, dependency.1@),
                ));
            }
            i += 1;
        }
        violations
    }

    /// The report on the files, as text. The share of files with a header
    /// is a fraction, so the caller renders it and hands the text in.
    pub fn generate_gpl_report(&self, files: Vec<LicenseHeader>, header_share: &str) -> (report:
        String)
        ensures
            report@ == gpl_report(files@, header_share@),
    {
        let mut report = String::from_str("=== GPL COMPLIANCE REPORT ===\n\n");
        let with_headers = count_with_header(files.as_slice());
        let total = files.len();
        push_count_field(&mut report, "Files with GPL headers: ", with_headers, "/");
        push_count(&mut report, total);
        push_field(&mut report, " (", header_share, "%)\n");
        let violations = self.check_for_violations(files);
        push_count_field(&mut report, "Violations found: ", violations.len(), "\n\n");
        let ghost line = |v: GPLViolationView| violation_rows(v);
        let ghost head = report@;
        let ghost items = violation_views(violations@);
        let mut i: usize = 0;
        proof {
            lemma_joined_ends(items, line);
            assert(report@ =~= head + joined(items.take(0), line));
        }
        while i < violations.len()
            invariant
                i <= items.len(),
                items == violation_views(violations@),
                line == |v: GPLViolationView| violation_rows(v),
                report@ == head + joined(items.take(i as int), line),
            decreases items.len() - i,
        {
            proof {
                lemma_joined_step(items, i as int, line);
            }
            let ghost before = report@;
            let violation = &violations[i];
            push_field(&mut report, "  ", violation.file.as_str(), " (");
            report.append(violation.violation_type.as_str());
            report.append(")\n");
            push_field(&mut report, "    ", violation.description.as_str(), "\n");
            assert(report@ =~= before + violation_rows(items[i as int]));
            assert(report@ =~= head + joined(items.take(i + 1), line));
            i += 1;
        }
        proof {
            lemma_joined_ends(items, line);
        }
        report
    }
}

/// How many of the files have a header.
pub fn count_with_header(files: &[LicenseHeader]) -> (count: usize)
    ensures
        count == with_header(files@),
{
    let ghost keep = |f: LicenseHeader| f.has_header;
    let mut count: usize = 0;
    let mut i: usize = 0;
    proof {
        crate::collections::lemma_select_ends(files@, keep);
    }
    while i < files.len()
        invariant
            i <= files@.len(),
            keep == |f: LicenseHeader| f.has_header,
            count == files@.take(i as int).filter(keep).len(),
            count <= i,
        decreases files@.len() - i,
    {
        proof {
            crate::collections::lemma_select_step(files@, i as int, keep);
        }
        if files[i].has_header {
            count += 1;
        }
        i += 1;
    }
    proof {
        crate::collections::lemma_select_ends(files@, keep);
    }
    count
}

impl Default for GPLChecker {
    fn default() -> (checker: Self)
        ensures
            checker@ == (GPLCheckerView {
                required_header: required_header_text(),
                compatibility: base_compatibility(),
            }),
    {
        Self::new()
    }
}

} // verus!
