//! Releases: their versions, their artifacts and whether they are
//! published.

use crate::codebase_diff::optional_text;
use crate::collections::{
    lemma_position_of,
    lemma_select_ends,
    lemma_select_step,
    lemma_with_entry_twice,
    lemma_with_entry_value,
    targets,
    value_under,
    with_entry,
    TextMap,
};
use crate::text::{
    bool_text,
    decimal,
    joined,
    lemma_joined_ends,
    lemma_joined_step,
    parse_u32,
    parsed_u32,
    push_bool_field,
    push_count_field,
    push_decimal,
    push_field,
    split,
    split_on,
    text_or_empty,
    with_texts,
    texts,
};
use vstd::prelude::*;

verus! {

/// A version number with what follows it.
#[derive(Debug, Clone)]
pub struct ReleaseVersion {
    pub version: String,
    pub major: u32,
    pub minor: u32,
    pub patch: u32,
    pub prerelease: Option<String>,
    pub build_metadata: Option<String>,
}

/// The mathematical content of a version.
pub ghost struct ReleaseVersionView {
    pub version: Seq<char>,
    pub major: u32,
    pub minor: u32,
    pub patch: u32,
    pub prerelease: Option<Seq<char>>,
    pub build_metadata: Option<Seq<char>>,
}

impl View for ReleaseVersion {
    type V = ReleaseVersionView;

    open spec fn view(&self) -> ReleaseVersionView {
        ReleaseVersionView {
            version: self.version@,
            major: self.major,
            minor: self.minor,
            patch: self.patch,
            prerelease: optional_text(self.prerelease),
            build_metadata: optional_text(self.build_metadata),
        }
    }
}

/// The piece at `index`, if there is one.
pub open spec fn piece(pieces: Seq<Seq<char>>, index: int) -> Option<Seq<char>> {
    if 0 <= index < pieces.len() {
        Some(pieces[index])
    } else {
        None
    }
}

/// The number that the piece at `index` spells, or zero where there is no
/// such piece or it spells no number.
pub open spec fn number_at(pieces: Seq<Seq<char>>, index: int) -> u32 {
    match piece(pieces, index) {
        Some(text) => match parsed_u32(text) {
            Some(number) => number,
            None => 0,
        },
        None => 0,
    }
}

/// What a version text says: up to the first hyphen the numbers, between
/// dots; after it the pre-release tag; after the second hyphen the build
/// metadata.
pub open spec fn version_of(text: Seq<char>) -> ReleaseVersionView {
    let parts = split_on(text, '-');
    let numbers = match piece(parts, 0) {
        Some(base) => split_on(base, '.'),
        None => Seq::empty(),
    };
    ReleaseVersionView {
        version: text,
        major: number_at(numbers, 0),
        minor: number_at(numbers, 1),
        patch: number_at(numbers, 2),
        prerelease: piece(parts, 1),
        build_metadata: piece(parts, 2),
    }
}

/// The number that the piece at `index` spells, or zero.
fn parse_piece(pieces: &[String], index: usize) -> (number: u32)
    ensures
        number == number_at(texts(pieces@), index as int),
{
    if index < pieces.len() {
        match parse_u32(pieces[index].as_str()) {
            Some(number) => number,
            None => 0,
        }
    } else {
        0
    }
}

/// The piece at `index`, if there is one.
fn copy_piece(pieces: &[String], index: usize) -> (text: Option<String>)
    ensures
        optional_text(text) == piece(texts(pieces@), index as int),
{
    if index < pieces.len() {
        Some(pieces[index].clone())
    } else {
        None
    }
}

impl ReleaseVersion {
    /// Reads a version text.
    pub fn new(version: String) -> (parsed: Self)
        ensures
            parsed@ == version_of(version@),
    {
        let parts = split(version.as_str(), '-');
        let numbers = if parts.len() > 0 {
            assert(texts(parts@)[0] == parts@[0]@);
            split(parts[0].as_str(), '.')
        } else {
            let none: Vec<String> = Vec::new();
            assert(texts(none@) =~= Seq::<Seq<char>>::empty());
            none
        };
        let major = parse_piece(numbers.as_slice(), 0);
        let minor = parse_piece(numbers.as_slice(), 1);
        let patch = parse_piece(numbers.as_slice(), 2);
        let prerelease = copy_piece(parts.as_slice(), 1);
        let build_metadata = copy_piece(parts.as_slice(), 2);
        Self { version, major, minor, patch, prerelease, build_metadata }
    }

    pub fn is_prerelease(&self) -> (prerelease: bool)
        ensures
            prerelease == self.prerelease.is_some(),
    {
        self.prerelease.is_some()
    }

    pub fn is_stable(&self) -> (stable: bool)
        ensures
            stable == self.prerelease.is_none(),
    {
        !self.is_prerelease()
    }

    /// The three numbers of the version, between dots.
    pub fn get_semver(&self) -> (semver: String)
        ensures
            semver@ == decimal(self.major as nat) + "."@ + decimal(self.minor as nat) + "."@
                + decimal(self.patch as nat),
    {
        let mut semver = String::new();
        push_decimal(&mut semver, self.major as u64);
        semver.append(".");
        push_decimal(&mut semver, self.minor as u64);
        semver.append(".");
        push_decimal(&mut semver, self.patch as u64);
        assert(semver@ =~= decimal(self.major as nat) + "."@ + decimal(self.minor as nat) + "."@
            + decimal(self.patch as nat));
        semver
    }
}

/// What an artifact is.
#[derive(Debug, Clone, Copy, PartialEq, Eq, Structural)]
pub enum ArtifactType {
    Binary,
    Library,
    Documentation,
    SourceCode,
    SBOM,
    ReleaseNotes,
    Changelog,
}

impl ArtifactType {
    /// The name of the type.
    pub open spec fn name_text(self) -> Seq<char> {
        match self {
            ArtifactType::Binary => "Binary"@,
            ArtifactType::Library => "Library"@,
            ArtifactType::Documentation => "Documentation"@,
            ArtifactType::SourceCode => "SourceCode"@,
            ArtifactType::SBOM => "SBOM"@,
            ArtifactType::ReleaseNotes => "ReleaseNotes"@,
            ArtifactType::Changelog => "Changelog"@,
        }
    }

    /// The name of the type.
    pub fn name(&self) -> (name: &'static str)
        ensures
            name@ == self.name_text(),
    {
        match self {
            ArtifactType::Binary => "Binary",
            ArtifactType::Library => "Library",
            ArtifactType::Documentation => "Documentation",
            ArtifactType::SourceCode => "SourceCode",
            ArtifactType::SBOM => "SBOM",
            ArtifactType::ReleaseNotes => "ReleaseNotes",
            ArtifactType::Changelog => "Changelog",
        }
    }
}

/// One file of a release.
#[derive(Debug, Clone)]
pub struct ReleaseArtifact {
    pub artifact_id: String,
    pub artifact_type: ArtifactType,
    pub file_path: String,
    pub file_size: u64,
    pub checksum: String,
    pub checksum_algorithm: String,
}

/// The moment that a fresh release carries.
pub open spec fn initial_release_date() -> Seq<char> {
    "2025-11-21T00:00:00Z"@
}

/// The size of the first `count` artifacts together, in bytes.
pub open spec fn size_of(artifacts: Seq<ReleaseArtifact>, count: int) -> int
    decreases count,
{
    if count <= 0 || count > artifacts.len() {
        0
    } else {
        size_of(artifacts, count - 1) + artifacts[count - 1].file_size
    }
}

/// The size grows with the number of artifacts.
pub proof fn lemma_size_grows(artifacts: Seq<ReleaseArtifact>, count: int)
    requires
        0 <= count <= artifacts.len(),
    ensures
        0 <= size_of(artifacts, count) <= size_of(artifacts, artifacts.len() as int),
    decreases artifacts.len() - count,
{
    lemma_size_bounds(artifacts, count);
    if count < artifacts.len() {
        lemma_size_grows(artifacts, count + 1);
    }
}

/// The size is not negative.
pub proof fn lemma_size_bounds(artifacts: Seq<ReleaseArtifact>, count: int)
    ensures
        0 <= size_of(artifacts, count),
    decreases count,
{
    if 0 < count <= artifacts.len() {
        lemma_size_bounds(artifacts, count - 1);
    }
}

/// The line of one artifact in the report, with the text of its size.
pub open spec fn artifact_line(artifact: ReleaseArtifact, size: Seq<char>) -> Seq<char> {
    "  "@ + artifact.artifact_id@ + " ("@ + artifact.artifact_type.name_text() + ") - "@ + size
        + " MB\n"@
}

/// One release.
#[derive(Debug, Clone)]
pub struct Release {
    pub release_id: String,
    pub version: ReleaseVersion,
    pub release_date: String,
    pub artifacts: Vec<ReleaseArtifact>,
    pub release_notes: String,
    pub changelog: String,
    pub is_draft: bool,
    pub is_prerelease: bool,
    pub download_count: u64,
}

impl Release {
    /// A draft of the version without artifacts, notes or changelog.
    pub open spec fn is_draft_of(&self, version: Seq<char>) -> bool {
        &&& self.release_id@ == "release-"@ + version
        &&& self.version@ == version_of(version)
        &&& self.release_date@ == initial_release_date()
        &&& self.artifacts@.len() == 0
        &&& self.release_notes@.len() == 0
        &&& self.changelog@.len() == 0
        &&& self.is_draft
        &&& !self.is_prerelease
        &&& self.download_count == 0
    }

    /// The size of all artifacts together, in bytes.
    pub open spec fn total_size(&self) -> int {
        size_of(self.artifacts@, self.artifacts@.len() as int)
    }

    /// The artifacts of the given type, in their order.
    pub open spec fn of_type(&self, artifact_type: ArtifactType) -> Seq<ReleaseArtifact> {
        self.artifacts@.filter(|a: ReleaseArtifact| a.artifact_type == artifact_type)
    }

    /// The release as published.
    pub open spec fn published(self) -> Release {
        Release { is_draft: false, is_prerelease: self.version.prerelease.is_some(), ..self }
    }

    /// The report on the release. The total size and the sizes of the
    /// artifacts, one for each artifact in order, are shown as the texts
    /// that the caller made of them; an artifact beyond the end of the list
    /// is shown without a number.
    pub open spec fn report(&self, total_size: Seq<char>, artifact_sizes: Seq<String>) -> Seq<
        char,
    > {
        "=== RELEASE REPORT ===\n\n"@ + "Version: "@ + self.version.version@ + "\n"@
            + "Release Date: "@ + self.release_date@ + "\n"@ + "Status: "@ + (if self.is_draft {
            "Draft"@
        } else {
            "Published"@
        }) + "\n"@ + "Prerelease: "@ + bool_text(self.is_prerelease) + "\n\n"@ + "Artifacts: "@
            + decimal(self.artifacts@.len()) + "\n"@ + "Total Size: "@ + total_size
            + " MB\n\n"@ + "Artifacts:\n"@ + joined(
            with_texts(self.artifacts@, artifact_sizes),
            |a: (ReleaseArtifact, Seq<char>)| artifact_line(a.0, a.1),
        )
    }

    pub fn new(version: String) -> (release: Self)
        ensures
            release.is_draft_of(version@),
    {
        let release_id = String::from_str("release-").concat(version.as_str());
        let release_version = ReleaseVersion::new(version);
        Self {
            release_id,
            version: release_version,
            release_date: String::from_str("2025-11-21T00:00:00Z"),
            artifacts: Vec::new(),
            release_notes: String::new(),
            is_draft: true,
            is_prerelease: false,
            download_count: 0,
            changelog: String::new(),
        }
    }

    pub fn add_artifact(&mut self, artifact: ReleaseArtifact)
        ensures
            final(self).artifacts@ == old(self).artifacts@.push(artifact),
            *final(self) == (Release { artifacts: final(self).artifacts, ..*old(self) }),
    {
        self.artifacts.push(artifact);
    }

    pub fn set_release_notes(&mut self, notes: String)
        ensures
            *final(self) == (Release { release_notes: notes, ..*old(self) }),
    {
        self.release_notes = notes;
    }

    pub fn set_changelog(&mut self, changelog: String)
        ensures
            *final(self) == (Release { changelog, ..*old(self) }),
    {
        self.changelog = changelog;
    }

    /// Publishes the release: it is no draft any more, and it is a
    /// pre-release where its version has a pre-release tag.
    pub fn publish(&mut self)
        ensures
            *final(self) == old(self).published(),
    {
        self.is_draft = false;
        self.is_prerelease = self.version.is_prerelease();
    }

    /// The size of all artifacts together, in bytes.
    pub fn get_total_size(&self) -> (size: u64)
        requires
            self.total_size() <= u64::MAX,
        ensures
            size == self.total_size(),
    {
        let mut size: u64 = 0;
        let mut i: usize = 0;
        while i < self.artifacts.len()
            invariant
                i <= self.artifacts@.len(),
                size == size_of(self.artifacts@, i as int),
                self.total_size() <= u64::MAX,
            decreases self.artifacts@.len() - i,
        {
            proof {
                lemma_size_grows(self.artifacts@, i + 1);
            }
            size += self.artifacts[i].file_size;
            i += 1;
        }
        size
    }

    /// The artifacts of the given type, in their order.
    pub fn get_artifacts_by_type(&self, artifact_type: ArtifactType) -> (found: Vec<
        &ReleaseArtifact,
    >)
        ensures
            targets(found@) == self.of_type(artifact_type),
    {
        let ghost items = self.artifacts@;
        let ghost keep = |a: ReleaseArtifact| a.artifact_type == artifact_type;
        let mut found: Vec<&ReleaseArtifact> = Vec::new();
        let mut i: usize = 0;
        proof {
            lemma_select_ends(items, keep);
            assert(targets(found@) =~= Seq::<ReleaseArtifact>::empty());
        }
        while i < self.artifacts.len()
            invariant
                i <= items.len(),
                items == self.artifacts@,
                keep == |a: ReleaseArtifact| a.artifact_type == artifact_type,
                targets(found@) == items.take(i as int).filter(keep),
            decreases items.len() - i,
        {
            proof {
                lemma_select_step(items, i as int, keep);
            }
            let artifact = &self.artifacts[i];
            if artifact.artifact_type == artifact_type {
                let ghost before = targets(found@);
                found.push(artifact);
                assert(targets(found@) =~= before.push(*artifact));
            }
            i += 1;
        }
        proof {
            lemma_select_ends(items, keep);
        }
        found
    }

    /// The report on the release, as text. Sizes in mebibytes are
    /// fractions, so the caller renders them and hands the texts in: the
    /// total size, and the size of each artifact in order.
    pub fn generate_report(&self, total_size: &str, artifact_sizes: &[String]) -> (report: String)
        ensures
            report@ == self.report(total_size@, artifact_sizes@),
    {
        let mut report = String::from_str("=== RELEASE REPORT ===\n\n");
        push_field(&mut report, "Version: ", self.version.version.as_str(), "\n");
        push_field(&mut report, "Release Date: ", self.release_date.as_str(), "\n");
        let status = if self.is_draft {
            "Draft"
        } else {
            "Published"
        };
        push_field(&mut report, "Status: ", status, "\n");
        push_bool_field(&mut report, "Prerelease: ", self.is_prerelease, "\n\n");
        push_count_field(&mut report, "Artifacts: ", self.artifacts.len(), "\n");
        push_field(&mut report, "Total Size: ", total_size, " MB\n\n");
        report.append("Artifacts:\n");
        let ghost line = |a: (ReleaseArtifact, Seq<char>)| artifact_line(a.0, a.1);
        let ghost head = report@;
        let ghost items = with_texts(self.artifacts@, artifact_sizes@);
        let mut i: usize = 0;
        proof {
            lemma_joined_ends(items, line);
            assert(report@ =~= head + joined(items.take(0), line));
        }
        while i < self.artifacts.len()
            invariant
                i <= items.len(),
                items == with_texts(self.artifacts@, artifact_sizes@),
                line == |a: (ReleaseArtifact, Seq<char>)| artifact_line(a.0, a.1),
                report@ == head + joined(items.take(i as int), line),
            decreases items.len() - i,
        {
            proof {
                lemma_joined_step(items, i as int, line);
            }
            let ghost before = report@;
            let artifact = &self.artifacts[i];
            push_field(&mut report, "  ", artifact.artifact_id.as_str(), " (");
            report.append(artifact.artifact_type.name());
            push_field(&mut report, ") - ", text_or_empty(artifact_sizes, i), " MB\n");
            assert(report@ =~= before + artifact_line(items[i as int].0, items[i as int].1));
            assert(report@ =~= head + joined(items.take(i + 1), line));
            i += 1;
        }
        proof {
            lemma_joined_ends(items, line);
        }
        report
    }
}

impl Default for Release {
    fn default() -> (release: Self)
        ensures
            release.is_draft_of("1.0.0"@),
    {
        Self::new(String::from_str("1.0.0"))
    }
}

/// Whether the first version number is not above the second: by major
/// number, then minor, then patch.
pub open spec fn not_above(a: ReleaseVersion, b: ReleaseVersion) -> bool {
    a.major < b.major || (a.major == b.major && (a.minor < b.minor || (a.minor == b.minor
        && a.patch <= b.patch)))
}

/// The position of the highest version among the first `count` releases:
/// the last of those that no other exceeds, or -1 where there is none.
pub open spec fn highest_position(releases: Seq<(Seq<char>, Release)>, count: int) -> int
    decreases count,
{
    if count <= 0 || count > releases.len() {
        -1
    } else {
        let earlier = highest_position(releases, count - 1);
        if earlier < 0 || not_above(releases[earlier].1.version, releases[count - 1].1.version) {
            count - 1
        } else {
            earlier
        }
    }
}

/// The releases of the entries, without their keys.
pub open spec fn entry_releases(entries: Seq<(Seq<char>, Release)>) -> Seq<Release> {
    entries.map_values(|e: (Seq<char>, Release)| e.1)
}

/// The releases by version text.
pub struct ReleaseManager {
    releases: TextMap<Release>,
}

impl View for ReleaseManager {
    type V = Seq<(Seq<char>, Release)>;

    closed spec fn view(&self) -> Seq<(Seq<char>, Release)> {
        self.releases@
    }
}

impl ReleaseManager {
    pub fn new() -> (manager: Self)
        ensures
            manager@ == Seq::<(Seq<char>, Release)>::empty(),
    {
        Self { releases: TextMap::new() }
    }

    /// Files a draft of the version under its version text, over a release
    /// that was there, and hands it out for filling.
    pub fn create_release(&mut self, version: String) -> (release: &mut Release)
        ensures
            release.is_draft_of(version@),
            final(self)@ == with_entry(old(self)@, version@, *final(release)),
    {
        let key = version.clone();
        let release = Release::new(version);
        let ghost before = self.releases@;
        proof {
            lemma_with_entry_value(before, key@, release);
            lemma_position_of(before, key@);
            lemma_position_of(with_entry(before, key@, release), key@);
        }
        self.releases.insert(key.clone(), release);
        let found = self.releases.get_mut(key.as_str());
        let release = found.unwrap();
        proof {
            lemma_with_entry_twice(before, key@, *release, *final(release));
        }
        release
    }

    pub fn get_release(&self, version: &str) -> (release: Option<&Release>)
        ensures
            match release {
                Some(r) => value_under(self@, version@) == Some(*r),
                None => value_under(self@, version@).is_none(),
            },
    {
        self.releases.get(version)
    }

    /// The release with the highest version number, the last of them where
    /// several share it.
    pub fn get_latest_release(&self) -> (latest: Option<&Release>)
        ensures
            match latest {
                Some(release) => 0 <= highest_position(self@, self@.len() as int) < self@.len()
                    && *release == self@[highest_position(self@, self@.len() as int)].1,
                None => self@.len() == 0,
            },
    {
        if self.releases.len() == 0 {
            return None;
        }
        let mut best: usize = 0;
        let mut i: usize = 1;
        assert(highest_position(self@, 0) == -1);
        assert(highest_position(self@, 1) == 0);
        while i < self.releases.len()
            invariant
                1 <= i <= self.releases@.len(),
                best == highest_position(self@, i as int),
                best < i,
            decreases self.releases@.len() - i,
        {
            let candidate = &self.releases.value_at(i).version;
            let current = &self.releases.value_at(best).version;
            if current.major < candidate.major || (current.major == candidate.major && (
            current.minor < candidate.minor || (current.minor == candidate.minor && current.patch
                <= candidate.patch))) {
                best = i;
            }
            i += 1;
        }
        Some(self.releases.value_at(best))
    }

    /// Publishes the release of the version. Says whether there is such a
    /// release; where there is none, nothing changes.
    pub fn publish_release(&mut self, version: &str) -> (found: bool)
        ensures
            match value_under(old(self)@, version@) {
                Some(release) => found && final(self)@ == with_entry(
                    old(self)@,
                    version@,
                    release.published(),
                ),
                None => !found && final(self)@ == old(self)@,
            },
    {
        match self.releases.get_mut(version) {
            Some(release) => {
                release.publish();
                true
            },
            None => false,
        }
    }

    /// All releases, in the order in which their versions first arrived.
    pub fn get_all_releases(&self) -> (releases: Vec<&Release>)
        ensures
            targets(releases@) == entry_releases(self@),
    {
        let mut releases: Vec<&Release> = Vec::new();
        let mut i: usize = 0;
        while i < self.releases.len()
            invariant
                i <= self.releases@.len(),
                releases@.len() == i,
                forall|j: int| 0 <= j < i ==> *releases@[j] == (#[trigger] self.releases@[j]).1,
            decreases self.releases@.len() - i,
        {
            releases.push(self.releases.value_at(i));
            i += 1;
        }
        assert(targets(releases@) =~= entry_releases(self@));
        releases
    }

    /// The releases whose version has, or has not, a pre-release tag, in
    /// the order of the table.
    fn select_by_tag(&self, tagged: bool) -> (releases: Vec<&Release>)
        ensures
            targets(releases@) == entry_releases(self@).filter(
                |r: Release| r.version.prerelease.is_some() == tagged,
            ),
    {
        let ghost items = entry_releases(self@);
        let ghost keep = |r: Release| r.version.prerelease.is_some() == tagged;
        let mut found: Vec<&Release> = Vec::new();
        let mut i: usize = 0;
        proof {
            lemma_select_ends(items, keep);
            assert(targets(found@) =~= Seq::<Release>::empty());
        }
        while i < self.releases.len()
            invariant
                i <= self.releases@.len(),
                items == entry_releases(self@),
                items.len() == self.releases@.len(),
                keep == |r: Release| r.version.prerelease.is_some() == tagged,
                targets(found@) == items.take(i as int).filter(keep),
            decreases self.releases@.len() - i,
        {
            proof {
                lemma_select_step(items, i as int, keep);
            }
            let release = self.releases.value_at(i);
            assert(items[i as int] == *release);
            if release.version.is_prerelease() == tagged {
                let ghost before = targets(found@);
                found.push(release);
                assert(targets(found@) =~= before.push(*release));
            }
            i += 1;
        }
        proof {
            lemma_select_ends(items, keep);
        }
        found
    }

    /// The releases whose version has no pre-release tag.
    pub fn get_stable_releases(&self) -> (releases: Vec<&Release>)
        ensures
            targets(releases@) == entry_releases(self@).filter(
                |r: Release| r.version.prerelease.is_some() == false,
            ),
    {
        self.select_by_tag(false)
    }

    /// The releases whose version has a pre-release tag.
    pub fn get_prerelease_releases(&self) -> (releases: Vec<&Release>)
        ensures
            targets(releases@) == entry_releases(self@).filter(
                |r: Release| r.version.prerelease.is_some() == true,
            ),
    {
        self.select_by_tag(true)
    }
}

impl Default for ReleaseManager {
    fn default() -> (manager: Self)
        ensures
            manager@ == Seq::<(Seq<char>, Release)>::empty(),
    {
        Self::new()
    }
}

} // verus!
