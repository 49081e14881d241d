//! Follows firmware versions over time: which appeared, which vanished,
//! what kind of change a version number stands for and how the features of
//! two versions differ.

use crate::collections::{
    lemma_mapped_values,
    lemma_mapped_with_entry,
    lemma_select_ends,
    lemma_select_step,
    mapped_values,
    value_under,
    with_entry,
    TextMap,
};
use crate::firmware_analyzer::latest_position;
use crate::ranking::{later_text, lemma_ranked, lemma_texts_rank, rank_descending, ranked};
use crate::text::{
    clone_strings,
    decimal,
    joined,
    le,
    lemma_joined_ends,
    lemma_joined_step,
    parse_u32,
    parsed_u32,
    push_count_field,
    push_field,
    same_text,
    split,
    split_on,
    strings_contain,
    texts,
};
use vstd::prelude::*;

verus! {

/// One firmware version with the protocol version that it speaks.
#[derive(Debug)]
pub struct FirmwareVersionInfo {
    pub version: String,
    pub device_model: String,
    pub release_date: String,
    pub features: Vec<String>,
    pub build_number: String,
    pub protocol_version: String,
}

/// The mathematical content of a firmware version.
pub ghost struct FirmwareVersionInfoView {
    pub version: Seq<char>,
    pub device_model: Seq<char>,
    pub release_date: Seq<char>,
    pub features: Seq<Seq<char>>,
    pub build_number: Seq<char>,
    pub protocol_version: Seq<char>,
}

impl View for FirmwareVersionInfo {
    type V = FirmwareVersionInfoView;

    open spec fn view(&self) -> FirmwareVersionInfoView {
        FirmwareVersionInfoView {
            version: self.version@,
            device_model: self.device_model@,
            release_date: self.release_date@,
            features: texts(self.features@),
            build_number: self.build_number@,
            protocol_version: self.protocol_version@,
        }
    }
}

impl Clone for FirmwareVersionInfo {
    fn clone(&self) -> (copy: Self)
        ensures
            copy@ == self@,
    {
        Self {
            version: self.version.clone(),
            device_model: self.device_model.clone(),
            release_date: self.release_date.clone(),
            features: clone_strings(self.features.as_slice()),
            build_number: self.build_number.clone(),
            protocol_version: self.protocol_version.clone(),
        }
    }
}

/// What kind of step a version number stands for.
#[derive(Debug, Clone, Copy, PartialEq, Eq, Structural)]
pub enum VersionChangeType {
    Major,
    Minor,
    Patch,
    Unknown,
}

#[derive(Debug, Clone)]
pub struct VersionChange {
    pub old_version: String,
    pub new_version: String,
    pub device_model: String,
    pub change_type: VersionChangeType,
    pub is_breaking: bool,
}

/// The mathematical content of a version change.
pub ghost struct VersionChangeView {
    pub old_version: Seq<char>,
    pub new_version: Seq<char>,
    pub device_model: Seq<char>,
    pub change_type: VersionChangeType,
    pub is_breaking: bool,
}

impl View for VersionChange {
    type V = VersionChangeView;

    open spec fn view(&self) -> VersionChangeView {
        VersionChangeView {
            old_version: self.old_version@,
            new_version: self.new_version@,
            device_model: self.device_model@,
            change_type: self.change_type,
            is_breaking: self.is_breaking,
        }
    }
}

/// A version of protocol 1.0.0 whose build number is its version text.
pub open spec fn released(
    version: Seq<char>,
    device_model: Seq<char>,
    release_date: Seq<char>,
    features: Seq<Seq<char>>,
) -> FirmwareVersionInfoView {
    FirmwareVersionInfoView {
        version,
        device_model,
        release_date,
        features,
        build_number: version,
        protocol_version: "1.0.0"@,
    }
}

/// The versions that every analyzer starts with, filed by version text in
/// this order.
pub open spec fn base_versions() -> Seq<(Seq<char>, FirmwareVersionInfoView)> {
    let v1 = released(
        "5E135"@,
        "AirPodsProGen2"@,
        "2025-11-21"@,
        seq!["BatteryMonitoring"@, "ANC"@, "SpatialAudio"@],
    );
    let v2 = released(
        "5D134"@,
        "AirPodsProGen2"@,
        "2025-10-15"@,
        seq!["BatteryMonitoring"@, "ANC"@],
    );
    let v3 = released(
        "5C133"@,
        "AirPodsMax"@,
        "2025-09-20"@,
        seq!["BatteryMonitoring"@, "ANC"@, "AdaptiveTransparency"@],
    );
    let v4 = released("5B132"@, "AirPods4"@, "2025-08-10"@, seq!["BatteryMonitoring"@, "ANC"@]);
    let v5 = released("5A131"@, "AirPods3"@, "2025-07-05"@, seq!["BatteryMonitoring"@, "ANC"@]);
    with_entry(
        with_entry(
            with_entry(
                with_entry(with_entry(Seq::empty(), v1.version, v1), v2.version, v2),
                v3.version,
                v3,
            ),
            v4.version,
            v4,
        ),
        v5.version,
        v5,
    )
}

/// The kind of step that a version number stands for: major where its
/// first part is above zero, minor where its second part is, patch where
/// both are zero; unknown where it has not got two parts that are numbers.
pub open spec fn change_type_of(version: Seq<char>) -> VersionChangeType {
    let parts = split_on(version, '.');
    if parts.len() >= 2 {
        match (parsed_u32(parts[0]), parsed_u32(parts[1])) {
            (Some(major), Some(minor)) => if major > 0 {
                VersionChangeType::Major
            } else if minor > 0 {
                VersionChangeType::Minor
            } else {
                VersionChangeType::Patch
            },
            _ => VersionChangeType::Unknown,
        }
    } else {
        VersionChangeType::Unknown
    }
}

/// The change that a version which appeared stands for.
pub open spec fn appearance(version: Seq<char>, device_model: Seq<char>) -> VersionChangeView {
    VersionChangeView {
        old_version: "N/A"@,
        new_version: version,
        device_model,
        change_type: change_type_of(version),
        is_breaking: false,
    }
}

/// The change that a version which vanished stands for.
pub open spec fn disappearance(version: Seq<char>, device_model: Seq<char>) -> VersionChangeView {
    VersionChangeView {
        old_version: version,
        new_version: "N/A"@,
        device_model,
        change_type: VersionChangeType::Unknown,
        is_breaking: true,
    }
}

/// One change for each of the first `count` versions of `ours` that
/// `theirs` does not name and that is known.
pub open spec fn one_sided_changes(
    versions: Seq<(Seq<char>, FirmwareVersionInfoView)>,
    ours: Seq<Seq<char>>,
    theirs: Seq<Seq<char>>,
    count: int,
    appeared: bool,
) -> Seq<VersionChangeView>
    decreases count,
{
    if count <= 0 || count > ours.len() {
        Seq::empty()
    } else {
        let earlier = one_sided_changes(versions, ours, theirs, count - 1, appeared);
        let version = ours[count - 1];
        match value_under(versions, version) {
            Some(info) => if theirs.contains(version) {
                earlier
            } else if appeared {
                earlier.push(appearance(version, info.device_model))
            } else {
                earlier.push(disappearance(version, info.device_model))
            },
            None => earlier,
        }
    }
}

/// The contents of changes, in order.
pub open spec fn change_views(changes: Seq<VersionChange>) -> Seq<VersionChangeView> {
    changes.map_values(|c: VersionChange| c@)
}

/// The contents of the versions that a sequence of references points to.
pub open spec fn info_views(infos: Seq<&FirmwareVersionInfo>) -> Seq<FirmwareVersionInfoView> {
    infos.map_values(|f: &FirmwareVersionInfo| f@)
}

/// The versions of the entries, without their keys.
pub open spec fn entry_infos(entries: Seq<(Seq<char>, FirmwareVersionInfoView)>) -> Seq<
    FirmwareVersionInfoView,
> {
    entries.map_values(|e: (Seq<char>, FirmwareVersionInfoView)| e.1)
}

/// The release dates of the entries.
pub open spec fn release_dates(versions: Seq<(Seq<char>, FirmwareVersionInfoView)>) -> Seq<
    Seq<char>,
> {
    versions.map_values(|e: (Seq<char>, FirmwareVersionInfoView)| e.1.release_date)
}

/// The row of one version in the list of all versions.
pub open spec fn version_row(info: FirmwareVersionInfoView) -> Seq<char> {
    "  "@ + info.version + " ("@ + info.device_model + ") - "@ + info.release_date + "\n"@
}

/// The features of a version, or none where the version is not known.
pub open spec fn features_of(
    versions: Seq<(Seq<char>, FirmwareVersionInfoView)>,
    version: Seq<char>,
) -> Seq<Seq<char>> {
    match value_under(versions, version) {
        Some(info) => info.features,
        None => Seq::empty(),
    }
}

/// The texts of `items` that are not among `others`, in their order.
pub open spec fn missing_texts(items: Seq<Seq<char>>, others: Seq<Seq<char>>) -> Seq<Seq<char>> {
    items.filter(|item: Seq<char>| !others.contains(item))
}

/// The strings of `items` whose text is not among `others`, in their
/// order.
pub fn select_missing(items: &[String], others: &[String]) -> (selected: Vec<String>)
    ensures
        texts(selected@) == missing_texts(texts(items@), texts(others@)),
{
    let ghost names = texts(others@);
    let ghost all = texts(items@);
    let ghost keep = |item: Seq<char>| !names.contains(item);
    let mut selected: Vec<String> = Vec::new();
    let mut i: usize = 0;
    proof {
        lemma_select_ends(all, keep);
        assert(texts(selected@) =~= Seq::<Seq<char>>::empty());
    }
    while i < items.len()
        invariant
            i <= items@.len(),
            names == texts(others@),
            all == texts(items@),
            keep == |item: Seq<char>| !names.contains(item),
            texts(selected@) == all.take(i as int).filter(keep),
        decreases items@.len() - i,
    {
        proof {
            lemma_select_step(all, i as int, keep);
        }
        if !strings_contain(others, items[i].as_str()) {
            let ghost before = texts(selected@);
            selected.push(items[i].clone());
            assert(texts(selected@) =~= before.push(items@[i as int]@));
        }
        i += 1;
    }
    proof {
        lemma_select_ends(all, keep);
    }
    selected
}

/// Firmware versions by version text.
pub struct FirmwareVersionAnalyzer {
    known_versions: TextMap<FirmwareVersionInfo>,
    version_history: Vec<(String, String)>,
}

impl View for FirmwareVersionAnalyzer {
    type V = Seq<(Seq<char>, FirmwareVersionInfoView)>;

    closed spec fn view(&self) -> Seq<(Seq<char>, FirmwareVersionInfoView)> {
        mapped_values(self.known_versions@, |f: FirmwareVersionInfo| f@)
    }
}

/// The latest of the versions: the one with the latest release date, the
/// last of them where several share it.
pub open spec fn latest_of(versions: Seq<(Seq<char>, FirmwareVersionInfoView)>) -> Option<
    FirmwareVersionInfoView,
> {
    let at = latest_position(release_dates(versions), versions.len() as int);
    if 0 <= at < versions.len() {
        Some(versions[at].1)
    } else {
        None
    }
}

/// The positions of the versions, latest release first, equal dates in the
/// order of the table.
pub open spec fn by_date(versions: Seq<(Seq<char>, FirmwareVersionInfoView)>) -> Seq<int> {
    ranked(versions.len(), later_text(release_dates(versions)))
}

/// The report on the versions.
pub open spec fn version_report(versions: Seq<(Seq<char>, FirmwareVersionInfoView)>) -> Seq<char> {
    let head = "=== FIRMWARE VERSION ANALYSIS ===\n\n"@ + "Known Versions: "@ + decimal(
        versions.len(),
    ) + "\n"@;
    let top = match latest_of(versions) {
        Some(info) => head + "\nLatest Version: "@ + info.version + "\n"@ + "Device: "@
            + info.device_model + "\n"@ + "Release Date: "@ + info.release_date + "\n"@
            + "Protocol Version: "@ + info.protocol_version + "\n"@ + "Features: "@ + decimal(
            info.features.len(),
        ) + "\n"@,
        None => head,
    };
    top + "\nAll Known Versions:\n"@ + joined(
        by_date(versions),
        |at: int| version_row(versions[at].1),
    )
}

/// A list of two or three feature names.
fn feature_list(first: &str, second: &str, third: Option<&str>) -> (features: Vec<String>)
    ensures
        texts(features@) == match third {
            Some(name) => seq![first@, second@, name@],
            None => seq![first@, second@],
        },
{
    let mut features: Vec<String> = Vec::new();
    features.push(String::from_str(first));
    features.push(String::from_str(second));
    match third {
        Some(name) => {
            features.push(String::from_str(name));
        },
        None => {},
    }
    assert(texts(features@) =~= match third {
        Some(name) => seq![first@, second@, name@],
        None => seq![first@, second@],
    });
    features
}

impl FirmwareVersionAnalyzer {
    /// An analyzer with the versions that are known from the start.
    pub fn new() -> (analyzer: Self)
        ensures
            analyzer@ == base_versions(),
    {
        let mut analyzer = Self { known_versions: TextMap::new(), version_history: Vec::new() };
        assert(analyzer@ =~= Seq::<(Seq<char>, FirmwareVersionInfoView)>::empty());
        analyzer.initialize_versions();
        analyzer
    }

    /// Files one version of protocol 1.0.0.
    fn file_version(&mut self, version: &str, model: &str, date: &str, features: Vec<String>)
        ensures
            final(self)@ == with_entry(
                old(self)@,
                version@,
                released(version@, model@, date@, texts(features@)),
            ),
    {
        self.add_version(
            FirmwareVersionInfo {
                version: String::from_str(version),
                device_model: String::from_str(model),
                release_date: String::from_str(date),
                features,
                build_number: String::from_str(version),
                protocol_version: String::from_str("1.0.0"),
            },
        );
    }

    /// Files the versions that are known from the start.
    fn initialize_versions(&mut self)
        requires
            old(self)@.len() == 0,
        ensures
            final(self)@ == base_versions(),
    {
        assert(self@ =~= Seq::<(Seq<char>, FirmwareVersionInfoView)>::empty());
        self.file_version(
            "5E135",
            "AirPodsProGen2",
            "2025-11-21",
            feature_list("BatteryMonitoring", "ANC", Some("SpatialAudio")),
        );
        self.file_version(
            "5D134",
            "AirPodsProGen2",
            "2025-10-15",
            feature_list("BatteryMonitoring", "ANC", None),
        );
        self.file_version(
            "5C133",
            "AirPodsMax",
            "2025-09-20",
            feature_list("BatteryMonitoring", "ANC", Some("AdaptiveTransparency")),
        );
        self.file_version(
            "5B132",
            "AirPods4",
            "2025-08-10",
            feature_list("BatteryMonitoring", "ANC", None),
        );
        self.file_version(
            "5A131",
            "AirPods3",
            "2025-07-05",
            feature_list("BatteryMonitoring", "ANC", None),
        );
    }

    /// The table of known versions.
    pub fn versions(&self) -> (table: &TextMap<FirmwareVersionInfo>)
        ensures
            mapped_values(table@, |f: FirmwareVersionInfo| f@) == self@,
    {
        &self.known_versions
    }

    pub fn get_version_info(&self, version: &str) -> (info: Option<&FirmwareVersionInfo>)
        ensures
            match info {
                Some(found) => value_under(self@, version@) == Some(found@),
                None => value_under(self@, version@).is_none(),
            },
    {
        proof {
            lemma_mapped_values(self.known_versions@, |f: FirmwareVersionInfo| f@, version@);
        }
        self.known_versions.get(version)
    }

    /// Files a version under its version text, over one that was there.
    pub fn add_version(&mut self, info: FirmwareVersionInfo)
        ensures
            final(self)@ == with_entry(old(self)@, info@.version, info@),
    {
        let key = info.version.clone();
        proof {
            lemma_mapped_with_entry(self.known_versions@, |f: FirmwareVersionInfo| f@, key@, info);
        }
        self.known_versions.insert(key, info);
    }

    /// The changes between two lists of versions: first the known versions
    /// that only the new list names, then the known ones that only the old
    /// list names, each in the order of its list.
    pub fn detect_version_changes(&self, old_versions: Vec<String>, new_versions: Vec<String>) -> (changes:
        Vec<VersionChange>)
        ensures
            change_views(changes@) == one_sided_changes(
                self@,
                texts(new_versions@),
                texts(old_versions@),
                new_versions@.len() as int,
                true,
            ) + one_sided_changes(
                self@,
                texts(old_versions@),
                texts(new_versions@),
                old_versions@.len() as int,
                false,
            ),
    {
        let ghost olds = texts(old_versions@);
        let ghost news = texts(new_versions@);
        let mut changes: Vec<VersionChange> = Vec::new();
        let mut i: usize = 0;
        assert(change_views(changes@) =~= one_sided_changes(self@, news, olds, 0, true));
        while i < new_versions.len()
            invariant
                i <= new_versions@.len(),
                olds == texts(old_versions@),
                news == texts(new_versions@),
                change_views(changes@) == one_sided_changes(self@, news, olds, i as int, true),
            decreases new_versions@.len() - i,
        {
            let version = &new_versions[i];
            assert(news[i as int] == version@);
            if !strings_contain(old_versions.as_slice(), version.as_str()) {
                match self.get_version_info(version.as_str()) {
                    Some(info) => {
                        let ghost before = change_views(changes@);
                        let change_type = self.determine_change_type(version.as_str());
                        changes.push(
                            VersionChange {
                                old_version: String::from_str("N/A"),
                                new_version: version.clone(),
                                device_model: info.device_model.clone(),
                                change_type,
                                is_breaking: false,
                            },
                        );
                        assert(change_views(changes@) =~= before.push(
                            appearance(version@, info@.device_model),
                        ));
                    },
                    None => {},
                }
            } else {
                proof {
                    lemma_mapped_values(
                        self.known_versions@,
                        |f: FirmwareVersionInfo| f@,
                        version@,
                    );
                }
            }
            i += 1;
        }
        let ghost first = change_views(changes@);
        let mut k: usize = 0;
        assert(change_views(changes@) =~= first + one_sided_changes(self@, olds, news, 0, false));
        while k < old_versions.len()
            invariant
                k <= old_versions@.len(),
                olds == texts(old_versions@),
                news == texts(new_versions@),
                change_views(changes@) == first + one_sided_changes(
                    self@,
                    olds,
                    news,
                    k as int,
                    false,
                ),
            decreases old_versions@.len() - k,
        {
            let version = &old_versions[k];
            assert(olds[k as int] == version@);
            if !strings_contain(new_versions.as_slice(), version.as_str()) {
                match self.get_version_info(version.as_str()) {
                    Some(info) => {
                        let ghost before = change_views(changes@);
                        changes.push(
                            VersionChange {
                                old_version: version.clone(),
                                new_version: String::from_str("N/A"),
                                device_model: info.device_model.clone(),
                                change_type: VersionChangeType::Unknown,
                                is_breaking: true,
                            },
                        );
                        assert(change_views(changes@) =~= before.push(
                            disappearance(version@, info@.device_model),
                        ));
                    },
                    None => {},
                }
            }
            assert(change_views(changes@) =~= first + one_sided_changes(
                self@,
                olds,
                news,
                k + 1,
                false,
            ));
            k += 1;
        }
        changes
    }

    /// The kind of step that a version number stands for.
    pub fn determine_change_type(&self, version: &str) -> (kind: VersionChangeType)
        ensures
            kind == change_type_of(version@),
    {
        let parts = split(version, '.');
        if parts.len() >= 2 {
            assert(texts(parts@)[0] == parts@[0]@);
            assert(texts(parts@)[1] == parts@[1]@);
            match (parse_u32(parts[0].as_str()), parse_u32(parts[1].as_str())) {
                (Some(major), Some(minor)) => {
                    if major > 0 {
                        VersionChangeType::Major
                    } else if minor > 0 {
                        VersionChangeType::Minor
                    } else {
                        VersionChangeType::Patch
                    }
                },
                _ => VersionChangeType::Unknown,
            }
        } else {
            VersionChangeType::Unknown
        }
    }

    /// The versions for one device model, in the order of the table.
    pub fn get_versions_for_model(&self, model: &str) -> (found: Vec<&FirmwareVersionInfo>)
        ensures
            info_views(found@) == entry_infos(self@).filter(
                |f: FirmwareVersionInfoView| f.device_model == model@,
            ),
    {
        let ghost all = entry_infos(self@);
        let ghost keep = |f: FirmwareVersionInfoView| f.device_model == model@;
        let mut found: Vec<&FirmwareVersionInfo> = Vec::new();
        let mut i: usize = 0;
        proof {
            lemma_select_ends(all, keep);
        }
        while i < self.known_versions.len()
            invariant
                i <= self.known_versions@.len(),
                all == entry_infos(self@),
                all.len() == self.known_versions@.len(),
                keep == |f: FirmwareVersionInfoView| f.device_model == model@,
                info_views(found@) == all.take(i as int).filter(keep),
            decreases self.known_versions@.len() - i,
        {
            let info = self.known_versions.value_at(i);
            proof {
                lemma_select_step(all, i as int, keep);
                assert(all[i as int] == info@);
            }
            if same_text(info.device_model.as_str(), model) {
                let ghost before = found@;
                found.push(info);
                assert(info_views(found@) =~= info_views(before).push(info@));
            }
            i += 1;
        }
        proof {
            lemma_select_ends(all, keep);
        }
        found
    }

    /// The version with the latest release date, the last of them in the
    /// table where several share it.
    pub fn get_latest_version(&self) -> (latest: Option<&FirmwareVersionInfo>)
        ensures
            match latest {
                Some(info) => latest_of(self@) == Some(info@),
                None => latest_of(self@).is_none(),
            },
    {
        let ghost dates = release_dates(self@);
        if self.known_versions.len() == 0 {
            return None;
        }
        let mut best: usize = 0;
        let mut i: usize = 1;
        assert(latest_position(dates, 0) == -1);
        assert(latest_position(dates, 1) == 0);
        while i < self.known_versions.len()
            invariant
                1 <= i <= self.known_versions@.len(),
                dates == release_dates(self@),
                dates.len() == self.known_versions@.len(),
                best == latest_position(dates, i as int),
                best < i,
            decreases self.known_versions@.len() - i,
        {
            let candidate = self.known_versions.value_at(i);
            let current = self.known_versions.value_at(best);
            assert(dates[i as int] == candidate.release_date@);
            assert(dates[best as int] == current.release_date@);
            if le(current.release_date.as_str(), candidate.release_date.as_str()) {
                best = i;
            }
            i += 1;
        }
        let found = self.known_versions.value_at(best);
        assert(self@[best as int].1 == found@);
        Some(found)
    }

    /// The features of a version, or none where the version is not known.
    pub fn extract_features_from_version(&self, version: &str) -> (features: Vec<String>)
        ensures
            texts(features@) == features_of(self@, version@),
    {
        match self.get_version_info(version) {
            Some(info) => clone_strings(info.features.as_slice()),
            None => {
                let features: Vec<String> = Vec::new();
                assert(texts(features@) =~= Seq::<Seq<char>>::empty());
                features
            },
        }
    }

    /// The features that the new version has and the old one has not, and
    /// those that the old one has and the new one has not.
    pub fn compare_feature_sets(&self, old_version: &str, new_version: &str) -> (changes: (
        Vec<String>,
        Vec<String>,
    ))
        ensures
            texts(changes.0@) == missing_texts(
                features_of(self@, new_version@),
                features_of(self@, old_version@),
            ),
            texts(changes.1@) == missing_texts(
                features_of(self@, old_version@),
                features_of(self@, new_version@),
            ),
    {
        let old_features = self.extract_features_from_version(old_version);
        let new_features = self.extract_features_from_version(new_version);
        let added = select_missing(new_features.as_slice(), old_features.as_slice());
        let removed = select_missing(old_features.as_slice(), new_features.as_slice());
        (added, removed)
    }

    /// The release dates of the table, in its order.
    fn dates(&self) -> (dates: Vec<String>)
        ensures
            texts(dates@) == release_dates(self@),
    {
        let mut dates: Vec<String> = Vec::new();
        let mut i: usize = 0;
        while i < self.known_versions.len()
            invariant
                i <= self.known_versions@.len(),
                dates@.len() == i,
                forall|j: int|
                    0 <= j < i ==> (#[trigger] dates@[j])@ == self.known_versions@[j].1.release_date@,
            decreases self.known_versions@.len() - i,
        {
            dates.push(self.known_versions.value_at(i).release_date.clone());
            i += 1;
        }
        assert(texts(dates@) =~= release_dates(self@));
        dates
    }

    /// The report on the known versions, as text: the count, the latest
    /// version, and all versions, latest release first.
    pub fn generate_version_report(&self) -> (report: String)
        ensures
            report@ == version_report(self@),
    {
        let mut report = String::from_str("=== FIRMWARE VERSION ANALYSIS ===\n\n");
        push_count_field(&mut report, "Known Versions: ", self.known_versions.len(), "\n");
        match self.get_latest_version() {
            Some(latest) => {
                push_field(&mut report, "\nLatest Version: ", latest.version.as_str(), "\n");
                push_field(&mut report, "Device: ", latest.device_model.as_str(), "\n");
                push_field(&mut report, "Release Date: ", latest.release_date.as_str(), "\n");
                push_field(
                    &mut report,
                    "Protocol Version: ",
                    latest.protocol_version.as_str(),
                    "\n",
                );
                push_count_field(&mut report, "Features: ", latest.features.len(), "\n");
            },
            None => {},
        }
        report.append("\nAll Known Versions:\n");
        let dates = self.dates();
        let order = rank_descending(dates.as_slice());
        let ghost versions = self@;
        let ghost places = order@.map_values(|i: usize| i as int);
        let ghost line = |at: int| version_row(versions[at].1);
        let ghost head = report@;
        proof {
            lemma_texts_rank(release_dates(versions));
            lemma_ranked(versions.len(), later_text(release_dates(versions)));
            lemma_joined_ends(places, line);
            assert(report@ =~= head + joined(places.take(0), line));
        }
        let mut i: usize = 0;
        while i < order.len()
            invariant
                i <= order@.len(),
                versions == self@,
                versions.len() == self.known_versions@.len(),
                places == order@.map_values(|i: usize| i as int),
                places == by_date(self@),
                forall|k: int| 0 <= k < places.len() ==> 0 <= #[trigger] places[k] < versions.len(),
                line == |at: int| version_row(versions[at].1),
                report@ == head + joined(places.take(i as int), line),
            decreases order@.len() - i,
        {
            proof {
                lemma_joined_step(places, i as int, line);
                assert(places[i as int] == order@[i as int] as int);
            }
            let info = self.known_versions.value_at(order[i]);
            assert(versions[order@[i as int] as int].1 == info@);
            let ghost before = report@;
            push_field(&mut report, "  ", info.version.as_str(), " (");
            report.append(info.device_model.as_str());
            report.append(") - ");
            report.append(info.release_date.as_str());
            report.append("\n");
            assert(report@ =~= before + version_row(info@));
            assert(report@ =~= head + joined(places.take(i + 1), line));
            i += 1;
        }
        proof {
            lemma_joined_ends(places, line);
        }
        report
    }
}

impl Default for FirmwareVersionAnalyzer {
    fn default() -> (analyzer: Self)
        ensures
            analyzer@ == base_versions(),
    {
        Self::new()
    }
}

} // verus!
