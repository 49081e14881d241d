//! What is known of firmware versions: which exist, for which device, with
//! which features, and which is the latest.

use crate::collections::{
    has_key,
    lemma_mapped_values,
    lemma_mapped_with_entry,
    lemma_select_ends,
    lemma_select_step,
    mapped_values,
    value_under,
    with_entry,
    TextMap,
};
use crate::ranking::{later_text, lemma_ranked, lemma_texts_rank, rank_descending, ranked};
use crate::text::{
    clone_strings,
    decimal,
    joined,
    le,
    lemma_joined_ends,
    lemma_joined_step,
    listed_texts,
    push_count_field,
    push_field,
    push_listed,
    strings_contain,
    text_le,
    texts,
};
use vstd::prelude::*;

verus! {

/// One firmware version.
#[derive(Debug)]
pub struct FirmwareInfo {
    pub version: String,
    pub device_model: String,
    pub release_date: String,
    pub features: Vec<String>,
    pub build_number: String,
}

/// The mathematical content of a firmware version.
pub ghost struct FirmwareInfoView {
    pub version: Seq<char>,
    pub device_model: Seq<char>,
    pub release_date: Seq<char>,
    pub features: Seq<Seq<char>>,
    pub build_number: Seq<char>,
}

impl View for FirmwareInfo {
    type V = FirmwareInfoView;

    open spec fn view(&self) -> FirmwareInfoView {
        FirmwareInfoView {
            version: self.version@,
            device_model: self.device_model@,
            release_date: self.release_date@,
            features: texts(self.features@),
            build_number: self.build_number@,
        }
    }
}

impl Clone for FirmwareInfo {
    fn clone(&self) -> (copy: Self)
        ensures
            copy@ == self@,
    {
        Self {
            version: self.version.clone(),
            device_model: self.device_model.clone(),
            release_date: self.release_date.clone(),
            features: clone_strings(self.features.as_slice()),
            build_number: self.build_number.clone(),
        }
    }
}

/// A version with the build number that is made of its version text.
pub open spec fn built(
    version: Seq<char>,
    device_model: Seq<char>,
    release_date: Seq<char>,
    features: Seq<Seq<char>>,
) -> FirmwareInfoView {
    FirmwareInfoView {
        version,
        device_model,
        release_date,
        features,
        build_number: "BUILD_"@ + version,
    }
}

/// The versions that every analyzer starts with, filed by version text in
/// this order.
pub open spec fn base_versions() -> Seq<(Seq<char>, FirmwareInfoView)> {
    let v1 = built(
        "5E135"@,
        "AirPodsProGen2"@,
        "2025-11-21"@,
        seq!["BatteryMonitoring"@, "ANC"@, "SpatialAudio"@],
    );
    let v2 = built("5D134"@, "AirPodsProGen2"@, "2025-10-15"@, seq!["BatteryMonitoring"@, "ANC"@]);
    let v3 = built(
        "5C133"@,
        "AirPodsMax"@,
        "2025-09-20"@,
        seq!["BatteryMonitoring"@, "ANC"@, "AdaptiveTransparency"@],
    );
    let v4 = built("5B132"@, "AirPods4"@, "2025-08-10"@, seq!["BatteryMonitoring"@, "ANC"@]);
    let v5 = built("5A131"@, "AirPods3"@, "2025-07-05"@, seq!["BatteryMonitoring"@, "ANC"@]);
    with_entry(
        with_entry(
            with_entry(
                with_entry(with_entry(Seq::empty(), v1.version, v1), v2.version, v2),
                v3.version,
                v3,
            ),
            v4.version,
            v4,
        ),
        v5.version,
        v5,
    )
}

/// The device models that every analyzer knows.
pub open spec fn base_device_models() -> Seq<Seq<char>> {
    seq![
        "AirPods2"@,
        "AirPods3"@,
        "AirPods4"@,
        "AirPodsProGen1"@,
        "AirPodsProGen2"@,
        "AirPodsProGen3"@,
        "AirPodsMax"@,
        "BeatsFitPro"@,
    ]
}

/// The position of the latest among the first `count` dates: the last of
/// those that no other date exceeds, or -1 where there is no date.
pub open spec fn latest_position(dates: Seq<Seq<char>>, count: int) -> int
    decreases count,
{
    if count <= 0 || count > dates.len() {
        -1
    } else {
        let earlier = latest_position(dates, count - 1);
        if earlier < 0 || text_le(dates[earlier], dates[count - 1]) {
            count - 1
        } else {
            earlier
        }
    }
}

/// The strings of `items` that stand neither in `exclude` nor earlier in
/// `items`, in their order.
pub open spec fn fresh(items: Seq<String>, exclude: Seq<String>) -> Seq<String>
    decreases items.len(),
{
    if items.len() == 0 {
        Seq::empty()
    } else {
        let earlier = fresh(items.drop_last(), exclude);
        if texts(exclude).contains(items.last()@) || texts(earlier).contains(items.last()@) {
            earlier
        } else {
            earlier.push(items.last())
        }
    }
}

/// The strings of `items` that stand neither in `exclude` nor earlier in
/// `items`, in their order.
pub fn select_fresh(items: &[String], exclude: &[String]) -> (selected: Vec<String>)
    ensures
        selected@ == fresh(items@, exclude@),
{
    let mut selected: Vec<String> = Vec::new();
    let mut i: usize = 0;
    assert(items@.take(0) =~= Seq::<String>::empty());
    while i < items.len()
        invariant
            i <= items@.len(),
            selected@ == fresh(items@.take(i as int), exclude@),
        decreases items@.len() - i,
    {
        assert(items@.take(i + 1).drop_last() =~= items@.take(i as int));
        let item = &items[i];
        if !strings_contain(exclude, item.as_str()) && !strings_contain(
            selected.as_slice(),
            item.as_str(),
        ) {
            selected.push(item.clone());
        }
        i += 1;
    }
    assert(items@.take(i as int) =~= items@);
    selected
}

/// The row of one version in the list of all versions.
pub open spec fn version_row(info: FirmwareInfoView) -> Seq<char> {
    "  "@ + info.version + " ("@ + info.device_model + ") - "@ + info.release_date + "\n"@
}

/// The release dates of the entries.
pub open spec fn release_dates(versions: Seq<(Seq<char>, FirmwareInfoView)>) -> Seq<Seq<char>> {
    versions.map_values(|e: (Seq<char>, FirmwareInfoView)| e.1.release_date)
}

/// Firmware versions by version text, and the known device models.
#[derive(Debug, Clone)]
pub struct FirmwareAnalyzer {
    known_versions: TextMap<FirmwareInfo>,
    device_models: Vec<String>,
}

/// The mathematical content of an analyzer.
pub ghost struct FirmwareAnalyzerView {
    pub versions: Seq<(Seq<char>, FirmwareInfoView)>,
    pub device_models: Seq<Seq<char>>,
}

impl FirmwareAnalyzerView {
    /// The latest version: the one with the latest release date, the last
    /// of them where several share it.
    pub open spec fn latest(self) -> Option<FirmwareInfoView> {
        let at = latest_position(release_dates(self.versions), self.versions.len() as int);
        if 0 <= at < self.versions.len() {
            Some(self.versions[at].1)
        } else {
            None
        }
    }

    /// The positions of the versions, latest release first, equal dates in
    /// the order of the table.
    pub open spec fn by_date(self) -> Seq<int> {
        ranked(self.versions.len(), later_text(release_dates(self.versions)))
    }

    /// The report on the analyzer's versions.
    pub open spec fn report(self) -> Seq<char> {
        let head = "=== FIRMWARE ANALYSIS REPORT ===\n\n"@ + "Known Versions: "@ + decimal(
            self.versions.len(),
        ) + "\n"@ + "Device Models: "@ + decimal(self.device_models.len()) + "\n\n"@;
        let top = match self.latest() {
            Some(info) => head + "Latest Version: "@ + info.version + "\n"@ + "Device: "@
                + info.device_model + "\n"@ + "Release Date: "@ + info.release_date + "\n"@
                + "Features: "@ + decimal(info.features.len()) + "\n\n"@ + listed_texts(
                info.features,
                "  - "@,
                "\n"@,
            ),
            None => head,
        };
        top + "\nAll Known Versions:\n"@ + joined(
            self.by_date(),
            |at: int| version_row(self.versions[at].1),
        )
    }
}

impl View for FirmwareAnalyzer {
    type V = FirmwareAnalyzerView;

    closed spec fn view(&self) -> FirmwareAnalyzerView {
        FirmwareAnalyzerView {
            versions: mapped_values(self.known_versions@, |f: FirmwareInfo| f@),
            device_models: texts(self.device_models@),
        }
    }
}

/// The contents of the versions that a sequence of references points to.
pub open spec fn info_views(infos: Seq<&FirmwareInfo>) -> Seq<FirmwareInfoView> {
    infos.map_values(|f: &FirmwareInfo| f@)
}

/// The versions of the entries, without their keys.
pub open spec fn entry_infos(entries: Seq<(Seq<char>, FirmwareInfoView)>) -> Seq<FirmwareInfoView> {
    entries.map_values(|e: (Seq<char>, FirmwareInfoView)| e.1)
}

/// A list of feature names.
fn feature_list(first: &str, second: &str, third: Option<&str>) -> (features: Vec<String>)
    ensures
        texts(features@) == match third {
            Some(name) => seq![first@, second@, name@],
            None => seq![first@, second@],
        },
{
    let mut features: Vec<String> = Vec::new();
    features.push(String::from_str(first));
    features.push(String::from_str(second));
    match third {
        Some(name) => {
            features.push(String::from_str(name));
        },
        None => {},
    }
    assert(texts(features@) =~= match third {
        Some(name) => seq![first@, second@, name@],
        None => seq![first@, second@],
    });
    features
}

impl FirmwareAnalyzer {
    /// An analyzer with the versions and device models that are known from
    /// the start.
    pub fn new() -> (analyzer: Self)
        ensures
            analyzer@ == (FirmwareAnalyzerView {
                versions: base_versions(),
                device_models: base_device_models(),
            }),
    {
        let mut device_models: Vec<String> = Vec::new();
        device_models.push(String::from_str("AirPods2"));
        device_models.push(String::from_str("AirPods3"));
        device_models.push(String::from_str("AirPods4"));
        device_models.push(String::from_str("AirPodsProGen1"));
        device_models.push(String::from_str("AirPodsProGen2"));
        device_models.push(String::from_str("AirPodsProGen3"));
        device_models.push(String::from_str("AirPodsMax"));
        device_models.push(String::from_str("BeatsFitPro"));
        assert(texts(device_models@) =~= base_device_models());
        let mut analyzer = Self { known_versions: TextMap::new(), device_models };
        assert(analyzer@.versions =~= Seq::<(Seq<char>, FirmwareInfoView)>::empty());
        analyzer.initialize_known_versions();
        analyzer
    }

    /// Files one version with the build number that is made of its version
    /// text.
    fn file_version(&mut self, version: &str, model: &str, date: &str, features: Vec<String>)
        ensures
            final(self)@ == (FirmwareAnalyzerView {
                versions: with_entry(
                    old(self)@.versions,
                    version@,
                    built(version@, model@, date@, texts(features@)),
                ),
                ..old(self)@
            }),
    {
        let info = FirmwareInfo {
            version: String::from_str(version),
            device_model: String::from_str(model),
            release_date: String::from_str(date),
            features,
            build_number: String::from_str("BUILD_").concat(version),
        };
        self.add_firmware_version(info);
    }

    /// Files the versions that are known from the start, over what is
    /// there.
    fn initialize_known_versions(&mut self)
        requires
            old(self)@.versions.len() == 0,
        ensures
            final(self)@ == (FirmwareAnalyzerView {
                versions: base_versions(),
                ..old(self)@
            }),
    {
        assert(self@.versions =~= Seq::<(Seq<char>, FirmwareInfoView)>::empty());
        self.file_version(
            "5E135",
            "AirPodsProGen2",
            "2025-11-21",
            feature_list("BatteryMonitoring", "ANC", Some("SpatialAudio")),
        );
        self.file_version(
            "5D134",
            "AirPodsProGen2",
            "2025-10-15",
            feature_list("BatteryMonitoring", "ANC", None),
        );
        self.file_version(
            "5C133",
            "AirPodsMax",
            "2025-09-20",
            feature_list("BatteryMonitoring", "ANC", Some("AdaptiveTransparency")),
        );
        self.file_version(
            "5B132",
            "AirPods4",
            "2025-08-10",
            feature_list("BatteryMonitoring", "ANC", None),
        );
        self.file_version(
            "5A131",
            "AirPods3",
            "2025-07-05",
            feature_list("BatteryMonitoring", "ANC", None),
        );
    }

    /// The table of known versions.
    pub fn versions(&self) -> (table: &TextMap<FirmwareInfo>)
        ensures
            mapped_values(table@, |f: FirmwareInfo| f@) == self@.versions,
    {
        &self.known_versions
    }

    pub fn get_firmware_info(&self, version: &str) -> (info: Option<&FirmwareInfo>)
        ensures
            match info {
                Some(found) => value_under(self@.versions, version@) == Some(found@),
                None => value_under(self@.versions, version@).is_none(),
            },
    {
        proof {
            lemma_mapped_values(self.known_versions@, |f: FirmwareInfo| f@, version@);
        }
        self.known_versions.get(version)
    }

    /// Files a version under its version text, over one that was there.
    pub fn add_firmware_version(&mut self, info: FirmwareInfo)
        ensures
            final(self)@ == (FirmwareAnalyzerView {
                versions: with_entry(old(self)@.versions, info@.version, info@),
                ..old(self)@
            }),
    {
        let key = info.version.clone();
        proof {
            lemma_mapped_with_entry(self.known_versions@, |f: FirmwareInfo| f@, key@, info);
        }
        self.known_versions.insert(key, info);
    }

    pub fn is_known_version(&self, version: &str) -> (known: bool)
        ensures
            known == has_key(self@.versions, version@),
    {
        proof {
            lemma_mapped_values(self.known_versions@, |f: FirmwareInfo| f@, version@);
        }
        self.known_versions.contains_key(version)
    }

    /// The version with the latest release date, the last of them in the
    /// table where several share it.
    pub fn get_latest_version(&self) -> (latest: Option<&FirmwareInfo>)
        ensures
            match latest {
                Some(info) => self@.latest() == Some(info@),
                None => self@.latest().is_none(),
            },
    {
        let ghost dates = release_dates(self@.versions);
        if self.known_versions.len() == 0 {
            return None;
        }
        let mut best: usize = 0;
        let mut i: usize = 1;
        assert(latest_position(dates, 0) == -1);
        assert(latest_position(dates, 1) == 0);
        while i < self.known_versions.len()
            invariant
                1 <= i <= self.known_versions@.len(),
                dates == release_dates(self@.versions),
                dates.len() == self.known_versions@.len(),
                best == latest_position(dates, i as int),
                best < i,
            decreases self.known_versions@.len() - i,
        {
            let candidate = self.known_versions.value_at(i);
            let current = self.known_versions.value_at(best);
            assert(dates[i as int] == candidate.release_date@);
            assert(dates[best as int] == current.release_date@);
            if le(current.release_date.as_str(), candidate.release_date.as_str()) {
                best = i;
            }
            i += 1;
        }
        let found = self.known_versions.value_at(best);
        assert(self@.versions[best as int].1 == found@);
        Some(found)
    }

    /// The versions for one device model, in the order of the table.
    pub fn get_versions_for_model(&self, model: &str) -> (found: Vec<&FirmwareInfo>)
        ensures
            info_views(found@) == entry_infos(self@.versions).filter(
                |f: FirmwareInfoView| f.device_model == model@,
            ),
    {
        let ghost all = entry_infos(self@.versions);
        let ghost keep = |f: FirmwareInfoView| f.device_model == model@;
        let mut found: Vec<&FirmwareInfo> = Vec::new();
        let mut i: usize = 0;
        proof {
            lemma_select_ends(all, keep);
        }
        while i < self.known_versions.len()
            invariant
                i <= self.known_versions@.len(),
                all == entry_infos(self@.versions),
                all.len() == self.known_versions@.len(),
                keep == |f: FirmwareInfoView| f.device_model == model@,
                info_views(found@) == all.take(i as int).filter(keep),
            decreases self.known_versions@.len() - i,
        {
            let info = self.known_versions.value_at(i);
            proof {
                lemma_select_step(all, i as int, keep);
                assert(all[i as int] == info@);
            }
            if crate::text::same_text(info.device_model.as_str(), model) {
                let ghost before = found@;
                found.push(info);
                assert(info_views(found@) =~= info_views(before).push(info@));
            }
            i += 1;
        }
        proof {
            lemma_select_ends(all, keep);
        }
        found
    }

    /// What is new in `new_versions` and what is gone from `old_versions`:
    /// each version once, in the order in which the lists name it.
    pub fn detect_version_changes(&self, old_versions: Vec<String>, new_versions: Vec<String>) -> (changes:
        (Vec<String>, Vec<String>))
        ensures
            changes.0@ == fresh(new_versions@, old_versions@),
            changes.1@ == fresh(old_versions@, new_versions@),
    {
        let added = select_fresh(new_versions.as_slice(), old_versions.as_slice());
        let removed = select_fresh(old_versions.as_slice(), new_versions.as_slice());
        (added, removed)
    }

    /// The features of a version, or none where the version is not known.
    pub fn extract_features_from_version(&self, version: &str) -> (features: Vec<String>)
        ensures
            texts(features@) == match value_under(self@.versions, version@) {
                Some(info) => info.features,
                None => Seq::<Seq<char>>::empty(),
            },
    {
        match self.get_firmware_info(version) {
            Some(info) => clone_strings(info.features.as_slice()),
            None => {
                let features: Vec<String> = Vec::new();
                assert(texts(features@) =~= Seq::<Seq<char>>::empty());
                features
            },
        }
    }

    pub fn is_valid_device_model(&self, model: &str) -> (valid: bool)
        ensures
            valid == self@.device_models.contains(model@),
    {
        strings_contain(self.device_models.as_slice(), model)
    }

    pub fn get_all_device_models(&self) -> (models: Vec<String>)
        ensures
            texts(models@) == self@.device_models,
    {
        clone_strings(self.device_models.as_slice())
    }

    /// The version texts of the table, in its order.
    pub fn get_all_known_versions(&self) -> (versions: Vec<String>)
        ensures
            versions@.len() == self@.versions.len(),
            forall|i: int| 0 <= i < versions@.len() ==> (#[trigger] versions@[i])@ == self@.versions[i].0,
    {
        let mut versions: Vec<String> = Vec::new();
        let mut i: usize = 0;
        while i < self.known_versions.len()
            invariant
                i <= self.known_versions@.len(),
                versions@.len() == i,
                forall|j: int| 0 <= j < i ==> (#[trigger] versions@[j])@ == self.known_versions@[j].0,
            decreases self.known_versions@.len() - i,
        {
            versions.push(self.known_versions.key_at(i).clone());
            i += 1;
        }
        versions
    }

    /// The release dates of the table, in its order.
    fn dates(&self) -> (dates: Vec<String>)
        ensures
            texts(dates@) == release_dates(self@.versions),
    {
        let mut dates: Vec<String> = Vec::new();
        let mut i: usize = 0;
        while i < self.known_versions.len()
            invariant
                i <= self.known_versions@.len(),
                dates@.len() == i,
                forall|j: int|
                    0 <= j < i ==> (#[trigger] dates@[j])@ == self.known_versions@[j].1.release_date@,
            decreases self.known_versions@.len() - i,
        {
            dates.push(self.known_versions.value_at(i).release_date.clone());
            i += 1;
        }
        assert(texts(dates@) =~= release_dates(self@.versions));
        dates
    }

    /// The report on the known versions, as text: the counts, the latest
    /// version with its features, and all versions, latest release first.
    pub fn generate_firmware_report(&self) -> (report: String)
        ensures
            report@ == self@.report(),
    {
        let mut report = String::from_str("=== FIRMWARE ANALYSIS REPORT ===\n\n");
        push_count_field(&mut report, "Known Versions: ", self.known_versions.len(), "\n");
        push_count_field(&mut report, "Device Models: ", self.device_models.len(), "\n\n");
        match self.get_latest_version() {
            Some(latest) => {
                push_field(&mut report, "Latest Version: ", latest.version.as_str(), "\n");
                push_field(&mut report, "Device: ", latest.device_model.as_str(), "\n");
                push_field(&mut report, "Release Date: ", latest.release_date.as_str(), "\n");
                push_count_field(&mut report, "Features: ", latest.features.len(), "\n\n");
                push_listed(&mut report, latest.features.as_slice(), "  - ", "\n");
            },
            None => {},
        }
        report.append("\nAll Known Versions:\n");
        let dates = self.dates();
        let order = rank_descending(dates.as_slice());
        let ghost versions = self@.versions;
        let ghost places = order@.map_values(|i: usize| i as int);
        let ghost line = |at: int| version_row(versions[at].1);
        let ghost head = report@;
        proof {
            lemma_texts_rank(release_dates(versions));
            lemma_ranked(versions.len(), later_text(release_dates(versions)));
            lemma_joined_ends(places, line);
            assert(report@ =~= head + joined(places.take(0), line));
        }
        let mut i: usize = 0;
        while i < order.len()
            invariant
                i <= order@.len(),
                versions == self@.versions,
                versions.len() == self.known_versions@.len(),
                places == order@.map_values(|i: usize| i as int),
                places == self@.by_date(),
                forall|k: int| 0 <= k < places.len() ==> 0 <= #[trigger] places[k] < versions.len(),
                line == |at: int| version_row(versions[at].1),
                report@ == head + joined(places.take(i as int), line),
            decreases order@.len() - i,
        {
            proof {
                lemma_joined_step(places, i as int, line);
                assert(places[i as int] == order@[i as int] as int);
            }
            let info = self.known_versions.value_at(order[i]);
            assert(versions[order@[i as int] as int].1 == info@);
            let ghost before = report@;
            push_field(&mut report, "  ", info.version.as_str(), " (");
            report.append(info.device_model.as_str());
            report.append(") - ");
            report.append(info.release_date.as_str());
            report.append("\n");
            assert(report@ =~= before + version_row(info@));
            assert(report@ =~= head + joined(places.take(i + 1), line));
            i += 1;
        }
        proof {
            lemma_joined_ends(places, line);
            assert(report@ == self@.report());
        }
        report
    }
}

impl Default for FirmwareAnalyzer {
    fn default() -> (analyzer: Self)
        ensures
            analyzer@ == (FirmwareAnalyzerView {
                versions: base_versions(),
                device_models: base_device_models(),
            }),
    {
        Self::new()
    }
}

} // verus!
