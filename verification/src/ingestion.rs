//! Takes in what was fetched from the upstream, keeps it in one record and
//! reports on it.

use crate::collections::{lemma_mapped_with_entry, mapped_values, value_under, with_entry, TextMap};
use crate::error::Result;
use crate::text::{
    bool_text,
    decimal,
    lemma_joined_ends,
    lemma_joined_step,
    joined,
    listed,
    byte_prefix,
    can_cut,
    cuts_at,
    head_bytes,
    push_bool_field,
    push_count_field,
    push_field,
    push_listed,
    push_number_field,
};
use crate::upstream::{
    Commit,
    FirmwareVersion,
    FirmwareVersionView,
    ProtocolDefinition,
    Release,
    Tag,
    UpstreamDiff,
    UpstreamRepository,
};
use vstd::prelude::*;

verus! {

/// The contents of firmware versions, in order.
pub open spec fn firmware_views(list: Seq<FirmwareVersion>) -> Seq<FirmwareVersionView> {
    list.map_values(|f: FirmwareVersion| f@)
}

/// The cache after the versions of `list` were filed in it, each under its
/// version text, later ones over earlier ones.
pub open spec fn filed(
    cache: Seq<(Seq<char>, FirmwareVersionView)>,
    list: Seq<FirmwareVersionView>,
) -> Seq<(Seq<char>, FirmwareVersionView)>
    decreases list.len(),
{
    if list.len() == 0 {
        cache
    } else {
        with_entry(filed(cache, list.drop_last()), list.last().version, list.last())
    }
}

/// The line of one dependency change.
pub open spec fn dependency_line(entry: (Seq<char>, String)) -> Seq<char> {
    "  - "@ + entry.0 + ": "@ + entry.1@ + "\n"@
}

/// The report on a record.
pub open spec fn ingestion_report(diff: UpstreamDiff) -> Seq<char> {
    let head = "=== UPSTREAM DATA INGESTION REPORT ===\n\n"@ + "Repository: "@
        + diff.repository.full_name@ + "\n"@ + "Owner: "@ + diff.repository.owner@ + "\n"@
        + "Stars: "@ + decimal(diff.repository.stars as nat) + "\n"@ + "Forks: "@ + decimal(
        diff.repository.forks as nat,
    ) + "\n"@ + "Open Issues: "@ + decimal(diff.repository.open_issues as nat) + "\n\n"@
        + "Latest Commits: "@ + decimal(diff.latest_commits@.len()) + "\n"@;
    let commits = if diff.latest_commits@.len() > 0 {
        head + "  Latest: "@ + byte_prefix(diff.latest_commits@[0].sha@, 8) + " ("@
            + diff.latest_commits@[0].date@ + ")\n"@
    } else {
        head
    };
    let counted = commits + "\nLatest Releases: "@ + decimal(diff.latest_releases@.len()) + "\n"@;
    let releases = if diff.latest_releases@.len() > 0 {
        counted + "  Latest: "@ + diff.latest_releases@[0].tag_name@ + " ("@
            + diff.latest_releases@[0].published_at@ + ")\n"@
    } else {
        counted
    };
    releases + "\nTags: "@ + decimal(diff.tags@.len()) + "\n"@ + "Firmware Versions: "@ + decimal(
        diff.firmware_versions@.len(),
    ) + "\n"@ + "\nProtocol Drift: "@ + bool_text(diff.drifted()) + "\n"@ + "Breaking Changes: "@
        + bool_text(diff.breaking()) + "\n"@ + "\nNew Message Types: "@ + decimal(
        diff.new_message_types@.len(),
    ) + "\n"@ + listed(diff.new_message_types@, "  - "@, "\n"@) + "\nNew UUIDs: "@ + decimal(
        diff.new_uuids@.len(),
    ) + "\n"@ + listed(diff.new_uuids@, "  - "@, "\n"@) + "\nNew Features: "@ + decimal(
        diff.new_features@.len(),
    ) + "\n"@ + listed(diff.new_features@, "  - "@, "\n"@) + "\nDependency Changes: "@ + decimal(
        diff.dependency_changes@.len(),
    ) + "\n"@ + joined(diff.dependency_changes@, |e: (Seq<char>, String)| dependency_line(e))
        + "\nLast Sync: "@ + diff.last_sync@ + "\n"@
}

/// The record of the upstream with a cache of firmware versions by version
/// text.
pub struct DataIngestionEngine {
    upstream_diff: UpstreamDiff,
    protocol_cache: TextMap<String>,
    firmware_cache: TextMap<FirmwareVersion>,
}

impl DataIngestionEngine {
    /// The record.
    pub closed spec fn diff(&self) -> UpstreamDiff {
        self.upstream_diff
    }

    /// The cached firmware versions by version text.
    pub closed spec fn cache(&self) -> Seq<(Seq<char>, FirmwareVersionView)> {
        mapped_values(self.firmware_cache@, |f: FirmwareVersion| f@)
    }

    pub fn new() -> (engine: Self)
        ensures
            engine.diff().is_blank(),
            engine.cache() == Seq::<(Seq<char>, FirmwareVersionView)>::empty(),
    {
        let engine = Self {
            upstream_diff: UpstreamDiff::new(),
            protocol_cache: TextMap::new(),
            firmware_cache: TextMap::new(),
        };
        assert(engine.cache() =~= Seq::<(Seq<char>, FirmwareVersionView)>::empty());
        engine
    }

    pub fn ingest_repository_metadata(
        &mut self,
        name: String,
        full_name: String,
        owner: String,
        url: String,
        description: String,
        stars: u32,
        forks: u32,
        open_issues: u32,
        language: String,
        license: String,
        updated_at: String,
        pushed_at: String,
    ) -> (outcome: Result<()>)
        ensures
            outcome.is_ok(),
            final(self).diff() == (UpstreamDiff {
                repository: UpstreamRepository {
                    name,
                    full_name,
                    owner,
                    url,
                    description,
                    stars,
                    forks,
                    open_issues,
                    language,
                    license,
                    updated_at,
                    pushed_at,
                },
                ..old(self).diff()
            }),
            final(self).cache() == old(self).cache(),
    {
        self.upstream_diff.repository = UpstreamRepository {
            name,
            full_name,
            owner,
            url,
            description,
            stars,
            forks,
            open_issues,
            language,
            license,
            updated_at,
            pushed_at,
        };
        Ok(())
    }

    /// Appends the commits to the record, in their order.
    pub fn ingest_commits(&mut self, commits: Vec<Commit>) -> (outcome: Result<()>)
        ensures
            outcome.is_ok(),
            final(self).diff().latest_commits@ == old(self).diff().latest_commits@ + commits@,
            final(self).diff() == (UpstreamDiff {
                latest_commits: final(self).diff().latest_commits,
                ..old(self).diff()
            }),
            final(self).cache() == old(self).cache(),
    {
        let mut commits = commits;
        self.upstream_diff.latest_commits.append(&mut commits);
        Ok(())
    }

    /// Appends the releases to the record, in their order.
    pub fn ingest_releases(&mut self, releases: Vec<Release>) -> (outcome: Result<()>)
        ensures
            outcome.is_ok(),
            final(self).diff().latest_releases@ == old(self).diff().latest_releases@ + releases@,
            final(self).diff() == (UpstreamDiff {
                latest_releases: final(self).diff().latest_releases,
                ..old(self).diff()
            }),
            final(self).cache() == old(self).cache(),
    {
        let mut releases = releases;
        self.upstream_diff.latest_releases.append(&mut releases);
        Ok(())
    }

    /// Appends the tags to the record, in their order.
    pub fn ingest_tags(&mut self, tags: Vec<Tag>) -> (outcome: Result<()>)
        ensures
            outcome.is_ok(),
            final(self).diff().tags@ == old(self).diff().tags@ + tags@,
            final(self).diff() == (UpstreamDiff {
                tags: final(self).diff().tags,
                ..old(self).diff()
            }),
            final(self).cache() == old(self).cache(),
    {
        let mut tags = tags;
        self.upstream_diff.tags.append(&mut tags);
        Ok(())
    }

    pub fn ingest_protocol_definitions(&mut self, protocol: ProtocolDefinition) -> (outcome:
        Result<()>)
        ensures
            outcome.is_ok(),
            final(self).diff() == (UpstreamDiff {
                protocol_definitions: protocol,
                ..old(self).diff()
            }),
            final(self).cache() == old(self).cache(),
    {
        self.upstream_diff.protocol_definitions = protocol;
        Ok(())
    }

    /// Appends the firmware versions to the record and files each in the
    /// cache under its version text.
    pub fn ingest_firmware_versions(&mut self, firmware_versions: Vec<FirmwareVersion>) -> (outcome:
        Result<()>)
        ensures
            outcome.is_ok(),
            firmware_views(final(self).diff().firmware_versions@) == firmware_views(
                old(self).diff().firmware_versions@,
            ) + firmware_views(firmware_versions@),
            final(self).diff() == (UpstreamDiff {
                firmware_versions: final(self).diff().firmware_versions,
                ..old(self).diff()
            }),
            final(self).cache() == filed(old(self).cache(), firmware_views(firmware_versions@)),
    {
        let ghost list = firmware_views(firmware_versions@);
        let mut i: usize = 0;
        proof {
            assert(list.take(0) =~= Seq::<FirmwareVersionView>::empty());
            assert(firmware_views(self.upstream_diff.firmware_versions@) =~= firmware_views(
                old(self).diff().firmware_versions@,
            ) + list.take(0));
        }
        while i < firmware_versions.len()
            invariant
                i <= firmware_versions@.len(),
                list == firmware_views(firmware_versions@),
                firmware_views(self.upstream_diff.firmware_versions@) == firmware_views(
                    old(self).diff().firmware_versions@,
                ) + list.take(i as int),
                self.upstream_diff == (UpstreamDiff {
                    firmware_versions: self.upstream_diff.firmware_versions,
                    ..old(self).diff()
                }),
                self.cache() == filed(old(self).cache(), list.take(i as int)),
            decreases firmware_versions@.len() - i,
        {
            let firmware = &firmware_versions[i];
            let for_list = firmware.clone();
            let for_cache = firmware.clone();
            let key = firmware.version.clone();
            proof {
                assert(list.take(i + 1).drop_last() =~= list.take(i as int));
                assert(list.take(i + 1).last() == firmware@);
                lemma_mapped_with_entry(
                    self.firmware_cache@,
                    |f: FirmwareVersion| f@,
                    key@,
                    for_cache,
                );
            }
            let ghost before = self.upstream_diff.firmware_versions@;
            self.upstream_diff.add_firmware(for_list);
            assert(firmware_views(self.upstream_diff.firmware_versions@) =~= firmware_views(before)
                .push(firmware@));
            assert(firmware_views(self.upstream_diff.firmware_versions@) =~= firmware_views(
                old(self).diff().firmware_versions@,
            ) + list.take(i + 1));
            self.firmware_cache.insert(key, for_cache);
            i += 1;
        }
        assert(list.take(i as int) =~= list);
        Ok(())
    }

    pub fn detect_new_message_types(&mut self, new_types: Vec<String>) -> (outcome: Result<()>)
        ensures
            outcome.is_ok(),
            final(self).diff() == (UpstreamDiff {
                new_message_types: new_types,
                ..old(self).diff()
            }),
            final(self).cache() == old(self).cache(),
    {
        self.upstream_diff.new_message_types = new_types;
        Ok(())
    }

    pub fn detect_new_uuids(&mut self, new_uuids: Vec<String>) -> (outcome: Result<()>)
        ensures
            outcome.is_ok(),
            final(self).diff() == (UpstreamDiff { new_uuids, ..old(self).diff() }),
            final(self).cache() == old(self).cache(),
    {
        self.upstream_diff.new_uuids = new_uuids;
        Ok(())
    }

    pub fn detect_new_features(&mut self, new_features: Vec<String>) -> (outcome: Result<()>)
        ensures
            outcome.is_ok(),
            final(self).diff() == (UpstreamDiff { new_features, ..old(self).diff() }),
            final(self).cache() == old(self).cache(),
    {
        self.upstream_diff.new_features = new_features;
        Ok(())
    }

    pub fn ingest_dependency_changes(&mut self, changes: TextMap<String>) -> (outcome: Result<()>)
        ensures
            outcome.is_ok(),
            final(self).diff() == (UpstreamDiff {
                dependency_changes: changes,
                ..old(self).diff()
            }),
            final(self).cache() == old(self).cache(),
    {
        self.upstream_diff.dependency_changes = changes;
        Ok(())
    }

    /// The first commit of the record, which is the latest where commits
    /// were ingested newest first.
    pub fn get_latest_commit(&self) -> (commit: Option<&Commit>)
        ensures
            match commit {
                Some(c) => self.diff().latest_commits@.len() > 0 && *c
                    == self.diff().latest_commits@[0],
                None => self.diff().latest_commits@.len() == 0,
            },
    {
        if self.upstream_diff.latest_commits.len() > 0 {
            Some(&self.upstream_diff.latest_commits[0])
        } else {
            None
        }
    }

    /// The first release of the record.
    pub fn get_latest_release(&self) -> (release: Option<&Release>)
        ensures
            match release {
                Some(r) => self.diff().latest_releases@.len() > 0 && *r
                    == self.diff().latest_releases@[0],
                None => self.diff().latest_releases@.len() == 0,
            },
    {
        if self.upstream_diff.latest_releases.len() > 0 {
            Some(&self.upstream_diff.latest_releases[0])
        } else {
            None
        }
    }

    pub fn get_firmware_by_version(&self, version: &str) -> (firmware: Option<&FirmwareVersion>)
        ensures
            match firmware {
                Some(f) => value_under(self.cache(), version@) == Some(f@),
                None => value_under(self.cache(), version@).is_none(),
            },
    {
        proof {
            crate::collections::lemma_mapped_values(
                self.firmware_cache@,
                |f: FirmwareVersion| f@,
                version@,
            );
        }
        self.firmware_cache.get(version)
    }

    pub fn has_protocol_drift(&self) -> (drift: bool)
        ensures
            drift == self.diff().drifted(),
    {
        self.upstream_diff.detect_protocol_drift()
    }

    pub fn has_breaking_changes(&self) -> (breaking: bool)
        ensures
            breaking == self.diff().breaking(),
    {
        self.upstream_diff.has_breaking_changes()
    }

    pub fn get_diff(&self) -> (diff: &UpstreamDiff)
        ensures
            *diff == self.diff(),
    {
        &self.upstream_diff
    }

    /// The record, for changing it in place. The cache is left alone.
    pub fn get_diff_mut(&mut self) -> (diff: &mut UpstreamDiff)
        ensures
            *diff == old(self).diff(),
            final(self).diff() == *final(diff),
            final(self).cache() == old(self).cache(),
    {
        &mut self.upstream_diff
    }

    /// Whether the report can be made: there is no commit, or the hash of
    /// the first commit can be cut after eight bytes.
    pub open spec fn reportable(&self) -> bool {
        self.diff().latest_commits@.len() > 0 ==> cuts_at(self.diff().latest_commits@[0].sha@, 8)
    }

    /// Whether the report can be made.
    pub fn can_report(&self) -> (ready: bool)
        ensures
            ready == self.reportable(),
    {
        match self.get_latest_commit() {
            Some(commit) => can_cut(commit.sha.as_str(), 8),
            None => true,
        }
    }

    /// The report on the record, as text. Of the first commit it shows the
    /// first eight bytes of the hash, so that hash must be cut there: it has
    /// at least eight bytes, and no character lies across the eighth.
    pub fn generate_ingestion_report(&self) -> (report: String)
        requires
            self.reportable(),
        ensures
            report@ == ingestion_report(self.diff()),
    {
        let diff = &self.upstream_diff;
        let mut report = String::from_str("=== UPSTREAM DATA INGESTION REPORT ===\n\n");
        push_field(&mut report, "Repository: ", diff.repository.full_name.as_str(), "\n");
        push_field(&mut report, "Owner: ", diff.repository.owner.as_str(), "\n");
        push_number_field(&mut report, "Stars: ", diff.repository.stars as u64, "\n");
        push_number_field(&mut report, "Forks: ", diff.repository.forks as u64, "\n");
        push_number_field(&mut report, "Open Issues: ", diff.repository.open_issues as u64, "\n\n");
        push_count_field(&mut report, "Latest Commits: ", diff.latest_commits.len(), "\n");
        match self.get_latest_commit() {
            Some(commit) => {
                let head = head_bytes(commit.sha.as_str(), 8);
                push_field(&mut report, "  Latest: ", head, " (");
                report.append(commit.date.as_str());
                report.append(")\n");
            },
            None => {},
        }
        push_count_field(&mut report, "\nLatest Releases: ", diff.latest_releases.len(), "\n");
        match self.get_latest_release() {
            Some(release) => {
                push_field(&mut report, "  Latest: ", release.tag_name.as_str(), " (");
                report.append(release.published_at.as_str());
                report.append(")\n");
            },
            None => {},
        }
        push_count_field(&mut report, "\nTags: ", diff.tags.len(), "\n");
        push_count_field(&mut report, "Firmware Versions: ", diff.firmware_versions.len(), "\n");
        push_bool_field(&mut report, "\nProtocol Drift: ", self.has_protocol_drift(), "\n");
        push_bool_field(&mut report, "Breaking Changes: ", self.has_breaking_changes(), "\n");
        push_count_field(&mut report, "\nNew Message Types: ", diff.new_message_types.len(), "\n");
        push_listed(&mut report, diff.new_message_types.as_slice(), "  - ", "\n");
        push_count_field(&mut report, "\nNew UUIDs: ", diff.new_uuids.len(), "\n");
        push_listed(&mut report, diff.new_uuids.as_slice(), "  - ", "\n");
        push_count_field(&mut report, "\nNew Features: ", diff.new_features.len(), "\n");
        push_listed(&mut report, diff.new_features.as_slice(), "  - ", "\n");
        push_count_field(&mut report, "\nDependency Changes: ", diff.dependency_changes.len(), "\n");
        let ghost line = |e: (Seq<char>, String)| dependency_line(e);
        let ghost head = report@;
        let ghost entries = diff.dependency_changes@;
        let mut i: usize = 0;
        proof {
            lemma_joined_ends(entries, line);
            assert(report@ =~= head + joined(entries.take(0), line));
        }
        while i < diff.dependency_changes.len()
            invariant
                i <= entries.len(),
                entries == diff.dependency_changes@,
                line == |e: (Seq<char>, String)| dependency_line(e),
                report@ == head + joined(entries.take(i as int), line),
            decreases entries.len() - i,
        {
            proof {
                lemma_joined_step(entries, i as int, line);
            }
            let ghost before = report@;
            push_field(&mut report, "  - ", diff.dependency_changes.key_at(i).as_str(), ": ");
            report.append(diff.dependency_changes.value_at(i).as_str());
            report.append("\n");
            assert(report@ =~= before + dependency_line(entries[i as int]));
            assert(report@ =~= head + joined(entries.take(i + 1), line));
            i += 1;
        }
        push_field(&mut report, "\nLast Sync: ", diff.last_sync.as_str(), "\n");
        report
    }
}

impl Default for DataIngestionEngine {
    fn default() -> (engine: Self)
        ensures
            engine.diff().is_blank(),
            engine.cache() == Seq::<(Seq<char>, FirmwareVersionView)>::empty(),
    {
        Self::new()
    }
}

} // verus!
