//! Records of what an upstream repository holds: its metadata, commits,
//! releases, tags, protocol definitions and firmware versions.

use crate::collections::TextMap;
use std::collections::HashMap;
use crate::text::{clone_strings, texts};
use vstd::prelude::*;

verus! {

#[derive(Debug, Clone)]
pub struct UpstreamRepository {
    pub name: String,
    pub full_name: String,
    pub owner: String,
    pub url: String,
    pub description: String,
    pub stars: u32,
    pub forks: u32,
    pub open_issues: u32,
    pub language: String,
    pub license: String,
    pub updated_at: String,
    pub pushed_at: String,
}

impl UpstreamRepository {
    /// Nothing is known of the repository: every text is empty and every
    /// count is zero.
    pub open spec fn is_blank(&self) -> bool {
        &&& self.name@.len() == 0
        &&& self.full_name@.len() == 0
        &&& self.owner@.len() == 0
        &&& self.url@.len() == 0
        &&& self.description@.len() == 0
        &&& self.stars == 0
        &&& self.forks == 0
        &&& self.open_issues == 0
        &&& self.language@.len() == 0
        &&& self.license@.len() == 0
        &&& self.updated_at@.len() == 0
        &&& self.pushed_at@.len() == 0
    }
}

#[derive(Debug, Clone)]
pub struct Commit {
    pub sha: String,
    pub message: String,
    pub author: String,
    pub date: String,
    pub url: String,
}

#[derive(Debug, Clone)]
pub struct Release {
    pub tag_name: String,
    pub name: String,
    pub draft: bool,
    pub prerelease: bool,
    pub created_at: String,
    pub published_at: String,
    pub body: String,
    pub assets: Vec<ReleaseAsset>,
}

#[derive(Debug, Clone)]
pub struct ReleaseAsset {
    pub name: String,
    pub size: u64,
    pub download_count: u32,
    pub digest: String,
    pub content_type: String,
}

#[derive(Debug, Clone)]
pub struct Tag {
    pub name: String,
    pub commit_sha: String,
}

#[derive(Debug, Clone)]
pub struct ProtocolDefinition {
    pub service_uuid: String,
    pub characteristic_uuid: String,
    pub battery_service_uuid: String,
    pub device_info_service_uuid: String,
    pub message_types: HashMap<u8, String>,
}

impl ProtocolDefinition {
    /// No identifier and no message type is known.
    pub open spec fn is_blank(&self) -> bool {
        &&& self.service_uuid@.len() == 0
        &&& self.characteristic_uuid@.len() == 0
        &&& self.battery_service_uuid@.len() == 0
        &&& self.device_info_service_uuid@.len() == 0
        &&& self.message_types@.len() == 0
    }
}

#[derive(Debug)]
pub struct FirmwareVersion {
    pub version: String,
    pub device_model: String,
    pub release_date: String,
    pub features: Vec<String>,
}

/// The mathematical content of a firmware version.
pub ghost struct FirmwareVersionView {
    pub version: Seq<char>,
    pub device_model: Seq<char>,
    pub release_date: Seq<char>,
    pub features: Seq<Seq<char>>,
}

impl View for FirmwareVersion {
    type V = FirmwareVersionView;

    open spec fn view(&self) -> FirmwareVersionView {
        FirmwareVersionView {
            version: self.version@,
            device_model: self.device_model@,
            release_date: self.release_date@,
            features: texts(self.features@),
        }
    }
}

impl Clone for FirmwareVersion {
    fn clone(&self) -> (copy: Self)
        ensures
            copy@ == self@,
    {
        Self {
            version: self.version.clone(),
            device_model: self.device_model.clone(),
            release_date: self.release_date.clone(),
            features: clone_strings(self.features.as_slice()),
        }
    }
}

/// The moment of the last synchronisation that a fresh record carries.
pub open spec fn initial_sync_stamp() -> Seq<char> {
    "2025-11-21T23:55:00Z"@
}

/// What is known of the upstream and what is new in it.
#[derive(Debug, Clone)]
pub struct UpstreamDiff {
    pub repository: UpstreamRepository,
    pub latest_commits: Vec<Commit>,
    pub latest_releases: Vec<Release>,
    pub tags: Vec<Tag>,
    pub protocol_definitions: ProtocolDefinition,
    pub firmware_versions: Vec<FirmwareVersion>,
    pub new_message_types: Vec<String>,
    pub new_uuids: Vec<String>,
    pub new_features: Vec<String>,
    pub dependency_changes: TextMap<String>,
    pub last_sync: String,
}

impl UpstreamDiff {
    /// Nothing was ingested yet.
    pub open spec fn is_blank(&self) -> bool {
        &&& self.repository.is_blank()
        &&& self.latest_commits@.len() == 0
        &&& self.latest_releases@.len() == 0
        &&& self.tags@.len() == 0
        &&& self.protocol_definitions.is_blank()
        &&& self.firmware_versions@.len() == 0
        &&& self.new_message_types@.len() == 0
        &&& self.new_uuids@.len() == 0
        &&& self.new_features@.len() == 0
        &&& self.dependency_changes@.len() == 0
        &&& self.last_sync@ == initial_sync_stamp()
    }

    /// Whether the upstream speaks a protocol that this side does not know
    /// in full: a new message type or a new identifier.
    pub open spec fn drifted(&self) -> bool {
        self.new_message_types@.len() > 0 || self.new_uuids@.len() > 0
    }

    /// Whether the novelties are too many to take over unseen: more than
    /// two message types or more than one identifier.
    pub open spec fn breaking(&self) -> bool {
        self.new_message_types@.len() > 2 || self.new_uuids@.len() > 1
    }

    pub fn new() -> (diff: Self)
        ensures
            diff.is_blank(),
    {
        Self {
            repository: UpstreamRepository {
                name: String::new(),
                full_name: String::new(),
                owner: String::new(),
                url: String::new(),
                description: String::new(),
                stars: 0,
                forks: 0,
                open_issues: 0,
                language: String::new(),
                license: String::new(),
                updated_at: String::new(),
                pushed_at: String::new(),
            },
            latest_commits: Vec::new(),
            latest_releases: Vec::new(),
            tags: Vec::new(),
            protocol_definitions: ProtocolDefinition {
                service_uuid: String::new(),
                characteristic_uuid: String::new(),
                battery_service_uuid: String::new(),
                device_info_service_uuid: String::new(),
                message_types: HashMap::new(),
            },
            firmware_versions: Vec::new(),
            new_message_types: Vec::new(),
            new_uuids: Vec::new(),
            new_features: Vec::new(),
            dependency_changes: TextMap::new(),
            last_sync: String::from_str("2025-11-21T23:55:00Z"),
        }
    }

    pub fn add_commit(&mut self, commit: Commit)
        ensures
            final(self).latest_commits@ == old(self).latest_commits@.push(commit),
            *final(self) == (UpstreamDiff {
                latest_commits: final(self).latest_commits,
                ..*old(self)
            }),
    {
        self.latest_commits.push(commit);
    }

    pub fn add_release(&mut self, release: Release)
        ensures
            final(self).latest_releases@ == old(self).latest_releases@.push(release),
            *final(self) == (UpstreamDiff {
                latest_releases: final(self).latest_releases,
                ..*old(self)
            }),
    {
        self.latest_releases.push(release);
    }

    pub fn add_tag(&mut self, tag: Tag)
        ensures
            final(self).tags@ == old(self).tags@.push(tag),
            *final(self) == (UpstreamDiff { tags: final(self).tags, ..*old(self) }),
    {
        self.tags.push(tag);
    }

    pub fn add_firmware(&mut self, firmware: FirmwareVersion)
        ensures
            final(self).firmware_versions@ == old(self).firmware_versions@.push(firmware),
            *final(self) == (UpstreamDiff {
                firmware_versions: final(self).firmware_versions,
                ..*old(self)
            }),
    {
        self.firmware_versions.push(firmware);
    }

    pub fn detect_protocol_drift(&self) -> (drift: bool)
        ensures
            drift == self.drifted(),
    {
        self.new_message_types.len() > 0 || self.new_uuids.len() > 0
    }

    pub fn has_breaking_changes(&self) -> (breaking: bool)
        ensures
            breaking == self.breaking(),
    {
        self.new_message_types.len() > 2 || self.new_uuids.len() > 1
    }
}

impl Default for UpstreamDiff {
    fn default() -> (diff: Self)
        ensures
            diff.is_blank(),
    {
        Self::new()
    }
}

} // verus!
