//! The record of how an upstream protocol has drifted from the base:
//! message types, service identifiers and features that were added,
//! changed or removed, and how grave that is.

use crate::text::{
    bool_text,
    decimal,
    hex_byte,
    joined,
    lemma_joined_ends,
    lemma_joined_step,
    listed,
    push_bool_field,
    push_count_field,
    push_field,
    push_hex_byte,
    push_listed,
    texts,
};
use vstd::prelude::*;

verus! {

#[derive(Debug, Clone)]
pub struct ProtocolElement {
    pub id: String,
    pub name: String,
    pub version: String,
    pub description: String,
    pub added_date: String,
}

/// What happened to an element of the protocol.
#[derive(Debug, Clone, Copy, PartialEq, Eq, Structural)]
pub enum DriftStatus {
    Added,
    Modified,
    Deprecated,
    Removed,
    Unchanged,
}

impl DriftStatus {
    /// The name of the status.
    pub open spec fn name_text(self) -> Seq<char> {
        match self {
            DriftStatus::Added => "Added"@,
            DriftStatus::Modified => "Modified"@,
            DriftStatus::Deprecated => "Deprecated"@,
            DriftStatus::Removed => "Removed"@,
            DriftStatus::Unchanged => "Unchanged"@,
        }
    }

    /// The name of the status.
    pub fn name(&self) -> (name: &'static str)
        ensures
            name@ == self.name_text(),
    {
        match self {
            DriftStatus::Added => "Added",
            DriftStatus::Modified => "Modified",
            DriftStatus::Deprecated => "Deprecated",
            DriftStatus::Removed => "Removed",
            DriftStatus::Unchanged => "Unchanged",
        }
    }
}

#[derive(Debug, Clone)]
pub struct MessageTypeDrift {
    pub opcode: u8,
    pub name: String,
    pub status: DriftStatus,
    pub previous_version: Option<String>,
    pub current_version: String,
    pub breaking_change: bool,
}

/// The mathematical content of the drift of a message type.
pub ghost struct MessageTypeDriftView {
    pub opcode: u8,
    pub name: Seq<char>,
    pub status: DriftStatus,
    pub previous_version: Option<Seq<char>>,
    pub current_version: Seq<char>,
    pub breaking_change: bool,
}

impl View for MessageTypeDrift {
    type V = MessageTypeDriftView;

    open spec fn view(&self) -> MessageTypeDriftView {
        MessageTypeDriftView {
            opcode: self.opcode,
            name: self.name@,
            status: self.status,
            previous_version: match self.previous_version {
                Some(text) => Some(text@),
                None => None,
            },
            current_version: self.current_version@,
            breaking_change: self.breaking_change,
        }
    }
}

#[derive(Debug, Clone)]
pub struct UUIDDrift {
    pub uuid: String,
    pub name: String,
    pub status: DriftStatus,
    pub device_models: Vec<String>,
    pub breaking_change: bool,
}

/// The mathematical content of the drift of a service identifier.
pub ghost struct UUIDDriftView {
    pub uuid: Seq<char>,
    pub name: Seq<char>,
    pub status: DriftStatus,
    pub device_models: Seq<Seq<char>>,
    pub breaking_change: bool,
}

impl View for UUIDDrift {
    type V = UUIDDriftView;

    open spec fn view(&self) -> UUIDDriftView {
        UUIDDriftView {
            uuid: self.uuid@,
            name: self.name@,
            status: self.status,
            device_models: texts(self.device_models@),
            breaking_change: self.breaking_change,
        }
    }
}

#[derive(Debug, Clone)]
pub struct FeatureDrift {
    pub feature_name: String,
    pub status: DriftStatus,
    pub affected_models: Vec<String>,
    pub breaking_change: bool,
}

/// The mathematical content of the drift of a feature.
pub ghost struct FeatureDriftView {
    pub feature_name: Seq<char>,
    pub status: DriftStatus,
    pub affected_models: Seq<Seq<char>>,
    pub breaking_change: bool,
}

impl View for FeatureDrift {
    type V = FeatureDriftView;

    open spec fn view(&self) -> FeatureDriftView {
        FeatureDriftView {
            feature_name: self.feature_name@,
            status: self.status,
            affected_models: texts(self.affected_models@),
            breaking_change: self.breaking_change,
        }
    }
}

/// How grave the drift is.
#[derive(Debug, Clone, Copy, PartialEq, Eq, Structural)]
pub enum DriftSeverity {
    NoDrift,
    Minor,
    Moderate,
    Major,
    Critical,
}

impl DriftSeverity {
    /// The name of the severity.
    pub open spec fn name_text(self) -> Seq<char> {
        match self {
            DriftSeverity::NoDrift => "None"@,
            DriftSeverity::Minor => "Minor"@,
            DriftSeverity::Moderate => "Moderate"@,
            DriftSeverity::Major => "Major"@,
            DriftSeverity::Critical => "Critical"@,
        }
    }

    /// The name of the severity.
    pub fn name(&self) -> (name: &'static str)
        ensures
            name@ == self.name_text(),
    {
        match self {
            DriftSeverity::NoDrift => "None",
            DriftSeverity::Minor => "Minor",
            DriftSeverity::Moderate => "Moderate",
            DriftSeverity::Major => "Major",
            DriftSeverity::Critical => "Critical",
        }
    }
}

/// The severity of a drift with so many changes, so many of them breaking:
/// critical above three breaking changes, major above one, moderate from
/// five changes on, minor for any change.
pub open spec fn severity_of(breaking_changes: int, total_changes: int) -> DriftSeverity {
    if breaking_changes > 3 {
        DriftSeverity::Critical
    } else if breaking_changes > 1 {
        DriftSeverity::Major
    } else if total_changes >= 5 {
        DriftSeverity::Moderate
    } else if total_changes > 0 {
        DriftSeverity::Minor
    } else {
        DriftSeverity::NoDrift
    }
}

/// How many of the drifts break compatibility.
pub open spec fn breaking_among_types(drifts: Seq<MessageTypeDrift>) -> nat {
    drifts.filter(|d: MessageTypeDrift| d.breaking_change).len()
}

/// How many of the drifts break compatibility.
pub open spec fn breaking_among_uuids(drifts: Seq<UUIDDrift>) -> nat {
    drifts.filter(|d: UUIDDrift| d.breaking_change).len()
}

/// How many of the drifts break compatibility.
pub open spec fn breaking_among_features(drifts: Seq<FeatureDrift>) -> nat {
    drifts.filter(|d: FeatureDrift| d.breaking_change).len()
}

/// Counting the breaking drifts of a list that grew by one.
pub proof fn lemma_breaking_types_push(drifts: Seq<MessageTypeDrift>, drift: MessageTypeDrift)
    ensures
        breaking_among_types(drifts.push(drift)) == breaking_among_types(drifts) + if drift.breaking_change {
            1nat
        } else {
            0nat
        },
        breaking_among_types(drifts) <= drifts.len(),
{
    drifts.lemma_filter_push(drift, |d: MessageTypeDrift| d.breaking_change);
    drifts.lemma_filter_len(|d: MessageTypeDrift| d.breaking_change);
}

/// Counting the breaking drifts of a list that grew by one.
pub proof fn lemma_breaking_uuids_push(drifts: Seq<UUIDDrift>, drift: UUIDDrift)
    ensures
        breaking_among_uuids(drifts.push(drift)) == breaking_among_uuids(drifts) + if drift.breaking_change {
            1nat
        } else {
            0nat
        },
        breaking_among_uuids(drifts) <= drifts.len(),
{
    drifts.lemma_filter_push(drift, |d: UUIDDrift| d.breaking_change);
    drifts.lemma_filter_len(|d: UUIDDrift| d.breaking_change);
}

/// Counting the breaking drifts of a list that grew by one.
pub proof fn lemma_breaking_features_push(drifts: Seq<FeatureDrift>, drift: FeatureDrift)
    ensures
        breaking_among_features(drifts.push(drift)) == breaking_among_features(drifts)
            + if drift.breaking_change {
            1nat
        } else {
            0nat
        },
        breaking_among_features(drifts) <= drifts.len(),
{
    drifts.lemma_filter_push(drift, |d: FeatureDrift| d.breaking_change);
    drifts.lemma_filter_len(|d: FeatureDrift| d.breaking_change);
}

/// The moment that a fresh report carries.
pub open spec fn initial_scan_date() -> Seq<char> {
    "2025-11-21T23:55:00Z"@
}

/// The line of the drift of one message type.
pub open spec fn message_type_line(drift: MessageTypeDrift) -> Seq<char> {
    "  0x"@ + hex_byte(drift.opcode) + " "@ + drift.name@ + " ("@ + drift.status.name_text()
        + ")\n"@
}

/// The line of the drift of one service identifier.
pub open spec fn uuid_line(drift: UUIDDrift) -> Seq<char> {
    "  "@ + drift.name@ + " ("@ + drift.status.name_text() + ")\n"@
}

/// The line of the drift of one feature.
pub open spec fn feature_line(drift: FeatureDrift) -> Seq<char> {
    "  "@ + drift.feature_name@ + " ("@ + drift.status.name_text() + ")\n"@
}

/// Everything that drifted between two versions of the protocol.
#[derive(Debug, Clone)]
pub struct ProtocolDriftReport {
    pub scan_date: String,
    pub base_version: String,
    pub upstream_version: String,
    pub message_type_drifts: Vec<MessageTypeDrift>,
    pub uuid_drifts: Vec<UUIDDrift>,
    pub feature_drifts: Vec<FeatureDrift>,
    pub total_changes: usize,
    pub breaking_changes: usize,
    pub has_drift: bool,
    pub drift_severity: DriftSeverity,
    pub recommendations: Vec<String>,
}

impl ProtocolDriftReport {
    /// Nothing has drifted.
    pub open spec fn is_blank(&self) -> bool {
        &&& self.scan_date@ == initial_scan_date()
        &&& self.message_type_drifts@.len() == 0
        &&& self.uuid_drifts@.len() == 0
        &&& self.feature_drifts@.len() == 0
        &&& self.total_changes == 0
        &&& self.breaking_changes == 0
        &&& !self.has_drift
        &&& self.drift_severity == DriftSeverity::NoDrift
        &&& self.recommendations@.len() == 0
    }

    /// The counters after one more drift was recorded.
    pub open spec fn counted(&self, before: &ProtocolDriftReport, breaking: bool) -> bool {
        &&& self.total_changes == before.total_changes + 1
        &&& self.breaking_changes == before.breaking_changes + if breaking {
            1int
        } else {
            0int
        }
        &&& self.has_drift
        &&& self.drift_severity == severity_of(
            self.breaking_changes as int,
            self.total_changes as int,
        )
    }

    /// The report on the drift.
    pub open spec fn report(&self) -> Seq<char> {
        "=== PROTOCOL DRIFT ANALYSIS REPORT ===\n\n"@ + "Base Version: "@ + self.base_version@
            + "\n"@ + "Upstream Version: "@ + self.upstream_version@ + "\n"@ + "Scan Date: "@
            + self.scan_date@ + "\n\n"@ + "Total Changes: "@ + decimal(self.total_changes as nat)
            + "\n"@ + "Breaking Changes: "@ + decimal(self.breaking_changes as nat) + "\n"@
            + "Has Drift: "@ + bool_text(self.has_drift) + "\n"@ + "Drift Severity: "@
            + self.drift_severity.name_text() + "\n\n"@ + "Message Type Drifts: "@ + decimal(
            self.message_type_drifts@.len(),
        ) + "\n"@ + joined(self.message_type_drifts@, |d: MessageTypeDrift| message_type_line(d))
            + "\nUUID Drifts: "@ + decimal(self.uuid_drifts@.len()) + "\n"@ + joined(
            self.uuid_drifts@,
            |d: UUIDDrift| uuid_line(d),
        ) + "\nFeature Drifts: "@ + decimal(self.feature_drifts@.len()) + "\n"@ + joined(
            self.feature_drifts@,
            |d: FeatureDrift| feature_line(d),
        ) + "\nRecommendations: "@ + decimal(self.recommendations@.len()) + "\n"@ + listed(
            self.recommendations@,
            "  - "@,
            "\n"@,
        )
    }

    pub fn new(base_version: String, upstream_version: String) -> (report: Self)
        ensures
            report.is_blank(),
            report.tallied(),
            report.base_version == base_version,
            report.upstream_version == upstream_version,
    {
        let report = Self {
            scan_date: String::from_str("2025-11-21T23:55:00Z"),
            base_version,
            upstream_version,
            message_type_drifts: Vec::new(),
            uuid_drifts: Vec::new(),
            feature_drifts: Vec::new(),
            total_changes: 0,
            breaking_changes: 0,
            has_drift: false,
            drift_severity: DriftSeverity::NoDrift,
            recommendations: Vec::new(),
        };
        proof {
            report.message_type_drifts@.lemma_filter_len(|d: MessageTypeDrift| d.breaking_change);
            report.uuid_drifts@.lemma_filter_len(|d: UUIDDrift| d.breaking_change);
            report.feature_drifts@.lemma_filter_len(|d: FeatureDrift| d.breaking_change);
        }
        report
    }

    /// Records the drift of a message type and counts it.
    pub fn add_message_type_drift(&mut self, drift: MessageTypeDrift)
        requires
            old(self).total_changes < usize::MAX,
            old(self).breaking_changes < usize::MAX,
        ensures
            final(self).message_type_drifts@ == old(self).message_type_drifts@.push(drift),
            final(self).counted(old(self), drift.breaking_change),
            *final(self) == (ProtocolDriftReport {
                message_type_drifts: final(self).message_type_drifts,
                total_changes: final(self).total_changes,
                breaking_changes: final(self).breaking_changes,
                has_drift: true,
                drift_severity: final(self).drift_severity,
                ..*old(self)
            }),
    {
        if drift.breaking_change {
            self.breaking_changes += 1;
        }
        self.total_changes += 1;
        self.message_type_drifts.push(drift);
        self.has_drift = true;
        self.update_severity();
    }

    /// Records the drift of a service identifier and counts it.
    pub fn add_uuid_drift(&mut self, drift: UUIDDrift)
        requires
            old(self).total_changes < usize::MAX,
            old(self).breaking_changes < usize::MAX,
        ensures
            final(self).uuid_drifts@ == old(self).uuid_drifts@.push(drift),
            final(self).counted(old(self), drift.breaking_change),
            *final(self) == (ProtocolDriftReport {
                uuid_drifts: final(self).uuid_drifts,
                total_changes: final(self).total_changes,
                breaking_changes: final(self).breaking_changes,
                has_drift: true,
                drift_severity: final(self).drift_severity,
                ..*old(self)
            }),
    {
        if drift.breaking_change {
            self.breaking_changes += 1;
        }
        self.total_changes += 1;
        self.uuid_drifts.push(drift);
        self.has_drift = true;
        self.update_severity();
    }

    /// Records the drift of a feature and counts it.
    pub fn add_feature_drift(&mut self, drift: FeatureDrift)
        requires
            old(self).total_changes < usize::MAX,
            old(self).breaking_changes < usize::MAX,
        ensures
            final(self).feature_drifts@ == old(self).feature_drifts@.push(drift),
            final(self).counted(old(self), drift.breaking_change),
            *final(self) == (ProtocolDriftReport {
                feature_drifts: final(self).feature_drifts,
                total_changes: final(self).total_changes,
                breaking_changes: final(self).breaking_changes,
                has_drift: true,
                drift_severity: final(self).drift_severity,
                ..*old(self)
            }),
    {
        if drift.breaking_change {
            self.breaking_changes += 1;
        }
        self.total_changes += 1;
        self.feature_drifts.push(drift);
        self.has_drift = true;
        self.update_severity();
    }

    /// The counters agree with the lists: every drift was counted once.
    pub open spec fn tallied(&self) -> bool {
        &&& self.total_changes == self.message_type_drifts@.len() + self.uuid_drifts@.len()
            + self.feature_drifts@.len()
        &&& self.breaking_changes == breaking_among_types(self.message_type_drifts@)
            + breaking_among_uuids(self.uuid_drifts@) + breaking_among_features(
            self.feature_drifts@,
        )
        &&& self.has_drift == (self.total_changes > 0)
        &&& self.drift_severity == severity_of(
            self.breaking_changes as int,
            self.total_changes as int,
        )
    }

    /// Records the drifts of message types in their order and counts them.
    pub fn extend_message_type_drifts(&mut self, drifts: Vec<MessageTypeDrift>)
        requires
            old(self).tallied(),
            old(self).total_changes + drifts@.len() <= usize::MAX,
        ensures
            final(self).tallied(),
            final(self).message_type_drifts@ == old(self).message_type_drifts@ + drifts@,
            *final(self) == (ProtocolDriftReport {
                message_type_drifts: final(self).message_type_drifts,
                total_changes: final(self).total_changes,
                breaking_changes: final(self).breaking_changes,
                has_drift: final(self).has_drift,
                drift_severity: final(self).drift_severity,
                ..*old(self)
            }),
    {
        let mut pending = drifts;
        let ghost all = pending@;
        proof {
            assert(self.message_type_drifts@ =~= old(self).message_type_drifts@ + all.take(0));
            assert(all.skip(0) =~= all);
        }
        while pending.len() > 0
            invariant
                self.tallied(),
                pending@.len() <= all.len(),
                pending@ == all.skip(all.len() - pending@.len()),
                self.message_type_drifts@ == old(self).message_type_drifts@ + all.take(
                    all.len() - pending@.len(),
                ),
                self.total_changes + pending@.len() <= usize::MAX,
                *self == (ProtocolDriftReport {
                    message_type_drifts: self.message_type_drifts,
                    total_changes: self.total_changes,
                    breaking_changes: self.breaking_changes,
                    has_drift: self.has_drift,
                    drift_severity: self.drift_severity,
                    ..*old(self)
                }),
            decreases pending@.len(),
        {
            let ghost done = all.len() - pending@.len();
            let ghost before = self.message_type_drifts@;
            let drift = pending.remove(0);
            proof {
                assert(drift == all[done]);
                assert(pending@ =~= all.skip(done + 1));
                lemma_breaking_types_push(before, drift);
                self.uuid_drifts@.lemma_filter_len(|d: UUIDDrift| d.breaking_change);
                self.feature_drifts@.lemma_filter_len(|d: FeatureDrift| d.breaking_change);
                assert(all.take(done + 1) =~= all.take(done).push(drift));
            }
            self.add_message_type_drift(drift);
            assert(self.message_type_drifts@ =~= old(self).message_type_drifts@ + all.take(
                done + 1,
            ));
        }
        assert(all.take(all.len() as int) =~= all);
    }

    /// Records the drifts of service identifiers in their order and counts
    /// them.
    pub fn extend_uuid_drifts(&mut self, drifts: Vec<UUIDDrift>)
        requires
            old(self).tallied(),
            old(self).total_changes + drifts@.len() <= usize::MAX,
        ensures
            final(self).tallied(),
            final(self).uuid_drifts@ == old(self).uuid_drifts@ + drifts@,
            *final(self) == (ProtocolDriftReport {
                uuid_drifts: final(self).uuid_drifts,
                total_changes: final(self).total_changes,
                breaking_changes: final(self).breaking_changes,
                has_drift: final(self).has_drift,
                drift_severity: final(self).drift_severity,
                ..*old(self)
            }),
    {
        let mut pending = drifts;
        let ghost all = pending@;
        proof {
            assert(self.uuid_drifts@ =~= old(self).uuid_drifts@ + all.take(0));
            assert(all.skip(0) =~= all);
        }
        while pending.len() > 0
            invariant
                self.tallied(),
                pending@.len() <= all.len(),
                pending@ == all.skip(all.len() - pending@.len()),
                self.uuid_drifts@ == old(self).uuid_drifts@ + all.take(all.len() - pending@.len()),
                self.total_changes + pending@.len() <= usize::MAX,
                *self == (ProtocolDriftReport {
                    uuid_drifts: self.uuid_drifts,
                    total_changes: self.total_changes,
                    breaking_changes: self.breaking_changes,
                    has_drift: self.has_drift,
                    drift_severity: self.drift_severity,
                    ..*old(self)
                }),
            decreases pending@.len(),
        {
            let ghost done = all.len() - pending@.len();
            let ghost before = self.uuid_drifts@;
            let drift = pending.remove(0);
            proof {
                assert(drift == all[done]);
                assert(pending@ =~= all.skip(done + 1));
                lemma_breaking_uuids_push(before, drift);
                self.message_type_drifts@.lemma_filter_len(|d: MessageTypeDrift| d.breaking_change);
                self.feature_drifts@.lemma_filter_len(|d: FeatureDrift| d.breaking_change);
                assert(all.take(done + 1) =~= all.take(done).push(drift));
            }
            self.add_uuid_drift(drift);
            assert(self.uuid_drifts@ =~= old(self).uuid_drifts@ + all.take(done + 1));
        }
        assert(all.take(all.len() as int) =~= all);
    }

    /// Records the drifts of features in their order and counts them.
    pub fn extend_feature_drifts(&mut self, drifts: Vec<FeatureDrift>)
        requires
            old(self).tallied(),
            old(self).total_changes + drifts@.len() <= usize::MAX,
        ensures
            final(self).tallied(),
            final(self).feature_drifts@ == old(self).feature_drifts@ + drifts@,
            *final(self) == (ProtocolDriftReport {
                feature_drifts: final(self).feature_drifts,
                total_changes: final(self).total_changes,
                breaking_changes: final(self).breaking_changes,
                has_drift: final(self).has_drift,
                drift_severity: final(self).drift_severity,
                ..*old(self)
            }),
    {
        let mut pending = drifts;
        let ghost all = pending@;
        proof {
            assert(self.feature_drifts@ =~= old(self).feature_drifts@ + all.take(0));
            assert(all.skip(0) =~= all);
        }
        while pending.len() > 0
            invariant
                self.tallied(),
                pending@.len() <= all.len(),
                pending@ == all.skip(all.len() - pending@.len()),
                self.feature_drifts@ == old(self).feature_drifts@ + all.take(
                    all.len() - pending@.len(),
                ),
                self.total_changes + pending@.len() <= usize::MAX,
                *self == (ProtocolDriftReport {
                    feature_drifts: self.feature_drifts,
                    total_changes: self.total_changes,
                    breaking_changes: self.breaking_changes,
                    has_drift: self.has_drift,
                    drift_severity: self.drift_severity,
                    ..*old(self)
                }),
            decreases pending@.len(),
        {
            let ghost done = all.len() - pending@.len();
            let ghost before = self.feature_drifts@;
            let drift = pending.remove(0);
            proof {
                assert(drift == all[done]);
                assert(pending@ =~= all.skip(done + 1));
                lemma_breaking_features_push(before, drift);
                self.message_type_drifts@.lemma_filter_len(|d: MessageTypeDrift| d.breaking_change);
                self.uuid_drifts@.lemma_filter_len(|d: UUIDDrift| d.breaking_change);
                assert(all.take(done + 1) =~= all.take(done).push(drift));
            }
            self.add_feature_drift(drift);
            assert(self.feature_drifts@ =~= old(self).feature_drifts@ + all.take(done + 1));
        }
        assert(all.take(all.len() as int) =~= all);
    }

    /// Sets the severity that the counters amount to.
    fn update_severity(&mut self)
        ensures
            *final(self) == (ProtocolDriftReport {
                drift_severity: severity_of(
                    old(self).breaking_changes as int,
                    old(self).total_changes as int,
                ),
                ..*old(self)
            }),
    {
        self.drift_severity = if self.breaking_changes > 3 {
            DriftSeverity::Critical
        } else if self.breaking_changes > 1 {
            DriftSeverity::Major
        } else if self.total_changes >= 5 {
            DriftSeverity::Moderate
        } else if self.total_changes > 0 {
            DriftSeverity::Minor
        } else {
            DriftSeverity::NoDrift
        };
    }

    pub fn add_recommendation(&mut self, recommendation: String)
        ensures
            final(self).recommendations@ == old(self).recommendations@.push(recommendation),
            *final(self) == (ProtocolDriftReport {
                recommendations: final(self).recommendations,
                ..*old(self)
            }),
    {
        self.recommendations.push(recommendation);
    }

    /// The report on the drift, as text.
    pub fn generate_report(&self) -> (report: String)
        ensures
            report@ == self.report(),
    {
        let mut report = String::from_str("=== PROTOCOL DRIFT ANALYSIS REPORT ===\n\n");
        push_field(&mut report, "Base Version: ", self.base_version.as_str(), "\n");
        push_field(&mut report, "Upstream Version: ", self.upstream_version.as_str(), "\n");
        push_field(&mut report, "Scan Date: ", self.scan_date.as_str(), "\n\n");
        push_count_field(&mut report, "Total Changes: ", self.total_changes, "\n");
        push_count_field(&mut report, "Breaking Changes: ", self.breaking_changes, "\n");
        push_bool_field(&mut report, "Has Drift: ", self.has_drift, "\n");
        push_field(&mut report, "Drift Severity: ", self.drift_severity.name(), "\n\n");
        push_count_field(
            &mut report,
            "Message Type Drifts: ",
            self.message_type_drifts.len(),
            "\n",
        );
        {
            let ghost line = |d: MessageTypeDrift| message_type_line(d);
            let ghost head = report@;
            let ghost items = self.message_type_drifts@;
            let mut i: usize = 0;
            proof {
                lemma_joined_ends(items, line);
                assert(report@ =~= head + joined(items.take(0), line));
            }
            while i < self.message_type_drifts.len()
                invariant
                    i <= items.len(),
                    items == self.message_type_drifts@,
                    line == |d: MessageTypeDrift| message_type_line(d),
                    report@ == head + joined(items.take(i as int), line),
                decreases items.len() - i,
            {
                proof {
                    lemma_joined_step(items, i as int, line);
                }
                let ghost before = report@;
                let drift = &self.message_type_drifts[i];
                report.append("  0x");
                push_hex_byte(&mut report, drift.opcode);
                report.append(" ");
                report.append(drift.name.as_str());
                report.append(" (");
                report.append(drift.status.name());
                report.append(")\n");
                assert(report@ =~= before + message_type_line(items[i as int]));
                assert(report@ =~= head + joined(items.take(i + 1), line));
                i += 1;
            }
        }
        push_count_field(&mut report, "\nUUID Drifts: ", self.uuid_drifts.len(), "\n");
        {
            let ghost line = |d: UUIDDrift| uuid_line(d);
            let ghost head = report@;
            let ghost items = self.uuid_drifts@;
            let mut i: usize = 0;
            proof {
                lemma_joined_ends(items, line);
                assert(report@ =~= head + joined(items.take(0), line));
            }
            while i < self.uuid_drifts.len()
                invariant
                    i <= items.len(),
                    items == self.uuid_drifts@,
                    line == |d: UUIDDrift| uuid_line(d),
                    report@ == head + joined(items.take(i as int), line),
                decreases items.len() - i,
            {
                proof {
                    lemma_joined_step(items, i as int, line);
                }
                let ghost before = report@;
                let drift = &self.uuid_drifts[i];
                push_field(&mut report, "  ", drift.name.as_str(), " (");
                report.append(drift.status.name());
                report.append(")\n");
                assert(report@ =~= before + uuid_line(items[i as int]));
                assert(report@ =~= head + joined(items.take(i + 1), line));
                i += 1;
            }
        }
        push_count_field(&mut report, "\nFeature Drifts: ", self.feature_drifts.len(), "\n");
        {
            let ghost line = |d: FeatureDrift| feature_line(d);
            let ghost head = report@;
            let ghost items = self.feature_drifts@;
            let mut i: usize = 0;
            proof {
                lemma_joined_ends(items, line);
                assert(report@ =~= head + joined(items.take(0), line));
            }
            while i < self.feature_drifts.len()
                invariant
                    i <= items.len(),
                    items == self.feature_drifts@,
                    line == |d: FeatureDrift| feature_line(d),
                    report@ == head + joined(items.take(i as int), line),
                decreases items.len() - i,
            {
                proof {
                    lemma_joined_step(items, i as int, line);
                }
                let ghost before = report@;
                let drift = &self.feature_drifts[i];
                push_field(&mut report, "  ", drift.feature_name.as_str(), " (");
                report.append(drift.status.name());
                report.append(")\n");
                assert(report@ =~= before + feature_line(items[i as int]));
                assert(report@ =~= head + joined(items.take(i + 1), line));
                i += 1;
            }
        }
        push_count_field(&mut report, "\nRecommendations: ", self.recommendations.len(), "\n");
        push_listed(&mut report, self.recommendations.as_slice(), "  - ", "\n");
        report
    }
}

impl Default for ProtocolDriftReport {
    fn default() -> (report: Self)
        ensures
            report.is_blank(),
            report.tallied(),
            report.base_version@ == "1.0.0"@,
            report.upstream_version@ == "1.0.0"@,
    {
        Self::new(String::from_str("1.0.0"), String::from_str("1.0.0"))
    }
}

} // verus!
