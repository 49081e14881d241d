//! Compares what an upstream announces with the base protocol and records
//! every difference as a drift.

use crate::collections::{
    code_names, entries_of, find_code, has_key, lemma_mapped_values, lemma_walk_lookup, named,
    value_under, walk_of, TextMap, TextSet,
};
use crate::protocol_analyzer::{
    base_features,
    base_message_types,
    base_uuids,
    known_features,
    known_message_types,
    known_uuids,
};
use crate::protocol_drift::{
    initial_scan_date,
    DriftStatus,
    FeatureDrift,
    FeatureDriftView,
    MessageTypeDrift,
    MessageTypeDriftView,
    ProtocolDriftReport,
    UUIDDrift,
    UUIDDriftView,
};
use crate::text::texts;
use std::collections::HashMap;
use vstd::prelude::*;

verus! {

/// The models that a drift of the whole protocol concerns.
pub open spec fn all_models() -> Seq<Seq<char>> {
    seq!["All"@]
}

/// The drift of a message type that the upstream names otherwise.
pub open spec fn renamed_type(opcode: u8, name: Seq<char>, base_name: Seq<char>) -> MessageTypeDriftView {
    MessageTypeDriftView {
        opcode,
        name,
        status: DriftStatus::Modified,
        previous_version: Some(base_name),
        current_version: name,
        breaking_change: true,
    }
}

/// The drift of a message type that only the upstream has.
pub open spec fn added_type(opcode: u8, name: Seq<char>) -> MessageTypeDriftView {
    MessageTypeDriftView {
        opcode,
        name,
        status: DriftStatus::Added,
        previous_version: None,
        current_version: name,
        breaking_change: false,
    }
}

/// The drift of a message type that the upstream has no more.
pub open spec fn removed_type(opcode: u8, base_name: Seq<char>) -> MessageTypeDriftView {
    MessageTypeDriftView {
        opcode,
        name: base_name,
        status: DriftStatus::Removed,
        previous_version: Some(base_name),
        current_version: Seq::empty(),
        breaking_change: true,
    }
}

/// The drifts among the first `count` message types of the upstream:
/// renamed where the base has the opcode under another name, added where
/// the base has not got it.
pub open spec fn upstream_type_drifts(
    base: Seq<(u8, Seq<char>)>,
    upstream: Seq<(u8, Seq<char>)>,
    count: int,
) -> Seq<MessageTypeDriftView>
    decreases count,
{
    if count <= 0 || count > upstream.len() {
        Seq::empty()
    } else {
        let earlier = upstream_type_drifts(base, upstream, count - 1);
        let (opcode, name) = upstream[count - 1];
        match value_under(base, opcode) {
            Some(base_name) => if base_name != name {
                earlier.push(renamed_type(opcode, name, base_name))
            } else {
                earlier
            },
            None => earlier.push(added_type(opcode, name)),
        }
    }
}

/// The drifts among the first `count` message types of the base: removed
/// where the upstream has not got the opcode.
pub open spec fn removed_type_drifts(
    base: Seq<(u8, Seq<char>)>,
    upstream: Seq<(u8, Seq<char>)>,
    count: int,
) -> Seq<MessageTypeDriftView>
    decreases count,
{
    if count <= 0 || count > base.len() {
        Seq::empty()
    } else {
        let earlier = removed_type_drifts(base, upstream, count - 1);
        if has_key(upstream, base[count - 1].0) {
            earlier
        } else {
            earlier.push(removed_type(base[count - 1].0, base[count - 1].1))
        }
    }
}

/// All drifts of message types: those of the upstream's types in the
/// upstream's order, then the removed ones in the base's order.
pub open spec fn type_drifts(base: Seq<(u8, Seq<char>)>, upstream: Seq<(u8, Seq<char>)>) -> Seq<
    MessageTypeDriftView,
> {
    upstream_type_drifts(base, upstream, upstream.len() as int) + removed_type_drifts(
        base,
        upstream,
        base.len() as int,
    )
}

/// A comparison finds at most one drift for each message type of either
/// side.
pub proof fn lemma_type_drifts_len(base: Seq<(u8, Seq<char>)>, upstream: Seq<(u8, Seq<char>)>)
    ensures
        type_drifts(base, upstream).len() <= base.len() + upstream.len(),
{
    lemma_upstream_type_drifts_len(base, upstream, upstream.len() as int);
    lemma_removed_type_drifts_len(base, upstream, base.len() as int);
}

proof fn lemma_upstream_type_drifts_len(
    base: Seq<(u8, Seq<char>)>,
    upstream: Seq<(u8, Seq<char>)>,
    count: int,
)
    requires
        0 <= count <= upstream.len(),
    ensures
        upstream_type_drifts(base, upstream, count).len() <= count,
    decreases count,
{
    if count > 0 {
        lemma_upstream_type_drifts_len(base, upstream, count - 1);
    }
}

proof fn lemma_removed_type_drifts_len(
    base: Seq<(u8, Seq<char>)>,
    upstream: Seq<(u8, Seq<char>)>,
    count: int,
)
    requires
        0 <= count <= base.len(),
    ensures
        removed_type_drifts(base, upstream, count).len() <= count,
    decreases count,
{
    if count > 0 {
        lemma_removed_type_drifts_len(base, upstream, count - 1);
    }
}

proof fn lemma_no_upstream_drift(
    base: Seq<(u8, Seq<char>)>,
    upstream: Seq<(u8, Seq<char>)>,
    count: int,
)
    requires
        0 <= count <= upstream.len(),
    ensures
        upstream_type_drifts(base, upstream, count).len() == 0 <==> forall|i: int|
            0 <= i < count ==> value_under(base, (#[trigger] upstream[i]).0) == Some(upstream[i].1),
    decreases count,
{
    if count > 0 {
        lemma_no_upstream_drift(base, upstream, count - 1);
        let last = upstream[count - 1];
        if upstream_type_drifts(base, upstream, count).len() == 0 {
            assert(value_under(base, last.0) == Some(last.1));
        }
    }
}

proof fn lemma_no_removed_drift(
    base: Seq<(u8, Seq<char>)>,
    upstream: Seq<(u8, Seq<char>)>,
    count: int,
)
    requires
        0 <= count <= base.len(),
    ensures
        removed_type_drifts(base, upstream, count).len() == 0 <==> forall|i: int|
            0 <= i < count ==> has_key(upstream, (#[trigger] base[i]).0),
    decreases count,
{
    if count > 0 {
        lemma_no_removed_drift(base, upstream, count - 1);
        if removed_type_drifts(base, upstream, count).len() == 0 {
            assert(has_key(upstream, base[count - 1].0));
        }
    }
}

/// Whatever the order of the walks, a comparison finds a drift exactly
/// where the two tables differ.
pub proof fn lemma_drift_means_difference(
    base_table: Map<u8, Seq<char>>,
    upstream_table: Map<u8, Seq<char>>,
    base: Seq<(u8, Seq<char>)>,
    upstream: Seq<(u8, Seq<char>)>,
)
    requires
        walk_of(base_table, base),
        walk_of(upstream_table, upstream),
    ensures
        type_drifts(base, upstream).len() > 0 <==> base_table != upstream_table,
{
    lemma_no_upstream_drift(base, upstream, upstream.len() as int);
    lemma_no_removed_drift(base, upstream, base.len() as int);
    if type_drifts(base, upstream).len() == 0 {
        assert forall|code: u8| base_table.contains_key(code) == upstream_table.contains_key(
            code,
        ) by {
            lemma_walk_lookup(base_table, base, code);
            lemma_walk_lookup(upstream_table, upstream, code);
            if upstream_table.contains_key(code) {
                let at = choose|i: int| 0 <= i < upstream.len() && (#[trigger] upstream[i]).0 == code;
                assert(value_under(base, upstream[at].0) == Some(upstream[at].1));
            }
            if base_table.contains_key(code) {
                let at = choose|i: int| 0 <= i < base.len() && (#[trigger] base[i]).0 == code;
                assert(has_key(upstream, base[at].0));
            }
        }
        assert forall|code: u8| base_table.contains_key(code) implies base_table[code]
            == upstream_table[code] by {
            lemma_walk_lookup(base_table, base, code);
            lemma_walk_lookup(upstream_table, upstream, code);
            let at = choose|i: int| 0 <= i < upstream.len() && (#[trigger] upstream[i]).0 == code;
            assert(value_under(base, upstream[at].0) == Some(upstream[at].1));
        }
        assert(base_table =~= upstream_table);
    }
    if base_table == upstream_table {
        assert forall|i: int| 0 <= i < upstream.len() implies value_under(
            base,
            (#[trigger] upstream[i]).0,
        ) == Some(upstream[i].1) by {
            lemma_walk_lookup(base_table, base, upstream[i].0);
        }
        assert forall|i: int| 0 <= i < base.len() implies has_key(
            upstream,
            (#[trigger] base[i]).0,
        ) by {
            lemma_walk_lookup(upstream_table, upstream, base[i].0);
        }
    }
}

/// The drift of a service identifier that only one side has.
pub open spec fn uuid_drift(uuid: Seq<char>, name: Seq<char>, added: bool) -> UUIDDriftView {
    UUIDDriftView {
        uuid,
        name,
        status: if added {
            DriftStatus::Added
        } else {
            DriftStatus::Removed
        },
        device_models: all_models(),
        breaking_change: !added,
    }
}

/// One drift for each of the first `count` identifiers of `ours` that
/// `theirs` has not got.
pub open spec fn one_sided_uuids(
    ours: Seq<(Seq<char>, Seq<char>)>,
    theirs: Seq<(Seq<char>, Seq<char>)>,
    count: int,
    added: bool,
) -> Seq<UUIDDriftView>
    decreases count,
{
    if count <= 0 || count > ours.len() {
        Seq::empty()
    } else {
        let earlier = one_sided_uuids(ours, theirs, count - 1, added);
        if has_key(theirs, ours[count - 1].0) {
            earlier
        } else {
            earlier.push(uuid_drift(ours[count - 1].0, ours[count - 1].1, added))
        }
    }
}

/// All drifts of service identifiers: the added ones in the upstream's
/// order, then the removed ones in the base's order.
pub open spec fn uuid_drifts(
    base: Seq<(Seq<char>, Seq<char>)>,
    upstream: Seq<(Seq<char>, Seq<char>)>,
) -> Seq<UUIDDriftView> {
    one_sided_uuids(upstream, base, upstream.len() as int, true) + one_sided_uuids(
        base,
        upstream,
        base.len() as int,
        false,
    )
}

/// The drift of a feature that only one side has.
pub open spec fn feature_drift(name: Seq<char>, added: bool) -> FeatureDriftView {
    FeatureDriftView {
        feature_name: name,
        status: if added {
            DriftStatus::Added
        } else {
            DriftStatus::Removed
        },
        affected_models: all_models(),
        breaking_change: !added,
    }
}

/// One drift for each of the first `count` features of `ours` that
/// `theirs` has not got.
pub open spec fn one_sided_features(
    ours: Seq<Seq<char>>,
    theirs: Seq<Seq<char>>,
    count: int,
    added: bool,
) -> Seq<FeatureDriftView>
    decreases count,
{
    if count <= 0 || count > ours.len() {
        Seq::empty()
    } else {
        let earlier = one_sided_features(ours, theirs, count - 1, added);
        if theirs.contains(ours[count - 1]) {
            earlier
        } else {
            earlier.push(feature_drift(ours[count - 1], added))
        }
    }
}

/// All drifts of features: the added ones in the upstream's order, then the
/// removed ones in the base's order.
pub open spec fn feature_drifts(base: Seq<Seq<char>>, upstream: Seq<Seq<char>>) -> Seq<
    FeatureDriftView,
> {
    one_sided_features(upstream, base, upstream.len() as int, true) + one_sided_features(
        base,
        upstream,
        base.len() as int,
        false,
    )
}

/// The contents of drifts of message types, in order.
pub open spec fn type_drift_views(drifts: Seq<MessageTypeDrift>) -> Seq<MessageTypeDriftView> {
    drifts.map_values(|d: MessageTypeDrift| d@)
}

/// The contents of drifts of service identifiers, in order.
pub open spec fn uuid_drift_views(drifts: Seq<UUIDDrift>) -> Seq<UUIDDriftView> {
    drifts.map_values(|d: UUIDDrift| d@)
}

/// The contents of drifts of features, in order.
pub open spec fn feature_drift_views(drifts: Seq<FeatureDrift>) -> Seq<FeatureDriftView> {
    drifts.map_values(|d: FeatureDrift| d@)
}

/// The feature names of a table of features.
pub open spec fn feature_names(table: Seq<(Seq<char>, bool)>) -> Seq<Seq<char>> {
    table.map_values(|e: (Seq<char>, bool)| e.0)
}

/// The set with the first `count` names of the table added in turn.
pub open spec fn names_added(table: Seq<(Seq<char>, bool)>, count: int) -> Seq<Seq<char>>
    decreases count,
{
    if count <= 0 || count > table.len() {
        Seq::empty()
    } else {
        let earlier = names_added(table, count - 1);
        if earlier.contains(table[count - 1].0) {
            earlier
        } else {
            earlier.push(table[count - 1].0)
        }
    }
}

/// The names of the table as a set, in the order of their first arrival.
pub open spec fn names_of(table: Seq<(Seq<char>, bool)>) -> Seq<Seq<char>> {
    names_added(table, table.len() as int)
}

/// How many of the drifts break compatibility.
pub open spec fn breaking_types(drifts: Seq<MessageTypeDriftView>) -> nat {
    drifts.filter(|d: MessageTypeDriftView| d.breaking_change).len()
}

/// How many of the drifts break compatibility.
pub open spec fn breaking_uuids(drifts: Seq<UUIDDriftView>) -> nat {
    drifts.filter(|d: UUIDDriftView| d.breaking_change).len()
}

/// How many of the drifts break compatibility.
pub open spec fn breaking_features(drifts: Seq<FeatureDriftView>) -> nat {
    drifts.filter(|d: FeatureDriftView| d.breaking_change).len()
}

/// The recommendations that the counters call for.
pub open spec fn recommended(breaking_changes: int, total_changes: int) -> Seq<Seq<char>> {
    let first = if breaking_changes > 0 {
        seq!["Review breaking changes before upgrading"@]
    } else {
        Seq::empty()
    };
    if total_changes > 5 {
        first.push("Significant protocol changes detected"@)
    } else {
        first
    }
}

/// The drifts of the listed message types of an upstream against those of
/// a base: the renamed and the added ones in the upstream's order, then the
/// removed ones in the base's order.
pub fn compare_listed_types(base_types: &[(u8, String)], upstream_types: &[(u8, String)]) -> (drifts:
    Vec<MessageTypeDrift>)
    ensures
        type_drift_views(drifts@) == type_drifts(named(base_types@), named(upstream_types@)),
{
        let ghost base = named(base_types@);
        let ghost upstream = named(upstream_types@);
        let mut drifts: Vec<MessageTypeDrift> = Vec::new();
        let mut i: usize = 0;
        assert(type_drift_views(drifts@) =~= upstream_type_drifts(base, upstream, 0));
        while i < upstream_types.len()
            invariant
                i <= upstream_types@.len(),
                base == named(base_types@),
                upstream == named(upstream_types@),
                upstream.len() == upstream_types@.len(),
                type_drift_views(drifts@) == upstream_type_drifts(base, upstream, i as int),
            decreases upstream_types@.len() - i,
        {
            let opcode = upstream_types[i].0;
            let name = &upstream_types[i].1;
            assert(upstream[i as int] == (opcode, name@));
            proof {
                lemma_mapped_values(base_types@, |n: String| n@, opcode);
            }
            let ghost before = type_drift_views(drifts@);
            match find_code(base_types, opcode) {
                Some(base_name) => {
                    if !crate::text::same_text(base_name.as_str(), name.as_str()) {
                        drifts.push(
                            MessageTypeDrift {
                                opcode,
                                name: name.clone(),
                                status: DriftStatus::Modified,
                                previous_version: Some(base_name.clone()),
                                current_version: name.clone(),
                                breaking_change: true,
                            },
                        );
                        assert(type_drift_views(drifts@) =~= before.push(
                            renamed_type(opcode, name@, base_name@),
                        ));
                    }
                },
                None => {
                    drifts.push(
                        MessageTypeDrift {
                            opcode,
                            name: name.clone(),
                            status: DriftStatus::Added,
                            previous_version: None,
                            current_version: name.clone(),
                            breaking_change: false,
                        },
                    );
                    assert(type_drift_views(drifts@) =~= before.push(added_type(opcode, name@)));
                },
            }
            i += 1;
        }
        let ghost first = type_drift_views(drifts@);
        let mut k: usize = 0;
        assert(type_drift_views(drifts@) =~= first + removed_type_drifts(base, upstream, 0));
        while k < base_types.len()
            invariant
                k <= base_types@.len(),
                base == named(base_types@),
                base.len() == base_types@.len(),
                upstream == named(upstream_types@),
                type_drift_views(drifts@) == first + removed_type_drifts(base, upstream, k as int),
            decreases base_types@.len() - k,
        {
            let opcode = base_types[k].0;
            let base_name = &base_types[k].1;
            assert(base[k as int] == (opcode, base_name@));
            proof {
                lemma_mapped_values(upstream_types@, |n: String| n@, opcode);
            }
            if find_code(upstream_types, opcode).is_none() {
                let ghost before = type_drift_views(drifts@);
                drifts.push(
                    MessageTypeDrift {
                        opcode,
                        name: base_name.clone(),
                        status: DriftStatus::Removed,
                        previous_version: Some(base_name.clone()),
                        current_version: String::new(),
                        breaking_change: true,
                    },
                );
                assert(type_drift_views(drifts@) =~= before.push(
                    removed_type(opcode, base_name@),
                ));
            }
            assert(type_drift_views(drifts@) =~= first + removed_type_drifts(
                base,
                upstream,
                k + 1,
            ));
            k += 1;
        }
        drifts
}

/// The base protocol.
pub struct ProtocolComparator {
    base_message_types: HashMap<u8, String>,
    base_uuids: TextMap<String>,
    base_features: TextSet,
}

/// The mathematical content of a comparator: the base protocol.
pub ghost struct ProtocolComparatorView {
    pub message_types: Map<u8, Seq<char>>,
    pub uuids: Seq<(Seq<char>, Seq<char>)>,
    pub features: Seq<Seq<char>>,
}

impl View for ProtocolComparator {
    type V = ProtocolComparatorView;

    closed spec fn view(&self) -> ProtocolComparatorView {
        ProtocolComparatorView {
            message_types: code_names(self.base_message_types@),
            uuids: named(self.base_uuids@),
            features: self.base_features@,
        }
    }
}

/// A list with the one entry `All`.
fn for_all_models() -> (models: Vec<String>)
    ensures
        texts(models@) == all_models(),
{
    let mut models: Vec<String> = Vec::new();
    models.push(String::from_str("All"));
    assert(texts(models@) =~= all_models());
    models
}

impl ProtocolComparator {
    /// A comparator that holds the protocol's message types, service
    /// identifiers and features as the base.
    pub fn new() -> (comparator: Self)
        ensures
            comparator@ == (ProtocolComparatorView {
                message_types: base_message_types(),
                uuids: base_uuids(),
                features: names_of(base_features(15)),
            }),
    {
        let mut comparator = Self {
            base_message_types: HashMap::new(),
            base_uuids: TextMap::new(),
            base_features: TextSet::new(),
        };
        comparator.initialize_base_protocol();
        comparator
    }

    /// Fills the base with what the protocol defines.
    fn initialize_base_protocol(&mut self)
        ensures
            final(self)@ == (ProtocolComparatorView {
                message_types: base_message_types(),
                uuids: base_uuids(),
                features: names_of(base_features(15)),
            }),
    {
        self.base_message_types = known_message_types();
        self.base_uuids = known_uuids();
        let table = known_features();
        let mut features = TextSet::new();
        let mut i: usize = 0;
        assert(features@ =~= names_added(table@, 0));
        while i < table.len()
            invariant
                i <= table@.len(),
                features@ == names_added(table@, i as int),
            decreases table@.len() - i,
        {
            features.insert(table.key_at(i).clone());
            i += 1;
        }
        self.base_features = features;
    }

    /// The drifts of the upstream's message types against the base. Both
    /// tables are walked in the order in which they hand their entries out,
    /// which is not specified: the drifts are those of some walk over each.
    pub fn compare_message_types(&self, upstream_types: HashMap<u8, String>) -> (drifts: Vec<
        MessageTypeDrift,
    >)
        ensures
            exists|base: Seq<(u8, Seq<char>)>, upstream: Seq<(u8, Seq<char>)>|
                walk_of(self@.message_types, base) && walk_of(code_names(upstream_types@), upstream)
                    && type_drift_views(drifts@) == #[trigger] type_drifts(base, upstream),
            drifts@.len() > 0 <==> code_names(upstream_types@) != self@.message_types,
    {
        let base = entries_of(&self.base_message_types);
        let upstream = entries_of(&upstream_types);
        let drifts = compare_listed_types(base.as_slice(), upstream.as_slice());
        proof {
            lemma_drift_means_difference(
                self@.message_types,
                code_names(upstream_types@),
                named(base@),
                named(upstream@),
            );
            assert(type_drift_views(drifts@).len() == drifts@.len());
        }
        drifts
    }

    /// The drifts of the upstream's service identifiers against the base.
    pub fn compare_uuids(&self, upstream_uuids: TextMap<String>) -> (drifts: Vec<UUIDDrift>)
        ensures
            uuid_drift_views(drifts@) == uuid_drifts(self@.uuids, named(upstream_uuids@)),
    {
        let ghost base = self@.uuids;
        let ghost upstream = named(upstream_uuids@);
        let mut drifts: Vec<UUIDDrift> = Vec::new();
        let mut i: usize = 0;
        assert(uuid_drift_views(drifts@) =~= one_sided_uuids(upstream, base, 0, true));
        while i < upstream_uuids.len()
            invariant
                i <= upstream_uuids@.len(),
                base == self@.uuids,
                upstream == named(upstream_uuids@),
                upstream.len() == upstream_uuids@.len(),
                uuid_drift_views(drifts@) == one_sided_uuids(upstream, base, i as int, true),
            decreases upstream_uuids@.len() - i,
        {
            let uuid = upstream_uuids.key_at(i);
            let name = upstream_uuids.value_at(i);
            assert(upstream[i as int] == (uuid@, name@));
            proof {
                lemma_mapped_values(self.base_uuids@, |n: String| n@, uuid@);
            }
            if !self.base_uuids.contains_key(uuid.as_str()) {
                let ghost before = uuid_drift_views(drifts@);
                drifts.push(
                    UUIDDrift {
                        uuid: uuid.clone(),
                        name: name.clone(),
                        status: DriftStatus::Added,
                        device_models: for_all_models(),
                        breaking_change: false,
                    },
                );
                assert(uuid_drift_views(drifts@) =~= before.push(uuid_drift(uuid@, name@, true)));
            }
            i += 1;
        }
        let ghost first = uuid_drift_views(drifts@);
        let mut k: usize = 0;
        assert(uuid_drift_views(drifts@) =~= first + one_sided_uuids(base, upstream, 0, false));
        while k < self.base_uuids.len()
            invariant
                k <= self.base_uuids@.len(),
                base == self@.uuids,
                base.len() == self.base_uuids@.len(),
                upstream == named(upstream_uuids@),
                uuid_drift_views(drifts@) == first + one_sided_uuids(
                    base,
                    upstream,
                    k as int,
                    false,
                ),
            decreases self.base_uuids@.len() - k,
        {
            let uuid = self.base_uuids.key_at(k);
            let name = self.base_uuids.value_at(k);
            assert(base[k as int] == (uuid@, name@));
            proof {
                lemma_mapped_values(upstream_uuids@, |n: String| n@, uuid@);
            }
            if !upstream_uuids.contains_key(uuid.as_str()) {
                let ghost before = uuid_drift_views(drifts@);
                drifts.push(
                    UUIDDrift {
                        uuid: uuid.clone(),
                        name: name.clone(),
                        status: DriftStatus::Removed,
                        device_models: for_all_models(),
                        breaking_change: true,
                    },
                );
                assert(uuid_drift_views(drifts@) =~= before.push(uuid_drift(uuid@, name@, false)));
            }
            assert(uuid_drift_views(drifts@) =~= first + one_sided_uuids(
                base,
                upstream,
                k + 1,
                false,
            ));
            k += 1;
        }
        drifts
    }

    /// The drifts of the upstream's features against the base.
    pub fn compare_features(&self, upstream_features: TextSet) -> (drifts: Vec<FeatureDrift>)
        ensures
            feature_drift_views(drifts@) == feature_drifts(self@.features, upstream_features@),
    {
        let ghost base = self@.features;
        let ghost upstream = upstream_features@;
        let mut drifts: Vec<FeatureDrift> = Vec::new();
        let mut i: usize = 0;
        assert(feature_drift_views(drifts@) =~= one_sided_features(upstream, base, 0, true));
        while i < upstream_features.len()
            invariant
                i <= upstream_features@.len(),
                base == self@.features,
                upstream == upstream_features@,
                feature_drift_views(drifts@) == one_sided_features(
                    upstream,
                    base,
                    i as int,
                    true,
                ),
            decreases upstream_features@.len() - i,
        {
            let feature = upstream_features.item_at(i);
            if !self.base_features.contains(feature.as_str()) {
                let ghost before = feature_drift_views(drifts@);
                drifts.push(
                    FeatureDrift {
                        feature_name: feature.clone(),
                        status: DriftStatus::Added,
                        affected_models: for_all_models(),
                        breaking_change: false,
                    },
                );
                assert(feature_drift_views(drifts@) =~= before.push(
                    feature_drift(feature@, true),
                ));
            }
            i += 1;
        }
        let ghost first = feature_drift_views(drifts@);
        let mut k: usize = 0;
        assert(feature_drift_views(drifts@) =~= first + one_sided_features(
            base,
            upstream,
            0,
            false,
        ));
        while k < self.base_features.len()
            invariant
                k <= self.base_features@.len(),
                base == self@.features,
                upstream == upstream_features@,
                feature_drift_views(drifts@) == first + one_sided_features(
                    base,
                    upstream,
                    k as int,
                    false,
                ),
            decreases self.base_features@.len() - k,
        {
            let feature = self.base_features.item_at(k);
            if !upstream_features.contains(feature.as_str()) {
                let ghost before = feature_drift_views(drifts@);
                drifts.push(
                    FeatureDrift {
                        feature_name: feature.clone(),
                        status: DriftStatus::Removed,
                        affected_models: for_all_models(),
                        breaking_change: true,
                    },
                );
                assert(feature_drift_views(drifts@) =~= before.push(
                    feature_drift(feature@, false),
                ));
            }
            assert(feature_drift_views(drifts@) =~= first + one_sided_features(
                base,
                upstream,
                k + 1,
                false,
            ));
            k += 1;
        }
        drifts
    }

    /// The report on everything in which the upstream differs from the
    /// base: every drift recorded and counted, with the recommendation to
    /// review breaking changes where there are any, and a word on
    /// significant change above five changes. The drifts of the message
    /// types are those of some walk over the two tables. The counters must
    /// have room for one drift for each message type of either side and for
    /// the other drifts.
    pub fn generate_drift_report(
        &self,
        base_version: String,
        upstream_version: String,
        upstream_types: HashMap<u8, String>,
        upstream_uuids: TextMap<String>,
        upstream_features: TextSet,
    ) -> (report: ProtocolDriftReport)
        requires
            self@.message_types.dom().len() + upstream_types@.dom().len() + uuid_drifts(
                self@.uuids,
                named(upstream_uuids@),
            ).len() + feature_drifts(self@.features, upstream_features@).len() <= usize::MAX,
        ensures
            report.base_version == base_version,
            report.upstream_version == upstream_version,
            report.scan_date@ == initial_scan_date(),
            exists|base: Seq<(u8, Seq<char>)>, upstream: Seq<(u8, Seq<char>)>|
                walk_of(self@.message_types, base) && walk_of(code_names(upstream_types@), upstream)
                    && type_drift_views(report.message_type_drifts@) == #[trigger] type_drifts(
                    base,
                    upstream,
                ),
            uuid_drift_views(report.uuid_drifts@) == uuid_drifts(
                self@.uuids,
                named(upstream_uuids@),
            ),
            feature_drift_views(report.feature_drifts@) == feature_drifts(
                self@.features,
                upstream_features@,
            ),
            report.tallied(),
            texts(report.recommendations@) == recommended(
                report.breaking_changes as int,
                report.total_changes as int,
            ),
    {
        let mut report = ProtocolDriftReport::new(base_version, upstream_version);
        let message_drifts = self.compare_message_types(upstream_types);
        let uuid_drifts = self.compare_uuids(upstream_uuids);
        let feature_drifts = self.compare_features(upstream_features);
        proof {
            let (base, upstream) = choose|
                base: Seq<(u8, Seq<char>)>,
                upstream: Seq<(u8, Seq<char>)>,
            |
                walk_of(self@.message_types, base) && walk_of(code_names(upstream_types@), upstream)
                    && type_drift_views(message_drifts@) == #[trigger] type_drifts(base, upstream);
            lemma_type_drifts_len(base, upstream);
            assert(code_names(upstream_types@).dom() =~= upstream_types@.dom());
            assert(type_drift_views(message_drifts@).len() == message_drifts@.len());
            assert(uuid_drift_views(uuid_drifts@).len() == uuid_drifts@.len());
            assert(feature_drift_views(feature_drifts@).len() == feature_drifts@.len());
        }
        report.extend_message_type_drifts(message_drifts);
        report.extend_uuid_drifts(uuid_drifts);
        report.extend_feature_drifts(feature_drifts);
        proof {
            assert(report.message_type_drifts@ =~= message_drifts@);
            assert(report.uuid_drifts@ =~= uuid_drifts@);
            assert(report.feature_drifts@ =~= feature_drifts@);
            assert(texts(report.recommendations@) =~= Seq::<Seq<char>>::empty());
        }
        if report.breaking_changes > 0 {
            report.add_recommendation(String::from_str("Review breaking changes before upgrading"));
            assert(texts(report.recommendations@) =~= seq![
                "Review breaking changes before upgrading"@,
            ]);
        }
        if report.total_changes > 5 {
            let ghost before = texts(report.recommendations@);
            report.add_recommendation(String::from_str("Significant protocol changes detected"));
            assert(texts(report.recommendations@) =~= before.push(
                "Significant protocol changes detected"@,
            ));
        }
        report
    }

    /// Whether the upstream's message types differ from the base: in an
    /// opcode that only one side has, or in a name.
    pub fn detect_protocol_drift(&self, upstream_types: HashMap<u8, String>) -> (drift: bool)
        ensures
            drift == (code_names(upstream_types@) != self@.message_types),
    {
        self.compare_message_types(upstream_types).len() > 0
    }

    pub fn get_base_message_types(&self) -> (table: &HashMap<u8, String>)
        ensures
            code_names(table@) == self@.message_types,
    {
        &self.base_message_types
    }

    pub fn get_base_uuids(&self) -> (table: &TextMap<String>)
        ensures
            named(table@) == self@.uuids,
    {
        &self.base_uuids
    }

    pub fn get_base_features(&self) -> (set: &TextSet)
        ensures
            set@ == self@.features,
    {
        &self.base_features
    }
}

impl Default for ProtocolComparator {
    fn default() -> (comparator: Self)
        ensures
            comparator@ == (ProtocolComparatorView {
                message_types: base_message_types(),
                uuids: base_uuids(),
                features: names_of(base_features(15)),
            }),
    {
        Self::new()
    }
}

} // verus!
