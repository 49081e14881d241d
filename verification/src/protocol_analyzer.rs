//! Sorts what an upstream announces (message types, service identifiers,
//! features) into what this side knows and what it does not.

use crate::collections::{
    code_names,
    entries_of,
    has_key,
    lemma_mapped_values,
    lemma_mapped_with_entry,
    lemma_select_ends,
    lemma_select_step,
    named,
    value_under,
    walk_of,
    with_entry,
    TextMap,
};
use crate::device::DeviceCapability;
use crate::protocol::{kind_of_opcode, lemma_registry_bijective, MessageType};
use crate::text::{
    bool_text,
    decimal,
    hex_byte,
    joined,
    lemma_joined_ends,
    lemma_joined_step,
    listed,
    push_bool_field,
    push_count_field,
    push_hex_byte,
    push_listed,
};
use std::collections::HashMap;
use vstd::prelude::*;

verus! {

/// The name that the protocol has for an opcode, or the empty text where
/// it has none.
pub open spec fn opcode_name(code: u8) -> Seq<char> {
    match kind_of_opcode(code) {
        Some(kind) => kind.name_text(),
        None => Seq::empty(),
    }
}

/// The message types of the protocol under the opcodes below `limit`, with
/// their names.
pub open spec fn message_types_below(limit: int) -> Map<u8, Seq<char>> {
    Map::new(|code: u8| 1 <= code < limit, |code: u8| opcode_name(code))
}

/// The message types of the protocol with their names, by opcode.
pub open spec fn base_message_types() -> Map<u8, Seq<char>> {
    Map::new(|code: u8| kind_of_opcode(code).is_some(), |code: u8| opcode_name(code))
}

/// The service identifiers of the protocol with their names, filed in this
/// order.
pub open spec fn base_uuids() -> Seq<(Seq<char>, Seq<char>)> {
    with_entry(
        with_entry(
            with_entry(
                with_entry(
                    Seq::empty(),
                    "7DFC9000-7D1C-4951-86AA-8D9728F8D66C"@,
                    "AAP_SERVICE"@,
                ),
                "7DFC9001-7D1C-4951-86AA-8D9728F8D66C"@,
                "AAP_CHARACTERISTIC"@,
            ),
            "180F"@,
            "BATTERY_SERVICE"@,
        ),
        "180A"@,
        "DEVICE_INFO_SERVICE"@,
    )
}

/// The names of the first `count` features of the protocol, each filed as
/// known.
pub open spec fn base_features(count: nat) -> Seq<(Seq<char>, bool)>
    decreases count,
{
    if count == 0 {
        Seq::empty()
    } else {
        with_entry(
            base_features((count - 1) as nat),
            DeviceCapability::listed(count - 1).name_text(),
            true,
        )
    }
}

/// The table of the protocol's fifteen message types.
pub fn known_message_types() -> (table: HashMap<u8, String>)
    ensures
        code_names(table@) == base_message_types(),
{
    broadcast use vstd::std_specs::hash::group_hash_axioms;

    let mut table: HashMap<u8, String> = HashMap::new();
    let mut code: u8 = 1;
    assert(code_names(table@) =~= message_types_below(1));
    while code <= 15
        invariant
            1 <= code <= 16,
            code_names(table@) == message_types_below(code as int),
        decreases 16 - code,
    {
        let name = match MessageType::from_u8(code) {
            Ok(kind) => String::from_str(kind.name()),
            Err(_) => String::new(),
        };
        let ghost before = table@;
        let ghost filed = name;
        proof {
            reveal_strlit("");
            assert(name@ =~= opcode_name(code));
        }
        table.insert(code, name);
        proof {
            assert(table@ == before.insert(code, filed));
            let after = code_names(table@);
            let wanted = message_types_below(code + 1);
            assert forall|k: u8| after.contains_key(k) == wanted.contains_key(k) by {
                assert(code_names(before).contains_key(k) == before.contains_key(k));
            }
            assert forall|k: u8| after.contains_key(k) implies after[k] == wanted[k] by {
                if k != code {
                    assert(code_names(before).contains_key(k));
                    assert(code_names(before)[k] == before[k]@);
                }
            }
            assert(after =~= wanted);
        }
        code += 1;
    }
    proof {
        assert forall|value: u8| kind_of_opcode(value).is_some() == (1 <= value < 16) by {
            lemma_registry_bijective(MessageType::BatteryStatus, value);
        }
        assert(message_types_below(16) =~= base_message_types());
    }
    table
}

/// The table of the protocol's four service identifiers.
pub fn known_uuids() -> (table: TextMap<String>)
    ensures
        named(table@) == base_uuids(),
{
    let mut table: TextMap<String> = TextMap::new();
    assert(named(table@) =~= Seq::<(Seq<char>, Seq<char>)>::empty());
    let key = String::from_str("7DFC9000-7D1C-4951-86AA-8D9728F8D66C");
    let name = String::from_str("AAP_SERVICE");
    proof {
        lemma_mapped_with_entry(table@, |name: String| name@, key@, name);
    }
    table.insert(key, name);
    let key = String::from_str("7DFC9001-7D1C-4951-86AA-8D9728F8D66C");
    let name = String::from_str("AAP_CHARACTERISTIC");
    proof {
        lemma_mapped_with_entry(table@, |name: String| name@, key@, name);
    }
    table.insert(key, name);
    let key = String::from_str("180F");
    let name = String::from_str("BATTERY_SERVICE");
    proof {
        lemma_mapped_with_entry(table@, |name: String| name@, key@, name);
    }
    table.insert(key, name);
    let key = String::from_str("180A");
    let name = String::from_str("DEVICE_INFO_SERVICE");
    proof {
        lemma_mapped_with_entry(table@, |name: String| name@, key@, name);
    }
    table.insert(key, name);
    table
}

/// The table of the protocol's fifteen features.
pub fn known_features() -> (table: TextMap<bool>)
    ensures
        table@ == base_features(15),
{
    let mut table: TextMap<bool> = TextMap::new();
    let mut i: usize = 0;
    while i < 15
        invariant
            i <= 15,
            table@ == base_features(i as nat),
        decreases 15 - i,
    {
        table.insert(String::from_str(DeviceCapability::at(i).name()), true);
        i += 1;
    }
    table
}

/// The line of one unknown message type.
pub open spec fn unknown_type_line(code: u8) -> Seq<char> {
    "    - 0x"@ + hex_byte(code) + "\n"@
}

/// What this side knows of the protocol.
#[derive(Debug, Clone)]
pub struct ProtocolAnalyzer {
    known_message_types: HashMap<u8, String>,
    known_uuids: TextMap<String>,
    known_features: TextMap<bool>,
}

/// The mathematical content of an analyzer: its three tables.
pub ghost struct ProtocolAnalyzerView {
    pub message_types: Map<u8, Seq<char>>,
    pub uuids: Seq<(Seq<char>, Seq<char>)>,
    pub features: Seq<(Seq<char>, bool)>,
}

impl ProtocolAnalyzerView {
    /// The bytes of `incoming` that are, or are not, opcodes of known
    /// message types, in their order.
    pub open spec fn sorted_types(self, incoming: Seq<u8>, known: bool) -> Seq<u8> {
        incoming.filter(|code: u8| self.message_types.contains_key(code) == known)
    }

    /// The strings of `incoming` that are, or are not, known service
    /// identifiers, in their order.
    pub open spec fn sorted_uuids(self, incoming: Seq<String>, known: bool) -> Seq<String> {
        incoming.filter(|uuid: String| has_key(self.uuids, uuid@) == known)
    }

    /// The strings of `incoming` that are, or are not, names of known
    /// features, in their order.
    pub open spec fn sorted_features(self, incoming: Seq<String>, known: bool) -> Seq<String> {
        incoming.filter(|feature: String| has_key(self.features, feature@) == known)
    }

    /// Whether something of what came in is unknown.
    pub open spec fn drift(self, types: Seq<u8>, uuids: Seq<String>) -> bool {
        self.sorted_types(types, false).len() > 0 || self.sorted_uuids(uuids, false).len() > 0
    }

    /// The report on what came in.
    pub open spec fn report(self, types: Seq<u8>, uuids: Seq<String>) -> Seq<char> {
        let known_types = self.sorted_types(types, true);
        let unknown_types = self.sorted_types(types, false);
        let known_uuids = self.sorted_uuids(uuids, true);
        let unknown_uuids = self.sorted_uuids(uuids, false);
        let head = "=== PROTOCOL ANALYSIS REPORT ===\n\n"@ + "Message Types:\n"@ + "  Known: "@
            + decimal(known_types.len()) + "\n"@ + "  Unknown: "@ + decimal(unknown_types.len())
            + "\n\n"@;
        let types_part = if unknown_types.len() > 0 {
            head + "  New Message Types:\n"@ + joined(
                unknown_types,
                |code: u8| unknown_type_line(code),
            ) + "\n"@
        } else {
            head
        };
        let middle = types_part + "UUIDs:\n"@ + "  Known: "@ + decimal(known_uuids.len()) + "\n"@
            + "  Unknown: "@ + decimal(unknown_uuids.len()) + "\n\n"@;
        let uuids_part = if unknown_uuids.len() > 0 {
            middle + "  New UUIDs:\n"@ + listed(unknown_uuids, "    - "@, "\n"@) + "\n"@
        } else {
            middle
        };
        uuids_part + "Protocol Drift: "@ + bool_text(self.drift(known_types, known_uuids)) + "\n"@
    }
}

impl View for ProtocolAnalyzer {
    type V = ProtocolAnalyzerView;

    closed spec fn view(&self) -> ProtocolAnalyzerView {
        ProtocolAnalyzerView {
            message_types: code_names(self.known_message_types@),
            uuids: named(self.known_uuids@),
            features: self.known_features@,
        }
    }
}

impl ProtocolAnalyzer {
    /// An analyzer that knows the protocol's message types, service
    /// identifiers and features.
    pub fn new() -> (analyzer: Self)
        ensures
            analyzer@ == (ProtocolAnalyzerView {
                message_types: base_message_types(),
                uuids: base_uuids(),
                features: base_features(15),
            }),
    {
        let mut analyzer = Self {
            known_message_types: HashMap::new(),
            known_uuids: TextMap::new(),
            known_features: TextMap::new(),
        };
        analyzer.initialize_known_types();
        analyzer
    }

    /// Fills the three tables with what the protocol defines.
    fn initialize_known_types(&mut self)
        ensures
            final(self)@ == (ProtocolAnalyzerView {
                message_types: base_message_types(),
                uuids: base_uuids(),
                features: base_features(15),
            }),
    {
        self.known_message_types = known_message_types();
        self.known_uuids = known_uuids();
        self.known_features = known_features();
    }

    /// The table of known message types.
    pub fn message_types(&self) -> (table: &HashMap<u8, String>)
        ensures
            code_names(table@) == self@.message_types,
    {
        &self.known_message_types
    }

    /// The table of known service identifiers.
    pub fn uuids(&self) -> (table: &TextMap<String>)
        ensures
            named(table@) == self@.uuids,
    {
        &self.known_uuids
    }

    /// The table of known features.
    pub fn features(&self) -> (table: &TextMap<bool>)
        ensures
            table@ == self@.features,
    {
        &self.known_features
    }

    /// Sorts opcodes into the known and the unknown, each in the order of
    /// arrival.
    pub fn analyze_message_types(&self, incoming_types: Vec<u8>) -> (sorted: (Vec<u8>, Vec<u8>))
        ensures
            sorted.0@ == self@.sorted_types(incoming_types@, true),
            sorted.1@ == self@.sorted_types(incoming_types@, false),
    {
        let ghost items = incoming_types@;
        let ghost table = self@.message_types;
        let ghost keep = |code: u8| table.contains_key(code) == true;
        let ghost drop = |code: u8| table.contains_key(code) == false;
        let mut known: Vec<u8> = Vec::new();
        let mut unknown: Vec<u8> = Vec::new();
        let mut i: usize = 0;
        proof {
            lemma_select_ends(items, keep);
            lemma_select_ends(items, drop);
        }
        while i < incoming_types.len()
            invariant
                i <= items.len(),
                items == incoming_types@,
                table == self@.message_types,
                keep == |code: u8| table.contains_key(code) == true,
                drop == |code: u8| table.contains_key(code) == false,
                known@ == items.take(i as int).filter(keep),
                unknown@ == items.take(i as int).filter(drop),
            decreases items.len() - i,
        {
            let code = incoming_types[i];
            proof {
                lemma_select_step(items, i as int, keep);
                lemma_select_step(items, i as int, drop);
            }
            if self.is_known_message_type(code) {
                known.push(code);
            } else {
                unknown.push(code);
            }
            i += 1;
        }
        (known, unknown)
    }

    /// Sorts service identifiers into the known and the unknown, each in the
    /// order of arrival.
    pub fn analyze_uuids(&self, incoming_uuids: Vec<String>) -> (sorted: (Vec<String>, Vec<String>))
        ensures
            sorted.0@ == self@.sorted_uuids(incoming_uuids@, true),
            sorted.1@ == self@.sorted_uuids(incoming_uuids@, false),
    {
        let ghost items = incoming_uuids@;
        let ghost table = self@.uuids;
        let ghost keep = |uuid: String| has_key(table, uuid@) == true;
        let ghost drop = |uuid: String| has_key(table, uuid@) == false;
        let mut known: Vec<String> = Vec::new();
        let mut unknown: Vec<String> = Vec::new();
        let mut i: usize = 0;
        proof {
            lemma_select_ends(items, keep);
            lemma_select_ends(items, drop);
        }
        while i < incoming_uuids.len()
            invariant
                i <= items.len(),
                items == incoming_uuids@,
                table == self@.uuids,
                keep == |uuid: String| has_key(table, uuid@) == true,
                drop == |uuid: String| has_key(table, uuid@) == false,
                known@ == items.take(i as int).filter(keep),
                unknown@ == items.take(i as int).filter(drop),
            decreases items.len() - i,
        {
            let uuid = incoming_uuids[i].clone();
            proof {
                lemma_select_step(items, i as int, keep);
                lemma_select_step(items, i as int, drop);
            }
            if self.is_known_uuid(uuid.as_str()) {
                known.push(uuid);
            } else {
                unknown.push(uuid);
            }
            i += 1;
        }
        (known, unknown)
    }

    /// Sorts feature names into the known and the unknown, each in the order
    /// of arrival.
    pub fn analyze_features(&self, incoming_features: Vec<String>) -> (sorted: (
        Vec<String>,
        Vec<String>,
    ))
        ensures
            sorted.0@ == self@.sorted_features(incoming_features@, true),
            sorted.1@ == self@.sorted_features(incoming_features@, false),
    {
        let ghost items = incoming_features@;
        let ghost table = self@.features;
        let ghost keep = |feature: String| has_key(table, feature@) == true;
        let ghost drop = |feature: String| has_key(table, feature@) == false;
        let mut known: Vec<String> = Vec::new();
        let mut unknown: Vec<String> = Vec::new();
        let mut i: usize = 0;
        proof {
            lemma_select_ends(items, keep);
            lemma_select_ends(items, drop);
        }
        while i < incoming_features.len()
            invariant
                i <= items.len(),
                items == incoming_features@,
                table == self@.features,
                keep == |feature: String| has_key(table, feature@) == true,
                drop == |feature: String| has_key(table, feature@) == false,
                known@ == items.take(i as int).filter(keep),
                unknown@ == items.take(i as int).filter(drop),
            decreases items.len() - i,
        {
            let feature = incoming_features[i].clone();
            proof {
                lemma_select_step(items, i as int, keep);
                lemma_select_step(items, i as int, drop);
            }
            if self.is_known_feature(feature.as_str()) {
                known.push(feature);
            } else {
                unknown.push(feature);
            }
            i += 1;
        }
        (known, unknown)
    }

    pub fn get_message_type_name(&self, msg_type: u8) -> (name: Option<String>)
        ensures
            match name {
                Some(text) => self@.message_types.contains_key(msg_type)
                    && self@.message_types[msg_type] == text@,
                None => !self@.message_types.contains_key(msg_type),
            },
    {
        broadcast use vstd::std_specs::hash::group_hash_axioms;

        match self.known_message_types.get(&msg_type) {
            Some(name) => Some(name.clone()),
            None => None,
        }
    }

    pub fn get_uuid_name(&self, uuid: &str) -> (name: Option<String>)
        ensures
            match name {
                Some(text) => value_under(self@.uuids, uuid@) == Some(text@),
                None => value_under(self@.uuids, uuid@).is_none(),
            },
    {
        proof {
            lemma_mapped_values(self.known_uuids@, |name: String| name@, uuid@);
        }
        match self.known_uuids.get(uuid) {
            Some(name) => Some(name.clone()),
            None => None,
        }
    }

    pub fn is_known_message_type(&self, msg_type: u8) -> (known: bool)
        ensures
            known == self@.message_types.contains_key(msg_type),
    {
        broadcast use vstd::std_specs::hash::group_hash_axioms;

        self.known_message_types.contains_key(&msg_type)
    }

    pub fn is_known_uuid(&self, uuid: &str) -> (known: bool)
        ensures
            known == has_key(self@.uuids, uuid@),
    {
        proof {
            lemma_mapped_values(self.known_uuids@, |name: String| name@, uuid@);
        }
        self.known_uuids.contains_key(uuid)
    }

    pub fn is_known_feature(&self, feature: &str) -> (known: bool)
        ensures
            known == has_key(self@.features, feature@),
    {
        self.known_features.contains_key(feature)
    }

    /// The known message types with their names, in the order in which
    /// the table hands them out: each once, in some order.
    pub fn get_all_message_types(&self) -> (all: Vec<(u8, String)>)
        ensures
            walk_of(self@.message_types, named(all@)),
    {
        entries_of(&self.known_message_types)
    }

    /// The known service identifiers with their names, in the order of the
    /// table.
    pub fn get_all_uuids(&self) -> (all: Vec<(String, String)>)
        ensures
            all@.len() == self@.uuids.len(),
            forall|i: int|
                0 <= i < all@.len() ==> (#[trigger] all@[i]).0@ == self@.uuids[i].0 && all@[i].1@
                    == self@.uuids[i].1,
    {
        let mut all: Vec<(String, String)> = Vec::new();
        let mut i: usize = 0;
        while i < self.known_uuids.len()
            invariant
                i <= self.known_uuids@.len(),
                all@.len() == i,
                forall|j: int|
                    0 <= j < i ==> (#[trigger] all@[j]).0@ == self.known_uuids@[j].0 && all@[j].1
                        == self.known_uuids@[j].1,
            decreases self.known_uuids@.len() - i,
        {
            all.push((self.known_uuids.key_at(i).clone(), self.known_uuids.value_at(i).clone()));
            i += 1;
        }
        all
    }

    /// The names of the known features, in the order of the table.
    pub fn get_all_features(&self) -> (all: Vec<String>)
        ensures
            all@.len() == self@.features.len(),
            forall|i: int| 0 <= i < all@.len() ==> (#[trigger] all@[i])@ == self@.features[i].0,
    {
        let mut all: Vec<String> = Vec::new();
        let mut i: usize = 0;
        while i < self.known_features.len()
            invariant
                i <= self.known_features@.len(),
                all@.len() == i,
                forall|j: int| 0 <= j < i ==> (#[trigger] all@[j])@ == self.known_features@[j].0,
            decreases self.known_features@.len() - i,
        {
            all.push(self.known_features.key_at(i).clone());
            i += 1;
        }
        all
    }

    /// Whether something of what came in is unknown: a message type or a
    /// service identifier.
    pub fn detect_drift(&self, incoming_types: Vec<u8>, incoming_uuids: Vec<String>) -> (drift: bool)
        ensures
            drift == self@.drift(incoming_types@, incoming_uuids@),
    {
        let (_, unknown_types) = self.analyze_message_types(incoming_types);
        let (_, unknown_uuids) = self.analyze_uuids(incoming_uuids);
        unknown_types.len() > 0 || unknown_uuids.len() > 0
    }

    /// The report on what came in, as text. Its last line tells of drift
    /// among what was sorted as known.
    pub fn generate_analysis_report(&self, incoming_types: Vec<u8>, incoming_uuids: Vec<String>) -> (report:
        String)
        ensures
            report@ == self@.report(incoming_types@, incoming_uuids@),
    {
        let (known_types, unknown_types) = self.analyze_message_types(incoming_types);
        let (known_uuids, unknown_uuids) = self.analyze_uuids(incoming_uuids);
        let mut report = String::from_str("=== PROTOCOL ANALYSIS REPORT ===\n\n");
        report.append("Message Types:\n");
        push_count_field(&mut report, "  Known: ", known_types.len(), "\n");
        push_count_field(&mut report, "  Unknown: ", unknown_types.len(), "\n\n");
        if unknown_types.len() > 0 {
            report.append("  New Message Types:\n");
            let ghost line = |code: u8| unknown_type_line(code);
            let ghost head = report@;
            let ghost items = unknown_types@;
            let mut i: usize = 0;
            proof {
                lemma_joined_ends(items, line);
                assert(report@ =~= head + joined(items.take(0), line));
            }
            while i < unknown_types.len()
                invariant
                    i <= items.len(),
                    items == unknown_types@,
                    line == |code: u8| unknown_type_line(code),
                    report@ == head + joined(items.take(i as int), line),
                decreases items.len() - i,
            {
                proof {
                    lemma_joined_step(items, i as int, line);
                }
                let ghost before = report@;
                report.append("    - 0x");
                push_hex_byte(&mut report, unknown_types[i]);
                report.append("\n");
                assert(report@ =~= before + unknown_type_line(items[i as int]));
                assert(report@ =~= head + joined(items.take(i + 1), line));
                i += 1;
            }
            report.append("\n");
        }
        report.append("UUIDs:\n");
        push_count_field(&mut report, "  Known: ", known_uuids.len(), "\n");
        push_count_field(&mut report, "  Unknown: ", unknown_uuids.len(), "\n\n");
        if unknown_uuids.len() > 0 {
            report.append("  New UUIDs:\n");
            push_listed(&mut report, unknown_uuids.as_slice(), "    - ", "\n");
            report.append("\n");
        }
        let drift = self.detect_drift(known_types, known_uuids);
        push_bool_field(&mut report, "Protocol Drift: ", drift, "\n");
        report
    }
}

impl Default for ProtocolAnalyzer {
    fn default() -> (analyzer: Self)
        ensures
            analyzer@ == (ProtocolAnalyzerView {
                message_types: base_message_types(),
                uuids: base_uuids(),
                features: base_features(15),
            }),
    {
        Self::new()
    }
}

} // verus!
