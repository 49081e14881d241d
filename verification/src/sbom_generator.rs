//! Bills of materials: the components of a build, what they depend on and
//! under which licences they come.

use crate::collections::{
    lemma_position_of,
    lemma_select_ends,
    lemma_select_step,
    lemma_with_entry_twice,
    lemma_with_entry_value,
    targets,
    value_under,
    with_entry,
    TextMap,
};
use crate::text::{
    decimal,
    joined,
    lemma_joined_ends,
    lemma_joined_step,
    push_count,
    push_count_field,
    push_field,
    same_text,
};
use vstd::prelude::*;

verus! {

/// What a component is.
#[derive(Debug, Clone, Copy, PartialEq, Eq, Structural)]
pub enum ComponentType {
    Library,
    Framework,
    Application,
    Container,
    OperatingSystem,
    Device,
    Firmware,
    Source,
}

impl ComponentType {
    /// The name of the type.
    pub open spec fn name_text(self) -> Seq<char> {
        match self {
            ComponentType::Library => "Library"@,
            ComponentType::Framework => "Framework"@,
            ComponentType::Application => "Application"@,
            ComponentType::Container => "Container"@,
            ComponentType::OperatingSystem => "OperatingSystem"@,
            ComponentType::Device => "Device"@,
            ComponentType::Firmware => "Firmware"@,
            ComponentType::Source => "Source"@,
        }
    }

    /// The name of the type.
    pub fn name(&self) -> (name: &'static str)
        ensures
            name@ == self.name_text(),
    {
        match self {
            ComponentType::Library => "Library",
            ComponentType::Framework => "Framework",
            ComponentType::Application => "Application",
            ComponentType::Container => "Container",
            ComponentType::OperatingSystem => "OperatingSystem",
            ComponentType::Device => "Device",
            ComponentType::Firmware => "Firmware",
            ComponentType::Source => "Source",
        }
    }
}

/// One component.
#[derive(Debug, Clone)]
pub struct Component {
    pub component_id: String,
    pub name: String,
    pub version: String,
    pub component_type: ComponentType,
    pub license: String,
    pub supplier: String,
    pub purl: String,
}

/// How a component depends on others.
#[derive(Debug, Clone, Copy, PartialEq, Eq, Structural)]
pub enum DependencyType {
    Depends,
    DevDependency,
    Optional,
    Transitive,
}

/// What one component depends on.
#[derive(Debug, Clone)]
pub struct Dependency {
    pub component_id: String,
    pub depends_on: Vec<String>,
    pub relationship: DependencyType,
}

/// The moment that a fresh bill carries.
pub open spec fn initial_created_date() -> Seq<char> {
    "2025-11-21T00:00:00Z"@
}

/// The licence counts after one more component under the licence.
pub open spec fn counted(licenses: Seq<(Seq<char>, usize)>, license: Seq<char>) -> Seq<
    (Seq<char>, usize),
> {
    with_entry(
        licenses,
        license,
        match value_under(licenses, license) {
            Some(count) => (count + 1) as usize,
            None => 1usize,
        },
    )
}

/// The line of one licence in the report.
pub open spec fn license_line(entry: (Seq<char>, usize)) -> Seq<char> {
    "  "@ + entry.0 + ": "@ + decimal(entry.1 as nat) + "\n"@
}

/// The line of one component in the report.
pub open spec fn component_line(component: Component) -> Seq<char> {
    "  "@ + component.name@ + " v"@ + component.version@ + " ("@
        + component.component_type.name_text() + ") - "@ + component.license@ + "\n"@
}

/// One bill of materials.
#[derive(Debug, Clone)]
pub struct SBOM {
    pub sbom_id: String,
    pub version: String,
    pub created_date: String,
    pub components: Vec<Component>,
    pub dependencies: Vec<Dependency>,
    pub licenses: TextMap<usize>,
}

impl SBOM {
    /// The bill lists nothing yet.
    pub open spec fn is_blank(&self) -> bool {
        &&& self.created_date@ == initial_created_date()
        &&& self.components@.len() == 0
        &&& self.dependencies@.len() == 0
        &&& self.licenses@.len() == 0
    }

    /// Whether one more component under the licence can be counted.
    pub open spec fn has_room(&self, license: Seq<char>) -> bool {
        match value_under(self.licenses@, license) {
            Some(count) => count < usize::MAX,
            None => true,
        }
    }

    /// Whether this bill is `before` with one more component, listed and
    /// counted under its licence.
    pub open spec fn extends(&self, before: SBOM, component: Component) -> bool {
        &&& self.components@ == before.components@.push(component)
        &&& self.licenses@ == counted(before.licenses@, component.license@)
        &&& self.sbom_id == before.sbom_id
        &&& self.version == before.version
        &&& self.created_date == before.created_date
        &&& self.dependencies == before.dependencies
    }

    /// The components of the given type, in their order.
    pub open spec fn of_type(&self, component_type: ComponentType) -> Seq<Component> {
        self.components@.filter(|c: Component| c.component_type == component_type)
    }

    /// The components under the given licence, in their order.
    pub open spec fn under_license(&self, license: Seq<char>) -> Seq<Component> {
        self.components@.filter(|c: Component| c.license@ == license)
    }

    /// The report on the bill.
    pub open spec fn report(&self) -> Seq<char> {
        "=== SBOM REPORT ===\n\n"@ + "SBOM ID: "@ + self.sbom_id@ + "\n"@ + "Version: "@
            + self.version@ + "\n"@ + "Created: "@ + self.created_date@ + "\n\n"@
            + "Total Components: "@ + decimal(self.components@.len()) + "\n"@
            + "Unique Licenses: "@ + decimal(self.licenses@.len()) + "\n\n"@
            + "License Distribution:\n"@ + joined(
            self.licenses@,
            |e: (Seq<char>, usize)| license_line(e),
        ) + "\nComponents:\n"@ + joined(self.components@, |c: Component| component_line(c))
    }

    pub fn new(sbom_id: String, version: String) -> (sbom: Self)
        ensures
            sbom.is_blank(),
            sbom.sbom_id == sbom_id,
            sbom.version == version,
    {
        Self {
            sbom_id,
            version,
            created_date: String::from_str("2025-11-21T00:00:00Z"),
            components: Vec::new(),
            dependencies: Vec::new(),
            licenses: TextMap::new(),
        }
    }

    /// Lists a component and counts it under its licence.
    pub fn add_component(&mut self, component: Component)
        requires
            old(self).has_room(component.license@),
        ensures
            final(self).extends(*old(self), component),
    {
        let count: usize = match self.licenses.get(component.license.as_str()) {
            Some(count) => *count + 1,
            None => 1,
        };
        self.licenses.insert(component.license.clone(), count);
        self.components.push(component);
    }

    pub fn add_dependency(&mut self, dependency: Dependency)
        ensures
            final(self).dependencies@ == old(self).dependencies@.push(dependency),
            *final(self) == (SBOM { dependencies: final(self).dependencies, ..*old(self) }),
    {
        self.dependencies.push(dependency);
    }

    /// The components of the given type, in their order.
    pub fn get_components_by_type(&self, component_type: ComponentType) -> (found: Vec<&Component>)
        ensures
            targets(found@) == self.of_type(component_type),
    {
        let ghost items = self.components@;
        let ghost keep = |c: Component| c.component_type == component_type;
        let mut found: Vec<&Component> = Vec::new();
        let mut i: usize = 0;
        proof {
            lemma_select_ends(items, keep);
            assert(targets(found@) =~= Seq::<Component>::empty());
        }
        while i < self.components.len()
            invariant
                i <= items.len(),
                items == self.components@,
                keep == |c: Component| c.component_type == component_type,
                targets(found@) == items.take(i as int).filter(keep),
            decreases items.len() - i,
        {
            proof {
                lemma_select_step(items, i as int, keep);
            }
            let component = &self.components[i];
            if component.component_type == component_type {
                let ghost before = targets(found@);
                found.push(component);
                assert(targets(found@) =~= before.push(*component));
            }
            i += 1;
        }
        proof {
            lemma_select_ends(items, keep);
        }
        found
    }

    /// The components under the given licence, in their order.
    pub fn get_components_by_license(&self, license: &str) -> (found: Vec<&Component>)
        ensures
            targets(found@) == self.under_license(license@),
    {
        let ghost items = self.components@;
        let ghost keep = |c: Component| c.license@ == license@;
        let mut found: Vec<&Component> = Vec::new();
        let mut i: usize = 0;
        proof {
            lemma_select_ends(items, keep);
            assert(targets(found@) =~= Seq::<Component>::empty());
        }
        while i < self.components.len()
            invariant
                i <= items.len(),
                items == self.components@,
                keep == |c: Component| c.license@ == license@,
                targets(found@) == items.take(i as int).filter(keep),
            decreases items.len() - i,
        {
            proof {
                lemma_select_step(items, i as int, keep);
            }
            let component = &self.components[i];
            if same_text(component.license.as_str(), license) {
                let ghost before = targets(found@);
                found.push(component);
                assert(targets(found@) =~= before.push(*component));
            }
            i += 1;
        }
        proof {
            lemma_select_ends(items, keep);
        }
        found
    }

    pub fn get_total_components(&self) -> (total: usize)
        ensures
            total == self.components@.len(),
    {
        self.components.len()
    }

    /// The licences under which components come, in the order of their
    /// first component.
    pub fn get_unique_licenses(&self) -> (licenses: Vec<String>)
        ensures
            licenses@.len() == self.licenses@.len(),
            forall|i: int| 0 <= i < licenses@.len() ==> (#[trigger] licenses@[i])@ == self.licenses@[i].0,
    {
        let mut licenses: Vec<String> = Vec::new();
        let mut i: usize = 0;
        while i < self.licenses.len()
            invariant
                i <= self.licenses@.len(),
                licenses@.len() == i,
                forall|j: int| 0 <= j < i ==> (#[trigger] licenses@[j])@ == self.licenses@[j].0,
            decreases self.licenses@.len() - i,
        {
            licenses.push(self.licenses.key_at(i).clone());
            i += 1;
        }
        licenses
    }

    /// The report on the bill, as text.
    pub fn generate_report(&self) -> (report: String)
        ensures
            report@ == self.report(),
    {
        let mut report = String::from_str("=== SBOM REPORT ===\n\n");
        push_field(&mut report, "SBOM ID: ", self.sbom_id.as_str(), "\n");
        push_field(&mut report, "Version: ", self.version.as_str(), "\n");
        push_field(&mut report, "Created: ", self.created_date.as_str(), "\n\n");
        push_count_field(&mut report, "Total Components: ", self.get_total_components(), "\n");
        push_count_field(&mut report, "Unique Licenses: ", self.licenses.len(), "\n\n");
        report.append("License Distribution:\n");
        {
            let ghost line = |e: (Seq<char>, usize)| license_line(e);
            let ghost head = report@;
            let ghost items = self.licenses@;
            let mut i: usize = 0;
            proof {
                lemma_joined_ends(items, line);
                assert(report@ =~= head + joined(items.take(0), line));
            }
            while i < self.licenses.len()
                invariant
                    i <= items.len(),
                    items == self.licenses@,
                    line == |e: (Seq<char>, usize)| license_line(e),
                    report@ == head + joined(items.take(i as int), line),
                decreases items.len() - i,
            {
                proof {
                    lemma_joined_step(items, i as int, line);
                }
                let ghost before = report@;
                push_field(&mut report, "  ", self.licenses.key_at(i).as_str(), ": ");
                push_count(&mut report, *self.licenses.value_at(i));
                report.append("\n");
                assert(report@ =~= before + license_line(items[i as int]));
                assert(report@ =~= head + joined(items.take(i + 1), line));
                i += 1;
            }
            proof {
                lemma_joined_ends(items, line);
            }
        }
        report.append("\nComponents:\n");
        {
            let ghost line = |c: Component| component_line(c);
            let ghost head = report@;
            let ghost items = self.components@;
            let mut i: usize = 0;
            proof {
                lemma_joined_ends(items, line);
                assert(report@ =~= head + joined(items.take(0), line));
            }
            while i < self.components.len()
                invariant
                    i <= items.len(),
                    items == self.components@,
                    line == |c: Component| component_line(c),
                    report@ == head + joined(items.take(i as int), line),
                decreases items.len() - i,
            {
                proof {
                    lemma_joined_step(items, i as int, line);
                }
                let ghost before = report@;
                let component = &self.components[i];
                push_field(&mut report, "  ", component.name.as_str(), " v");
                report.append(component.version.as_str());
                report.append(" (");
                report.append(component.component_type.name());
                report.append(") - ");
                report.append(component.license.as_str());
                report.append("\n");
                assert(report@ =~= before + component_line(items[i as int]));
                assert(report@ =~= head + joined(items.take(i + 1), line));
                i += 1;
            }
            proof {
                lemma_joined_ends(items, line);
            }
        }
        report
    }
}

impl Default for SBOM {
    fn default() -> (sbom: Self)
        ensures
            sbom.is_blank(),
            sbom.sbom_id@ == "sbom-1"@,
            sbom.version@ == "1.0.0"@,
    {
        Self::new(String::from_str("sbom-1"), String::from_str("1.0.0"))
    }
}

/// The bills of the entries, without their keys.
pub open spec fn entry_sboms(entries: Seq<(Seq<char>, SBOM)>) -> Seq<SBOM> {
    entries.map_values(|e: (Seq<char>, SBOM)| e.1)
}

/// The bills of materials by id.
pub struct SBOMGenerator {
    sboms: TextMap<SBOM>,
}

impl View for SBOMGenerator {
    type V = Seq<(Seq<char>, SBOM)>;

    closed spec fn view(&self) -> Seq<(Seq<char>, SBOM)> {
        self.sboms@
    }
}

impl SBOMGenerator {
    pub fn new() -> (generator: Self)
        ensures
            generator@ == Seq::<(Seq<char>, SBOM)>::empty(),
    {
        Self { sboms: TextMap::new() }
    }

    /// Files a new, empty bill under its id, over a bill that was there,
    /// and hands it out for filling.
    pub fn create_sbom(&mut self, sbom_id: String, version: String) -> (sbom: &mut SBOM)
        ensures
            sbom.is_blank(),
            sbom.sbom_id == sbom_id,
            sbom.version == version,
            final(self)@ == with_entry(old(self)@, sbom_id@, *final(sbom)),
    {
        let key = sbom_id.clone();
        let sbom = SBOM::new(sbom_id, version);
        let ghost before = self.sboms@;
        proof {
            lemma_with_entry_value(before, key@, sbom);
            lemma_position_of(before, key@);
            lemma_position_of(with_entry(before, key@, sbom), key@);
        }
        self.sboms.insert(key.clone(), sbom);
        let found = self.sboms.get_mut(key.as_str());
        let sbom = found.unwrap();
        proof {
            lemma_with_entry_twice(before, key@, *sbom, *final(sbom));
        }
        sbom
    }

    pub fn get_sbom(&self, sbom_id: &str) -> (sbom: Option<&SBOM>)
        ensures
            match sbom {
                Some(s) => value_under(self@, sbom_id@) == Some(*s),
                None => value_under(self@, sbom_id@).is_none(),
            },
    {
        self.sboms.get(sbom_id)
    }

    /// Lists a component in the bill under the id. Where there is no such
    /// bill, nothing happens.
    pub fn add_component(&mut self, sbom_id: &str, component: Component)
        requires
            value_under(old(self)@, sbom_id@).is_some() ==> value_under(
                old(self)@,
                sbom_id@,
            ).unwrap().has_room(component.license@),
        ensures
            match value_under(old(self)@, sbom_id@) {
                Some(sbom) => exists|after: SBOM|
                    after.extends(sbom, component) && final(self)@ == with_entry(
                        old(self)@,
                        sbom_id@,
                        after,
                    ),
                None => final(self)@ == old(self)@,
            },
    {
        match self.sboms.get_mut(sbom_id) {
            Some(sbom) => {
                sbom.add_component(component);
            },
            None => {},
        }
    }

    /// All bills, in the order in which their ids first arrived.
    pub fn get_all_sboms(&self) -> (sboms: Vec<&SBOM>)
        ensures
            targets(sboms@) == entry_sboms(self@),
    {
        let mut sboms: Vec<&SBOM> = Vec::new();
        let mut i: usize = 0;
        while i < self.sboms.len()
            invariant
                i <= self.sboms@.len(),
                sboms@.len() == i,
                forall|j: int| 0 <= j < i ==> *sboms@[j] == (#[trigger] self.sboms@[j]).1,
            decreases self.sboms@.len() - i,
        {
            sboms.push(self.sboms.value_at(i));
            i += 1;
        }
        assert(targets(sboms@) =~= entry_sboms(self@));
        sboms
    }
}

impl Default for SBOMGenerator {
    fn default() -> (generator: Self)
        ensures
            generator@ == Seq::<(Seq<char>, SBOM)>::empty(),
    {
        Self::new()
    }
}

} // verus!
