use librepods_core::sbom_generator::{Component, ComponentType, SBOMGenerator, SBOM};

#[test]
fn sbom_generator_test_sbom_creation() {
    let sbom = SBOM::new("sbom-1".to_string(), "1.0.0".to_string());
    assert_eq!(sbom.sbom_id, "sbom-1");
    assert_eq!(sbom.get_total_components(), 0);
}

#[test]
fn sbom_generator_test_add_component() {
    let mut sbom = SBOM::new("sbom-1".to_string(), "1.0.0".to_string());
    let component = Component {
        component_id: "comp-1".to_string(),
        name: "serde".to_string(),
        version: "1.0.0".to_string(),
        component_type: ComponentType::Library,
        license: "MIT".to_string(),
        supplier: "serde-rs".to_string(),
        purl: "pkg:cargo/serde@1.0.0".to_string(),
    };
    sbom.add_component(component);
    assert_eq!(sbom.get_total_components(), 1);
}

#[test]
fn sbom_generator_test_license_tracking() {
    let mut sbom = SBOM::new("sbom-1".to_string(), "1.0.0".to_string());
    for i in 0..3 {
        let component = Component {
            component_id: format!("comp-{}", i),
            name: format!("lib{}", i),
            version: "1.0.0".to_string(),
            component_type: ComponentType::Library,
            license: "MIT".to_string(),
            supplier: "test".to_string(),
            purl: format!("pkg:cargo/lib{}@1.0.0", i),
        };
        sbom.add_component(component);
    }
    assert_eq!(sbom.licenses.get("MIT"), Some(&3));
}

#[test]
fn sbom_generator_test_sbom_generator() {
    let mut generator = SBOMGenerator::new();
    generator.create_sbom("sbom-1".to_string(), "1.0.0".to_string());
    assert_eq!(generator.get_all_sboms().len(), 1);
}
