use librepods_core::release_manager::{ArtifactType, Release, ReleaseArtifact, ReleaseManager, ReleaseVersion};

#[test]
fn release_manager_test_release_version() {
    let version = ReleaseVersion::new("1.0.0".to_string());
    assert_eq!(version.major, 1);
    assert_eq!(version.minor, 0);
    assert_eq!(version.patch, 0);
    assert!(!version.is_prerelease());
}

#[test]
fn release_manager_test_release_creation() {
    let release = Release::new("1.0.0".to_string());
    assert_eq!(release.version.version, "1.0.0");
    assert!(release.is_draft);
}

#[test]
fn release_manager_test_add_artifact() {
    let mut release = Release::new("1.0.0".to_string());
    let artifact = ReleaseArtifact {
        artifact_id: "binary-1".to_string(),
        artifact_type: ArtifactType::Binary,
        file_path: "/path/to/binary".to_string(),
        file_size: 1024 * 1024,
        checksum: "abc123".to_string(),
        checksum_algorithm: "sha256".to_string(),
    };
    release.add_artifact(artifact);
    assert_eq!(release.artifacts.len(), 1);
}

#[test]
fn release_manager_test_publish_release() {
    let mut release = Release::new("1.0.0".to_string());
    release.publish();
    assert!(!release.is_draft);
}

#[test]
fn release_manager_test_release_manager() {
    let mut manager = ReleaseManager::new();
    manager.create_release("1.0.0".to_string());
    assert_eq!(manager.get_all_releases().len(), 1);
}
