use whowns::detect::owner::Platform;
use whowns::detect::{detect, DetectionContext};
use whowns::model::{
    all_owner_ids, ActionGuide, Confidence, OwnerId, OwnerKind, OwnershipGraph, OwnershipNode,
    Resolution, ResolutionStatus,
};

#[test]
fn every_owner_id_has_a_distinct_stable_snake_case_identifier() {
    let all = all_owner_ids();
    let mut seen = Vec::new();
    for id in all.iter().copied() {
        let value = id.as_str();
        assert!(
            !value.is_empty()
                && value.chars().all(|character| character.is_ascii_lowercase()
                    || character.is_ascii_digit()
                    || character == '_'),
            "{value} is not a snake_case identifier"
        );
        assert!(!seen.contains(&value), "duplicate owner id {value}");
        seen.push(value);
    }
    assert_eq!(seen.len(), all.len());
}

#[test]
fn stable_identifiers_are_independent_of_display_text() {
    assert_eq!(OwnerId::Sdkman.as_str(), "sdkman");
    assert_eq!(OwnerId::Sdkman.display_name(), "SDKMAN!");
    assert_eq!(OwnerId::MacosInstaller.as_str(), "macos_installer");
    assert_eq!(
        OwnerId::MacosInstaller.display_name(),
        "macOS Installer (.pkg)"
    );
    assert_eq!(OwnerId::Homebrew.as_str(), "homebrew");
    assert_eq!(OwnerId::Homebrew.display_name(), "Homebrew");
}

#[test]
fn owner_kind_is_derived_from_identity_not_stored_per_node() {
    let node = OwnershipNode {
        id: OwnerId::Rustup,
        package: None,
        version: None,
        confidence: Confidence::Confirmed,
        evidence: vec![],
        actions: ActionGuide::default(),
    };
    assert_eq!(node.kind(), OwnerKind::VersionManager);
    assert_eq!(node.display_name(), "rustup");
    assert_eq!(OwnerId::RustupInstaller.kind(), OwnerKind::ToolInstaller);
}

fn resolution(path: &str, status: ResolutionStatus) -> Resolution {
    Resolution {
        path: path.to_string(),
        real_path: path.to_string(),
        status,
        owners: vec![],
    }
}

#[test]
fn active_is_the_first_active_resolution_and_shadowed_ones_are_counted() {
    let graph = OwnershipGraph {
        command: "node".to_string(),
        resolutions: vec![
            resolution("/a/node", ResolutionStatus::Shadowed),
            resolution("/b/node", ResolutionStatus::Active),
            resolution("/c/node", ResolutionStatus::Active),
            resolution("/d/node", ResolutionStatus::Shadowed),
        ],
    };
    assert_eq!(graph.active().unwrap().path, "/b/node");
    assert_eq!(graph.shadowed_count(), 2);

    let empty = OwnershipGraph {
        command: "node".to_string(),
        resolutions: vec![],
    };
    assert!(empty.active().is_none());
    assert_eq!(empty.shadowed_count(), 0);
}

#[test]
fn status_confidence_and_kind_strings_are_stable() {
    assert_eq!(ResolutionStatus::Active.as_str(), "active");
    assert_eq!(ResolutionStatus::Shadowed.as_str(), "shadowed");
    assert_eq!(Confidence::Confirmed.as_str(), "confirmed");
    assert_eq!(Confidence::Probable.as_str(), "probable");
    assert_eq!(Confidence::Unknown.as_str(), "unknown");
    assert_eq!(OwnerKind::PackageManager.as_str(), "package_manager");
    assert_eq!(OwnerKind::ToolInstaller.as_str(), "tool_installer");
    assert_eq!(OwnerKind::OperatingSystem.as_str(), "operating_system");
    assert_eq!(OwnerId::UnconfirmedSource.kind(), OwnerKind::Unknown);
}

#[test]
fn primary_owner_is_the_nearest_owner() {
    let ctx = DetectionContext::new(
        "node",
        "/home/me/.nvm/versions/node/v22.3.0/bin/node",
        "/home/me/.nvm/versions/node/v22.3.0/bin/node",
        None,
        Platform::Linux,
    );
    let node = detect(&ctx, None);
    let resolution = Resolution {
        path: "/x".to_string(),
        real_path: "/x".to_string(),
        status: ResolutionStatus::Active,
        owners: vec![node],
    };
    assert_eq!(resolution.primary_owner().unwrap().id, OwnerId::Nvm);
    let none = Resolution {
        path: "/x".to_string(),
        real_path: "/x".to_string(),
        status: ResolutionStatus::Active,
        owners: vec![],
    };
    assert!(none.primary_owner().is_none());
}
