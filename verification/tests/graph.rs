use whowns::detect::owner::Platform;
use whowns::detect::{detect, DetectionContext};
use whowns::graph::{
    extend_chain,
    graph, nvm_root, resolution, retain_found, sdkman_root, upstream_owner, upstream_plan,
    UpstreamPlan,
};
use whowns::model::{OwnerId, OwnershipGraph, ResolutionStatus};
use whowns::scan::{mark_active, path_candidates, ResolvedExecutable};

fn detected(command: &str, exe: &ResolvedExecutable) -> whowns::model::OwnershipNode {
    let ctx = DetectionContext::new(command, &exe.path, &exe.real_path, None, Platform::Linux);
    detect(&ctx, None)
}

#[test]
fn one_graph_holds_active_and_shadowed_resolutions() {
    let found = mark_active(vec![
        ("/usr/local/bin/node".to_string(), "/usr/local/bin/node".to_string()),
        (
            "/opt/homebrew/bin/node".to_string(),
            "/opt/homebrew/Cellar/node/25.0/bin/node".to_string(),
        ),
    ]);
    let mut resolutions = Vec::new();
    for exe in found {
        let primary = detected("node", &exe);
        resolutions.push(resolution(exe, primary, None));
    }
    let graph = graph("node", resolutions);

    assert_eq!(graph.resolutions.len(), 2);
    assert_eq!(graph.active().unwrap().status, ResolutionStatus::Active);
    assert_eq!(graph.shadowed_count(), 1);
    assert_eq!(graph.resolutions[1].owners[0].display_name(), "Homebrew");
}

#[test]
fn extracts_manager_root_from_runtime_path() {
    assert_eq!(
        nvm_root("/home/me/.nvm/versions/node/v22/bin/node", None),
        Some("/home/me/.nvm".to_string())
    );
    assert_eq!(
        sdkman_root("/home/me/.sdkman/candidates/java/21/bin/java", None),
        Some("/home/me/.sdkman".to_string())
    );
}

#[test]
fn builds_runtime_to_manager_to_install_source_chain() {
    let runtime = "/home/me/.nvm/versions/node/v22.3.0/bin/node";
    let exe = ResolvedExecutable { path: runtime.to_string(), real_path: runtime.to_string(), active: true };
    let primary = detected("node", &exe);
    let root = match upstream_plan(&primary, runtime, None, None) {
        UpstreamPlan::Root { manager, root } => {
            assert_eq!(manager, OwnerId::Nvm);
            root.unwrap()
        }
        _ => panic!("nvm is found through its root"),
    };
    assert_eq!(root, "/home/me/.nvm");
    let ctx = DetectionContext::new("nvm", &root, "/opt/homebrew/Cellar/nvm/0.40.3", None, Platform::MacOs);
    let source = upstream_owner(OwnerId::Nvm, Some(&root), Some(detect(&ctx, None)));
    let resolution = resolution(exe, primary, Some(source));
    let owners = &resolution.owners;
    assert_eq!(owners.len(), 2);
    assert_eq!(owners[0].display_name(), "nvm");
    assert_eq!(owners[1].display_name(), "Homebrew");
    assert_eq!(owners[1].package.as_deref(), Some("nvm"));
}

#[test]
fn a_manager_that_owns_itself_has_an_unconfirmed_source() {
    let runtime = "/home/me/.local/share/mise/installs/node/22/bin/node";
    let exe = ResolvedExecutable { path: runtime.to_string(), real_path: runtime.to_string(), active: true };
    let primary = detected("node", &exe);
    match upstream_plan(&primary, runtime, None, None) {
        UpstreamPlan::Executable { manager, command } => {
            assert_eq!(manager, OwnerId::Mise);
            assert_eq!(command, "mise");
        }
        _ => panic!("mise is found on PATH"),
    }
    let ctx = DetectionContext::new(
        "mise",
        "/home/me/.local/share/mise/bin/mise",
        "/home/me/.local/share/mise/bin/mise",
        None,
        Platform::Linux,
    );
    let source = upstream_owner(OwnerId::Mise, Some("/home/me/.local/share/mise/bin/mise"), Some(detect(&ctx, None)));
    assert_eq!(source.id, OwnerId::UnconfirmedSource);
    let missing = upstream_owner(OwnerId::Mise, None, None);
    assert_eq!(missing.id, OwnerId::UnconfirmedSource);
    assert_eq!(missing.evidence[0].source, "manager lookup");

    let os = ResolvedExecutable { path: "/usr/bin/node".to_string(), real_path: "/usr/bin/node".to_string(), active: true };
    let os_owner = detected("node", &os);
    assert!(matches!(upstream_plan(&os_owner, "/usr/bin/node", None, None), UpstreamPlan::Nothing));
}

#[test]
fn summary_drops_missing_commands_unless_asked() {
    let graphs = || {
        vec![
            OwnershipGraph { command: "node".to_string(), resolutions: vec![] },
            graph(
                "go",
                vec![resolution(
                    ResolvedExecutable { path: "/usr/bin/go".to_string(), real_path: "/usr/bin/go".to_string(), active: true },
                    detected("go", &ResolvedExecutable { path: "/usr/bin/go".to_string(), real_path: "/usr/bin/go".to_string(), active: true }),
                    None,
                )],
            ),
        ]
    };
    let kept = retain_found(graphs(), false);
    assert_eq!(kept.len(), 1);
    assert_eq!(kept[0].command, "go");
    assert_eq!(retain_found(graphs(), true).len(), 2);
}

#[test]
fn path_candidates_follow_path_order_once_each() {
    let candidates = path_candidates("node", "/a:/b/:/a/:relative:");
    assert_eq!(candidates, vec!["/a/node", "/b/node", "relative/node", "node"]);
    let marked = mark_active(vec![
        ("/a/node".to_string(), "/a/node".to_string()),
        ("/b/node".to_string(), "/c/node".to_string()),
    ]);
    assert!(marked[0].active);
    assert!(!marked[1].active);
    assert_eq!(marked[1].real_path, "/c/node");
}

fn bare(id: OwnerId) -> whowns::model::OwnershipNode {
    whowns::model::OwnershipNode {
        id,
        package: None,
        version: None,
        confidence: whowns::model::Confidence::Probable,
        evidence: vec![],
        actions: whowns::model::ActionGuide::default(),
    }
}

#[test]
fn a_chain_follows_each_manager_up_to_its_installation_source() {
    let mut owners = vec![bare(OwnerId::CargoInstall)];
    assert!(extend_chain(&mut owners, Some("/home/me/.cargo/bin/cargo"), Some(bare(OwnerId::Rustup))));
    assert!(extend_chain(&mut owners, Some("/home/me/.cargo/bin/rustup"), Some(bare(OwnerId::RustupInstaller))));
    let ids: Vec<OwnerId> = owners.iter().map(|o| o.id).collect();
    assert_eq!(ids, vec![OwnerId::CargoInstall, OwnerId::Rustup, OwnerId::RustupInstaller]);
}

#[test]
fn a_manager_not_found_further_up_ends_the_chain_as_it_stands() {
    let mut owners = vec![bare(OwnerId::Nvm), bare(OwnerId::Mise)];
    assert!(!extend_chain(&mut owners, None, None));
    assert_eq!(owners.len(), 2);

    let mut first = vec![bare(OwnerId::Mise)];
    assert!(!extend_chain(&mut first, None, None));
    assert_eq!(first[1].id, OwnerId::UnconfirmedSource);
}

#[test]
fn a_cycle_ends_the_chain_with_an_unconfirmed_source() {
    let mut owners = vec![bare(OwnerId::Nvm), bare(OwnerId::Mise)];
    assert!(!extend_chain(&mut owners, Some("/opt/mise"), Some(bare(OwnerId::Nvm))));
    assert_eq!(owners.len(), 3);
    assert_eq!(owners[2].id, OwnerId::UnconfirmedSource);
    assert_eq!(owners[2].evidence[0].source, "traversal");
    assert_eq!(
        owners[2].evidence[0].detail,
        "mise is located at /opt/mise, which nvm owns, and that owner already appears in this chain"
    );
}

#[test]
fn a_ninth_owner_ends_the_chain_with_an_unconfirmed_source() {
    let ids = [
        OwnerId::Nvm,
        OwnerId::Fnm,
        OwnerId::Volta,
        OwnerId::Mise,
        OwnerId::Asdf,
        OwnerId::Pyenv,
        OwnerId::Rbenv,
        OwnerId::Sdkman,
    ];
    let mut owners = vec![bare(ids[0])];
    for id in &ids[1..] {
        assert!(extend_chain(&mut owners, Some("/somewhere"), Some(bare(*id))));
    }
    assert_eq!(owners.len(), 8);
    assert!(!extend_chain(&mut owners, Some("/opt/uv"), Some(bare(OwnerId::Uv))));
    assert_eq!(owners.len(), 9);
    assert_eq!(owners[8].id, OwnerId::UnconfirmedSource);
    assert!(owners[8].evidence[0].detail.starts_with("the chain reached eight owners"));
}
