use whowns::detect::owner::{shell_quote, Platform};
use whowns::detect::{
    detect, detect_by_layout, enrich_with_manager_query, linux_package_owner,
    macos_receipt_owner, manager_query_outcome, toolchain_from_rustup_path,
    unconfirmed_manager_source, DetectionContext,
};
use whowns::exec::{QueryFailure, QueryOutput};
use whowns::model::{ActionGuide, Confidence, OwnerId, OwnerKind, OwnershipNode};

struct PathManagerFixture {
    command: &'static str,
    path: &'static str,
    owner: OwnerId,
    kind: OwnerKind,
    confidence: Confidence,
    package: Option<&'static str>,
    version: Option<&'static str>,
    action_fragment: &'static str,
}

fn action_text(actions: &ActionGuide) -> String {
    [
        actions.inspect.as_deref(),
        actions.update.as_deref(),
        actions.remove.as_deref(),
        actions.note.as_deref(),
    ]
    .into_iter()
    .flatten()
    .collect::<Vec<_>>()
    .join("\n")
}

/// Detection on a machine whose package tools claim nothing.
fn detect_for_test(command: &str, path: &str, real_path: &str) -> OwnershipNode {
    let ctx = DetectionContext::new(command, path, real_path, None, Platform::Linux);
    detect(&ctx, None)
}

#[test]
fn detects_nvm_with_version_and_actions() {
    let path = "/home/me/.nvm/versions/node/v22.3.0/bin/node";
    let result = detect_for_test("node", path, path);
    assert_eq!(result.id, OwnerId::Nvm);
    assert_eq!(result.package.as_deref(), Some("node"));
    assert_eq!(result.version.as_deref(), Some("22.3.0"));
    assert_eq!(result.confidence, Confidence::Confirmed);
    assert_eq!(
        result.actions.update.as_deref(),
        Some("nvm install <new-version>")
    );
}

#[test]
fn detects_advertised_path_based_managers() {
    let fixtures = [
        PathManagerFixture {
            command: "node",
            path: "/nix/store/abc123-nodejs-22.3.0/bin/node",
            owner: OwnerId::Nix,
            kind: OwnerKind::PackageManager,
            confidence: Confidence::Confirmed,
            package: Some("nodejs-22.3.0"),
            version: None,
            action_fragment: "nix-store --query --roots",
        },
        PathManagerFixture {
            command: "node",
            path: "/home/me/.local/share/fnm/node-versions/v22.3.0/installation/bin/node",
            owner: OwnerId::Fnm,
            kind: OwnerKind::VersionManager,
            confidence: Confidence::Confirmed,
            package: Some("node"),
            version: Some("22.3.0"),
            action_fragment: "fnm install <new-version>",
        },
        PathManagerFixture {
            command: "node",
            path: "/home/me/.volta/tools/image/node/22.3.0/bin/node",
            owner: OwnerId::Volta,
            kind: OwnerKind::VersionManager,
            confidence: Confidence::Confirmed,
            package: Some("node"),
            version: Some("22.3.0"),
            action_fragment: "volta install node@<new-version>",
        },
        PathManagerFixture {
            command: "node",
            path: "/home/me/.local/share/mise/installs/node/22.3.0/bin/node",
            owner: OwnerId::Mise,
            kind: OwnerKind::VersionManager,
            confidence: Confidence::Confirmed,
            package: Some("node"),
            version: Some("22.3.0"),
            action_fragment: "mise upgrade node",
        },
        PathManagerFixture {
            command: "python3",
            path: "/home/me/.pyenv/versions/3.12.4/bin/python3",
            owner: OwnerId::Pyenv,
            kind: OwnerKind::VersionManager,
            confidence: Confidence::Confirmed,
            package: Some("python"),
            version: Some("3.12.4"),
            action_fragment: "pyenv install <new-version>",
        },
        PathManagerFixture {
            command: "ruby",
            path: "/home/me/.rbenv/versions/3.3.3/bin/ruby",
            owner: OwnerId::Rbenv,
            kind: OwnerKind::VersionManager,
            confidence: Confidence::Confirmed,
            package: Some("ruby"),
            version: Some("3.3.3"),
            action_fragment: "rbenv uninstall 3.3.3",
        },
        PathManagerFixture {
            command: "java",
            path: "/home/me/.sdkman/candidates/java/21.0.2-tem/bin/java",
            owner: OwnerId::Sdkman,
            kind: OwnerKind::VersionManager,
            confidence: Confidence::Confirmed,
            package: Some("java"),
            version: Some("21.0.2-tem"),
            action_fragment: "sdk upgrade java",
        },
        PathManagerFixture {
            command: "python3",
            path: "/home/me/.local/share/uv/python/cpython-3.12.4-linux-x86_64-gnu/bin/python3",
            owner: OwnerId::Uv,
            kind: OwnerKind::VersionManager,
            confidence: Confidence::Confirmed,
            package: Some("python"),
            version: Some("cpython-3.12.4-linux-x86_64-gnu"),
            action_fragment: "uv python install <new-version>",
        },
        PathManagerFixture {
            command: "pnpm",
            path: "/home/me/.local/share/pnpm/pnpm",
            owner: OwnerId::PnpmHome,
            kind: OwnerKind::ToolInstaller,
            confidence: Confidence::Probable,
            package: None,
            version: None,
            action_fragment: "pnpm bin -g",
        },
        PathManagerFixture {
            command: "deno",
            path: "/home/me/.deno/bin/deno",
            owner: OwnerId::DenoInstaller,
            kind: OwnerKind::ToolInstaller,
            confidence: Confidence::Confirmed,
            package: None,
            version: None,
            action_fragment: "deno upgrade",
        },
        PathManagerFixture {
            command: "bun",
            path: "/home/me/.bun/bin/bun",
            owner: OwnerId::BunInstaller,
            kind: OwnerKind::ToolInstaller,
            confidence: Confidence::Confirmed,
            package: None,
            version: None,
            action_fragment: "bun upgrade",
        },
    ];

    for fixture in fixtures {
        let result = detect_for_test(fixture.command, fixture.path, fixture.path);
        let owner = fixture.owner.as_str();
        assert_eq!(result.id, fixture.owner, "path: {}", fixture.path);
        assert_eq!(result.kind(), fixture.kind, "owner: {owner}");
        assert_eq!(result.confidence, fixture.confidence, "owner: {owner}");
        assert_eq!(result.package.as_deref(), fixture.package, "owner: {owner}");
        assert_eq!(result.version.as_deref(), fixture.version, "owner: {owner}");
        assert!(
            action_text(&result.actions).contains(fixture.action_fragment),
            "owner: {owner}"
        );
    }
}

#[test]
fn distinguishes_rustup_and_cargo_home_installers() {
    let rustup = detect_for_test(
        "rustc",
        "/home/me/.cargo/bin/rustc",
        "/home/me/.cargo/bin/rustup",
    );
    assert_eq!(rustup.id, OwnerId::Rustup);
    assert_eq!(rustup.kind(), OwnerKind::VersionManager);
    assert_eq!(rustup.confidence, Confidence::Confirmed);
    assert_eq!(rustup.actions.update.as_deref(), Some("rustup update"));

    let installer = detect_for_test(
        "rustup",
        "/home/me/.cargo/bin/rustup",
        "/home/me/.cargo/bin/rustup",
    );
    assert_eq!(installer.id, OwnerId::RustupInstaller);
    assert_eq!(installer.kind(), OwnerKind::ToolInstaller);
    assert_eq!(
        installer.actions.remove.as_deref(),
        Some("rustup self uninstall")
    );

    let cargo = detect_for_test("rg", "/home/me/.cargo/bin/rg", "/home/me/.cargo/bin/rg");
    assert_eq!(cargo.id, OwnerId::CargoInstall);
    assert_eq!(cargo.kind(), OwnerKind::ToolInstaller);
    assert_eq!(cargo.confidence, Confidence::Probable);
    assert!(cargo.actions.update.is_none());
    assert!(cargo.actions.remove.is_none());
}

#[test]
fn recognizes_macports_layout() {
    let path = "/opt/local/bin/fixture-tool-that-does-not-exist";
    let result = detect_for_test("fixture-tool", path, path);

    assert_eq!(result.id, OwnerId::MacPorts);
    assert_eq!(result.kind(), OwnerKind::PackageManager);
    assert_eq!(result.confidence, Confidence::Probable);
    assert!(action_text(&result.actions)
        .contains("port provides /opt/local/bin/fixture-tool-that-does-not-exist"));
}

#[test]
fn recognizes_operating_system_layout_without_removal_guidance() {
    let path = "/System/whowns-fixture-that-does-not-exist";
    let result = detect_for_test("fixture-tool", path, path);

    assert_eq!(result.id, OwnerId::OperatingSystem);
    assert_eq!(result.kind(), OwnerKind::OperatingSystem);
    assert_eq!(result.confidence, Confidence::Probable);
    assert!(result.actions.update.is_none());
    assert!(result.actions.remove.is_none());
}

#[test]
fn uses_manager_tool_name_in_asdf_actions() {
    let path = "/home/me/.asdf/installs/nodejs/22.3.0/bin/node";
    let result = detect_for_test("node", path, path);
    assert_eq!(result.package.as_deref(), Some("nodejs"));
    assert_eq!(
        result.actions.remove.as_deref(),
        Some("asdf uninstall nodejs 22.3.0")
    );
}

#[test]
fn detects_homebrew_package_and_version_from_real_path() {
    let link = "/opt/homebrew/bin/node";
    let real = "/opt/homebrew/Cellar/node/24.1.0/bin/node";
    let result = detect_for_test("node", link, real);
    assert_eq!(result.id, OwnerId::Homebrew);
    assert_eq!(result.package.as_deref(), Some("node"));
    assert_eq!(result.version.as_deref(), Some("24.1.0"));
    assert_eq!(result.confidence, Confidence::Confirmed);
    assert_eq!(
        result.actions.remove.as_deref(),
        Some("brew uninstall node")
    );
}

#[test]
fn preserves_detector_priority_across_candidate_paths() {
    let path = "/home/me/.nvm/versions/node/v22.3.0/bin/node";
    let real = "/opt/homebrew/Cellar/node/24.1.0/bin/node";

    let result = detect_for_test("node", path, real);

    assert_eq!(result.id, OwnerId::Homebrew);
    assert_eq!(result.package.as_deref(), Some("node"));
    assert_eq!(result.version.as_deref(), Some("24.1.0"));
}

#[test]
fn detects_homebrew_from_direct_link_before_final_resolution() {
    let link = "/tmp/whowns-homebrew-link";
    let cellar_target = "/opt/homebrew/Cellar/node/25.6.1/bin/npm";
    let ctx = DetectionContext::new(
        "npm",
        link,
        "/opt/homebrew/lib/node_modules/npm/bin/npm-cli.js",
        Some(cellar_target),
        Platform::Linux,
    );
    let result = detect(&ctx, None);

    assert_eq!(result.id, OwnerId::Homebrew);
    assert_eq!(result.package.as_deref(), Some("node"));
    assert_eq!(result.version.as_deref(), Some("25.6.1"));
}

#[test]
fn leaves_unrecognized_usr_local_owner_unconfirmed() {
    let path = "/usr/local/bin/custom";
    let result = detect_for_test("custom", path, path);
    assert_eq!(result.id, OwnerId::UnconfirmedOwner);
    assert_eq!(result.confidence, Confidence::Unknown);
    assert!(result.actions.update.is_none());
    assert!(result.actions.remove.is_none());
    assert!(result
        .evidence
        .iter()
        .any(|evidence| evidence.source == "unconfirmed"));
}

#[test]
fn detected_owners_carry_identity_independent_of_display_text() {
    let path = "/home/me/.sdkman/candidates/java/21.0.2-tem/bin/java";
    let result = detect_for_test("java", path, path);

    assert_eq!(result.id, OwnerId::Sdkman);
    assert_eq!(result.id.as_str(), "sdkman");
    assert_eq!(result.display_name(), "SDKMAN!");
    assert_eq!(result.actions.update.as_deref(), Some("sdk upgrade java"));
}

#[test]
fn manager_lookups_are_keyed_by_identity() {
    assert_eq!(OwnerId::CargoInstall.manager_executable(), Some("cargo"));
    assert_eq!(OwnerId::Volta.manager_executable(), Some("volta"));
    assert_eq!(OwnerId::Nvm.manager_executable(), None);
    assert_eq!(OwnerId::Homebrew.manager_executable(), None);
}

#[test]
fn unconfirmed_source_keeps_its_own_identity_and_names_the_manager() {
    let source = unconfirmed_manager_source(OwnerId::Sdkman, None);

    assert_eq!(source.id, OwnerId::UnconfirmedSource);
    assert_eq!(source.confidence, Confidence::Unknown);
    assert!(source
        .evidence
        .iter()
        .any(|evidence| evidence.detail.contains("SDKMAN!")));
}

#[test]
fn quotes_unsafe_action_arguments() {
    assert_eq!(shell_quote("safe@1.2"), "safe@1.2");
    assert_eq!(shell_quote("a b'c"), "'a b'\\''c'");
}

#[test]
fn extracts_rustup_toolchain_from_query_result() {
    assert_eq!(
        toolchain_from_rustup_path(
            "/home/me/.rustup/toolchains/stable-x86_64-unknown-linux-gnu/bin/rustc"
        )
        .as_deref(),
        Some("stable-x86_64-unknown-linux-gnu")
    );
}

#[test]
fn owner_names_round_trip_to_typed_ids() {
    let owners = [
        OwnerId::Nix,
        OwnerId::Homebrew,
        OwnerId::Nvm,
        OwnerId::Fnm,
        OwnerId::Volta,
        OwnerId::Mise,
        OwnerId::Asdf,
        OwnerId::Pyenv,
        OwnerId::Rbenv,
        OwnerId::Sdkman,
        OwnerId::Uv,
        OwnerId::Rustup,
        OwnerId::RustupInstaller,
        OwnerId::CargoInstall,
        OwnerId::PnpmHome,
        OwnerId::DenoInstaller,
        OwnerId::BunInstaller,
        OwnerId::MacosInstaller,
        OwnerId::PythonOrgInstaller,
        OwnerId::MacPorts,
        OwnerId::Dpkg,
        OwnerId::Rpm,
        OwnerId::Pacman,
        OwnerId::Apk,
        OwnerId::OperatingSystem,
        OwnerId::UnconfirmedOwner,
    ];

    for owner in owners {
        assert_eq!(OwnerId::from_name(owner.name()), Some(owner));
    }
}

// Further cases of the library's own.

#[test]
fn shell_quote_quotes_the_empty_word_and_keeps_placeholders() {
    assert_eq!(shell_quote(""), "''");
    assert_eq!(shell_quote("<package>"), "<package>");
    assert_eq!(shell_quote("it's"), "'it'\\''s'");
}

#[test]
fn an_unknown_display_name_names_no_owner() {
    assert_eq!(OwnerId::from_name("Homebrew "), None);
    assert_eq!(OwnerId::from_name("homebrew"), None);
}

#[test]
fn layout_detection_leaves_unclaimed_paths_to_the_platform() {
    let ctx = DetectionContext::new("tool", "/usr/bin/tool", "/usr/bin/tool", None, Platform::Linux);
    assert!(detect_by_layout(&ctx).is_none());
    let claimed = linux_package_owner(
        OwnerId::Dpkg,
        "dpkg-query",
        "tool",
        "/usr/bin/tool",
        &Ok(QueryOutput {
            success: true,
            stdout: "fixture-package: /usr/bin/tool\n".to_string(),
            truncated: false,
        }),
        Platform::Linux,
    );
    let node = detect(&ctx, claimed);
    assert_eq!(node.id, OwnerId::Dpkg);
    assert_eq!(node.package.as_deref(), Some("fixture-package"));
    assert_eq!(
        node.actions.update.as_deref(),
        Some("apt install --only-upgrade fixture-package")
    );
    assert_eq!(node.evidence[0].detail, "`dpkg-query` reports: fixture-package: /usr/bin/tool");
    let unclaimed = detect(&ctx, None);
    assert_eq!(unclaimed.id, OwnerId::OperatingSystem);
}

#[test]
fn package_tools_that_fail_or_say_nothing_claim_nothing() {
    let empty = linux_package_owner(
        OwnerId::Rpm,
        "rpm",
        "tool",
        "/x/tool",
        &Ok(QueryOutput { success: true, stdout: "  \n".to_string(), truncated: false }),
        Platform::Linux,
    );
    assert!(empty.is_none());
    let failed = linux_package_owner(
        OwnerId::Rpm,
        "rpm",
        "tool",
        "/x/tool",
        &Ok(QueryOutput { success: false, stdout: "pkg".to_string(), truncated: false }),
        Platform::Linux,
    );
    assert!(failed.is_none());
    let rpm = linux_package_owner(
        OwnerId::Rpm,
        "rpm",
        "tool",
        "/x/tool",
        &Ok(QueryOutput {
            success: true,
            stdout: "fixture-package-1.2.3-1.x86_64\n".to_string(),
            truncated: false,
        }),
        Platform::Linux,
    )
    .unwrap();
    assert_eq!(rpm.package.as_deref(), Some("fixture-package-1.2.3-1.x86_64"));
    assert!(rpm.actions.note.unwrap().contains("Use the system's RPM frontend"));
    let spawn = linux_package_owner(
        OwnerId::Apk,
        "apk",
        "tool",
        "/x/tool",
        &Err(QueryFailure::SpawnFailed("no such file".to_string())),
        Platform::Linux,
    );
    assert!(spawn.is_none());
}

#[test]
fn reads_a_macos_receipt() {
    let node = macos_receipt_owner(
        "fixture-tool",
        "/x/bin/fixture-tool",
        &Ok(QueryOutput {
            success: true,
            stdout: "volume: /\n  pkgid: com.example.fixture \npkg-version: 1.2.3\n".to_string(),
            truncated: false,
        }),
        Platform::MacOs,
    )
    .unwrap();
    assert_eq!(node.id, OwnerId::MacosInstaller);
    assert_eq!(node.package.as_deref(), Some("com.example.fixture"));
    assert_eq!(node.version.as_deref(), Some("1.2.3"));
    assert_eq!(
        node.actions.inspect.as_deref(),
        Some("pkgutil --pkg-info com.example.fixture")
    );
    assert_eq!(node.evidence.len(), 2);
}

#[test]
fn a_manager_query_that_names_the_executable_confirms_and_enriches() {
    let path = "/home/me/.local/share/mise/installs/node/22.3.0/bin/node";
    let mut node = detect_for_test("node", path, path);
    let outcome = manager_query_outcome(
        "mise which node",
        &Ok(QueryOutput { success: true, stdout: format!("{path}\n"), truncated: false }),
        path,
    );
    enrich_with_manager_query(&mut node, "node", path, outcome, Platform::Linux);
    let last = node.evidence.last().unwrap();
    assert_eq!(last.source, "manager query");
    assert_eq!(
        last.detail,
        format!("`mise which node` returned `{path}` and it matches the resolved executable")
    );
    assert_eq!(node.version.as_deref(), Some("22.3.0"));
}

#[test]
fn manager_query_failures_are_recorded_without_an_answer() {
    let timeout = manager_query_outcome("mise which node", &Err(QueryFailure::Timeout), "/x").unwrap();
    assert!(timeout.result.is_none());
    assert_eq!(
        timeout.evidence.detail,
        "`mise which node` did not finish within the timeout and was killed"
    );
    let exited = manager_query_outcome(
        "mise which node",
        &Ok(QueryOutput { success: false, stdout: "x".to_string(), truncated: false }),
        "/x",
    )
    .unwrap();
    assert_eq!(exited.evidence.detail, "`mise which node` exited without confirming ownership");
    let truncated = manager_query_outcome(
        "mise which node",
        &Ok(QueryOutput { success: true, stdout: "x".to_string(), truncated: true }),
        "/x",
    )
    .unwrap();
    assert_eq!(truncated.evidence.detail, "`mise which node` output was truncated; ignoring it");
    let empty = manager_query_outcome(
        "mise which node",
        &Ok(QueryOutput { success: true, stdout: " \n".to_string(), truncated: false }),
        "/x",
    );
    assert!(empty.is_none());
}

#[test]
fn enrichment_fills_fnm_and_rustup_versions_from_the_answer() {
    let path = "/run/user/1000/fnm_multishells/123/bin/node";
    let mut fnm = detect_for_test("node", path, path);
    assert_eq!(fnm.id, OwnerId::Fnm);
    assert_eq!(fnm.version, None);
    let outcome = manager_query_outcome(
        "fnm current",
        &Ok(QueryOutput { success: true, stdout: "v22.3.0\n".to_string(), truncated: false }),
        path,
    );
    enrich_with_manager_query(&mut fnm, "node", path, outcome, Platform::Linux);
    assert_eq!(fnm.version.as_deref(), Some("22.3.0"));
    assert_eq!(fnm.actions.remove.as_deref(), Some("fnm uninstall 22.3.0"));

    let mut rustup = detect_for_test("rustc", "/home/me/.cargo/bin/rustc", "/home/me/.cargo/bin/rustup");
    let outcome = manager_query_outcome(
        "rustup which rustc",
        &Ok(QueryOutput {
            success: true,
            stdout: "/home/me/.rustup/toolchains/stable-x86_64-unknown-linux-gnu/bin/rustc\n".to_string(),
            truncated: false,
        }),
        "/home/me/.cargo/bin/rustup",
    );
    enrich_with_manager_query(&mut rustup, "rustc", "/home/me/.cargo/bin/rustup", outcome, Platform::Linux);
    assert_eq!(rustup.version.as_deref(), Some("stable-x86_64-unknown-linux-gnu"));
    assert_eq!(
        rustup.actions.remove.as_deref(),
        Some("rustup toolchain uninstall stable-x86_64-unknown-linux-gnu")
    );
}

#[test]
fn unclaimed_paths_outside_usr_local_give_the_general_reason() {
    let result = detect_for_test("tool", "/srv/tool", "/srv/tool");
    assert_eq!(result.id, OwnerId::UnconfirmedOwner);
    assert_eq!(
        result.evidence.last().unwrap().detail,
        "no recognized manager path, package receipt, or operating-system package query claimed this executable"
    );
    assert_eq!(
        result.actions.inspect.as_deref(),
        Some("dpkg-query -S /srv/tool  # also try rpm -qf, pacman -Qo, or apk info -W")
    );
}

#[test]
fn path_evidence_names_the_link_and_the_final_target() {
    let ctx = DetectionContext::new(
        "node",
        "/opt/homebrew/bin/node",
        "/opt/homebrew/Cellar/node/24.1.0/bin/node",
        Some("../Cellar/node/24.1.0/bin/node"),
        Platform::MacOs,
    );
    let evidence = ctx.evidence();
    assert_eq!(evidence.len(), 3);
    assert_eq!(evidence[0].detail, "PATH entry is /opt/homebrew/bin/node");
    assert_eq!(
        evidence[1].detail,
        "direct target is /opt/homebrew/bin/../Cellar/node/24.1.0/bin/node"
    );
    assert_eq!(
        evidence[2].detail,
        "ultimate target is /opt/homebrew/Cellar/node/24.1.0/bin/node"
    );
    let same = DetectionContext::new("x", "/a/b/", "/a//b", None, Platform::Linux);
    assert_eq!(same.evidence().len(), 1);
}
