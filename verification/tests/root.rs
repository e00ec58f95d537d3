use whowns::detect::root::{ManagerRoots, RootEnvironment};
use whowns::model::OwnerId;

fn located(path: &str) -> Vec<(String, String)> {
    vec![(path.to_string(), path.to_string())]
}

fn environment(home: &str) -> RootEnvironment {
    RootEnvironment {
        home: Some(home.to_string()),
        xdg_config_home: None,
        xdg_data_home: None,
        nvm_dir: None,
        fnm_dir: None,
        volta_home: None,
        mise_data_dir: None,
        asdf_data_dir: None,
        pyenv_root: None,
        rbenv_root: None,
        sdkman_dir: None,
        uv_python_install_dir: None,
        cargo_home: None,
    }
}

#[test]
fn resolves_an_environment_root_without_requiring_it_to_exist() {
    let mut env = environment("/home/me");
    env.pyenv_root = Some("/not-created/custom-pyenv".to_string());
    let roots = ManagerRoots::resolve(&env);

    let path = roots
        .manager_path(&located("/not-created/custom-pyenv/versions/3.12.4/bin/python3"))
        .unwrap();

    assert_eq!(path.owner, OwnerId::Pyenv);
    assert_eq!(path.relative_path, "versions/3.12.4/bin/python3");
    assert!(path.evidence().contains("$PYENV_ROOT"));
}

#[test]
fn preserves_fnm_multishell_detection() {
    let roots = ManagerRoots::for_home("/home/me");
    let path = roots
        .manager_path(&located("/run/user/1000/fnm_multishells/session/bin/node"))
        .unwrap();

    assert_eq!(path.owner, OwnerId::Fnm);
    assert!(path.evidence().contains("multishell root inferred"));
}

#[test]
fn preserves_project_local_mise_detection() {
    let roots = ManagerRoots::for_home("/home/me");
    let path = roots
        .manager_path(&located("/work/project/.mise/installs/node/22.3.0/bin/node"))
        .unwrap();

    assert_eq!(path.owner, OwnerId::Mise);
    assert_eq!(path.relative_path, "installs/node/22.3.0/bin/node");
    assert!(path.evidence().contains("root inferred from its layout"));
}

#[test]
fn default_roots_sit_under_home_and_xdg_directories() {
    let mut env = environment("/home/me");
    env.xdg_data_home = Some("/data".to_string());
    env.nvm_dir = Some(String::new());
    let roots = ManagerRoots::resolve(&env);
    let nvm = roots
        .manager_path(&located("/home/me/.nvm/versions/node/v22/bin/node"))
        .unwrap();
    assert_eq!(nvm.owner, OwnerId::Nvm);
    assert_eq!(nvm.evidence(), "path is inside the default nvm root (/home/me/.nvm)");
    let uv = roots
        .manager_path(&located("/data/uv/python/cpython-3.12/bin/python3"))
        .unwrap();
    assert_eq!(uv.owner, OwnerId::Uv);
    assert_eq!(
        uv.evidence(),
        "path is inside the uv root from `$XDG_DATA_HOME` (/data/uv/python)"
    );
    assert!(roots.manager_path(&located("/home/me/.nvm")).is_none());
}

#[test]
fn cargo_home_comes_from_the_environment_or_home() {
    let mut env = environment("/home/me");
    let roots = ManagerRoots::resolve(&env);
    let cargo = roots.cargo_path(&located("/home/me/.cargo/bin/rg")).unwrap();
    assert_eq!(cargo.relative_path(), "bin/rg");
    assert_eq!(cargo.evidence(), "path is inside the default Cargo home (/home/me/.cargo)");
    env.cargo_home = Some("/opt/cargo".to_string());
    let roots = ManagerRoots::resolve(&env);
    assert!(roots.cargo_path(&located("/home/me/.cargo/bin/rg")).is_none());
    let cargo = roots.cargo_path(&located("/opt/cargo/bin/rg")).unwrap();
    assert_eq!(cargo.evidence(), "path is inside Cargo home from `$CARGO_HOME` (/opt/cargo)");
}

#[test]
fn a_canonical_root_matches_paths_through_their_canonical_form() {
    let mut roots = ManagerRoots::for_home("/home/me");
    assert_eq!(roots.root_paths()[5], "/home/me/.asdf");
    roots.set_canonical(5, "/data/asdf".to_string());
    let found = roots
        .manager_path(&vec![(
            "/elsewhere/bin/node".to_string(),
            "/data/asdf/installs/nodejs/22/bin/node".to_string(),
        )])
        .unwrap();
    assert_eq!(found.owner, OwnerId::Asdf);
    assert_eq!(found.relative_path, "installs/nodejs/22/bin/node");
    assert_eq!(
        roots.root_for(OwnerId::Asdf, "/home/me/.asdf/installs/x/1/bin/x", "/nowhere"),
        Some("/home/me/.asdf".to_string())
    );
    assert_eq!(roots.root_for(OwnerId::Pyenv, "/home/me/.asdf/installs/x/1/bin/x", "/nowhere"), None);
}

#[test]
fn a_manager_variable_replaces_the_default_root_and_an_empty_one_does_not() {
    let mut env = environment("/home/me");
    env.volta_home = Some("/opt/volta".to_string());
    let roots = ManagerRoots::resolve(&env);
    let found = roots
        .manager_path_for(OwnerId::Volta, &located("/opt/volta/bin/node"))
        .unwrap();
    assert_eq!(found.relative_path, "bin/node");
    assert!(found.evidence().contains("$VOLTA_HOME"));
    assert!(roots
        .manager_path_for(OwnerId::Volta, &located("/home/me/.volta/bin/node"))
        .is_none());

    env.volta_home = Some(String::new());
    let roots = ManagerRoots::resolve(&env);
    let found = roots
        .manager_path_for(OwnerId::Volta, &located("/home/me/.volta/bin/node"))
        .unwrap();
    assert_eq!(found.relative_path, "bin/node");
}

#[test]
fn mise_data_dir_comes_before_the_home_mise_root() {
    let mut env = environment("/home/me");
    env.mise_data_dir = Some("/data/mise".to_string());
    let roots = ManagerRoots::resolve(&env);
    let data = roots.manager_path_for(OwnerId::Mise, &located("/data/mise/installs/node/22/bin/node")).unwrap();
    assert!(data.evidence().contains("$MISE_DATA_DIR"));
    let home = roots.manager_path_for(OwnerId::Mise, &located("/home/me/.mise/installs/node/22/bin/node")).unwrap();
    assert_eq!(home.relative_path, "installs/node/22/bin/node");
}
