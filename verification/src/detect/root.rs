//! Where each version manager keeps its data: from its environment variable,
//! else its default location under the home or XDG directories, else inferred
//! from a path's layout.
use vstd::prelude::*;

use crate::model::{OwnerId, display_str};
use crate::path::{components, components_of, join, join_exec, relative_to, relative_to_exec, render, render_from};
use crate::text::{concat2, concat3, concat5, opt_view, owned, str_eq, views};

verus! {

#[derive(Clone, Copy, Debug, PartialEq, Eq)]
pub enum RootSource {
    Environment(&'static str),
    Default,
    Inferred,
}

pub enum SourceModel {
    Environment(Seq<char>),
    Default,
    Inferred,
}

pub open spec fn source_view(s: RootSource) -> SourceModel {
    match s {
        RootSource::Environment(v) => SourceModel::Environment(v@),
        RootSource::Default => SourceModel::Default,
        RootSource::Inferred => SourceModel::Inferred,
    }
}

pub struct RootModel {
    pub path: Seq<char>,
    pub canonical_path: Seq<char>,
    pub source: SourceModel,
}

/// A manager's root directory, with its canonical form where it resolves.
#[derive(Debug)]
pub struct ResolvedRoot {
    pub path: String,
    pub canonical_path: String,
    pub source: RootSource,
}

impl View for ResolvedRoot {
    type V = RootModel;

    open spec fn view(&self) -> RootModel {
        RootModel { path: self.path@, canonical_path: self.canonical_path@, source: source_view(self.source) }
    }
}

/// Where a path lies below a root: as written, else in canonical form.
pub open spec fn relative_in_root(root: RootModel, path: Seq<char>, canonical: Seq<char>) -> Option<Seq<char>> {
    match relative_to(path, root.path) {
        Some(r) => Some(r),
        None => relative_to(canonical, root.canonical_path),
    }
}

pub open spec fn root_evidence_spec(root: RootModel, owner: OwnerId) -> Seq<char> {
    match root.source {
        SourceModel::Environment(variable) => "path is inside the "@ + display_str(owner) + " root from `$"@ + variable
            + "` ("@ + root.path + ")"@,
        SourceModel::Default => "path is inside the default "@ + display_str(owner) + " root ("@ + root.path + ")"@,
        SourceModel::Inferred => if owner == OwnerId::Fnm {
            "path is inside the "@ + display_str(owner) + " multishell root inferred from its layout ("@ + root.path
                + ")"@
        } else {
            "path is inside the "@ + display_str(owner) + " root inferred from its layout ("@ + root.path + ")"@
        },
    }
}

pub open spec fn cargo_evidence_spec(root: RootModel) -> Seq<char> {
    match root.source {
        SourceModel::Environment(variable) => "path is inside Cargo home from `$"@ + variable + "` ("@ + root.path
            + ")"@,
        _ => "path is inside the default Cargo home ("@ + root.path + ")"@,
    }
}

impl ResolvedRoot {
    /// A root at `path`; `canonical` is its canonical form where it resolves.
    pub fn new(path: String, canonical: Option<String>, source: RootSource) -> (r: ResolvedRoot)
        ensures
            r@.path == path@,
            r@.canonical_path == match canonical {
                Some(c) => c@,
                None => path@,
            },
            r.source == source,
    {
        let canonical_path = match canonical {
            Some(c) => c,
            None => path.clone(),
        };
        ResolvedRoot { path, canonical_path, source }
    }

    pub fn copy(&self) -> (r: ResolvedRoot)
        ensures
            r@ == self@,
            r.source == self.source,
    {
        ResolvedRoot { path: self.path.clone(), canonical_path: self.canonical_path.clone(), source: self.source }
    }

    /// Where `path` (whose canonical form is `canonical`) lies below this root.
    pub fn relative_path(&self, path: &str, canonical: &str) -> (r: Option<String>)
        ensures
            opt_view(r) == relative_in_root(self@, path@, canonical@),
    {
        match relative_to_exec(path, self.path.as_str()) {
            Some(r) => Some(r),
            None => relative_to_exec(canonical, self.canonical_path.as_str()),
        }
    }

    pub fn evidence(&self, owner: OwnerId) -> (r: String)
        ensures
            r@ == root_evidence_spec(self@, owner),
    {
        let name = owner.display_name();
        match self.source {
            RootSource::Environment(variable) => {
                let mut r = concat3("path is inside the ", name, " root from `$");
                r.append(variable);
                r.append("` (");
                r.append(self.path.as_str());
                r.append(")");
                r
            },
            RootSource::Default => {
                let mut r = concat3("path is inside the default ", name, " root (");
                r.append(self.path.as_str());
                r.append(")");
                r
            },
            RootSource::Inferred => {
                if owner == OwnerId::Fnm {
                    let mut r = concat3("path is inside the ", name, " multishell root inferred from its layout (");
                    r.append(self.path.as_str());
                    r.append(")");
                    r
                } else {
                    let mut r = concat3("path is inside the ", name, " root inferred from its layout (");
                    r.append(self.path.as_str());
                    r.append(")");
                    r
                }
            },
        }
    }

    /// The evidence for a path in Cargo home, which is never inferred.
    pub fn cargo_evidence(&self) -> (r: String)
        requires
            !(self.source is Inferred),
        ensures
            r@ == cargo_evidence_spec(self@),
    {
        match self.source {
            RootSource::Environment(variable) => {
                let mut r = concat3("path is inside Cargo home from `$", variable, "` (");
                r.append(self.path.as_str());
                r.append(")");
                r
            },
            _ => {
                let mut r = owned("path is inside the default Cargo home (");
                r.append(self.path.as_str());
                r.append(")");
                r
            },
        }
    }
}

pub struct OwnerRoot {
    pub owner: OwnerId,
    pub root: ResolvedRoot,
}

/// A path found below a manager's root.
pub struct ManagerPath {
    pub owner: OwnerId,
    pub relative_path: String,
    pub root: ResolvedRoot,
}

pub struct ManagerPathModel {
    pub owner: OwnerId,
    pub relative_path: Seq<char>,
    pub root: RootModel,
}

pub open spec fn manager_path_view(m: Option<ManagerPath>) -> Option<ManagerPathModel> {
    match m {
        Some(p) => Some(ManagerPathModel { owner: p.owner, relative_path: p.relative_path@, root: p.root@ }),
        None => None,
    }
}

impl ManagerPath {
    pub fn evidence(&self) -> (r: String)
        ensures
            r@ == root_evidence_spec(self.root@, self.owner),
    {
        self.root.evidence(self.owner)
    }
}

/// A path found below Cargo home.
pub struct CargoPath {
    relative_path: String,
    root: ResolvedRoot,
}

impl CargoPath {
    #[verifier::type_invariant]
    spec fn inv(self) -> bool {
        !(self.root.source is Inferred)
    }

    pub closed spec fn relative_view(&self) -> Seq<char> {
        self.relative_path@
    }

    pub closed spec fn root_view(&self) -> RootModel {
        self.root@
    }

    pub fn relative_path(&self) -> (r: &String)
        ensures
            r@ == self.relative_view(),
    {
        &self.relative_path
    }

    pub fn evidence(&self) -> (r: String)
        ensures
            r@ == cargo_evidence_spec(self.root_view()),
    {
        proof {
            use_type_invariant(self);
        }
        self.root.cargo_evidence()
    }
}

/// The environment variables that place manager roots. An empty value counts as unset.
pub struct RootEnvironment {
    pub home: Option<String>,
    pub xdg_config_home: Option<String>,
    pub xdg_data_home: Option<String>,
    pub nvm_dir: Option<String>,
    pub fnm_dir: Option<String>,
    pub volta_home: Option<String>,
    pub mise_data_dir: Option<String>,
    pub asdf_data_dir: Option<String>,
    pub pyenv_root: Option<String>,
    pub rbenv_root: Option<String>,
    pub sdkman_dir: Option<String>,
    pub uv_python_install_dir: Option<String>,
    pub cargo_home: Option<String>,
}

/// The environment as the roots read it: every value non-empty.
pub struct EnvModel {
    pub home: Option<Seq<char>>,
    pub xdg_config_home: Option<Seq<char>>,
    pub xdg_data_home: Option<Seq<char>>,
    pub nvm_dir: Option<Seq<char>>,
    pub fnm_dir: Option<Seq<char>>,
    pub volta_home: Option<Seq<char>>,
    pub mise_data_dir: Option<Seq<char>>,
    pub asdf_data_dir: Option<Seq<char>>,
    pub pyenv_root: Option<Seq<char>>,
    pub rbenv_root: Option<Seq<char>>,
    pub sdkman_dir: Option<Seq<char>>,
    pub uv_python_install_dir: Option<Seq<char>>,
    pub cargo_home: Option<Seq<char>>,
}

pub open spec fn env_view(e: RootEnvironment) -> EnvModel {
    EnvModel {
        home: non_empty(e.home),
        xdg_config_home: non_empty(e.xdg_config_home),
        xdg_data_home: non_empty(e.xdg_data_home),
        nvm_dir: non_empty(e.nvm_dir),
        fnm_dir: non_empty(e.fnm_dir),
        volta_home: non_empty(e.volta_home),
        mise_data_dir: non_empty(e.mise_data_dir),
        asdf_data_dir: non_empty(e.asdf_data_dir),
        pyenv_root: non_empty(e.pyenv_root),
        rbenv_root: non_empty(e.rbenv_root),
        sdkman_dir: non_empty(e.sdkman_dir),
        uv_python_install_dir: non_empty(e.uv_python_install_dir),
        cargo_home: non_empty(e.cargo_home),
    }
}

/// The environment in which only `$HOME` is set.
pub open spec fn home_env(home: Seq<char>) -> EnvModel {
    EnvModel {
        home: if home.len() > 0 {
            Some(home)
        } else {
            None
        },
        xdg_config_home: None,
        xdg_data_home: None,
        nvm_dir: None,
        fnm_dir: None,
        volta_home: None,
        mise_data_dir: None,
        asdf_data_dir: None,
        pyenv_root: None,
        rbenv_root: None,
        sdkman_dir: None,
        uv_python_install_dir: None,
        cargo_home: None,
    }
}

pub open spec fn non_empty(v: Option<String>) -> Option<Seq<char>> {
    match v {
        Some(s) => if s@.len() > 0 {
            Some(s@)
        } else {
            None
        },
        None => None,
    }
}

/// A root below the home directory, where there is one.
pub open spec fn default_root(home: Option<Seq<char>>, relative: Seq<char>) -> Option<(Seq<char>, SourceModel)> {
    match home {
        Some(h) => Some((join(h, relative), SourceModel::Default)),
        None => None,
    }
}

/// A root below an XDG directory (named by `variable`), else the fallback.
pub open spec fn xdg_root(
    xdg: Option<Seq<char>>,
    variable: Seq<char>,
    relative: Seq<char>,
    fallback: Option<(Seq<char>, SourceModel)>,
) -> Option<(Seq<char>, SourceModel)> {
    match xdg {
        Some(d) => Some((join(d, relative), SourceModel::Environment(variable))),
        None => fallback,
    }
}

/// The manager's own variable wins over its default.
pub open spec fn env_or_default(
    owner: OwnerId,
    variable: Seq<char>,
    environment: Option<Seq<char>>,
    default: Option<(Seq<char>, SourceModel)>,
) -> Seq<(OwnerId, Seq<char>, SourceModel)> {
    match environment {
        Some(p) => seq![(owner, p, SourceModel::Environment(variable))],
        None => match default {
            Some(d) => seq![(owner, d.0, d.1)],
            None => Seq::empty(),
        },
    }
}

/// Every manager root the environment places, in lookup order.
pub open spec fn roots_spec(e: EnvModel) -> Seq<(OwnerId, Seq<char>, SourceModel)> {
    let home = e.home;
    let xdg_config = e.xdg_config_home;
    let xdg_data = e.xdg_data_home;
    env_or_default(OwnerId::Nvm, "NVM_DIR"@, e.nvm_dir, xdg_root(xdg_config, "XDG_CONFIG_HOME"@, "nvm"@, default_root(home, ".nvm"@)))
        + env_or_default(OwnerId::Fnm, "FNM_DIR"@, e.fnm_dir, xdg_root(xdg_data, "XDG_DATA_HOME"@, "fnm"@, default_root(home, ".local/share/fnm"@)))
        + env_or_default(OwnerId::Volta, "VOLTA_HOME"@, e.volta_home, default_root(home, ".volta"@))
        + env_or_default(OwnerId::Mise, "MISE_DATA_DIR"@, e.mise_data_dir, xdg_root(xdg_data, "XDG_DATA_HOME"@, "mise"@, default_root(home, ".local/share/mise"@)))
        + env_or_default(OwnerId::Mise, "HOME"@, None, default_root(home, ".mise"@))
        + env_or_default(OwnerId::Asdf, "ASDF_DATA_DIR"@, e.asdf_data_dir, default_root(home, ".asdf"@))
        + env_or_default(OwnerId::Pyenv, "PYENV_ROOT"@, e.pyenv_root, default_root(home, ".pyenv"@))
        + env_or_default(OwnerId::Rbenv, "RBENV_ROOT"@, e.rbenv_root, default_root(home, ".rbenv"@))
        + env_or_default(OwnerId::Sdkman, "SDKMAN_DIR"@, e.sdkman_dir, default_root(home, ".sdkman"@))
        + env_or_default(OwnerId::Uv, "UV_PYTHON_INSTALL_DIR"@, e.uv_python_install_dir, xdg_root(xdg_data, "XDG_DATA_HOME"@, "uv/python"@, default_root(home, ".local/share/uv/python"@)))
}

/// Cargo home: `$CARGO_HOME`, else `~/.cargo`.
pub open spec fn cargo_spec(e: EnvModel) -> Option<(Seq<char>, SourceModel)> {
    match e.cargo_home {
        Some(p) => Some((p, SourceModel::Environment("CARGO_HOME"@))),
        None => default_root(e.home, ".cargo"@),
    }
}

/// The roots of every recognized version manager, and Cargo home.
pub struct ManagerRoots {
    managers: Vec<OwnerRoot>,
    cargo: Option<ResolvedRoot>,
}

pub open spec fn root_entries(v: Seq<OwnerRoot>) -> Seq<(OwnerId, RootModel)> {
    v.map_values(|r: OwnerRoot| (r.owner, r.root@))
}

fn non_empty_exec(v: &Option<String>) -> (r: Option<String>)
    ensures
        opt_view(r) == non_empty(*v),
{
    match v {
        Some(s) => if s.as_str().unicode_len() > 0 {
            Some(s.clone())
        } else {
            None
        },
        None => None,
    }
}

fn default_root_exec(home: &Option<String>, relative: &str) -> (r: Option<(String, RootSource)>)
    ensures
        root_choice_view(r) == default_root(opt_view(*home), relative@),
{
    match home {
        Some(h) => Some((join_exec(h.as_str(), relative), RootSource::Default)),
        None => None,
    }
}

pub open spec fn root_choice_view(r: Option<(String, RootSource)>) -> Option<(Seq<char>, SourceModel)> {
    match r {
        Some(p) => Some((p.0@, source_view(p.1))),
        None => None,
    }
}

fn xdg_root_exec(
    xdg: &Option<String>,
    variable: &'static str,
    relative: &str,
    fallback: Option<(String, RootSource)>,
) -> (r: Option<(String, RootSource)>)
    ensures
        root_choice_view(r) == xdg_root(opt_view(*xdg), variable@, relative@, root_choice_view(fallback)),
{
    match xdg {
        Some(d) => Some((join_exec(d.as_str(), relative), RootSource::Environment(variable))),
        None => fallback,
    }
}

pub open spec fn entry_views(v: Seq<OwnerRoot>) -> Seq<(OwnerId, Seq<char>, SourceModel)> {
    v.map_values(|r: OwnerRoot| (r.owner, r.root.path@, source_view(r.root.source)))
}

pub open spec fn all_written(v: Seq<OwnerRoot>) -> bool {
    forall|i: int| 0 <= i < v.len() ==> #[trigger] v[i].root.canonical_path@ == v[i].root.path@
}

fn push_environment_or_default(
    roots: &mut Vec<OwnerRoot>,
    owner: OwnerId,
    variable: &'static str,
    environment: Option<String>,
    default: Option<(String, RootSource)>,
)
    requires
        all_written(old(roots)@),
    ensures
        all_written(final(roots)@),
        entry_views(final(roots)@) == entry_views(old(roots)@) + env_or_default(
            owner,
            variable@,
            opt_view(environment),
            root_choice_view(default),
        ),
{
    let ghost before = roots@;
    match environment {
        Some(path) => {
            roots.push(OwnerRoot { owner, root: ResolvedRoot::new(path, None, RootSource::Environment(variable)) });
        },
        None => match default {
            Some((path, source)) => {
                roots.push(OwnerRoot { owner, root: ResolvedRoot::new(path, None, source) });
            },
            None => {},
        },
    }
    assert(entry_views(roots@) =~= entry_views(before) + env_or_default(
        owner,
        variable@,
        opt_view(environment),
        root_choice_view(default),
    ));
}

impl ManagerRoots {
    #[verifier::type_invariant]
    spec fn inv(self) -> bool {
        self.cargo matches Some(r) ==> !(r.source is Inferred)
    }

    /// The manager roots, in lookup order.
    pub closed spec fn entries(&self) -> Seq<(OwnerId, RootModel)> {
        root_entries(self.managers@)
    }

    /// Cargo home, where there is one.
    pub closed spec fn cargo_root(&self) -> Option<RootModel> {
        match self.cargo {
            Some(r) => Some(r@),
            None => None,
        }
    }

    /// The roots the environment places. Canonical forms start as written;
    /// `set_canonical` and `set_cargo_canonical` record resolved ones.
    pub fn resolve(e: &RootEnvironment) -> (r: ManagerRoots)
        ensures
            r.entries().map_values(|x: (OwnerId, RootModel)| (x.0, x.1.path, x.1.source)) == roots_spec(env_view(*e)),
            forall|i: int| 0 <= i < r.entries().len() ==> #[trigger] r.entries()[i].1.canonical_path == r.entries()[i].1.path,
            match cargo_spec(env_view(*e)) {
                Some(c) => r.cargo_root() matches Some(root) && root.path == c.0 && root.source == c.1
                    && root.canonical_path == root.path,
                None => r.cargo_root() is None,
            },
    {
        let home = non_empty_exec(&e.home);
        let xdg_config = non_empty_exec(&e.xdg_config_home);
        let xdg_data = non_empty_exec(&e.xdg_data_home);
        let mut managers: Vec<OwnerRoot> = Vec::new();
        proof {
            assert(entry_views(managers@) =~= Seq::<(OwnerId, Seq<char>, SourceModel)>::empty());
        }
        let d = xdg_root_exec(&xdg_config, "XDG_CONFIG_HOME", "nvm", default_root_exec(&home, ".nvm"));
        push_environment_or_default(&mut managers, OwnerId::Nvm, "NVM_DIR", non_empty_exec(&e.nvm_dir), d);
        let d = xdg_root_exec(&xdg_data, "XDG_DATA_HOME", "fnm", default_root_exec(&home, ".local/share/fnm"));
        push_environment_or_default(&mut managers, OwnerId::Fnm, "FNM_DIR", non_empty_exec(&e.fnm_dir), d);
        let d = default_root_exec(&home, ".volta");
        push_environment_or_default(&mut managers, OwnerId::Volta, "VOLTA_HOME", non_empty_exec(&e.volta_home), d);
        let d = xdg_root_exec(&xdg_data, "XDG_DATA_HOME", "mise", default_root_exec(&home, ".local/share/mise"));
        push_environment_or_default(&mut managers, OwnerId::Mise, "MISE_DATA_DIR", non_empty_exec(&e.mise_data_dir), d);
        let d = default_root_exec(&home, ".mise");
        push_environment_or_default(&mut managers, OwnerId::Mise, "HOME", None, d);
        let d = default_root_exec(&home, ".asdf");
        push_environment_or_default(&mut managers, OwnerId::Asdf, "ASDF_DATA_DIR", non_empty_exec(&e.asdf_data_dir), d);
        let d = default_root_exec(&home, ".pyenv");
        push_environment_or_default(&mut managers, OwnerId::Pyenv, "PYENV_ROOT", non_empty_exec(&e.pyenv_root), d);
        let d = default_root_exec(&home, ".rbenv");
        push_environment_or_default(&mut managers, OwnerId::Rbenv, "RBENV_ROOT", non_empty_exec(&e.rbenv_root), d);
        let d = default_root_exec(&home, ".sdkman");
        push_environment_or_default(&mut managers, OwnerId::Sdkman, "SDKMAN_DIR", non_empty_exec(&e.sdkman_dir), d);
        let d = xdg_root_exec(&xdg_data, "XDG_DATA_HOME", "uv/python", default_root_exec(&home, ".local/share/uv/python"));
        push_environment_or_default(
            &mut managers,
            OwnerId::Uv,
            "UV_PYTHON_INSTALL_DIR",
            non_empty_exec(&e.uv_python_install_dir),
            d,
        );
        let cargo = match non_empty_exec(&e.cargo_home) {
            Some(path) => Some(ResolvedRoot::new(path, None, RootSource::Environment("CARGO_HOME"))),
            None => match default_root_exec(&home, ".cargo") {
                Some((path, source)) => Some(ResolvedRoot::new(path, None, source)),
                None => None,
            },
        };
        let r = ManagerRoots { managers, cargo };
        proof {
            assert(r.entries().map_values(|x: (OwnerId, RootModel)| (x.0, x.1.path, x.1.source)) =~= entry_views(managers@));
            assert(entry_views(managers@) =~= roots_spec(env_view(*e)));
            assert forall|i: int| 0 <= i < r.entries().len() implies #[trigger] r.entries()[i].1.canonical_path == r.entries()[i].1.path by {
                assert(r.entries()[i] == (managers@[i].owner, managers@[i].root@));
            }
        }
        r
    }

    /// The roots that only `$HOME` places.
    pub fn for_home(home: &str) -> (r: ManagerRoots)
        ensures
            r.entries().map_values(|x: (OwnerId, RootModel)| (x.0, x.1.path, x.1.source)) == roots_spec(home_env(home@)),
    {
        let e = RootEnvironment {
            home: Some(owned(home)),
            xdg_config_home: None,
            xdg_data_home: None,
            nvm_dir: None,
            fnm_dir: None,
            volta_home: None,
            mise_data_dir: None,
            asdf_data_dir: None,
            pyenv_root: None,
            rbenv_root: None,
            sdkman_dir: None,
            uv_python_install_dir: None,
            cargo_home: None,
        };
        let r = ManagerRoots::resolve(&e);
        proof {
            assert(env_view(e) == home_env(home@));
        }
        r
    }
}

// ---------------------------------------------------------------------------
// Finding the root a path lies in
// ---------------------------------------------------------------------------

pub open spec fn located_views(v: Seq<(String, String)>) -> Seq<(Seq<char>, Seq<char>)> {
    v.map_values(|p: (String, String)| (p.0@, p.1@))
}

/// Where the first of `paths` (each with its canonical form) that lies below `root` does.
pub open spec fn rel_in_paths(root: RootModel, paths: Seq<(Seq<char>, Seq<char>)>) -> Option<Seq<char>>
    decreases paths.len(),
{
    if paths.len() == 0 {
        None
    } else {
        match relative_in_root(root, paths[0].0, paths[0].1) {
            Some(r) => Some(r),
            None => rel_in_paths(root, paths.drop_first()),
        }
    }
}

/// The first root in lookup order (of `only`'s owner, where given) below
/// which one of `paths` lies.
pub open spec fn first_manager(
    entries: Seq<(OwnerId, RootModel)>,
    paths: Seq<(Seq<char>, Seq<char>)>,
    only: Option<OwnerId>,
) -> Option<ManagerPathModel>
    decreases entries.len(),
{
    if entries.len() == 0 {
        None
    } else {
        let owner = entries[0].0;
        let root = entries[0].1;
        if only is None || only == Some(owner) {
            match rel_in_paths(root, paths) {
                Some(rel) => Some(ManagerPathModel { owner, relative_path: rel, root }),
                None => first_manager(entries.drop_first(), paths, only),
            }
        } else {
            first_manager(entries.drop_first(), paths, only)
        }
    }
}

/// The deepest proper ancestor (as a component count, at most `k`) whose name is `dir`.
pub open spec fn inferred_depth(pc: Seq<Seq<char>>, dir: Seq<char>, k: int) -> Option<int>
    decreases k,
{
    if k < 1 {
        None
    } else if k < pc.len() && pc[k - 1] == dir {
        Some(k)
    } else {
        inferred_depth(pc, dir, k - 1)
    }
}

/// A root inferred from a directory named `dir` that `path` lies strictly below.
/// An inferred root is taken as written: its canonical form is its path.
pub open spec fn inferred_in(path: Seq<char>, owner: OwnerId, dir: Seq<char>) -> Option<ManagerPathModel> {
    let pc = components(path);
    match inferred_depth(pc, dir, pc.len() as int) {
        Some(k) => Some(
            ManagerPathModel {
                owner,
                relative_path: render(pc.skip(k)),
                root: RootModel { path: render(pc.take(k)), canonical_path: render(pc.take(k)), source: SourceModel::Inferred },
            },
        ),
        None => None,
    }
}

pub open spec fn inferred_root(paths: Seq<(Seq<char>, Seq<char>)>, owner: OwnerId, dir: Seq<char>) -> Option<ManagerPathModel>
    decreases paths.len(),
{
    if paths.len() == 0 {
        None
    } else {
        match inferred_in(paths[0].0, owner, dir) {
            Some(m) => Some(m),
            None => inferred_root(paths.drop_first(), owner, dir),
        }
    }
}

pub open spec fn manager_path_spec(entries: Seq<(OwnerId, RootModel)>, paths: Seq<(Seq<char>, Seq<char>)>) -> Option<ManagerPathModel> {
    match first_manager(entries, paths, None) {
        Some(m) => Some(m),
        None => match inferred_root(paths, OwnerId::Fnm, "fnm_multishells"@) {
            Some(m) => Some(m),
            None => inferred_root(paths, OwnerId::Mise, ".mise"@),
        },
    }
}

pub open spec fn manager_path_for_spec(
    entries: Seq<(OwnerId, RootModel)>,
    owner: OwnerId,
    paths: Seq<(Seq<char>, Seq<char>)>,
) -> Option<ManagerPathModel> {
    match first_manager(entries, paths, Some(owner)) {
        Some(m) => Some(m),
        None => if owner == OwnerId::Fnm {
            inferred_root(paths, owner, "fnm_multishells"@)
        } else if owner == OwnerId::Mise {
            inferred_root(paths, owner, ".mise"@)
        } else {
            None
        },
    }
}

fn rel_in_paths_exec(root: &ResolvedRoot, paths: &Vec<(String, String)>) -> (r: Option<String>)
    ensures
        opt_view(r) == rel_in_paths(root@, located_views(paths@)),
{
    let ghost ps = located_views(paths@);
    let mut i: usize = 0;
    proof {
        assert(ps.skip(0) =~= ps);
    }
    while i < paths.len()
        invariant
            ps == located_views(paths@),
            i <= paths@.len(),
            rel_in_paths(root@, ps) == rel_in_paths(root@, ps.skip(i as int)),
        decreases paths@.len() - i,
    {
        proof {
            assert(ps.skip(i as int).drop_first() =~= ps.skip(i + 1));
            assert(ps.skip(i as int)[0] == (paths@[i as int].0@, paths@[i as int].1@));
        }
        let found = root.relative_path(paths[i].0.as_str(), paths[i].1.as_str());
        if found.is_some() {
            return found;
        }
        i = i + 1;
    }
    proof {
        assert(ps.skip(i as int) =~= Seq::<(Seq<char>, Seq<char>)>::empty());
    }
    None
}

fn inferred_in_exec(path: &str, owner: OwnerId, dir: &str) -> (r: Option<ManagerPath>)
    ensures
        manager_path_view(r) == inferred_in(path@, owner, dir@),
{
    let pc = components_of(path);
    let ghost cs = views(pc@);
    let mut k: usize = pc.len();
    while k >= 1
        invariant
            cs == views(pc@),
            cs == components(path@),
            k <= pc@.len(),
            inferred_depth(cs, dir@, cs.len() as int) == inferred_depth(cs, dir@, k as int),
        decreases k,
    {
        proof {
            assert(cs[k - 1] == pc@[k - 1]@);
        }
        if k < pc.len() && str_eq(pc[k - 1].as_str(), dir) {
            let relative_path = render_from(&pc, k);
            let root_path = render_prefix(&pc, k);
            let canonical = root_path.clone();
            return Some(ManagerPath {
                owner,
                relative_path,
                root: ResolvedRoot { path: root_path, canonical_path: canonical, source: RootSource::Inferred },
            });
        }
        k = k - 1;
    }
    None
}

/// The components `comps[..to]` written back as a path.
fn render_prefix(comps: &Vec<String>, to: usize) -> (r: String)
    requires
        to <= comps@.len(),
    ensures
        r@ == render(views(comps@).take(to as int)),
{
    let ghost cs = views(comps@);
    let mut r = String::new();
    let mut i: usize = 0;
    proof {
        assert(cs.take(0) =~= Seq::<Seq<char>>::empty());
    }
    while i < to
        invariant
            to <= comps@.len(),
            i <= to,
            cs == views(comps@),
            r@ == render(cs.take(i as int)),
        decreases to - i,
    {
        proof {
            assert(cs.take(i + 1).drop_last() =~= cs.take(i as int));
            assert(cs.take(i + 1).last() == comps@[i as int]@);
        }
        r = join_exec(r.as_str(), comps[i].as_str());
        i = i + 1;
    }
    r
}

fn inferred_root_exec(paths: &Vec<(String, String)>, owner: OwnerId, dir: &str) -> (r: Option<ManagerPath>)
    ensures
        manager_path_view(r) == inferred_root(located_views(paths@), owner, dir@),
{
    let ghost ps = located_views(paths@);
    let mut i: usize = 0;
    proof {
        assert(ps.skip(0) =~= ps);
    }
    while i < paths.len()
        invariant
            ps == located_views(paths@),
            i <= paths@.len(),
            inferred_root(ps, owner, dir@) == inferred_root(ps.skip(i as int), owner, dir@),
        decreases paths@.len() - i,
    {
        proof {
            assert(ps.skip(i as int).drop_first() =~= ps.skip(i + 1));
            assert(ps.skip(i as int)[0] == (paths@[i as int].0@, paths@[i as int].1@));
        }
        let found = inferred_in_exec(paths[i].0.as_str(), owner, dir);
        if found.is_some() {
            return found;
        }
        i = i + 1;
    }
    proof {
        assert(ps.skip(i as int) =~= Seq::<(Seq<char>, Seq<char>)>::empty());
    }
    None
}

impl ManagerRoots {
    fn first_manager_exec(&self, paths: &Vec<(String, String)>, only: Option<OwnerId>) -> (r: Option<ManagerPath>)
        ensures
            manager_path_view(r) == first_manager(self.entries(), located_views(paths@), only),
    {
        let ghost es = self.entries();
        let mut i: usize = 0;
        proof {
            assert(es.skip(0) =~= es);
        }
        while i < self.managers.len()
            invariant
                es == self.entries(),
                es.len() == self.managers@.len(),
                i <= self.managers@.len(),
                first_manager(es, located_views(paths@), only) == first_manager(es.skip(i as int), located_views(paths@), only),
            decreases self.managers@.len() - i,
        {
            let entry = &self.managers[i];
            proof {
                assert(es.skip(i as int).drop_first() =~= es.skip(i + 1));
                assert(es.skip(i as int)[0] == (entry.owner, entry.root@));
            }
            let wanted = match only {
                Some(o) => o == entry.owner,
                None => true,
            };
            if wanted {
                match rel_in_paths_exec(&entry.root, paths) {
                    Some(relative_path) => {
                        return Some(ManagerPath { owner: entry.owner, relative_path, root: entry.root.copy() });
                    },
                    None => {},
                }
            }
            i = i + 1;
        }
        proof {
            assert(es.skip(i as int) =~= Seq::<(OwnerId, RootModel)>::empty());
        }
        None
    }

    /// The manager root that one of `paths` (each with its canonical form)
    /// lies below: the first root in lookup order, else a root inferred from
    /// an `fnm_multishells` or a project `.mise` directory.
    pub fn manager_path(&self, paths: &Vec<(String, String)>) -> (r: Option<ManagerPath>)
        ensures
            manager_path_view(r) == manager_path_spec(self.entries(), located_views(paths@)),
    {
        match self.first_manager_exec(paths, None) {
            Some(m) => Some(m),
            None => match inferred_root_exec(paths, OwnerId::Fnm, "fnm_multishells") {
                Some(m) => Some(m),
                None => inferred_root_exec(paths, OwnerId::Mise, ".mise"),
            },
        }
    }

    /// The root of `owner` that one of `paths` lies below.
    pub fn manager_path_for(&self, owner: OwnerId, paths: &Vec<(String, String)>) -> (r: Option<ManagerPath>)
        ensures
            manager_path_view(r) == manager_path_for_spec(self.entries(), owner, located_views(paths@)),
    {
        match self.first_manager_exec(paths, Some(owner)) {
            Some(m) => Some(m),
            None => {
                if owner == OwnerId::Fnm {
                    inferred_root_exec(paths, owner, "fnm_multishells")
                } else if owner == OwnerId::Mise {
                    inferred_root_exec(paths, owner, ".mise")
                } else {
                    None
                }
            },
        }
    }

    /// Where the first of `paths` that lies in Cargo home does.
    pub fn cargo_path(&self, paths: &Vec<(String, String)>) -> (r: Option<CargoPath>)
        ensures
            match self.cargo_root() {
                Some(root) => match rel_in_paths(root, located_views(paths@)) {
                    Some(rel) => r matches Some(c) && c.relative_view() == rel && c.root_view() == root,
                    None => r is None,
                },
                None => r is None,
            },
    {
        proof {
            use_type_invariant(self);
        }
        match &self.cargo {
            Some(root) => match rel_in_paths_exec(root, paths) {
                Some(relative_path) => Some(CargoPath { relative_path, root: root.copy() }),
                None => None,
            },
            None => None,
        }
    }

    /// The root of `owner` that a runtime at `runtime_path` lies in.
    pub fn root_for(&self, owner: OwnerId, runtime_path: &str, canonical: &str) -> (r: Option<String>)
        ensures
            opt_view(r) == match manager_path_for_spec(self.entries(), owner, seq![(runtime_path@, canonical@)]) {
                Some(m) => Some(m.root.path),
                None => None,
            },
    {
        let mut paths: Vec<(String, String)> = Vec::new();
        paths.push((owned(runtime_path), owned(canonical)));
        proof {
            assert(located_views(paths@) =~= seq![(runtime_path@, canonical@)]);
        }
        match self.manager_path_for(owner, &paths) {
            Some(m) => Some(m.root.path),
            None => None,
        }
    }

    /// The written paths of the manager roots, in lookup order.
    pub fn root_paths(&self) -> (r: Vec<String>)
        ensures
            r@.len() == self.entries().len(),
            forall|i: int| 0 <= i < r@.len() ==> #[trigger] r@[i]@ == self.entries()[i].1.path,
    {
        let mut r: Vec<String> = Vec::new();
        let mut i: usize = 0;
        while i < self.managers.len()
            invariant
                i <= self.managers@.len(),
                self.entries().len() == self.managers@.len(),
                r@.len() == i,
                forall|j: int| 0 <= j < i ==> #[trigger] r@[j]@ == self.entries()[j].1.path,
            decreases self.managers@.len() - i,
        {
            proof {
                assert(self.entries()[i as int] == (self.managers@[i as int].owner, self.managers@[i as int].root@));
            }
            r.push(self.managers[i].root.path.clone());
            i = i + 1;
        }
        r
    }

    /// Records the canonical form of the root at `index`.
    pub fn set_canonical(&mut self, index: usize, canonical: String)
        ensures
            final(self).entries().len() == old(self).entries().len(),
            final(self).cargo_root() == old(self).cargo_root(),
            forall|i: int| 0 <= i < old(self).entries().len() && i != index ==> #[trigger] final(self).entries()[i] == old(self).entries()[i],
            index < old(self).entries().len() ==> final(self).entries()[index as int] == (
                old(self).entries()[index as int].0,
                RootModel { canonical_path: canonical@, ..old(self).entries()[index as int].1 },
            ),
    {
        proof {
            use_type_invariant(&*self);
        }
        if index < self.managers.len() {
            let owner = self.managers[index].owner;
            let root = ResolvedRoot {
                path: self.managers[index].root.path.clone(),
                canonical_path: canonical,
                source: self.managers[index].root.source,
            };
            let ghost before = self.managers@;
            let mut managers: Vec<OwnerRoot> = Vec::new();
            std::mem::swap(&mut managers, &mut self.managers);
            managers.set(index, OwnerRoot { owner, root });
            self.managers = managers;
            proof {
                assert forall|i: int| 0 <= i < before.len() && i != index implies #[trigger] self.entries()[i] == root_entries(before)[i] by {
                    assert(self.managers@[i] == before[i]);
                }
            }
        }
    }

    /// The written path of Cargo home, where there is one.
    pub fn cargo_root_path(&self) -> (r: Option<String>)
        ensures
            opt_view(r) == match self.cargo_root() {
                Some(root) => Some(root.path),
                None => None,
            },
    {
        match &self.cargo {
            Some(root) => Some(root.path.clone()),
            None => None,
        }
    }

    /// Records the canonical form of Cargo home.
    pub fn set_cargo_canonical(&mut self, canonical: String)
        ensures
            final(self).entries() == old(self).entries(),
            final(self).cargo_root() == match old(self).cargo_root() {
                Some(root) => Some(RootModel { canonical_path: canonical@, ..root }),
                None => None,
            },
    {
        proof {
            use_type_invariant(&*self);
        }
        let cargo = match &self.cargo {
            Some(root) => Some(ResolvedRoot { path: root.path.clone(), canonical_path: canonical, source: root.source }),
            None => None,
        };
        self.cargo = cargo;
    }
}

// ---------------------------------------------------------------------------
// Laws
// ---------------------------------------------------------------------------

pub open spec fn lift_root(x: (OwnerId, Seq<char>, SourceModel)) -> (OwnerId, RootModel) {
    (x.0, RootModel { path: x.1, canonical_path: x.1, source: x.2 })
}

proof fn lemma_first_manager_append(
    a: Seq<(OwnerId, RootModel)>,
    b: Seq<(OwnerId, RootModel)>,
    paths: Seq<(Seq<char>, Seq<char>)>,
    only: Option<OwnerId>,
)
    ensures
        first_manager(a + b, paths, only) == match first_manager(a, paths, only) {
            Some(m) => Some(m),
            None => first_manager(b, paths, only),
        },
    decreases a.len(),
{
    if a.len() == 0 {
        assert(a + b =~= b);
    } else {
        assert((a + b).drop_first() =~= a.drop_first() + b);
        assert((a + b)[0] == a[0]);
        lemma_first_manager_append(a.drop_first(), b, paths, only);
    }
}

proof fn lemma_first_manager_other_owners(
    a: Seq<(OwnerId, RootModel)>,
    paths: Seq<(Seq<char>, Seq<char>)>,
    owner: OwnerId,
)
    requires
        forall|i: int| 0 <= i < a.len() ==> (#[trigger] a[i]).0 != owner,
    ensures
        first_manager(a, paths, Some(owner)) is None,
    decreases a.len(),
{
    if a.len() > 0 {
        let t = a.drop_first();
        assert forall|i: int| 0 <= i < t.len() implies (#[trigger] t[i]).0 != owner by {
            assert(t[i] == a[i + 1]);
        }
        assert(a[0].0 != owner);
        lemma_first_manager_other_owners(t, paths, owner);
    }
}

proof fn lemma_env_or_default_owner(
    owner: OwnerId,
    variable: Seq<char>,
    environment: Option<Seq<char>>,
    default: Option<(Seq<char>, SourceModel)>,
)
    ensures
        forall|i: int|
            0 <= i < env_or_default(owner, variable, environment, default).len() ==> (#[trigger] env_or_default(
                owner,
                variable,
                environment,
                default,
            )[i]).0 == owner,
{
}

/// Entries whose owners are all other than `owner`.
pub open spec fn owners_differ(a: Seq<(OwnerId, Seq<char>, SourceModel)>, owner: OwnerId) -> bool {
    forall|i: int| 0 <= i < a.len() ==> (#[trigger] a[i]).0 != owner
}

proof fn lemma_owners_differ_concat(a: Seq<(OwnerId, Seq<char>, SourceModel)>, b: Seq<(OwnerId, Seq<char>, SourceModel)>, owner: OwnerId)
    requires
        owners_differ(a, owner),
        owners_differ(b, owner),
    ensures
        owners_differ(a + b, owner),
{
    assert forall|i: int| 0 <= i < (a + b).len() implies (#[trigger] (a + b)[i]).0 != owner by {
        if i < a.len() {
            assert((a + b)[i] == a[i]);
        } else {
            assert((a + b)[i] == b[i - a.len()]);
        }
    }
}

proof fn lemma_segment_differs(
    other: OwnerId,
    variable: Seq<char>,
    environment: Option<Seq<char>>,
    default: Option<(Seq<char>, SourceModel)>,
    owner: OwnerId,
)
    requires
        other != owner,
    ensures
        owners_differ(env_or_default(other, variable, environment, default), owner),
{
}

pub open spec fn lift_all(a: Seq<(OwnerId, Seq<char>, SourceModel)>) -> Seq<(OwnerId, RootModel)> {
    a.map_values(|x: (OwnerId, Seq<char>, SourceModel)| lift_root(x))
}

proof fn lemma_lifted_differ(a: Seq<(OwnerId, Seq<char>, SourceModel)>, owner: OwnerId)
    requires
        owners_differ(a, owner),
    ensures
        forall|i: int| 0 <= i < lift_all(a).len() ==> (#[trigger] lift_all(a)[i]).0 != owner,
{
    assert forall|i: int| 0 <= i < lift_all(a).len() implies (#[trigger] lift_all(a)[i]).0 != owner by {
        assert(a[i].0 != owner);
    }
}

/// With `before` holding no root of `own`'s owner, the lookup for that owner
/// finds a path below `own`'s root where one lies there, and otherwise does
/// what it does over the roots that follow.
proof fn lemma_own_root_decides_at(
    before: Seq<(OwnerId, Seq<char>, SourceModel)>,
    own: (OwnerId, Seq<char>, SourceModel),
    after: Seq<(OwnerId, Seq<char>, SourceModel)>,
    entries: Seq<(OwnerId, RootModel)>,
    paths: Seq<(Seq<char>, Seq<char>)>,
)
    requires
        entries == (before + seq![own] + after).map_values(|x: (OwnerId, Seq<char>, SourceModel)| lift_root(x)),
        owners_differ(before, own.0),
    ensures
        manager_path_for_spec(entries, own.0, paths) == match rel_in_paths(lift_root(own).1, paths) {
            Some(rel) => Some(ManagerPathModel { owner: own.0, relative_path: rel, root: lift_root(own).1 }),
            None => manager_path_for_spec(
                after.map_values(|x: (OwnerId, Seq<char>, SourceModel)| lift_root(x)),
                own.0,
                paths,
            ),
        },
{
    let lb = before.map_values(|x: (OwnerId, Seq<char>, SourceModel)| lift_root(x));
    let lp = seq![lift_root(own)];
    let la = after.map_values(|x: (OwnerId, Seq<char>, SourceModel)| lift_root(x));
    assert(entries =~= lb + lp + la);
    lemma_lifted_differ(before, own.0);
    lemma_first_manager_other_owners(lb, paths, own.0);
    lemma_first_manager_append(lb + lp, la, paths, Some(own.0));
    lemma_first_manager_append(lb, lp, paths, Some(own.0));
    assert(lp.drop_first() =~= Seq::<(OwnerId, RootModel)>::empty());
    assert(first_manager(lp.drop_first(), paths, Some(own.0)) is None);
}

/// The variable that names an owner's own root, and its value, for the
/// owners that have one.
pub open spec fn own_setting(e: EnvModel, owner: OwnerId) -> Option<(Seq<char>, Option<Seq<char>>)> {
    match owner {
        OwnerId::Nvm => Some(("NVM_DIR"@, e.nvm_dir)),
        OwnerId::Fnm => Some(("FNM_DIR"@, e.fnm_dir)),
        OwnerId::Volta => Some(("VOLTA_HOME"@, e.volta_home)),
        OwnerId::Mise => Some(("MISE_DATA_DIR"@, e.mise_data_dir)),
        OwnerId::Asdf => Some(("ASDF_DATA_DIR"@, e.asdf_data_dir)),
        OwnerId::Pyenv => Some(("PYENV_ROOT"@, e.pyenv_root)),
        OwnerId::Rbenv => Some(("RBENV_ROOT"@, e.rbenv_root)),
        OwnerId::Sdkman => Some(("SDKMAN_DIR"@, e.sdkman_dir)),
        OwnerId::Uv => Some(("UV_PYTHON_INSTALL_DIR"@, e.uv_python_install_dir)),
        _ => None,
    }
}

/// The same variable as the environment gives it, empty or not.
pub open spec fn raw_setting(e: RootEnvironment, owner: OwnerId) -> Option<Option<String>> {
    match owner {
        OwnerId::Nvm => Some(e.nvm_dir),
        OwnerId::Fnm => Some(e.fnm_dir),
        OwnerId::Volta => Some(e.volta_home),
        OwnerId::Mise => Some(e.mise_data_dir),
        OwnerId::Asdf => Some(e.asdf_data_dir),
        OwnerId::Pyenv => Some(e.pyenv_root),
        OwnerId::Rbenv => Some(e.rbenv_root),
        OwnerId::Sdkman => Some(e.sdkman_dir),
        OwnerId::Uv => Some(e.uv_python_install_dir),
        _ => None,
    }
}

/// The roots of an owner that come after the one its own variable sets:
/// mise's `~/.mise`, and none for the others.
pub open spec fn later_roots(e: EnvModel, owner: OwnerId) -> Seq<(OwnerId, RootModel)> {
    if owner == OwnerId::Mise {
        env_or_default(OwnerId::Mise, "HOME"@, None, default_root(e.home, ".mise"@)).map_values(
            |x: (OwnerId, Seq<char>, SourceModel)| lift_root(x),
        )
    } else {
        Seq::empty()
    }
}

#[verifier::spinoff_prover]
#[verifier::rlimit(100)]
proof fn lemma_root_decides_nvm(ev: EnvModel, entries: Seq<(OwnerId, RootModel)>, paths: Seq<(Seq<char>, Seq<char>)>, v: Seq<char>)
    requires
        entries == lift_all(roots_spec(ev)),
        ev.nvm_dir == Some(v),
    ensures
        ({
            let root = RootModel { path: v, canonical_path: v, source: SourceModel::Environment("NVM_DIR"@) };
            manager_path_for_spec(entries, OwnerId::Nvm, paths) == match rel_in_paths(root, paths) {
                Some(rel) => Some(ManagerPathModel { owner: OwnerId::Nvm, relative_path: rel, root }),
                None => manager_path_for_spec(later_roots(ev, OwnerId::Nvm), OwnerId::Nvm, paths),
            }
        }),
{
    let owner = OwnerId::Nvm;
    let home = ev.home;
    let xdg_config = ev.xdg_config_home;
    let xdg_data = ev.xdg_data_home;
    let s0 = env_or_default(OwnerId::Nvm, "NVM_DIR"@, ev.nvm_dir, xdg_root(xdg_config, "XDG_CONFIG_HOME"@, "nvm"@, default_root(home, ".nvm"@)));
    let s1 = env_or_default(OwnerId::Fnm, "FNM_DIR"@, ev.fnm_dir, xdg_root(xdg_data, "XDG_DATA_HOME"@, "fnm"@, default_root(home, ".local/share/fnm"@)));
    let s2 = env_or_default(OwnerId::Volta, "VOLTA_HOME"@, ev.volta_home, default_root(home, ".volta"@));
    let s3 = env_or_default(OwnerId::Mise, "MISE_DATA_DIR"@, ev.mise_data_dir, xdg_root(xdg_data, "XDG_DATA_HOME"@, "mise"@, default_root(home, ".local/share/mise"@)));
    let s4 = env_or_default(OwnerId::Mise, "HOME"@, None, default_root(home, ".mise"@));
    let s5 = env_or_default(OwnerId::Asdf, "ASDF_DATA_DIR"@, ev.asdf_data_dir, default_root(home, ".asdf"@));
    let s6 = env_or_default(OwnerId::Pyenv, "PYENV_ROOT"@, ev.pyenv_root, default_root(home, ".pyenv"@));
    let s7 = env_or_default(OwnerId::Rbenv, "RBENV_ROOT"@, ev.rbenv_root, default_root(home, ".rbenv"@));
    let s8 = env_or_default(OwnerId::Sdkman, "SDKMAN_DIR"@, ev.sdkman_dir, default_root(home, ".sdkman"@));
    let s9 = env_or_default(OwnerId::Uv, "UV_PYTHON_INSTALL_DIR"@, ev.uv_python_install_dir, xdg_root(xdg_data, "XDG_DATA_HOME"@, "uv/python"@, default_root(home, ".local/share/uv/python"@)));
    let own = (OwnerId::Nvm, v, SourceModel::Environment("NVM_DIR"@));
    assert(s0 == seq![own]);
    let before = Seq::<(OwnerId, Seq<char>, SourceModel)>::empty();
    let after = s1 + s2 + s3 + s4 + s5 + s6 + s7 + s8 + s9;
    assert(roots_spec(ev) == before + seq![own] + after) by {
        let p0 = before + s0;
        let a1 = s1;
        let a2 = a1 + s2;
        assert((p0 + a1) + s2 =~= p0 + a2);
        let a3 = a2 + s3;
        assert((p0 + a2) + s3 =~= p0 + a3);
        let a4 = a3 + s4;
        assert((p0 + a3) + s4 =~= p0 + a4);
        let a5 = a4 + s5;
        assert((p0 + a4) + s5 =~= p0 + a5);
        let a6 = a5 + s6;
        assert((p0 + a5) + s6 =~= p0 + a6);
        let a7 = a6 + s7;
        assert((p0 + a6) + s7 =~= p0 + a7);
        let a8 = a7 + s8;
        assert((p0 + a7) + s8 =~= p0 + a8);
        let a9 = a8 + s9;
        assert((p0 + a8) + s9 =~= p0 + a9);
        assert(after == a9);
        assert(roots_spec(ev) == p0 + after);
    }
    assert(entries == (before + seq![own] + after).map_values(|x: (OwnerId, Seq<char>, SourceModel)| lift_root(x)));
    lemma_own_root_decides_at(before, own, after, entries, paths);
    assert(owners_differ(after, owner)) by {
        lemma_segment_differs(OwnerId::Fnm, "FNM_DIR"@, ev.fnm_dir, xdg_root(xdg_data, "XDG_DATA_HOME"@, "fnm"@, default_root(home, ".local/share/fnm"@)), owner);
        lemma_segment_differs(OwnerId::Volta, "VOLTA_HOME"@, ev.volta_home, default_root(home, ".volta"@), owner);
        lemma_segment_differs(OwnerId::Mise, "MISE_DATA_DIR"@, ev.mise_data_dir, xdg_root(xdg_data, "XDG_DATA_HOME"@, "mise"@, default_root(home, ".local/share/mise"@)), owner);
        lemma_segment_differs(OwnerId::Mise, "HOME"@, None, default_root(home, ".mise"@), owner);
        lemma_segment_differs(OwnerId::Asdf, "ASDF_DATA_DIR"@, ev.asdf_data_dir, default_root(home, ".asdf"@), owner);
        lemma_segment_differs(OwnerId::Pyenv, "PYENV_ROOT"@, ev.pyenv_root, default_root(home, ".pyenv"@), owner);
        lemma_segment_differs(OwnerId::Rbenv, "RBENV_ROOT"@, ev.rbenv_root, default_root(home, ".rbenv"@), owner);
        lemma_segment_differs(OwnerId::Sdkman, "SDKMAN_DIR"@, ev.sdkman_dir, default_root(home, ".sdkman"@), owner);
        lemma_segment_differs(OwnerId::Uv, "UV_PYTHON_INSTALL_DIR"@, ev.uv_python_install_dir, xdg_root(xdg_data, "XDG_DATA_HOME"@, "uv/python"@, default_root(home, ".local/share/uv/python"@)), owner);
        lemma_owners_differ_concat(s1, s2, owner);
        lemma_owners_differ_concat(s1 + s2, s3, owner);
        lemma_owners_differ_concat(s1 + s2 + s3, s4, owner);
        lemma_owners_differ_concat(s1 + s2 + s3 + s4, s5, owner);
        lemma_owners_differ_concat(s1 + s2 + s3 + s4 + s5, s6, owner);
        lemma_owners_differ_concat(s1 + s2 + s3 + s4 + s5 + s6, s7, owner);
        lemma_owners_differ_concat(s1 + s2 + s3 + s4 + s5 + s6 + s7, s8, owner);
        lemma_owners_differ_concat(s1 + s2 + s3 + s4 + s5 + s6 + s7 + s8, s9, owner);
    }
    lemma_lifted_differ(after, owner);
    lemma_first_manager_other_owners(lift_all(after), paths, owner);
    assert(first_manager(Seq::<(OwnerId, RootModel)>::empty(), paths, Some(owner)) is None);
}

#[verifier::spinoff_prover]
#[verifier::rlimit(100)]
proof fn lemma_root_decides_fnm(ev: EnvModel, entries: Seq<(OwnerId, RootModel)>, paths: Seq<(Seq<char>, Seq<char>)>, v: Seq<char>)
    requires
        entries == lift_all(roots_spec(ev)),
        ev.fnm_dir == Some(v),
    ensures
        ({
            let root = RootModel { path: v, canonical_path: v, source: SourceModel::Environment("FNM_DIR"@) };
            manager_path_for_spec(entries, OwnerId::Fnm, paths) == match rel_in_paths(root, paths) {
                Some(rel) => Some(ManagerPathModel { owner: OwnerId::Fnm, relative_path: rel, root }),
                None => manager_path_for_spec(later_roots(ev, OwnerId::Fnm), OwnerId::Fnm, paths),
            }
        }),
{
    let owner = OwnerId::Fnm;
    let home = ev.home;
    let xdg_config = ev.xdg_config_home;
    let xdg_data = ev.xdg_data_home;
    let s0 = env_or_default(OwnerId::Nvm, "NVM_DIR"@, ev.nvm_dir, xdg_root(xdg_config, "XDG_CONFIG_HOME"@, "nvm"@, default_root(home, ".nvm"@)));
    let s1 = env_or_default(OwnerId::Fnm, "FNM_DIR"@, ev.fnm_dir, xdg_root(xdg_data, "XDG_DATA_HOME"@, "fnm"@, default_root(home, ".local/share/fnm"@)));
    let s2 = env_or_default(OwnerId::Volta, "VOLTA_HOME"@, ev.volta_home, default_root(home, ".volta"@));
    let s3 = env_or_default(OwnerId::Mise, "MISE_DATA_DIR"@, ev.mise_data_dir, xdg_root(xdg_data, "XDG_DATA_HOME"@, "mise"@, default_root(home, ".local/share/mise"@)));
    let s4 = env_or_default(OwnerId::Mise, "HOME"@, None, default_root(home, ".mise"@));
    let s5 = env_or_default(OwnerId::Asdf, "ASDF_DATA_DIR"@, ev.asdf_data_dir, default_root(home, ".asdf"@));
    let s6 = env_or_default(OwnerId::Pyenv, "PYENV_ROOT"@, ev.pyenv_root, default_root(home, ".pyenv"@));
    let s7 = env_or_default(OwnerId::Rbenv, "RBENV_ROOT"@, ev.rbenv_root, default_root(home, ".rbenv"@));
    let s8 = env_or_default(OwnerId::Sdkman, "SDKMAN_DIR"@, ev.sdkman_dir, default_root(home, ".sdkman"@));
    let s9 = env_or_default(OwnerId::Uv, "UV_PYTHON_INSTALL_DIR"@, ev.uv_python_install_dir, xdg_root(xdg_data, "XDG_DATA_HOME"@, "uv/python"@, default_root(home, ".local/share/uv/python"@)));
    let own = (OwnerId::Fnm, v, SourceModel::Environment("FNM_DIR"@));
    assert(s1 == seq![own]);
    let before = s0;
    assert(owners_differ(before, owner)) by {
        lemma_segment_differs(OwnerId::Nvm, "NVM_DIR"@, ev.nvm_dir, xdg_root(xdg_config, "XDG_CONFIG_HOME"@, "nvm"@, default_root(home, ".nvm"@)), owner);
    }
    let after = s2 + s3 + s4 + s5 + s6 + s7 + s8 + s9;
    assert(roots_spec(ev) == before + seq![own] + after) by {
        let p0 = before + s1;
        let a2 = s2;
        let a3 = a2 + s3;
        assert((p0 + a2) + s3 =~= p0 + a3);
        let a4 = a3 + s4;
        assert((p0 + a3) + s4 =~= p0 + a4);
        let a5 = a4 + s5;
        assert((p0 + a4) + s5 =~= p0 + a5);
        let a6 = a5 + s6;
        assert((p0 + a5) + s6 =~= p0 + a6);
        let a7 = a6 + s7;
        assert((p0 + a6) + s7 =~= p0 + a7);
        let a8 = a7 + s8;
        assert((p0 + a7) + s8 =~= p0 + a8);
        let a9 = a8 + s9;
        assert((p0 + a8) + s9 =~= p0 + a9);
        assert(after == a9);
        assert(roots_spec(ev) == p0 + after);
    }
    assert(entries == (before + seq![own] + after).map_values(|x: (OwnerId, Seq<char>, SourceModel)| lift_root(x)));
    lemma_own_root_decides_at(before, own, after, entries, paths);
    assert(owners_differ(after, owner)) by {
        lemma_segment_differs(OwnerId::Volta, "VOLTA_HOME"@, ev.volta_home, default_root(home, ".volta"@), owner);
        lemma_segment_differs(OwnerId::Mise, "MISE_DATA_DIR"@, ev.mise_data_dir, xdg_root(xdg_data, "XDG_DATA_HOME"@, "mise"@, default_root(home, ".local/share/mise"@)), owner);
        lemma_segment_differs(OwnerId::Mise, "HOME"@, None, default_root(home, ".mise"@), owner);
        lemma_segment_differs(OwnerId::Asdf, "ASDF_DATA_DIR"@, ev.asdf_data_dir, default_root(home, ".asdf"@), owner);
        lemma_segment_differs(OwnerId::Pyenv, "PYENV_ROOT"@, ev.pyenv_root, default_root(home, ".pyenv"@), owner);
        lemma_segment_differs(OwnerId::Rbenv, "RBENV_ROOT"@, ev.rbenv_root, default_root(home, ".rbenv"@), owner);
        lemma_segment_differs(OwnerId::Sdkman, "SDKMAN_DIR"@, ev.sdkman_dir, default_root(home, ".sdkman"@), owner);
        lemma_segment_differs(OwnerId::Uv, "UV_PYTHON_INSTALL_DIR"@, ev.uv_python_install_dir, xdg_root(xdg_data, "XDG_DATA_HOME"@, "uv/python"@, default_root(home, ".local/share/uv/python"@)), owner);
        lemma_owners_differ_concat(s2, s3, owner);
        lemma_owners_differ_concat(s2 + s3, s4, owner);
        lemma_owners_differ_concat(s2 + s3 + s4, s5, owner);
        lemma_owners_differ_concat(s2 + s3 + s4 + s5, s6, owner);
        lemma_owners_differ_concat(s2 + s3 + s4 + s5 + s6, s7, owner);
        lemma_owners_differ_concat(s2 + s3 + s4 + s5 + s6 + s7, s8, owner);
        lemma_owners_differ_concat(s2 + s3 + s4 + s5 + s6 + s7 + s8, s9, owner);
    }
    lemma_lifted_differ(after, owner);
    lemma_first_manager_other_owners(lift_all(after), paths, owner);
    assert(first_manager(Seq::<(OwnerId, RootModel)>::empty(), paths, Some(owner)) is None);
}

#[verifier::spinoff_prover]
#[verifier::rlimit(100)]
proof fn lemma_root_decides_volta(ev: EnvModel, entries: Seq<(OwnerId, RootModel)>, paths: Seq<(Seq<char>, Seq<char>)>, v: Seq<char>)
    requires
        entries == lift_all(roots_spec(ev)),
        ev.volta_home == Some(v),
    ensures
        ({
            let root = RootModel { path: v, canonical_path: v, source: SourceModel::Environment("VOLTA_HOME"@) };
            manager_path_for_spec(entries, OwnerId::Volta, paths) == match rel_in_paths(root, paths) {
                Some(rel) => Some(ManagerPathModel { owner: OwnerId::Volta, relative_path: rel, root }),
                None => manager_path_for_spec(later_roots(ev, OwnerId::Volta), OwnerId::Volta, paths),
            }
        }),
{
    let owner = OwnerId::Volta;
    let home = ev.home;
    let xdg_config = ev.xdg_config_home;
    let xdg_data = ev.xdg_data_home;
    let s0 = env_or_default(OwnerId::Nvm, "NVM_DIR"@, ev.nvm_dir, xdg_root(xdg_config, "XDG_CONFIG_HOME"@, "nvm"@, default_root(home, ".nvm"@)));
    let s1 = env_or_default(OwnerId::Fnm, "FNM_DIR"@, ev.fnm_dir, xdg_root(xdg_data, "XDG_DATA_HOME"@, "fnm"@, default_root(home, ".local/share/fnm"@)));
    let s2 = env_or_default(OwnerId::Volta, "VOLTA_HOME"@, ev.volta_home, default_root(home, ".volta"@));
    let s3 = env_or_default(OwnerId::Mise, "MISE_DATA_DIR"@, ev.mise_data_dir, xdg_root(xdg_data, "XDG_DATA_HOME"@, "mise"@, default_root(home, ".local/share/mise"@)));
    let s4 = env_or_default(OwnerId::Mise, "HOME"@, None, default_root(home, ".mise"@));
    let s5 = env_or_default(OwnerId::Asdf, "ASDF_DATA_DIR"@, ev.asdf_data_dir, default_root(home, ".asdf"@));
    let s6 = env_or_default(OwnerId::Pyenv, "PYENV_ROOT"@, ev.pyenv_root, default_root(home, ".pyenv"@));
    let s7 = env_or_default(OwnerId::Rbenv, "RBENV_ROOT"@, ev.rbenv_root, default_root(home, ".rbenv"@));
    let s8 = env_or_default(OwnerId::Sdkman, "SDKMAN_DIR"@, ev.sdkman_dir, default_root(home, ".sdkman"@));
    let s9 = env_or_default(OwnerId::Uv, "UV_PYTHON_INSTALL_DIR"@, ev.uv_python_install_dir, xdg_root(xdg_data, "XDG_DATA_HOME"@, "uv/python"@, default_root(home, ".local/share/uv/python"@)));
    let own = (OwnerId::Volta, v, SourceModel::Environment("VOLTA_HOME"@));
    assert(s2 == seq![own]);
    let before = s0 + s1;
    assert(owners_differ(before, owner)) by {
        lemma_segment_differs(OwnerId::Nvm, "NVM_DIR"@, ev.nvm_dir, xdg_root(xdg_config, "XDG_CONFIG_HOME"@, "nvm"@, default_root(home, ".nvm"@)), owner);
        lemma_segment_differs(OwnerId::Fnm, "FNM_DIR"@, ev.fnm_dir, xdg_root(xdg_data, "XDG_DATA_HOME"@, "fnm"@, default_root(home, ".local/share/fnm"@)), owner);
        lemma_owners_differ_concat(s0, s1, owner);
    }
    let after = s3 + s4 + s5 + s6 + s7 + s8 + s9;
    assert(roots_spec(ev) == before + seq![own] + after) by {
        let p0 = before + s2;
        let a3 = s3;
        let a4 = a3 + s4;
        assert((p0 + a3) + s4 =~= p0 + a4);
        let a5 = a4 + s5;
        assert((p0 + a4) + s5 =~= p0 + a5);
        let a6 = a5 + s6;
        assert((p0 + a5) + s6 =~= p0 + a6);
        let a7 = a6 + s7;
        assert((p0 + a6) + s7 =~= p0 + a7);
        let a8 = a7 + s8;
        assert((p0 + a7) + s8 =~= p0 + a8);
        let a9 = a8 + s9;
        assert((p0 + a8) + s9 =~= p0 + a9);
        assert(after == a9);
        assert(roots_spec(ev) == p0 + after);
    }
    assert(entries == (before + seq![own] + after).map_values(|x: (OwnerId, Seq<char>, SourceModel)| lift_root(x)));
    lemma_own_root_decides_at(before, own, after, entries, paths);
    assert(owners_differ(after, owner)) by {
        lemma_segment_differs(OwnerId::Mise, "MISE_DATA_DIR"@, ev.mise_data_dir, xdg_root(xdg_data, "XDG_DATA_HOME"@, "mise"@, default_root(home, ".local/share/mise"@)), owner);
        lemma_segment_differs(OwnerId::Mise, "HOME"@, None, default_root(home, ".mise"@), owner);
        lemma_segment_differs(OwnerId::Asdf, "ASDF_DATA_DIR"@, ev.asdf_data_dir, default_root(home, ".asdf"@), owner);
        lemma_segment_differs(OwnerId::Pyenv, "PYENV_ROOT"@, ev.pyenv_root, default_root(home, ".pyenv"@), owner);
        lemma_segment_differs(OwnerId::Rbenv, "RBENV_ROOT"@, ev.rbenv_root, default_root(home, ".rbenv"@), owner);
        lemma_segment_differs(OwnerId::Sdkman, "SDKMAN_DIR"@, ev.sdkman_dir, default_root(home, ".sdkman"@), owner);
        lemma_segment_differs(OwnerId::Uv, "UV_PYTHON_INSTALL_DIR"@, ev.uv_python_install_dir, xdg_root(xdg_data, "XDG_DATA_HOME"@, "uv/python"@, default_root(home, ".local/share/uv/python"@)), owner);
        lemma_owners_differ_concat(s3, s4, owner);
        lemma_owners_differ_concat(s3 + s4, s5, owner);
        lemma_owners_differ_concat(s3 + s4 + s5, s6, owner);
        lemma_owners_differ_concat(s3 + s4 + s5 + s6, s7, owner);
        lemma_owners_differ_concat(s3 + s4 + s5 + s6 + s7, s8, owner);
        lemma_owners_differ_concat(s3 + s4 + s5 + s6 + s7 + s8, s9, owner);
    }
    lemma_lifted_differ(after, owner);
    lemma_first_manager_other_owners(lift_all(after), paths, owner);
    assert(first_manager(Seq::<(OwnerId, RootModel)>::empty(), paths, Some(owner)) is None);
}

#[verifier::spinoff_prover]
#[verifier::rlimit(100)]
proof fn lemma_root_decides_mise(ev: EnvModel, entries: Seq<(OwnerId, RootModel)>, paths: Seq<(Seq<char>, Seq<char>)>, v: Seq<char>)
    requires
        entries == lift_all(roots_spec(ev)),
        ev.mise_data_dir == Some(v),
    ensures
        ({
            let root = RootModel { path: v, canonical_path: v, source: SourceModel::Environment("MISE_DATA_DIR"@) };
            manager_path_for_spec(entries, OwnerId::Mise, paths) == match rel_in_paths(root, paths) {
                Some(rel) => Some(ManagerPathModel { owner: OwnerId::Mise, relative_path: rel, root }),
                None => manager_path_for_spec(later_roots(ev, OwnerId::Mise), OwnerId::Mise, paths),
            }
        }),
{
    let owner = OwnerId::Mise;
    let home = ev.home;
    let xdg_config = ev.xdg_config_home;
    let xdg_data = ev.xdg_data_home;
    let s0 = env_or_default(OwnerId::Nvm, "NVM_DIR"@, ev.nvm_dir, xdg_root(xdg_config, "XDG_CONFIG_HOME"@, "nvm"@, default_root(home, ".nvm"@)));
    let s1 = env_or_default(OwnerId::Fnm, "FNM_DIR"@, ev.fnm_dir, xdg_root(xdg_data, "XDG_DATA_HOME"@, "fnm"@, default_root(home, ".local/share/fnm"@)));
    let s2 = env_or_default(OwnerId::Volta, "VOLTA_HOME"@, ev.volta_home, default_root(home, ".volta"@));
    let s3 = env_or_default(OwnerId::Mise, "MISE_DATA_DIR"@, ev.mise_data_dir, xdg_root(xdg_data, "XDG_DATA_HOME"@, "mise"@, default_root(home, ".local/share/mise"@)));
    let s4 = env_or_default(OwnerId::Mise, "HOME"@, None, default_root(home, ".mise"@));
    let s5 = env_or_default(OwnerId::Asdf, "ASDF_DATA_DIR"@, ev.asdf_data_dir, default_root(home, ".asdf"@));
    let s6 = env_or_default(OwnerId::Pyenv, "PYENV_ROOT"@, ev.pyenv_root, default_root(home, ".pyenv"@));
    let s7 = env_or_default(OwnerId::Rbenv, "RBENV_ROOT"@, ev.rbenv_root, default_root(home, ".rbenv"@));
    let s8 = env_or_default(OwnerId::Sdkman, "SDKMAN_DIR"@, ev.sdkman_dir, default_root(home, ".sdkman"@));
    let s9 = env_or_default(OwnerId::Uv, "UV_PYTHON_INSTALL_DIR"@, ev.uv_python_install_dir, xdg_root(xdg_data, "XDG_DATA_HOME"@, "uv/python"@, default_root(home, ".local/share/uv/python"@)));
    let own = (OwnerId::Mise, v, SourceModel::Environment("MISE_DATA_DIR"@));
    assert(s3 == seq![own]);
    let before = s0 + s1 + s2;
    assert(owners_differ(before, owner)) by {
        lemma_segment_differs(OwnerId::Nvm, "NVM_DIR"@, ev.nvm_dir, xdg_root(xdg_config, "XDG_CONFIG_HOME"@, "nvm"@, default_root(home, ".nvm"@)), owner);
        lemma_segment_differs(OwnerId::Fnm, "FNM_DIR"@, ev.fnm_dir, xdg_root(xdg_data, "XDG_DATA_HOME"@, "fnm"@, default_root(home, ".local/share/fnm"@)), owner);
        lemma_segment_differs(OwnerId::Volta, "VOLTA_HOME"@, ev.volta_home, default_root(home, ".volta"@), owner);
        lemma_owners_differ_concat(s0, s1, owner);
        lemma_owners_differ_concat(s0 + s1, s2, owner);
    }
    let after = s4 + s5 + s6 + s7 + s8 + s9;
    assert(roots_spec(ev) == before + seq![own] + after) by {
        let p0 = before + s3;
        let a4 = s4;
        let a5 = a4 + s5;
        assert((p0 + a4) + s5 =~= p0 + a5);
        let a6 = a5 + s6;
        assert((p0 + a5) + s6 =~= p0 + a6);
        let a7 = a6 + s7;
        assert((p0 + a6) + s7 =~= p0 + a7);
        let a8 = a7 + s8;
        assert((p0 + a7) + s8 =~= p0 + a8);
        let a9 = a8 + s9;
        assert((p0 + a8) + s9 =~= p0 + a9);
        assert(after == a9);
        assert(roots_spec(ev) == p0 + after);
    }
    assert(entries == (before + seq![own] + after).map_values(|x: (OwnerId, Seq<char>, SourceModel)| lift_root(x)));
    lemma_own_root_decides_at(before, own, after, entries, paths);
    let rest = s5 + s6 + s7 + s8 + s9;
    assert(owners_differ(rest, owner)) by {
        lemma_segment_differs(OwnerId::Asdf, "ASDF_DATA_DIR"@, ev.asdf_data_dir, default_root(home, ".asdf"@), owner);
        lemma_segment_differs(OwnerId::Pyenv, "PYENV_ROOT"@, ev.pyenv_root, default_root(home, ".pyenv"@), owner);
        lemma_segment_differs(OwnerId::Rbenv, "RBENV_ROOT"@, ev.rbenv_root, default_root(home, ".rbenv"@), owner);
        lemma_segment_differs(OwnerId::Sdkman, "SDKMAN_DIR"@, ev.sdkman_dir, default_root(home, ".sdkman"@), owner);
        lemma_segment_differs(OwnerId::Uv, "UV_PYTHON_INSTALL_DIR"@, ev.uv_python_install_dir, xdg_root(xdg_data, "XDG_DATA_HOME"@, "uv/python"@, default_root(home, ".local/share/uv/python"@)), owner);
        lemma_owners_differ_concat(s5, s6, owner);
        lemma_owners_differ_concat(s5 + s6, s7, owner);
        lemma_owners_differ_concat(s5 + s6 + s7, s8, owner);
        lemma_owners_differ_concat(s5 + s6 + s7 + s8, s9, owner);
    }
    assert(after =~= s4 + rest);
    assert(lift_all(after) =~= lift_all(s4) + lift_all(rest));
    lemma_lifted_differ(rest, owner);
    lemma_first_manager_other_owners(lift_all(rest), paths, owner);
    lemma_first_manager_append(lift_all(s4), lift_all(rest), paths, Some(owner));
}

#[verifier::spinoff_prover]
#[verifier::rlimit(100)]
proof fn lemma_root_decides_asdf(ev: EnvModel, entries: Seq<(OwnerId, RootModel)>, paths: Seq<(Seq<char>, Seq<char>)>, v: Seq<char>)
    requires
        entries == lift_all(roots_spec(ev)),
        ev.asdf_data_dir == Some(v),
    ensures
        ({
            let root = RootModel { path: v, canonical_path: v, source: SourceModel::Environment("ASDF_DATA_DIR"@) };
            manager_path_for_spec(entries, OwnerId::Asdf, paths) == match rel_in_paths(root, paths) {
                Some(rel) => Some(ManagerPathModel { owner: OwnerId::Asdf, relative_path: rel, root }),
                None => manager_path_for_spec(later_roots(ev, OwnerId::Asdf), OwnerId::Asdf, paths),
            }
        }),
{
    let owner = OwnerId::Asdf;
    let home = ev.home;
    let xdg_config = ev.xdg_config_home;
    let xdg_data = ev.xdg_data_home;
    let s0 = env_or_default(OwnerId::Nvm, "NVM_DIR"@, ev.nvm_dir, xdg_root(xdg_config, "XDG_CONFIG_HOME"@, "nvm"@, default_root(home, ".nvm"@)));
    let s1 = env_or_default(OwnerId::Fnm, "FNM_DIR"@, ev.fnm_dir, xdg_root(xdg_data, "XDG_DATA_HOME"@, "fnm"@, default_root(home, ".local/share/fnm"@)));
    let s2 = env_or_default(OwnerId::Volta, "VOLTA_HOME"@, ev.volta_home, default_root(home, ".volta"@));
    let s3 = env_or_default(OwnerId::Mise, "MISE_DATA_DIR"@, ev.mise_data_dir, xdg_root(xdg_data, "XDG_DATA_HOME"@, "mise"@, default_root(home, ".local/share/mise"@)));
    let s4 = env_or_default(OwnerId::Mise, "HOME"@, None, default_root(home, ".mise"@));
    let s5 = env_or_default(OwnerId::Asdf, "ASDF_DATA_DIR"@, ev.asdf_data_dir, default_root(home, ".asdf"@));
    let s6 = env_or_default(OwnerId::Pyenv, "PYENV_ROOT"@, ev.pyenv_root, default_root(home, ".pyenv"@));
    let s7 = env_or_default(OwnerId::Rbenv, "RBENV_ROOT"@, ev.rbenv_root, default_root(home, ".rbenv"@));
    let s8 = env_or_default(OwnerId::Sdkman, "SDKMAN_DIR"@, ev.sdkman_dir, default_root(home, ".sdkman"@));
    let s9 = env_or_default(OwnerId::Uv, "UV_PYTHON_INSTALL_DIR"@, ev.uv_python_install_dir, xdg_root(xdg_data, "XDG_DATA_HOME"@, "uv/python"@, default_root(home, ".local/share/uv/python"@)));
    let own = (OwnerId::Asdf, v, SourceModel::Environment("ASDF_DATA_DIR"@));
    assert(s5 == seq![own]);
    let before = s0 + s1 + s2 + s3 + s4;
    assert(owners_differ(before, owner)) by {
        lemma_segment_differs(OwnerId::Nvm, "NVM_DIR"@, ev.nvm_dir, xdg_root(xdg_config, "XDG_CONFIG_HOME"@, "nvm"@, default_root(home, ".nvm"@)), owner);
        lemma_segment_differs(OwnerId::Fnm, "FNM_DIR"@, ev.fnm_dir, xdg_root(xdg_data, "XDG_DATA_HOME"@, "fnm"@, default_root(home, ".local/share/fnm"@)), owner);
        lemma_segment_differs(OwnerId::Volta, "VOLTA_HOME"@, ev.volta_home, default_root(home, ".volta"@), owner);
        lemma_segment_differs(OwnerId::Mise, "MISE_DATA_DIR"@, ev.mise_data_dir, xdg_root(xdg_data, "XDG_DATA_HOME"@, "mise"@, default_root(home, ".local/share/mise"@)), owner);
        lemma_segment_differs(OwnerId::Mise, "HOME"@, None, default_root(home, ".mise"@), owner);
        lemma_owners_differ_concat(s0, s1, owner);
        lemma_owners_differ_concat(s0 + s1, s2, owner);
        lemma_owners_differ_concat(s0 + s1 + s2, s3, owner);
        lemma_owners_differ_concat(s0 + s1 + s2 + s3, s4, owner);
    }
    let after = s6 + s7 + s8 + s9;
    assert(roots_spec(ev) == before + seq![own] + after) by {
        let p0 = before + s5;
        let a6 = s6;
        let a7 = a6 + s7;
        assert((p0 + a6) + s7 =~= p0 + a7);
        let a8 = a7 + s8;
        assert((p0 + a7) + s8 =~= p0 + a8);
        let a9 = a8 + s9;
        assert((p0 + a8) + s9 =~= p0 + a9);
        assert(after == a9);
        assert(roots_spec(ev) == p0 + after);
    }
    assert(entries == (before + seq![own] + after).map_values(|x: (OwnerId, Seq<char>, SourceModel)| lift_root(x)));
    lemma_own_root_decides_at(before, own, after, entries, paths);
    assert(owners_differ(after, owner)) by {
        lemma_segment_differs(OwnerId::Pyenv, "PYENV_ROOT"@, ev.pyenv_root, default_root(home, ".pyenv"@), owner);
        lemma_segment_differs(OwnerId::Rbenv, "RBENV_ROOT"@, ev.rbenv_root, default_root(home, ".rbenv"@), owner);
        lemma_segment_differs(OwnerId::Sdkman, "SDKMAN_DIR"@, ev.sdkman_dir, default_root(home, ".sdkman"@), owner);
        lemma_segment_differs(OwnerId::Uv, "UV_PYTHON_INSTALL_DIR"@, ev.uv_python_install_dir, xdg_root(xdg_data, "XDG_DATA_HOME"@, "uv/python"@, default_root(home, ".local/share/uv/python"@)), owner);
        lemma_owners_differ_concat(s6, s7, owner);
        lemma_owners_differ_concat(s6 + s7, s8, owner);
        lemma_owners_differ_concat(s6 + s7 + s8, s9, owner);
    }
    lemma_lifted_differ(after, owner);
    lemma_first_manager_other_owners(lift_all(after), paths, owner);
    assert(first_manager(Seq::<(OwnerId, RootModel)>::empty(), paths, Some(owner)) is None);
}

#[verifier::spinoff_prover]
#[verifier::rlimit(100)]
proof fn lemma_root_decides_pyenv(ev: EnvModel, entries: Seq<(OwnerId, RootModel)>, paths: Seq<(Seq<char>, Seq<char>)>, v: Seq<char>)
    requires
        entries == lift_all(roots_spec(ev)),
        ev.pyenv_root == Some(v),
    ensures
        ({
            let root = RootModel { path: v, canonical_path: v, source: SourceModel::Environment("PYENV_ROOT"@) };
            manager_path_for_spec(entries, OwnerId::Pyenv, paths) == match rel_in_paths(root, paths) {
                Some(rel) => Some(ManagerPathModel { owner: OwnerId::Pyenv, relative_path: rel, root }),
                None => manager_path_for_spec(later_roots(ev, OwnerId::Pyenv), OwnerId::Pyenv, paths),
            }
        }),
{
    let owner = OwnerId::Pyenv;
    let home = ev.home;
    let xdg_config = ev.xdg_config_home;
    let xdg_data = ev.xdg_data_home;
    let s0 = env_or_default(OwnerId::Nvm, "NVM_DIR"@, ev.nvm_dir, xdg_root(xdg_config, "XDG_CONFIG_HOME"@, "nvm"@, default_root(home, ".nvm"@)));
    let s1 = env_or_default(OwnerId::Fnm, "FNM_DIR"@, ev.fnm_dir, xdg_root(xdg_data, "XDG_DATA_HOME"@, "fnm"@, default_root(home, ".local/share/fnm"@)));
    let s2 = env_or_default(OwnerId::Volta, "VOLTA_HOME"@, ev.volta_home, default_root(home, ".volta"@));
    let s3 = env_or_default(OwnerId::Mise, "MISE_DATA_DIR"@, ev.mise_data_dir, xdg_root(xdg_data, "XDG_DATA_HOME"@, "mise"@, default_root(home, ".local/share/mise"@)));
    let s4 = env_or_default(OwnerId::Mise, "HOME"@, None, default_root(home, ".mise"@));
    let s5 = env_or_default(OwnerId::Asdf, "ASDF_DATA_DIR"@, ev.asdf_data_dir, default_root(home, ".asdf"@));
    let s6 = env_or_default(OwnerId::Pyenv, "PYENV_ROOT"@, ev.pyenv_root, default_root(home, ".pyenv"@));
    let s7 = env_or_default(OwnerId::Rbenv, "RBENV_ROOT"@, ev.rbenv_root, default_root(home, ".rbenv"@));
    let s8 = env_or_default(OwnerId::Sdkman, "SDKMAN_DIR"@, ev.sdkman_dir, default_root(home, ".sdkman"@));
    let s9 = env_or_default(OwnerId::Uv, "UV_PYTHON_INSTALL_DIR"@, ev.uv_python_install_dir, xdg_root(xdg_data, "XDG_DATA_HOME"@, "uv/python"@, default_root(home, ".local/share/uv/python"@)));
    let own = (OwnerId::Pyenv, v, SourceModel::Environment("PYENV_ROOT"@));
    assert(s6 == seq![own]);
    let before = s0 + s1 + s2 + s3 + s4 + s5;
    assert(owners_differ(before, owner)) by {
        lemma_segment_differs(OwnerId::Nvm, "NVM_DIR"@, ev.nvm_dir, xdg_root(xdg_config, "XDG_CONFIG_HOME"@, "nvm"@, default_root(home, ".nvm"@)), owner);
        lemma_segment_differs(OwnerId::Fnm, "FNM_DIR"@, ev.fnm_dir, xdg_root(xdg_data, "XDG_DATA_HOME"@, "fnm"@, default_root(home, ".local/share/fnm"@)), owner);
        lemma_segment_differs(OwnerId::Volta, "VOLTA_HOME"@, ev.volta_home, default_root(home, ".volta"@), owner);
        lemma_segment_differs(OwnerId::Mise, "MISE_DATA_DIR"@, ev.mise_data_dir, xdg_root(xdg_data, "XDG_DATA_HOME"@, "mise"@, default_root(home, ".local/share/mise"@)), owner);
        lemma_segment_differs(OwnerId::Mise, "HOME"@, None, default_root(home, ".mise"@), owner);
        lemma_segment_differs(OwnerId::Asdf, "ASDF_DATA_DIR"@, ev.asdf_data_dir, default_root(home, ".asdf"@), owner);
        lemma_owners_differ_concat(s0, s1, owner);
        lemma_owners_differ_concat(s0 + s1, s2, owner);
        lemma_owners_differ_concat(s0 + s1 + s2, s3, owner);
        lemma_owners_differ_concat(s0 + s1 + s2 + s3, s4, owner);
        lemma_owners_differ_concat(s0 + s1 + s2 + s3 + s4, s5, owner);
    }
    let after = s7 + s8 + s9;
    assert(roots_spec(ev) == before + seq![own] + after) by {
        let p0 = before + s6;
        let a7 = s7;
        let a8 = a7 + s8;
        assert((p0 + a7) + s8 =~= p0 + a8);
        let a9 = a8 + s9;
        assert((p0 + a8) + s9 =~= p0 + a9);
        assert(after == a9);
        assert(roots_spec(ev) == p0 + after);
    }
    assert(entries == (before + seq![own] + after).map_values(|x: (OwnerId, Seq<char>, SourceModel)| lift_root(x)));
    lemma_own_root_decides_at(before, own, after, entries, paths);
    assert(owners_differ(after, owner)) by {
        lemma_segment_differs(OwnerId::Rbenv, "RBENV_ROOT"@, ev.rbenv_root, default_root(home, ".rbenv"@), owner);
        lemma_segment_differs(OwnerId::Sdkman, "SDKMAN_DIR"@, ev.sdkman_dir, default_root(home, ".sdkman"@), owner);
        lemma_segment_differs(OwnerId::Uv, "UV_PYTHON_INSTALL_DIR"@, ev.uv_python_install_dir, xdg_root(xdg_data, "XDG_DATA_HOME"@, "uv/python"@, default_root(home, ".local/share/uv/python"@)), owner);
        lemma_owners_differ_concat(s7, s8, owner);
        lemma_owners_differ_concat(s7 + s8, s9, owner);
    }
    lemma_lifted_differ(after, owner);
    lemma_first_manager_other_owners(lift_all(after), paths, owner);
    assert(first_manager(Seq::<(OwnerId, RootModel)>::empty(), paths, Some(owner)) is None);
}

#[verifier::spinoff_prover]
#[verifier::rlimit(100)]
proof fn lemma_root_decides_rbenv(ev: EnvModel, entries: Seq<(OwnerId, RootModel)>, paths: Seq<(Seq<char>, Seq<char>)>, v: Seq<char>)
    requires
        entries == lift_all(roots_spec(ev)),
        ev.rbenv_root == Some(v),
    ensures
        ({
            let root = RootModel { path: v, canonical_path: v, source: SourceModel::Environment("RBENV_ROOT"@) };
            manager_path_for_spec(entries, OwnerId::Rbenv, paths) == match rel_in_paths(root, paths) {
                Some(rel) => Some(ManagerPathModel { owner: OwnerId::Rbenv, relative_path: rel, root }),
                None => manager_path_for_spec(later_roots(ev, OwnerId::Rbenv), OwnerId::Rbenv, paths),
            }
        }),
{
    let owner = OwnerId::Rbenv;
    let home = ev.home;
    let xdg_config = ev.xdg_config_home;
    let xdg_data = ev.xdg_data_home;
    let s0 = env_or_default(OwnerId::Nvm, "NVM_DIR"@, ev.nvm_dir, xdg_root(xdg_config, "XDG_CONFIG_HOME"@, "nvm"@, default_root(home, ".nvm"@)));
    let s1 = env_or_default(OwnerId::Fnm, "FNM_DIR"@, ev.fnm_dir, xdg_root(xdg_data, "XDG_DATA_HOME"@, "fnm"@, default_root(home, ".local/share/fnm"@)));
    let s2 = env_or_default(OwnerId::Volta, "VOLTA_HOME"@, ev.volta_home, default_root(home, ".volta"@));
    let s3 = env_or_default(OwnerId::Mise, "MISE_DATA_DIR"@, ev.mise_data_dir, xdg_root(xdg_data, "XDG_DATA_HOME"@, "mise"@, default_root(home, ".local/share/mise"@)));
    let s4 = env_or_default(OwnerId::Mise, "HOME"@, None, default_root(home, ".mise"@));
    let s5 = env_or_default(OwnerId::Asdf, "ASDF_DATA_DIR"@, ev.asdf_data_dir, default_root(home, ".asdf"@));
    let s6 = env_or_default(OwnerId::Pyenv, "PYENV_ROOT"@, ev.pyenv_root, default_root(home, ".pyenv"@));
    let s7 = env_or_default(OwnerId::Rbenv, "RBENV_ROOT"@, ev.rbenv_root, default_root(home, ".rbenv"@));
    let s8 = env_or_default(OwnerId::Sdkman, "SDKMAN_DIR"@, ev.sdkman_dir, default_root(home, ".sdkman"@));
    let s9 = env_or_default(OwnerId::Uv, "UV_PYTHON_INSTALL_DIR"@, ev.uv_python_install_dir, xdg_root(xdg_data, "XDG_DATA_HOME"@, "uv/python"@, default_root(home, ".local/share/uv/python"@)));
    let own = (OwnerId::Rbenv, v, SourceModel::Environment("RBENV_ROOT"@));
    assert(s7 == seq![own]);
    let before = s0 + s1 + s2 + s3 + s4 + s5 + s6;
    assert(owners_differ(before, owner)) by {
        lemma_segment_differs(OwnerId::Nvm, "NVM_DIR"@, ev.nvm_dir, xdg_root(xdg_config, "XDG_CONFIG_HOME"@, "nvm"@, default_root(home, ".nvm"@)), owner);
        lemma_segment_differs(OwnerId::Fnm, "FNM_DIR"@, ev.fnm_dir, xdg_root(xdg_data, "XDG_DATA_HOME"@, "fnm"@, default_root(home, ".local/share/fnm"@)), owner);
        lemma_segment_differs(OwnerId::Volta, "VOLTA_HOME"@, ev.volta_home, default_root(home, ".volta"@), owner);
        lemma_segment_differs(OwnerId::Mise, "MISE_DATA_DIR"@, ev.mise_data_dir, xdg_root(xdg_data, "XDG_DATA_HOME"@, "mise"@, default_root(home, ".local/share/mise"@)), owner);
        lemma_segment_differs(OwnerId::Mise, "HOME"@, None, default_root(home, ".mise"@), owner);
        lemma_segment_differs(OwnerId::Asdf, "ASDF_DATA_DIR"@, ev.asdf_data_dir, default_root(home, ".asdf"@), owner);
        lemma_segment_differs(OwnerId::Pyenv, "PYENV_ROOT"@, ev.pyenv_root, default_root(home, ".pyenv"@), owner);
        lemma_owners_differ_concat(s0, s1, owner);
        lemma_owners_differ_concat(s0 + s1, s2, owner);
        lemma_owners_differ_concat(s0 + s1 + s2, s3, owner);
        lemma_owners_differ_concat(s0 + s1 + s2 + s3, s4, owner);
        lemma_owners_differ_concat(s0 + s1 + s2 + s3 + s4, s5, owner);
        lemma_owners_differ_concat(s0 + s1 + s2 + s3 + s4 + s5, s6, owner);
    }
    let after = s8 + s9;
    assert(roots_spec(ev) == before + seq![own] + after) by {
        let p0 = before + s7;
        let a8 = s8;
        let a9 = a8 + s9;
        assert((p0 + a8) + s9 =~= p0 + a9);
        assert(after == a9);
        assert(roots_spec(ev) == p0 + after);
    }
    assert(entries == (before + seq![own] + after).map_values(|x: (OwnerId, Seq<char>, SourceModel)| lift_root(x)));
    lemma_own_root_decides_at(before, own, after, entries, paths);
    assert(owners_differ(after, owner)) by {
        lemma_segment_differs(OwnerId::Sdkman, "SDKMAN_DIR"@, ev.sdkman_dir, default_root(home, ".sdkman"@), owner);
        lemma_segment_differs(OwnerId::Uv, "UV_PYTHON_INSTALL_DIR"@, ev.uv_python_install_dir, xdg_root(xdg_data, "XDG_DATA_HOME"@, "uv/python"@, default_root(home, ".local/share/uv/python"@)), owner);
        lemma_owners_differ_concat(s8, s9, owner);
    }
    lemma_lifted_differ(after, owner);
    lemma_first_manager_other_owners(lift_all(after), paths, owner);
    assert(first_manager(Seq::<(OwnerId, RootModel)>::empty(), paths, Some(owner)) is None);
}

#[verifier::spinoff_prover]
#[verifier::rlimit(100)]
proof fn lemma_root_decides_sdkman(ev: EnvModel, entries: Seq<(OwnerId, RootModel)>, paths: Seq<(Seq<char>, Seq<char>)>, v: Seq<char>)
    requires
        entries == lift_all(roots_spec(ev)),
        ev.sdkman_dir == Some(v),
    ensures
        ({
            let root = RootModel { path: v, canonical_path: v, source: SourceModel::Environment("SDKMAN_DIR"@) };
            manager_path_for_spec(entries, OwnerId::Sdkman, paths) == match rel_in_paths(root, paths) {
                Some(rel) => Some(ManagerPathModel { owner: OwnerId::Sdkman, relative_path: rel, root }),
                None => manager_path_for_spec(later_roots(ev, OwnerId::Sdkman), OwnerId::Sdkman, paths),
            }
        }),
{
    let owner = OwnerId::Sdkman;
    let home = ev.home;
    let xdg_config = ev.xdg_config_home;
    let xdg_data = ev.xdg_data_home;
    let s0 = env_or_default(OwnerId::Nvm, "NVM_DIR"@, ev.nvm_dir, xdg_root(xdg_config, "XDG_CONFIG_HOME"@, "nvm"@, default_root(home, ".nvm"@)));
    let s1 = env_or_default(OwnerId::Fnm, "FNM_DIR"@, ev.fnm_dir, xdg_root(xdg_data, "XDG_DATA_HOME"@, "fnm"@, default_root(home, ".local/share/fnm"@)));
    let s2 = env_or_default(OwnerId::Volta, "VOLTA_HOME"@, ev.volta_home, default_root(home, ".volta"@));
    let s3 = env_or_default(OwnerId::Mise, "MISE_DATA_DIR"@, ev.mise_data_dir, xdg_root(xdg_data, "XDG_DATA_HOME"@, "mise"@, default_root(home, ".local/share/mise"@)));
    let s4 = env_or_default(OwnerId::Mise, "HOME"@, None, default_root(home, ".mise"@));
    let s5 = env_or_default(OwnerId::Asdf, "ASDF_DATA_DIR"@, ev.asdf_data_dir, default_root(home, ".asdf"@));
    let s6 = env_or_default(OwnerId::Pyenv, "PYENV_ROOT"@, ev.pyenv_root, default_root(home, ".pyenv"@));
    let s7 = env_or_default(OwnerId::Rbenv, "RBENV_ROOT"@, ev.rbenv_root, default_root(home, ".rbenv"@));
    let s8 = env_or_default(OwnerId::Sdkman, "SDKMAN_DIR"@, ev.sdkman_dir, default_root(home, ".sdkman"@));
    let s9 = env_or_default(OwnerId::Uv, "UV_PYTHON_INSTALL_DIR"@, ev.uv_python_install_dir, xdg_root(xdg_data, "XDG_DATA_HOME"@, "uv/python"@, default_root(home, ".local/share/uv/python"@)));
    let own = (OwnerId::Sdkman, v, SourceModel::Environment("SDKMAN_DIR"@));
    assert(s8 == seq![own]);
    let before = s0 + s1 + s2 + s3 + s4 + s5 + s6 + s7;
    assert(owners_differ(before, owner)) by {
        lemma_segment_differs(OwnerId::Nvm, "NVM_DIR"@, ev.nvm_dir, xdg_root(xdg_config, "XDG_CONFIG_HOME"@, "nvm"@, default_root(home, ".nvm"@)), owner);
        lemma_segment_differs(OwnerId::Fnm, "FNM_DIR"@, ev.fnm_dir, xdg_root(xdg_data, "XDG_DATA_HOME"@, "fnm"@, default_root(home, ".local/share/fnm"@)), owner);
        lemma_segment_differs(OwnerId::Volta, "VOLTA_HOME"@, ev.volta_home, default_root(home, ".volta"@), owner);
        lemma_segment_differs(OwnerId::Mise, "MISE_DATA_DIR"@, ev.mise_data_dir, xdg_root(xdg_data, "XDG_DATA_HOME"@, "mise"@, default_root(home, ".local/share/mise"@)), owner);
        lemma_segment_differs(OwnerId::Mise, "HOME"@, None, default_root(home, ".mise"@), owner);
        lemma_segment_differs(OwnerId::Asdf, "ASDF_DATA_DIR"@, ev.asdf_data_dir, default_root(home, ".asdf"@), owner);
        lemma_segment_differs(OwnerId::Pyenv, "PYENV_ROOT"@, ev.pyenv_root, default_root(home, ".pyenv"@), owner);
        lemma_segment_differs(OwnerId::Rbenv, "RBENV_ROOT"@, ev.rbenv_root, default_root(home, ".rbenv"@), owner);
        lemma_owners_differ_concat(s0, s1, owner);
        lemma_owners_differ_concat(s0 + s1, s2, owner);
        lemma_owners_differ_concat(s0 + s1 + s2, s3, owner);
        lemma_owners_differ_concat(s0 + s1 + s2 + s3, s4, owner);
        lemma_owners_differ_concat(s0 + s1 + s2 + s3 + s4, s5, owner);
        lemma_owners_differ_concat(s0 + s1 + s2 + s3 + s4 + s5, s6, owner);
        lemma_owners_differ_concat(s0 + s1 + s2 + s3 + s4 + s5 + s6, s7, owner);
    }
    let after = s9;
    assert(roots_spec(ev) == before + seq![own] + after) by {
        assert(roots_spec(ev) =~= before + seq![own] + after);
    }
    assert(entries == (before + seq![own] + after).map_values(|x: (OwnerId, Seq<char>, SourceModel)| lift_root(x)));
    lemma_own_root_decides_at(before, own, after, entries, paths);
    assert(owners_differ(after, owner)) by {
        lemma_segment_differs(OwnerId::Uv, "UV_PYTHON_INSTALL_DIR"@, ev.uv_python_install_dir, xdg_root(xdg_data, "XDG_DATA_HOME"@, "uv/python"@, default_root(home, ".local/share/uv/python"@)), owner);
    }
    lemma_lifted_differ(after, owner);
    lemma_first_manager_other_owners(lift_all(after), paths, owner);
    assert(first_manager(Seq::<(OwnerId, RootModel)>::empty(), paths, Some(owner)) is None);
}

#[verifier::spinoff_prover]
#[verifier::rlimit(100)]
proof fn lemma_root_decides_uv(ev: EnvModel, entries: Seq<(OwnerId, RootModel)>, paths: Seq<(Seq<char>, Seq<char>)>, v: Seq<char>)
    requires
        entries == lift_all(roots_spec(ev)),
        ev.uv_python_install_dir == Some(v),
    ensures
        ({
            let root = RootModel { path: v, canonical_path: v, source: SourceModel::Environment("UV_PYTHON_INSTALL_DIR"@) };
            manager_path_for_spec(entries, OwnerId::Uv, paths) == match rel_in_paths(root, paths) {
                Some(rel) => Some(ManagerPathModel { owner: OwnerId::Uv, relative_path: rel, root }),
                None => manager_path_for_spec(later_roots(ev, OwnerId::Uv), OwnerId::Uv, paths),
            }
        }),
{
    let owner = OwnerId::Uv;
    let home = ev.home;
    let xdg_config = ev.xdg_config_home;
    let xdg_data = ev.xdg_data_home;
    let s0 = env_or_default(OwnerId::Nvm, "NVM_DIR"@, ev.nvm_dir, xdg_root(xdg_config, "XDG_CONFIG_HOME"@, "nvm"@, default_root(home, ".nvm"@)));
    let s1 = env_or_default(OwnerId::Fnm, "FNM_DIR"@, ev.fnm_dir, xdg_root(xdg_data, "XDG_DATA_HOME"@, "fnm"@, default_root(home, ".local/share/fnm"@)));
    let s2 = env_or_default(OwnerId::Volta, "VOLTA_HOME"@, ev.volta_home, default_root(home, ".volta"@));
    let s3 = env_or_default(OwnerId::Mise, "MISE_DATA_DIR"@, ev.mise_data_dir, xdg_root(xdg_data, "XDG_DATA_HOME"@, "mise"@, default_root(home, ".local/share/mise"@)));
    let s4 = env_or_default(OwnerId::Mise, "HOME"@, None, default_root(home, ".mise"@));
    let s5 = env_or_default(OwnerId::Asdf, "ASDF_DATA_DIR"@, ev.asdf_data_dir, default_root(home, ".asdf"@));
    let s6 = env_or_default(OwnerId::Pyenv, "PYENV_ROOT"@, ev.pyenv_root, default_root(home, ".pyenv"@));
    let s7 = env_or_default(OwnerId::Rbenv, "RBENV_ROOT"@, ev.rbenv_root, default_root(home, ".rbenv"@));
    let s8 = env_or_default(OwnerId::Sdkman, "SDKMAN_DIR"@, ev.sdkman_dir, default_root(home, ".sdkman"@));
    let s9 = env_or_default(OwnerId::Uv, "UV_PYTHON_INSTALL_DIR"@, ev.uv_python_install_dir, xdg_root(xdg_data, "XDG_DATA_HOME"@, "uv/python"@, default_root(home, ".local/share/uv/python"@)));
    let own = (OwnerId::Uv, v, SourceModel::Environment("UV_PYTHON_INSTALL_DIR"@));
    assert(s9 == seq![own]);
    let before = s0 + s1 + s2 + s3 + s4 + s5 + s6 + s7 + s8;
    assert(owners_differ(before, owner)) by {
        lemma_segment_differs(OwnerId::Nvm, "NVM_DIR"@, ev.nvm_dir, xdg_root(xdg_config, "XDG_CONFIG_HOME"@, "nvm"@, default_root(home, ".nvm"@)), owner);
        lemma_segment_differs(OwnerId::Fnm, "FNM_DIR"@, ev.fnm_dir, xdg_root(xdg_data, "XDG_DATA_HOME"@, "fnm"@, default_root(home, ".local/share/fnm"@)), owner);
        lemma_segment_differs(OwnerId::Volta, "VOLTA_HOME"@, ev.volta_home, default_root(home, ".volta"@), owner);
        lemma_segment_differs(OwnerId::Mise, "MISE_DATA_DIR"@, ev.mise_data_dir, xdg_root(xdg_data, "XDG_DATA_HOME"@, "mise"@, default_root(home, ".local/share/mise"@)), owner);
        lemma_segment_differs(OwnerId::Mise, "HOME"@, None, default_root(home, ".mise"@), owner);
        lemma_segment_differs(OwnerId::Asdf, "ASDF_DATA_DIR"@, ev.asdf_data_dir, default_root(home, ".asdf"@), owner);
        lemma_segment_differs(OwnerId::Pyenv, "PYENV_ROOT"@, ev.pyenv_root, default_root(home, ".pyenv"@), owner);
        lemma_segment_differs(OwnerId::Rbenv, "RBENV_ROOT"@, ev.rbenv_root, default_root(home, ".rbenv"@), owner);
        lemma_segment_differs(OwnerId::Sdkman, "SDKMAN_DIR"@, ev.sdkman_dir, default_root(home, ".sdkman"@), owner);
        lemma_owners_differ_concat(s0, s1, owner);
        lemma_owners_differ_concat(s0 + s1, s2, owner);
        lemma_owners_differ_concat(s0 + s1 + s2, s3, owner);
        lemma_owners_differ_concat(s0 + s1 + s2 + s3, s4, owner);
        lemma_owners_differ_concat(s0 + s1 + s2 + s3 + s4, s5, owner);
        lemma_owners_differ_concat(s0 + s1 + s2 + s3 + s4 + s5, s6, owner);
        lemma_owners_differ_concat(s0 + s1 + s2 + s3 + s4 + s5 + s6, s7, owner);
        lemma_owners_differ_concat(s0 + s1 + s2 + s3 + s4 + s5 + s6 + s7, s8, owner);
    }
    let after = Seq::<(OwnerId, Seq<char>, SourceModel)>::empty();
    assert(roots_spec(ev) == before + seq![own] + after) by {
        assert(roots_spec(ev) =~= before + seq![own] + after);
    }
    assert(entries == (before + seq![own] + after).map_values(|x: (OwnerId, Seq<char>, SourceModel)| lift_root(x)));
    lemma_own_root_decides_at(before, own, after, entries, paths);
    assert(lift_all(after) =~= Seq::<(OwnerId, RootModel)>::empty());
}

/// Where a manager's own variable is set and not empty, its directory is the
/// manager's first root: a lookup for the manager finds a path exactly where
/// it lies below that directory, with evidence that names the variable;
/// otherwise it goes on as with no such root (for mise, to `~/.mise`). Where
/// the variable is empty, it counts as unset.
pub proof fn lemma_environment_root_decides(
    e: RootEnvironment,
    entries: Seq<(OwnerId, RootModel)>,
    paths: Seq<(Seq<char>, Seq<char>)>,
    owner: OwnerId,
)
    requires
        entries.map_values(|x: (OwnerId, RootModel)| (x.0, x.1.path, x.1.source)) == roots_spec(env_view(e)),
        forall|i: int| 0 <= i < entries.len() ==> #[trigger] entries[i].1.canonical_path == entries[i].1.path,
        own_setting(env_view(e), owner) is Some,
    ensures
        raw_setting(e, owner) matches Some(Some(raw)) && raw@.len() == 0 ==> (own_setting(env_view(e), owner) matches Some((
            _,
            value,
        )) && value is None),
        own_setting(env_view(e), owner) matches Some((variable, Some(v))) ==> ({
            let root = RootModel { path: v, canonical_path: v, source: SourceModel::Environment(variable) };
            &&& manager_path_for_spec(entries, owner, paths) == match rel_in_paths(root, paths) {
                Some(rel) => Some(ManagerPathModel { owner, relative_path: rel, root }),
                None => manager_path_for_spec(later_roots(env_view(e), owner), owner, paths),
            }
            &&& root_evidence_spec(root, owner) == "path is inside the "@ + display_str(owner) + " root from `$"@
                + variable + "` ("@ + v + ")"@
        }),
{
    let ev = env_view(e);
    assert(entries.len() == roots_spec(ev).len());
    assert(entries =~= lift_all(roots_spec(ev))) by {
        assert forall|i: int| 0 <= i < entries.len() implies entries[i] == lift_root(roots_spec(ev)[i]) by {
            let x = entries.map_values(|x: (OwnerId, RootModel)| (x.0, x.1.path, x.1.source))[i];
            assert(x == (entries[i].0, entries[i].1.path, entries[i].1.source));
            assert(entries[i].1.canonical_path == entries[i].1.path);
        }
    }
    match own_setting(ev, owner) {
        Some((_, Some(v))) => {
            if owner == OwnerId::Nvm {
                lemma_root_decides_nvm(ev, entries, paths, v);
            } else if owner == OwnerId::Fnm {
                lemma_root_decides_fnm(ev, entries, paths, v);
            } else if owner == OwnerId::Volta {
                lemma_root_decides_volta(ev, entries, paths, v);
            } else if owner == OwnerId::Mise {
                lemma_root_decides_mise(ev, entries, paths, v);
            } else if owner == OwnerId::Asdf {
                lemma_root_decides_asdf(ev, entries, paths, v);
            } else if owner == OwnerId::Pyenv {
                lemma_root_decides_pyenv(ev, entries, paths, v);
            } else if owner == OwnerId::Rbenv {
                lemma_root_decides_rbenv(ev, entries, paths, v);
            } else if owner == OwnerId::Sdkman {
                lemma_root_decides_sdkman(ev, entries, paths, v);
            } else if owner == OwnerId::Uv {
                lemma_root_decides_uv(ev, entries, paths, v);
            }
        },
        _ => {},
    }
}

} // verus!
