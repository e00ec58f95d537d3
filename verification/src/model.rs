//! The ownership graph: commands, their PATH resolutions and the owner chain of each.
use vstd::prelude::*;

use crate::text::{opt_view, views};

verus! {

#[derive(Clone, Copy, Debug, PartialEq, Eq, Structural)]
pub enum Confidence {
    Confirmed,
    Probable,
    Unknown,
}

pub open spec fn confidence_str(c: Confidence) -> Seq<char> {
    match c {
        Confidence::Confirmed => "confirmed"@,
        Confidence::Probable => "probable"@,
        Confidence::Unknown => "unknown"@,
    }
}

impl Confidence {
    pub fn as_str(self) -> (r: &'static str)
        ensures
            r@ == confidence_str(self),
    {
        match self {
            Confidence::Confirmed => "confirmed",
            Confidence::Probable => "probable",
            Confidence::Unknown => "unknown",
        }
    }
}

#[derive(Clone, Copy, Debug, PartialEq, Eq, Structural)]
pub enum OwnerKind {
    PackageManager,
    VersionManager,
    Installer,
    ToolInstaller,
    OperatingSystem,
    Unknown,
}

pub open spec fn kind_str(k: OwnerKind) -> Seq<char> {
    match k {
        OwnerKind::PackageManager => "package_manager"@,
        OwnerKind::VersionManager => "version_manager"@,
        OwnerKind::Installer => "installer"@,
        OwnerKind::ToolInstaller => "tool_installer"@,
        OwnerKind::OperatingSystem => "operating_system"@,
        OwnerKind::Unknown => "unknown"@,
    }
}

impl OwnerKind {
    pub fn as_str(self) -> (r: &'static str)
        ensures
            r@ == kind_str(self),
    {
        match self {
            OwnerKind::PackageManager => "package_manager",
            OwnerKind::VersionManager => "version_manager",
            OwnerKind::Installer => "installer",
            OwnerKind::ToolInstaller => "tool_installer",
            OwnerKind::OperatingSystem => "operating_system",
            OwnerKind::Unknown => "unknown",
        }
    }
}

/// Stable machine-facing identity of an owner.
///
/// Ownership resolution and action guides branch on this value only. Display
/// text is derived from it, never the other way around, so renaming an owner
/// cannot change ownership-chain behavior.
#[derive(Clone, Copy, Debug, PartialEq, Eq, Structural)]
pub enum OwnerId {
    Nix,
    Homebrew,
    MacPorts,
    Nvm,
    Fnm,
    Volta,
    Mise,
    Asdf,
    Pyenv,
    Rbenv,
    Sdkman,
    Uv,
    Rustup,
    RustupInstaller,
    CargoInstall,
    PnpmHome,
    DenoInstaller,
    BunInstaller,
    MacosInstaller,
    PythonOrgInstaller,
    Dpkg,
    Rpm,
    Pacman,
    Apk,
    OperatingSystem,
    UnconfirmedOwner,
    UnconfirmedSource,
}

/// The stable snake_case identifier of an owner.
pub open spec fn id_str(id: OwnerId) -> Seq<char> {
    match id {
        OwnerId::Nix => "nix"@,
        OwnerId::Homebrew => "homebrew"@,
        OwnerId::MacPorts => "macports"@,
        OwnerId::Nvm => "nvm"@,
        OwnerId::Fnm => "fnm"@,
        OwnerId::Volta => "volta"@,
        OwnerId::Mise => "mise"@,
        OwnerId::Asdf => "asdf"@,
        OwnerId::Pyenv => "pyenv"@,
        OwnerId::Rbenv => "rbenv"@,
        OwnerId::Sdkman => "sdkman"@,
        OwnerId::Uv => "uv"@,
        OwnerId::Rustup => "rustup"@,
        OwnerId::RustupInstaller => "rustup_installer"@,
        OwnerId::CargoInstall => "cargo_install"@,
        OwnerId::PnpmHome => "pnpm_home"@,
        OwnerId::DenoInstaller => "deno_installer"@,
        OwnerId::BunInstaller => "bun_installer"@,
        OwnerId::MacosInstaller => "macos_installer"@,
        OwnerId::PythonOrgInstaller => "python_org_installer"@,
        OwnerId::Dpkg => "dpkg"@,
        OwnerId::Rpm => "rpm"@,
        OwnerId::Pacman => "pacman"@,
        OwnerId::Apk => "apk"@,
        OwnerId::OperatingSystem => "operating_system"@,
        OwnerId::UnconfirmedOwner => "unconfirmed_owner"@,
        OwnerId::UnconfirmedSource => "unconfirmed_source"@,
    }
}

/// The human-readable name of an owner.
pub open spec fn display_str(id: OwnerId) -> Seq<char> {
    match id {
        OwnerId::Nix => "Nix"@,
        OwnerId::Homebrew => "Homebrew"@,
        OwnerId::MacPorts => "MacPorts"@,
        OwnerId::Nvm => "nvm"@,
        OwnerId::Fnm => "fnm"@,
        OwnerId::Volta => "Volta"@,
        OwnerId::Mise => "mise"@,
        OwnerId::Asdf => "asdf"@,
        OwnerId::Pyenv => "pyenv"@,
        OwnerId::Rbenv => "rbenv"@,
        OwnerId::Sdkman => "SDKMAN!"@,
        OwnerId::Uv => "uv"@,
        OwnerId::Rustup => "rustup"@,
        OwnerId::RustupInstaller => "rustup installer"@,
        OwnerId::CargoInstall => "cargo install"@,
        OwnerId::PnpmHome => "pnpm home"@,
        OwnerId::DenoInstaller => "Deno installer"@,
        OwnerId::BunInstaller => "Bun installer"@,
        OwnerId::MacosInstaller => "macOS Installer (.pkg)"@,
        OwnerId::PythonOrgInstaller => "python.org macOS installer"@,
        OwnerId::Dpkg => "dpkg"@,
        OwnerId::Rpm => "RPM"@,
        OwnerId::Pacman => "pacman"@,
        OwnerId::Apk => "apk"@,
        OwnerId::OperatingSystem => "operating system"@,
        OwnerId::UnconfirmedOwner => "unconfirmed owner"@,
        OwnerId::UnconfirmedSource => "unconfirmed source"@,
    }
}

/// How an owner installs software.
pub open spec fn id_kind(id: OwnerId) -> OwnerKind {
    match id {
        OwnerId::Nix | OwnerId::Homebrew | OwnerId::MacPorts => OwnerKind::PackageManager,
        OwnerId::Dpkg | OwnerId::Rpm | OwnerId::Pacman | OwnerId::Apk => OwnerKind::PackageManager,
        OwnerId::Nvm | OwnerId::Fnm | OwnerId::Volta | OwnerId::Mise | OwnerId::Asdf
        | OwnerId::Pyenv | OwnerId::Rbenv | OwnerId::Sdkman | OwnerId::Uv
        | OwnerId::Rustup => OwnerKind::VersionManager,
        OwnerId::RustupInstaller | OwnerId::CargoInstall | OwnerId::PnpmHome
        | OwnerId::DenoInstaller | OwnerId::BunInstaller => OwnerKind::ToolInstaller,
        OwnerId::MacosInstaller | OwnerId::PythonOrgInstaller => OwnerKind::Installer,
        OwnerId::OperatingSystem => OwnerKind::OperatingSystem,
        OwnerId::UnconfirmedOwner | OwnerId::UnconfirmedSource => OwnerKind::Unknown,
    }
}

impl OwnerId {
    /// Stable snake_case identifier. Part of the machine-readable contract:
    /// changing one of these values is a breaking change.
    pub fn as_str(self) -> (r: &'static str)
        ensures
            r@ == id_str(self),
    {
        match self {
            OwnerId::Nix => "nix",
            OwnerId::Homebrew => "homebrew",
            OwnerId::MacPorts => "macports",
            OwnerId::Nvm => "nvm",
            OwnerId::Fnm => "fnm",
            OwnerId::Volta => "volta",
            OwnerId::Mise => "mise",
            OwnerId::Asdf => "asdf",
            OwnerId::Pyenv => "pyenv",
            OwnerId::Rbenv => "rbenv",
            OwnerId::Sdkman => "sdkman",
            OwnerId::Uv => "uv",
            OwnerId::Rustup => "rustup",
            OwnerId::RustupInstaller => "rustup_installer",
            OwnerId::CargoInstall => "cargo_install",
            OwnerId::PnpmHome => "pnpm_home",
            OwnerId::DenoInstaller => "deno_installer",
            OwnerId::BunInstaller => "bun_installer",
            OwnerId::MacosInstaller => "macos_installer",
            OwnerId::PythonOrgInstaller => "python_org_installer",
            OwnerId::Dpkg => "dpkg",
            OwnerId::Rpm => "rpm",
            OwnerId::Pacman => "pacman",
            OwnerId::Apk => "apk",
            OwnerId::OperatingSystem => "operating_system",
            OwnerId::UnconfirmedOwner => "unconfirmed_owner",
            OwnerId::UnconfirmedSource => "unconfirmed_source",
        }
    }

    /// Human-readable presentation text. Free to change without affecting
    /// ownership resolution.
    pub fn display_name(self) -> (r: &'static str)
        ensures
            r@ == display_str(self),
    {
        match self {
            OwnerId::Nix => "Nix",
            OwnerId::Homebrew => "Homebrew",
            OwnerId::MacPorts => "MacPorts",
            OwnerId::Nvm => "nvm",
            OwnerId::Fnm => "fnm",
            OwnerId::Volta => "Volta",
            OwnerId::Mise => "mise",
            OwnerId::Asdf => "asdf",
            OwnerId::Pyenv => "pyenv",
            OwnerId::Rbenv => "rbenv",
            OwnerId::Sdkman => "SDKMAN!",
            OwnerId::Uv => "uv",
            OwnerId::Rustup => "rustup",
            OwnerId::RustupInstaller => "rustup installer",
            OwnerId::CargoInstall => "cargo install",
            OwnerId::PnpmHome => "pnpm home",
            OwnerId::DenoInstaller => "Deno installer",
            OwnerId::BunInstaller => "Bun installer",
            OwnerId::MacosInstaller => "macOS Installer (.pkg)",
            OwnerId::PythonOrgInstaller => "python.org macOS installer",
            OwnerId::Dpkg => "dpkg",
            OwnerId::Rpm => "RPM",
            OwnerId::Pacman => "pacman",
            OwnerId::Apk => "apk",
            OwnerId::OperatingSystem => "operating system",
            OwnerId::UnconfirmedOwner => "unconfirmed owner",
            OwnerId::UnconfirmedSource => "unconfirmed source",
        }
    }

    /// How the owner installs software. Derived from identity so that an owner
    /// cannot be classified inconsistently between detection sites.
    pub fn kind(self) -> (r: OwnerKind)
        ensures
            r == id_kind(self),
    {
        match self {
            OwnerId::Nix | OwnerId::Homebrew | OwnerId::MacPorts => OwnerKind::PackageManager,
            OwnerId::Dpkg | OwnerId::Rpm | OwnerId::Pacman | OwnerId::Apk => {
                OwnerKind::PackageManager
            },
            OwnerId::Nvm | OwnerId::Fnm | OwnerId::Volta | OwnerId::Mise | OwnerId::Asdf
            | OwnerId::Pyenv | OwnerId::Rbenv | OwnerId::Sdkman | OwnerId::Uv
            | OwnerId::Rustup => OwnerKind::VersionManager,
            OwnerId::RustupInstaller | OwnerId::CargoInstall | OwnerId::PnpmHome
            | OwnerId::DenoInstaller | OwnerId::BunInstaller => OwnerKind::ToolInstaller,
            OwnerId::MacosInstaller | OwnerId::PythonOrgInstaller => OwnerKind::Installer,
            OwnerId::OperatingSystem => OwnerKind::OperatingSystem,
            OwnerId::UnconfirmedOwner | OwnerId::UnconfirmedSource => OwnerKind::Unknown,
        }
    }
}

/// The identity at position `j` of the declaration order.
pub open spec fn id_at(j: int) -> OwnerId {
    if j == 0 {
        OwnerId::Nix
    } else     if j == 1 {
        OwnerId::Homebrew
    } else     if j == 2 {
        OwnerId::MacPorts
    } else     if j == 3 {
        OwnerId::Nvm
    } else     if j == 4 {
        OwnerId::Fnm
    } else     if j == 5 {
        OwnerId::Volta
    } else     if j == 6 {
        OwnerId::Mise
    } else     if j == 7 {
        OwnerId::Asdf
    } else     if j == 8 {
        OwnerId::Pyenv
    } else     if j == 9 {
        OwnerId::Rbenv
    } else     if j == 10 {
        OwnerId::Sdkman
    } else     if j == 11 {
        OwnerId::Uv
    } else     if j == 12 {
        OwnerId::Rustup
    } else     if j == 13 {
        OwnerId::RustupInstaller
    } else     if j == 14 {
        OwnerId::CargoInstall
    } else     if j == 15 {
        OwnerId::PnpmHome
    } else     if j == 16 {
        OwnerId::DenoInstaller
    } else     if j == 17 {
        OwnerId::BunInstaller
    } else     if j == 18 {
        OwnerId::MacosInstaller
    } else     if j == 19 {
        OwnerId::PythonOrgInstaller
    } else     if j == 20 {
        OwnerId::Dpkg
    } else     if j == 21 {
        OwnerId::Rpm
    } else     if j == 22 {
        OwnerId::Pacman
    } else     if j == 23 {
        OwnerId::Apk
    } else     if j == 24 {
        OwnerId::OperatingSystem
    } else     if j == 25 {
        OwnerId::UnconfirmedOwner
    } else {
        OwnerId::UnconfirmedSource
    }
}

/// The position of an identity in the declaration order.
pub open spec fn id_index(id: OwnerId) -> int {
    match id {
        OwnerId::Nix => 0,
        OwnerId::Homebrew => 1,
        OwnerId::MacPorts => 2,
        OwnerId::Nvm => 3,
        OwnerId::Fnm => 4,
        OwnerId::Volta => 5,
        OwnerId::Mise => 6,
        OwnerId::Asdf => 7,
        OwnerId::Pyenv => 8,
        OwnerId::Rbenv => 9,
        OwnerId::Sdkman => 10,
        OwnerId::Uv => 11,
        OwnerId::Rustup => 12,
        OwnerId::RustupInstaller => 13,
        OwnerId::CargoInstall => 14,
        OwnerId::PnpmHome => 15,
        OwnerId::DenoInstaller => 16,
        OwnerId::BunInstaller => 17,
        OwnerId::MacosInstaller => 18,
        OwnerId::PythonOrgInstaller => 19,
        OwnerId::Dpkg => 20,
        OwnerId::Rpm => 21,
        OwnerId::Pacman => 22,
        OwnerId::Apk => 23,
        OwnerId::OperatingSystem => 24,
        OwnerId::UnconfirmedOwner => 25,
        OwnerId::UnconfirmedSource => 26,
    }
}

/// Every identity the tool can report, in declaration order.
pub open spec fn all_ids() -> Seq<OwnerId> {
    Seq::new(27, |j: int| id_at(j))
}

pub proof fn lemma_id_at_index(j: int)
    requires
        0 <= j < 27,
    ensures
        id_index(id_at(j)) == j,
{
}

pub proof fn lemma_index_id(id: OwnerId)
    ensures
        0 <= id_index(id) < 27,
        id_at(id_index(id)) == id,
        all_ids()[id_index(id)] == id,
{
}

/// Every identity the tool can report. Platform-specific owners stay in the
/// list so the identity set does not vary by build target.
pub fn all_owner_ids() -> (r: Vec<OwnerId>)
    ensures
        r@ == all_ids(),
{
    let r = vec![
        OwnerId::Nix,
        OwnerId::Homebrew,
        OwnerId::MacPorts,
        OwnerId::Nvm,
        OwnerId::Fnm,
        OwnerId::Volta,
        OwnerId::Mise,
        OwnerId::Asdf,
        OwnerId::Pyenv,
        OwnerId::Rbenv,
        OwnerId::Sdkman,
        OwnerId::Uv,
        OwnerId::Rustup,
        OwnerId::RustupInstaller,
        OwnerId::CargoInstall,
        OwnerId::PnpmHome,
        OwnerId::DenoInstaller,
        OwnerId::BunInstaller,
        OwnerId::MacosInstaller,
        OwnerId::PythonOrgInstaller,
        OwnerId::Dpkg,
        OwnerId::Rpm,
        OwnerId::Pacman,
        OwnerId::Apk,
        OwnerId::OperatingSystem,
        OwnerId::UnconfirmedOwner,
        OwnerId::UnconfirmedSource,
    ];
    assert(r@ =~= all_ids());
    r
}

#[derive(Debug, PartialEq, Eq)]
pub struct Evidence {
    pub source: String,
    pub detail: String,
}

pub struct EvidenceModel {
    pub source: Seq<char>,
    pub detail: Seq<char>,
}

impl View for Evidence {
    type V = EvidenceModel;

    open spec fn view(&self) -> EvidenceModel {
        EvidenceModel { source: self.source@, detail: self.detail@ }
    }
}

pub open spec fn evidence_views(v: Seq<Evidence>) -> Seq<EvidenceModel> {
    v.map_values(|e: Evidence| e@)
}

impl Evidence {
    pub fn new(source: &str, detail: String) -> (r: Evidence)
        ensures
            r@ == (EvidenceModel { source: source@, detail: detail@ }),
    {
        Evidence { source: String::from_str(source), detail }
    }
}

#[derive(Debug, PartialEq, Eq)]
pub struct ActionGuide {
    pub inspect: Option<String>,
    pub update: Option<String>,
    pub remove: Option<String>,
    pub note: Option<String>,
}

pub struct GuideModel {
    pub inspect: Option<Seq<char>>,
    pub update: Option<Seq<char>>,
    pub remove: Option<Seq<char>>,
    pub note: Option<Seq<char>>,
}

impl View for ActionGuide {
    type V = GuideModel;

    open spec fn view(&self) -> GuideModel {
        GuideModel {
            inspect: opt_view(self.inspect),
            update: opt_view(self.update),
            remove: opt_view(self.remove),
            note: opt_view(self.note),
        }
    }
}

pub open spec fn empty_guide() -> GuideModel {
    GuideModel { inspect: None, update: None, remove: None, note: None }
}

impl ActionGuide {
    /// A guide with nothing to suggest.
    pub fn empty() -> (r: ActionGuide)
        ensures
            r@ == empty_guide(),
    {
        ActionGuide { inspect: None, update: None, remove: None, note: None }
    }
}

impl Default for ActionGuide {
    fn default() -> (r: ActionGuide)
        ensures
            r@ == empty_guide(),
    {
        ActionGuide::empty()
    }
}

#[derive(Debug, PartialEq, Eq)]
pub struct OwnershipNode {
    pub id: OwnerId,
    pub package: Option<String>,
    pub version: Option<String>,
    pub confidence: Confidence,
    pub evidence: Vec<Evidence>,
    pub actions: ActionGuide,
}

pub struct NodeModel {
    pub id: OwnerId,
    pub package: Option<Seq<char>>,
    pub version: Option<Seq<char>>,
    pub confidence: Confidence,
    pub evidence: Seq<EvidenceModel>,
    pub actions: GuideModel,
}

impl View for OwnershipNode {
    type V = NodeModel;

    open spec fn view(&self) -> NodeModel {
        NodeModel {
            id: self.id,
            package: opt_view(self.package),
            version: opt_view(self.version),
            confidence: self.confidence,
            evidence: evidence_views(self.evidence@),
            actions: self.actions@,
        }
    }
}

pub open spec fn node_views(v: Seq<OwnershipNode>) -> Seq<NodeModel> {
    v.map_values(|n: OwnershipNode| n@)
}

impl OwnershipNode {
    pub fn display_name(&self) -> (r: &'static str)
        ensures
            r@ == display_str(self.id),
    {
        self.id.display_name()
    }

    /// The kind is that of the node's identity; no node stores its own.
    pub fn kind(&self) -> (r: OwnerKind)
        ensures
            r == id_kind(self.id),
    {
        self.id.kind()
    }
}

#[derive(Clone, Copy, Debug, PartialEq, Eq, Structural)]
pub enum ResolutionStatus {
    Active,
    Shadowed,
}

pub open spec fn status_str(s: ResolutionStatus) -> Seq<char> {
    match s {
        ResolutionStatus::Active => "active"@,
        ResolutionStatus::Shadowed => "shadowed"@,
    }
}

impl ResolutionStatus {
    pub fn as_str(self) -> (r: &'static str)
        ensures
            r@ == status_str(self),
    {
        match self {
            ResolutionStatus::Active => "active",
            ResolutionStatus::Shadowed => "shadowed",
        }
    }
}

#[derive(Debug, PartialEq, Eq)]
pub struct Resolution {
    pub path: String,
    pub real_path: String,
    pub status: ResolutionStatus,
    /// Ordered nearest-first: runtime -> owners[0] -> owners[1] -> ...
    pub owners: Vec<OwnershipNode>,
}

impl Resolution {
    pub fn primary_owner(&self) -> (r: Option<&OwnershipNode>)
        ensures
            self.owners@.len() > 0 ==> r == Some(&self.owners@[0]),
            self.owners@.len() == 0 ==> r is None,
    {
        if self.owners.len() > 0 {
            Some(&self.owners[0])
        } else {
            None
        }
    }
}

#[derive(Debug, PartialEq, Eq)]
pub struct OwnershipGraph {
    pub command: String,
    pub resolutions: Vec<Resolution>,
}

/// The index of the first active resolution at or after `i`.
pub open spec fn first_active_from(rs: Seq<Resolution>, i: int) -> Option<int>
    decreases rs.len() - i,
{
    if i < 0 || i >= rs.len() {
        None
    } else if rs[i].status == ResolutionStatus::Active {
        Some(i)
    } else {
        first_active_from(rs, i + 1)
    }
}

/// The number of shadowed resolutions among `rs`.
pub open spec fn shadowed_in(rs: Seq<Resolution>) -> nat
    decreases rs.len(),
{
    if rs.len() == 0 {
        0
    } else {
        shadowed_in(rs.drop_last()) + if rs.last().status == ResolutionStatus::Shadowed {
            1nat
        } else {
            0nat
        }
    }
}

impl OwnershipGraph {
    /// The first resolution in PATH order that is active.
    pub fn active(&self) -> (r: Option<&Resolution>)
        ensures
            match first_active_from(self.resolutions@, 0) {
                Some(k) => r == Some(&self.resolutions@[k]),
                None => r is None,
            },
    {
        let mut i: usize = 0;
        while i < self.resolutions.len()
            invariant
                i <= self.resolutions@.len(),
                first_active_from(self.resolutions@, 0) == first_active_from(
                    self.resolutions@,
                    i as int,
                ),
            decreases self.resolutions@.len() - i,
        {
            if self.resolutions[i].status == ResolutionStatus::Active {
                return Some(&self.resolutions[i]);
            }
            i = i + 1;
        }
        None
    }

    /// How many resolutions are shadowed by an earlier PATH entry.
    pub fn shadowed_count(&self) -> (r: usize)
        ensures
            r == shadowed_in(self.resolutions@),
    {
        let mut count: usize = 0;
        let mut i: usize = 0;
        while i < self.resolutions.len()
            invariant
                i <= self.resolutions@.len(),
                count == shadowed_in(self.resolutions@.take(i as int)),
                count <= i,
            decreases self.resolutions@.len() - i,
        {
            proof {
                assert(self.resolutions@.take(i + 1).drop_last() =~= self.resolutions@.take(
                    i as int,
                ));
            }
            if self.resolutions[i].status == ResolutionStatus::Shadowed {
                count = count + 1;
            }
            i = i + 1;
        }
        proof {
            assert(self.resolutions@.take(i as int) =~= self.resolutions@);
        }
        count
    }
}


/// A character of a snake_case identifier.
pub open spec fn is_snake_char(c: char) -> bool {
    ('a' <= c && c <= 'z') || ('0' <= c && c <= '9') || c == '_'
}

/// Every owner's stable identifier is a non-empty snake_case word, and no two
/// owners share one.
pub proof fn lemma_stable_ids_distinct_snake_case(a: OwnerId, b: OwnerId)
    ensures
        id_str(a).len() > 0,
        forall|i: int| 0 <= i < id_str(a).len() ==> is_snake_char(#[trigger] id_str(a)[i]),
        id_str(a) == id_str(b) ==> a == b,
{
    reveal_strlit("nix");
    reveal_strlit("homebrew");
    reveal_strlit("macports");
    reveal_strlit("nvm");
    reveal_strlit("fnm");
    reveal_strlit("volta");
    reveal_strlit("mise");
    reveal_strlit("asdf");
    reveal_strlit("pyenv");
    reveal_strlit("rbenv");
    reveal_strlit("sdkman");
    reveal_strlit("uv");
    reveal_strlit("rustup");
    reveal_strlit("rustup_installer");
    reveal_strlit("cargo_install");
    reveal_strlit("pnpm_home");
    reveal_strlit("deno_installer");
    reveal_strlit("bun_installer");
    reveal_strlit("macos_installer");
    reveal_strlit("python_org_installer");
    reveal_strlit("dpkg");
    reveal_strlit("rpm");
    reveal_strlit("pacman");
    reveal_strlit("apk");
    reveal_strlit("operating_system");
    reveal_strlit("unconfirmed_owner");
    reveal_strlit("unconfirmed_source");
    if id_str(a) == id_str(b) {
        assert(id_str(a).len() == id_str(b).len());
        assert(id_str(a)[0] == id_str(b)[0]);
        assert(id_str(a)[1] == id_str(b)[1]);
        assert(id_str(a)[2] == id_str(b)[2]);
    }
}

/// No two owners share a display name.
pub proof fn lemma_display_names_distinct(a: OwnerId, b: OwnerId)
    ensures
        display_str(a) == display_str(b) ==> a == b,
{
    reveal_strlit("Nix");
    reveal_strlit("Homebrew");
    reveal_strlit("MacPorts");
    reveal_strlit("nvm");
    reveal_strlit("fnm");
    reveal_strlit("Volta");
    reveal_strlit("mise");
    reveal_strlit("asdf");
    reveal_strlit("pyenv");
    reveal_strlit("rbenv");
    reveal_strlit("SDKMAN!");
    reveal_strlit("uv");
    reveal_strlit("rustup");
    reveal_strlit("rustup installer");
    reveal_strlit("cargo install");
    reveal_strlit("pnpm home");
    reveal_strlit("Deno installer");
    reveal_strlit("Bun installer");
    reveal_strlit("macOS Installer (.pkg)");
    reveal_strlit("python.org macOS installer");
    reveal_strlit("dpkg");
    reveal_strlit("RPM");
    reveal_strlit("pacman");
    reveal_strlit("apk");
    reveal_strlit("operating system");
    reveal_strlit("unconfirmed owner");
    reveal_strlit("unconfirmed source");
    if display_str(a) == display_str(b) {
        assert(display_str(a).len() == display_str(b).len());
        assert(display_str(a)[0] == display_str(b)[0]);
        assert(display_str(a)[1] == display_str(b)[1]);
        assert(display_str(a)[2] == display_str(b)[2]);
    }
}

} // verus!
