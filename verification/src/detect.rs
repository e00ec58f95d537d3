//! Deciding which owner installed an executable, from the paths that lead to it
//! and from what package tools and managers report about it.
use vstd::prelude::*;

use crate::exec::{QueryFailure, QueryResult, describe_spec};
use crate::model::{
    ActionGuide, Confidence, Evidence, EvidenceModel, GuideModel, NodeModel, OwnerId,
    OwnershipNode, display_str, evidence_views,
};
use crate::path::{ends_with_name, ends_with_name_exec, link_destination, link_destination_exec, same_path, same_path_exec};
use crate::text::{
    chars_of, concat2, concat3, concat4, concat5, contains, contains_str, first_some, lines,
    lines_str, lemma_first_some_end, lemma_first_some_step, lemma_first_some_witness, opt_str, opt_view, owned, rsplit_once,
    rsplit_once_str, split, split_once, split_once_str, split_str, starts_with, starts_with_str,
    str_eq, strip_prefix, strip_prefix_str, take_until, take_until_str, trim, trim_start_char,
    trim_start_char_str, trim_str, views,
};

pub mod owner;
pub mod root;

use owner::{
    Platform, QuerySpec, guide_for, tool_in_path, tool_markers, version_in_path, lemma_unconfirmed_owners_suggest_no_changes, path_manager_rules,
    path_manager_rules_spec, query_spec, tool_for, version_for,
};

verus! {

// ---------------------------------------------------------------------------
// Nodes and evidence
// ---------------------------------------------------------------------------

pub open spec fn ev(source: Seq<char>, detail: Seq<char>) -> EvidenceModel {
    EvidenceModel { source, detail }
}

pub open spec fn node_spec(
    id: OwnerId,
    confidence: Confidence,
    package: Option<Seq<char>>,
    version: Option<Seq<char>>,
    evidence: Seq<EvidenceModel>,
    actions: GuideModel,
) -> NodeModel {
    NodeModel { id, package, version, confidence, evidence, actions }
}

pub open spec fn opt_node_view(o: Option<OwnershipNode>) -> Option<NodeModel> {
    match o {
        Some(n) => Some(n@),
        None => None,
    }
}

fn owner(
    id: OwnerId,
    confidence: Confidence,
    package: Option<String>,
    version: Option<String>,
    evidence: Vec<Evidence>,
    actions: ActionGuide,
) -> (r: OwnershipNode)
    ensures
        r@ == node_spec(
            id,
            confidence,
            opt_view(package),
            opt_view(version),
            evidence_views(evidence@),
            actions@,
        ),
{
    OwnershipNode { id, package, version, confidence, evidence, actions }
}

fn as_opt_str(o: &Option<String>) -> (r: Option<&str>)
    ensures
        opt_str(r) == opt_view(*o),
{
    match o {
        Some(s) => Some(s.as_str()),
        None => None,
    }
}

/// The evidence a resolved path gives by itself: the PATH entry, the direct
/// symlink target where there is one, and the final target where it differs.
pub open spec fn path_evidence_spec(
    path: Seq<char>,
    real_path: Seq<char>,
    link_target: Option<Seq<char>>,
) -> Seq<EvidenceModel> {
    let first = seq![ev("PATH"@, "PATH entry is "@ + path)];
    let linked = match link_target {
        Some(t) => first.push(ev("symlink"@, "direct target is "@ + t)),
        None => first,
    };
    if !same_path(path, real_path) {
        linked.push(ev("filesystem"@, "ultimate target is "@ + real_path))
    } else {
        linked
    }
}

pub fn path_evidence(path: &str, real_path: &str, link_target: Option<&str>) -> (r: Vec<Evidence>)
    ensures
        evidence_views(r@) == path_evidence_spec(path@, real_path@, opt_str(link_target)),
{
    let mut r: Vec<Evidence> = Vec::new();
    r.push(Evidence::new("PATH", concat2("PATH entry is ", path)));
    proof {
        assert(evidence_views(r@) =~= seq![ev("PATH"@, "PATH entry is "@ + path@)]);
    }
    let ghost first = evidence_views(r@);
    match link_target {
        Some(t) => {
            r.push(Evidence::new("symlink", concat2("direct target is ", t)));
            proof {
                assert(evidence_views(r@) =~= first.push(ev("symlink"@, "direct target is "@ + t@)));
            }
        },
        None => {},
    }
    let ghost linked = evidence_views(r@);
    if !same_path_exec(path, real_path) {
        r.push(Evidence::new("filesystem", concat2("ultimate target is ", real_path)));
        proof {
            assert(evidence_views(r@) =~= linked.push(
                ev("filesystem"@, "ultimate target is "@ + real_path@),
            ));
        }
    }
    r
}

// ---------------------------------------------------------------------------
// The detection context
// ---------------------------------------------------------------------------

pub struct ContextModel {
    pub command: Seq<char>,
    pub path: Seq<char>,
    pub real_path: Seq<char>,
    pub link_target: Option<Seq<char>>,
    pub platform: Platform,
}

/// The paths every detector looks at: the PATH entry, its final target, and
/// the direct symlink target where there is one.
pub open spec fn candidate_paths(c: ContextModel) -> Seq<Seq<char>> {
    match c.link_target {
        Some(t) => seq![c.path, c.real_path, t],
        None => seq![c.path, c.real_path],
    }
}

/// What an executable was resolved to, as the detectors read it.
pub struct DetectionContext {
    pub command: String,
    pub path: String,
    pub real_path: String,
    pub link_target: Option<String>,
    pub paths: Vec<String>,
    pub platform: Platform,
}

impl View for DetectionContext {
    type V = ContextModel;

    open spec fn view(&self) -> ContextModel {
        ContextModel {
            command: self.command@,
            path: self.path@,
            real_path: self.real_path@,
            link_target: opt_view(self.link_target),
            platform: self.platform,
        }
    }
}

pub open spec fn any_contains(paths: Seq<Seq<char>>, marker: Seq<char>) -> bool {
    exists|i: int| 0 <= i < paths.len() && contains(#[trigger] paths[i], marker)
}

pub open spec fn any_starts_with(paths: Seq<Seq<char>>, prefixes: Seq<Seq<char>>) -> bool {
    exists|i: int, j: int|
        0 <= i < paths.len() && 0 <= j < prefixes.len() && starts_with(
            #[trigger] paths[i],
            #[trigger] prefixes[j],
        )
}

/// A node built in a context: its guide follows from its identity and what was found.
pub open spec fn context_node(
    c: ContextModel,
    id: OwnerId,
    confidence: Confidence,
    package: Option<Seq<char>>,
    version: Option<Seq<char>>,
    evidence: Seq<EvidenceModel>,
) -> NodeModel {
    node_spec(
        id,
        confidence,
        package,
        version,
        evidence,
        guide_for(id, c.command, package, version, c.real_path, c.platform),
    )
}

pub open spec fn context_evidence(c: ContextModel) -> Seq<EvidenceModel> {
    path_evidence_spec(c.path, c.real_path, c.link_target)
}

impl DetectionContext {
    pub open spec fn wf(&self) -> bool {
        views(self.paths@) == candidate_paths(self@)
    }

    /// A context for `command` found at `path`, resolving to `real_path`.
    /// `raw_link` is what the symlink at `path` stores, where it is one.
    pub fn new(
        command: &str,
        path: &str,
        real_path: &str,
        raw_link: Option<&str>,
        platform: Platform,
    ) -> (r: DetectionContext)
        ensures
            r.wf(),
            r@.command == command@,
            r@.path == path@,
            r@.real_path == real_path@,
            r@.platform == platform,
            r@.link_target == match raw_link {
                Some(t) => link_destination(path@, t@),
                None => None,
            },
    {
        let link_target = match raw_link {
            Some(t) => link_destination_exec(path, t),
            None => None,
        };
        let mut paths: Vec<String> = Vec::new();
        paths.push(owned(path));
        paths.push(owned(real_path));
        match &link_target {
            Some(t) => {
                paths.push(t.clone());
            },
            None => {},
        }
        let r = DetectionContext {
            command: owned(command),
            path: owned(path),
            real_path: owned(real_path),
            link_target,
            paths,
            platform,
        };
        proof {
            assert(views(r.paths@) =~= candidate_paths(r@));
        }
        r
    }

    pub fn contains(&self, marker: &str) -> (r: bool)
        ensures
            r == any_contains(views(self.paths@), marker@),
    {
        let mut i: usize = 0;
        while i < self.paths.len()
            invariant
                i <= self.paths@.len(),
                forall|j: int| 0 <= j < i ==> !contains(#[trigger] views(self.paths@)[j], marker@),
            decreases self.paths@.len() - i,
        {
            if contains_str(self.paths[i].as_str(), marker) {
                proof {
                    assert(contains(views(self.paths@)[i as int], marker@));
                }
                return true;
            }
            i = i + 1;
        }
        false
    }

    pub fn starts_with_any(&self, prefixes: &Vec<&str>) -> (r: bool)
        ensures
            r == any_starts_with(views(self.paths@), prefixes@.map_values(|p: &str| p@)),
    {
        let ghost ps = views(self.paths@);
        let ghost pre = prefixes@.map_values(|p: &str| p@);
        let mut i: usize = 0;
        while i < self.paths.len()
            invariant
                ps == views(self.paths@),
                pre == prefixes@.map_values(|p: &str| p@),
                i <= self.paths@.len(),
                forall|a: int, b: int|
                    0 <= a < i && 0 <= b < pre.len() ==> !starts_with(
                        #[trigger] ps[a],
                        #[trigger] pre[b],
                    ),
            decreases self.paths@.len() - i,
        {
            let mut k: usize = 0;
            while k < prefixes.len()
                invariant
                    ps == views(self.paths@),
                    pre == prefixes@.map_values(|p: &str| p@),
                    i < self.paths@.len(),
                    k <= prefixes@.len(),
                    forall|a: int, b: int|
                        0 <= a < i && 0 <= b < pre.len() ==> !starts_with(
                            #[trigger] ps[a],
                            #[trigger] pre[b],
                        ),
                    forall|b: int| 0 <= b < k ==> !starts_with(ps[i as int], #[trigger] pre[b]),
                decreases prefixes@.len() - k,
            {
                if starts_with_str(self.paths[i].as_str(), prefixes[k]) {
                    proof {
                        assert(starts_with(ps[i as int], pre[k as int]));
                    }
                    return true;
                }
                k = k + 1;
            }
            i = i + 1;
        }
        false
    }

    pub fn evidence(&self) -> (r: Vec<Evidence>)
        ensures
            evidence_views(r@) == context_evidence(self@),
    {
        path_evidence(self.path.as_str(), self.real_path.as_str(), as_opt_str(&self.link_target))
    }

    pub fn owner(
        &self,
        id: OwnerId,
        confidence: Confidence,
        package: Option<String>,
        version: Option<String>,
        evidence: Vec<Evidence>,
    ) -> (r: OwnershipNode)
        ensures
            r@ == context_node(
                self@,
                id,
                confidence,
                opt_view(package),
                opt_view(version),
                evidence_views(evidence@),
            ),
    {
        let actions = id.actions(
            self.command.as_str(),
            as_opt_str(&package),
            as_opt_str(&version),
            self.real_path.as_str(),
            self.platform,
        );
        owner(id, confidence, package, version, evidence, actions)
    }
}

// ---------------------------------------------------------------------------
// What paths reveal
// ---------------------------------------------------------------------------

pub open spec fn pair_view(p: Option<(String, String)>) -> Option<(Seq<char>, Seq<char>)> {
    match p {
        Some(q) => Some((q.0@, q.1@)),
        None => None,
    }
}

/// The index of the first piece equal to `x`, at or after `i`.
pub open spec fn position_from(parts: Seq<Seq<char>>, x: Seq<char>, i: int) -> Option<int>
    decreases parts.len() - i,
{
    if i < 0 || i >= parts.len() {
        None
    } else if parts[i] == x {
        Some(i)
    } else {
        position_from(parts, x, i + 1)
    }
}

proof fn lemma_position_from(parts: Seq<Seq<char>>, x: Seq<char>, i: int)
    requires
        0 <= i,
    ensures
        position_from(parts, x, i) matches Some(k) ==> i <= k < parts.len() && parts[k] == x,
    decreases parts.len() - i,
{
    if i < parts.len() && parts[i] != x {
        lemma_position_from(parts, x, i + 1);
    }
}

/// The package and version after a `Cellar` directory of one path.
pub open spec fn cellar_in(path: Seq<char>) -> Option<(Seq<char>, Seq<char>)> {
    let parts = split(path, '/');
    match position_from(parts, "Cellar"@, 0) {
        Some(k) => if k + 2 < parts.len() {
            Some((parts[k + 1], parts[k + 2]))
        } else {
            None
        },
        None => None,
    }
}

pub open spec fn cellar_fn() -> spec_fn(Seq<char>) -> Option<(Seq<char>, Seq<char>)> {
    |p: Seq<char>| cellar_in(p)
}

/// The Homebrew package and version of the first path inside a Cellar.
pub open spec fn cellar_package_spec(paths: Seq<Seq<char>>) -> Option<(Seq<char>, Seq<char>)> {
    first_some(paths, cellar_fn())
}

/// The name of a Nix store entry without its hash, for one path.
pub open spec fn nix_name_in(path: Seq<char>) -> Option<Seq<char>> {
    match split_once(path, "/nix/store/"@) {
        Some(parts) => {
            let entry = take_until(parts.1, '/');
            match split_once(entry, "-"@) {
                Some(named) => Some(named.1),
                None => None,
            }
        },
        None => None,
    }
}

pub open spec fn nix_fn() -> spec_fn(Seq<char>) -> Option<Seq<char>> {
    |p: Seq<char>| nix_name_in(p)
}

pub open spec fn nix_store_name_spec(paths: Seq<Seq<char>>) -> Option<Seq<char>> {
    first_some(paths, nix_fn())
}

/// The toolchain a rustup-managed path belongs to.
pub open spec fn toolchain_spec(path: Seq<char>) -> Option<Seq<char>> {
    match split_once(path, "/.rustup/toolchains/"@) {
        Some(parts) => {
            let name = take_until(parts.1, '/');
            if name.len() > 0 {
                Some(name)
            } else {
                None
            }
        },
        None => None,
    }
}

fn position_exec(parts: &Vec<String>, x: &str) -> (r: Option<usize>)
    ensures
        match position_from(views(parts@), x@, 0) {
            Some(k) => r == Some(k as usize),
            None => r is None,
        },
{
    let mut i: usize = 0;
    while i < parts.len()
        invariant
            i <= parts@.len(),
            position_from(views(parts@), x@, 0) == position_from(views(parts@), x@, i as int),
        decreases parts@.len() - i,
    {
        if str_eq(parts[i].as_str(), x) {
            return Some(i);
        }
        i = i + 1;
    }
    None
}

fn cellar_in_exec(path: &str) -> (r: Option<(String, String)>)
    ensures
        pair_view(r) == cellar_in(path@),
{
    let parts = split_str(path, '/');
    proof {
        lemma_position_from(views(parts@), "Cellar"@, 0);
    }
    match position_exec(&parts, "Cellar") {
        Some(k) => {
            if parts.len() > 2 && k < parts.len() - 2 {
                let package = parts[k + 1].clone();
                let version = parts[k + 2].clone();
                proof {
                    assert(views(parts@)[k + 1] == package@);
                    assert(views(parts@)[k + 2] == version@);
                }
                Some((package, version))
            } else {
                None
            }
        },
        None => None,
    }
}

/// The Homebrew package and version named by the first path inside a Cellar.
pub fn cellar_package(paths: &Vec<String>) -> (r: Option<(String, String)>)
    ensures
        pair_view(r) == cellar_package_spec(views(paths@)),
{
    let ghost ps = views(paths@);
    let ghost f = cellar_fn();
    proof {
        lemma_first_some_end(ps, f);
    }
    let mut i: usize = 0;
    while i < paths.len()
        invariant
            ps == views(paths@),
            f == cellar_fn(),
            i <= paths@.len(),
            first_some(ps, f) == first_some(ps.skip(i as int), f),
        decreases paths@.len() - i,
    {
        proof {
            lemma_first_some_step(ps, f, i as int);
        }
        let found = cellar_in_exec(paths[i].as_str());
        if found.is_some() {
            return found;
        }
        i = i + 1;
    }
    proof {
        lemma_first_some_end(ps, f);
    }
    None
}

fn nix_name_in_exec(path: &str) -> (r: Option<String>)
    ensures
        opt_view(r) == nix_name_in(path@),
{
    match split_once_str(path, "/nix/store/") {
        Some((_, rest)) => {
            let entry = take_until_str(rest.as_str(), '/');
            match split_once_str(entry.as_str(), "-") {
                Some((_, package)) => Some(package),
                None => None,
            }
        },
        None => None,
    }
}

/// The name, without its hash, of the first Nix store entry a path lies in.
pub fn nix_store_name(paths: &Vec<String>) -> (r: Option<String>)
    ensures
        opt_view(r) == nix_store_name_spec(views(paths@)),
{
    let ghost ps = views(paths@);
    let ghost f = nix_fn();
    proof {
        lemma_first_some_end(ps, f);
    }
    let mut i: usize = 0;
    while i < paths.len()
        invariant
            ps == views(paths@),
            f == nix_fn(),
            i <= paths@.len(),
            first_some(ps, f) == first_some(ps.skip(i as int), f),
        decreases paths@.len() - i,
    {
        proof {
            lemma_first_some_step(ps, f, i as int);
        }
        let found = nix_name_in_exec(paths[i].as_str());
        if found.is_some() {
            return found;
        }
        i = i + 1;
    }
    proof {
        lemma_first_some_end(ps, f);
    }
    None
}

/// The rustup toolchain that a path lies in.
pub fn toolchain_from_rustup_path(path: &str) -> (r: Option<String>)
    ensures
        opt_view(r) == toolchain_spec(path@),
{
    match split_once_str(path, "/.rustup/toolchains/") {
        Some((_, rest)) => {
            let name = take_until_str(rest.as_str(), '/');
            if name.as_str().unicode_len() > 0 {
                Some(name)
            } else {
                None
            }
        },
        None => None,
    }
}

// ---------------------------------------------------------------------------
// Detectors
// ---------------------------------------------------------------------------

pub open spec fn detect_nix_spec(c: ContextModel) -> Option<NodeModel> {
    let paths = candidate_paths(c);
    if any_contains(paths, "/nix/store/"@) {
        Some(context_node(c, OwnerId::Nix, Confidence::Confirmed, nix_store_name_spec(paths), None, context_evidence(c)))
    } else {
        None
    }
}

pub open spec fn detect_homebrew_spec(c: ContextModel) -> Option<NodeModel> {
    match cellar_package_spec(candidate_paths(c)) {
        Some(p) => Some(context_node(c, OwnerId::Homebrew, Confidence::Confirmed, Some(p.0), Some(p.1), context_evidence(c))),
        None => None,
    }
}

pub open spec fn rule_hit(paths: Seq<Seq<char>>) -> spec_fn((Seq<char>, OwnerId)) -> Option<OwnerId> {
    |rule: (Seq<char>, OwnerId)|
        if any_contains(paths, rule.0) {
            Some(rule.1)
        } else {
            None
        }
}

/// The version manager whose layout marker a path holds, by rule order.
pub open spec fn path_manager_id(paths: Seq<Seq<char>>) -> Option<OwnerId> {
    first_some(path_manager_rules_spec(), rule_hit(paths))
}

pub open spec fn detect_path_manager_spec(c: ContextModel) -> Option<NodeModel> {
    let paths = candidate_paths(c);
    match path_manager_id(paths) {
        Some(id) => Some(context_node(c, id, Confidence::Confirmed, tool_for(id, paths), version_for(id, paths), context_evidence(c))),
        None => None,
    }
}

pub open spec fn is_rust_toolchain_command(command: Seq<char>) -> bool {
    command == "cargo"@ || command == "rustc"@ || command == "rustdoc"@ || command == "rustfmt"@
        || command == "clippy-driver"@
}

pub open spec fn cargo_home_id(command: Seq<char>) -> OwnerId {
    if is_rust_toolchain_command(command) {
        OwnerId::Rustup
    } else if command == "rustup"@ {
        OwnerId::RustupInstaller
    } else {
        OwnerId::CargoInstall
    }
}

pub open spec fn detect_cargo_home_spec(c: ContextModel) -> Option<NodeModel> {
    if any_contains(candidate_paths(c), "/.cargo/bin/"@) {
        let id = cargo_home_id(c.command);
        let confidence = if id == OwnerId::Rustup && ends_with_name(c.real_path, "rustup"@) {
            Confidence::Confirmed
        } else {
            Confidence::Probable
        };
        Some(context_node(c, id, confidence, None, None, context_evidence(c)))
    } else {
        None
    }
}

pub open spec fn detect_pnpm_home_spec(c: ContextModel) -> Option<NodeModel> {
    let paths = candidate_paths(c);
    if any_contains(paths, "/Library/pnpm/"@) || any_contains(paths, "/.local/share/pnpm/"@) {
        Some(context_node(c, OwnerId::PnpmHome, Confidence::Probable, None, None, context_evidence(c)))
    } else {
        None
    }
}

pub open spec fn detect_deno_spec(c: ContextModel) -> Option<NodeModel> {
    if any_contains(candidate_paths(c), "/.deno/"@) {
        Some(context_node(c, OwnerId::DenoInstaller, Confidence::Confirmed, None, None, context_evidence(c)))
    } else {
        None
    }
}

pub open spec fn detect_bun_spec(c: ContextModel) -> Option<NodeModel> {
    if any_contains(candidate_paths(c), "/.bun/"@) {
        Some(context_node(c, OwnerId::BunInstaller, Confidence::Confirmed, None, None, context_evidence(c)))
    } else {
        None
    }
}

/// The detectors that read paths only, in priority order: the first one with
/// enough evidence owns the result.
pub open spec fn detect_layout_spec(c: ContextModel) -> Option<NodeModel> {
    match detect_nix_spec(c) {
        Some(n) => Some(n),
        None => match detect_homebrew_spec(c) {
            Some(n) => Some(n),
            None => match detect_path_manager_spec(c) {
                Some(n) => Some(n),
                None => match detect_cargo_home_spec(c) {
                    Some(n) => Some(n),
                    None => match detect_pnpm_home_spec(c) {
                        Some(n) => Some(n),
                        None => match detect_deno_spec(c) {
                            Some(n) => Some(n),
                            None => detect_bun_spec(c),
                        },
                    },
                },
            },
        },
    }
}

pub open spec fn os_prefixes() -> Seq<Seq<char>> {
    seq!["/usr/bin/"@, "/bin/"@, "/System/"@]
}

pub open spec fn unconfirmed_reason(c: ContextModel) -> Seq<char> {
    if any_starts_with(candidate_paths(c), seq!["/usr/local/"@]) {
        "/usr/local can contain files from vendor installers, package managers, or manual copies; no recognized owner claimed this path"@
    } else {
        "no recognized manager path, package receipt, or operating-system package query claimed this executable"@
    }
}

/// The detectors that run after the platform's package records: the
/// operating system's own directories, the MacPorts prefix, and otherwise an
/// unconfirmed owner.
pub open spec fn detect_fallback_spec(c: ContextModel) -> NodeModel {
    let paths = candidate_paths(c);
    if any_starts_with(paths, os_prefixes()) {
        context_node(c, OwnerId::OperatingSystem, Confidence::Probable, None, None, context_evidence(c))
    } else if any_starts_with(paths, seq!["/opt/local/"@]) {
        context_node(c, OwnerId::MacPorts, Confidence::Probable, None, None, context_evidence(c))
    } else {
        context_node(
            c,
            OwnerId::UnconfirmedOwner,
            Confidence::Unknown,
            None,
            None,
            context_evidence(c).push(ev("unconfirmed"@, unconfirmed_reason(c))),
        )
    }
}

/// Detection as a whole: the path detectors first, then what the platform's
/// package records said (`platform_owner`), then the fallback detectors.
pub open spec fn detect_spec(c: ContextModel, platform_owner: Option<NodeModel>) -> NodeModel {
    match detect_layout_spec(c) {
        Some(n) => n,
        None => match platform_owner {
            Some(n) => n,
            None => detect_fallback_spec(c),
        },
    }
}

fn detect_nix(ctx: &DetectionContext) -> (r: Option<OwnershipNode>)
    requires
        ctx.wf(),
    ensures
        opt_node_view(r) == detect_nix_spec(ctx@),
{
    if !ctx.contains("/nix/store/") {
        return None;
    }
    let package = nix_store_name(&ctx.paths);
    Some(ctx.owner(OwnerId::Nix, Confidence::Confirmed, package, None, ctx.evidence()))
}

fn detect_homebrew(ctx: &DetectionContext) -> (r: Option<OwnershipNode>)
    requires
        ctx.wf(),
    ensures
        opt_node_view(r) == detect_homebrew_spec(ctx@),
{
    match cellar_package(&ctx.paths) {
        Some((package, version)) => Some(
            ctx.owner(OwnerId::Homebrew, Confidence::Confirmed, Some(package), Some(version), ctx.evidence()),
        ),
        None => None,
    }
}

fn path_manager_id_exec(ctx: &DetectionContext) -> (r: Option<OwnerId>)
    requires
        ctx.wf(),
    ensures
        r == path_manager_id(candidate_paths(ctx@)),
{
    let rules = path_manager_rules();
    let ghost ps = candidate_paths(ctx@);
    let ghost rs = path_manager_rules_spec();
    let ghost f = rule_hit(ps);
    proof {
        lemma_first_some_end(rs, f);
    }
    let mut i: usize = 0;
    while i < rules.len()
        invariant
            ctx.wf(),
            ps == candidate_paths(ctx@),
            rs == path_manager_rules_spec(),
            f == rule_hit(ps),
            crate::detect::owner::rule_views(rules@) == rs,
            i <= rules@.len(),
            first_some(rs, f) == first_some(rs.skip(i as int), f),
        decreases rules@.len() - i,
    {
        proof {
            lemma_first_some_step(rs, f, i as int);
            assert(rs[i as int] == (rules@[i as int].0@, rules@[i as int].1));
        }
        let (marker, id) = rules[i];
        if ctx.contains(marker) {
            return Some(id);
        }
        i = i + 1;
    }
    proof {
        lemma_first_some_end(rs, f);
    }
    None
}

fn detect_path_manager(ctx: &DetectionContext) -> (r: Option<OwnershipNode>)
    requires
        ctx.wf(),
    ensures
        opt_node_view(r) == detect_path_manager_spec(ctx@),
{
    match path_manager_id_exec(ctx) {
        Some(id) => {
            let package = id.tool_for_paths(&ctx.paths);
            let version = id.version_for_paths(&ctx.paths);
            Some(ctx.owner(id, Confidence::Confirmed, package, version, ctx.evidence()))
        },
        None => None,
    }
}

fn detect_cargo_home(ctx: &DetectionContext) -> (r: Option<OwnershipNode>)
    requires
        ctx.wf(),
    ensures
        opt_node_view(r) == detect_cargo_home_spec(ctx@),
{
    if !ctx.contains("/.cargo/bin/") {
        return None;
    }
    let command = ctx.command.as_str();
    let id = if str_eq(command, "cargo") || str_eq(command, "rustc") || str_eq(command, "rustdoc")
        || str_eq(command, "rustfmt") || str_eq(command, "clippy-driver") {
        OwnerId::Rustup
    } else if str_eq(command, "rustup") {
        OwnerId::RustupInstaller
    } else {
        OwnerId::CargoInstall
    };
    let confidence = if id == OwnerId::Rustup && ends_with_name_exec(ctx.real_path.as_str(), "rustup") {
        Confidence::Confirmed
    } else {
        Confidence::Probable
    };
    Some(ctx.owner(id, confidence, None, None, ctx.evidence()))
}

fn detect_pnpm_home(ctx: &DetectionContext) -> (r: Option<OwnershipNode>)
    requires
        ctx.wf(),
    ensures
        opt_node_view(r) == detect_pnpm_home_spec(ctx@),
{
    if ctx.contains("/Library/pnpm/") || ctx.contains("/.local/share/pnpm/") {
        Some(ctx.owner(OwnerId::PnpmHome, Confidence::Probable, None, None, ctx.evidence()))
    } else {
        None
    }
}

fn detect_deno_installer(ctx: &DetectionContext) -> (r: Option<OwnershipNode>)
    requires
        ctx.wf(),
    ensures
        opt_node_view(r) == detect_deno_spec(ctx@),
{
    if ctx.contains("/.deno/") {
        Some(ctx.owner(OwnerId::DenoInstaller, Confidence::Confirmed, None, None, ctx.evidence()))
    } else {
        None
    }
}

fn detect_bun_installer(ctx: &DetectionContext) -> (r: Option<OwnershipNode>)
    requires
        ctx.wf(),
    ensures
        opt_node_view(r) == detect_bun_spec(ctx@),
{
    if ctx.contains("/.bun/") {
        Some(ctx.owner(OwnerId::BunInstaller, Confidence::Confirmed, None, None, ctx.evidence()))
    } else {
        None
    }
}

/// The owner that the path detectors find, in priority order. Where this is
/// `None`, the platform's package records are consulted before the fallback.
pub fn detect_by_layout(ctx: &DetectionContext) -> (r: Option<OwnershipNode>)
    requires
        ctx.wf(),
    ensures
        opt_node_view(r) == detect_layout_spec(ctx@),
{
    let found = detect_nix(ctx);
    if found.is_some() {
        return found;
    }
    let found = detect_homebrew(ctx);
    if found.is_some() {
        return found;
    }
    let found = detect_path_manager(ctx);
    if found.is_some() {
        return found;
    }
    let found = detect_cargo_home(ctx);
    if found.is_some() {
        return found;
    }
    let found = detect_pnpm_home(ctx);
    if found.is_some() {
        return found;
    }
    let found = detect_deno_installer(ctx);
    if found.is_some() {
        return found;
    }
    detect_bun_installer(ctx)
}

fn detect_operating_system(ctx: &DetectionContext) -> (r: Option<OwnershipNode>)
    requires
        ctx.wf(),
    ensures
        any_starts_with(candidate_paths(ctx@), os_prefixes()) ==> r is Some && r->0@ == detect_fallback_spec(ctx@),
        !any_starts_with(candidate_paths(ctx@), os_prefixes()) ==> r is None,
{
    let prefixes = vec!["/usr/bin/", "/bin/", "/System/"];
    proof {
        assert(prefixes@.map_values(|p: &str| p@) =~= os_prefixes());
    }
    if ctx.starts_with_any(&prefixes) {
        Some(ctx.owner(OwnerId::OperatingSystem, Confidence::Probable, None, None, ctx.evidence()))
    } else {
        None
    }
}

fn detect_macports(ctx: &DetectionContext) -> (r: Option<OwnershipNode>)
    requires
        ctx.wf(),
    ensures
        any_starts_with(candidate_paths(ctx@), seq!["/opt/local/"@]) ==> r is Some && r->0@
            == context_node(ctx@, OwnerId::MacPorts, Confidence::Probable, None, None, context_evidence(ctx@)),
        !any_starts_with(candidate_paths(ctx@), seq!["/opt/local/"@]) ==> r is None,
{
    let prefixes = vec!["/opt/local/"];
    proof {
        assert(prefixes@.map_values(|p: &str| p@) =~= seq!["/opt/local/"@]);
    }
    if ctx.starts_with_any(&prefixes) {
        Some(ctx.owner(OwnerId::MacPorts, Confidence::Probable, None, None, ctx.evidence()))
    } else {
        None
    }
}

fn detect_unconfirmed(ctx: &DetectionContext) -> (r: OwnershipNode)
    requires
        ctx.wf(),
    ensures
        r@ == context_node(
            ctx@,
            OwnerId::UnconfirmedOwner,
            Confidence::Unknown,
            None,
            None,
            context_evidence(ctx@).push(ev("unconfirmed"@, unconfirmed_reason(ctx@))),
        ),
{
    let mut evidence = ctx.evidence();
    let prefixes = vec!["/usr/local/"];
    proof {
        assert(prefixes@.map_values(|p: &str| p@) =~= seq!["/usr/local/"@]);
    }
    let reason = if ctx.starts_with_any(&prefixes) {
        "/usr/local can contain files from vendor installers, package managers, or manual copies; no recognized owner claimed this path"
    } else {
        "no recognized manager path, package receipt, or operating-system package query claimed this executable"
    };
    let ghost before = evidence@;
    evidence.push(Evidence::new("unconfirmed", owned(reason)));
    proof {
        assert(evidence_views(evidence@) =~= evidence_views(before).push(
            ev("unconfirmed"@, unconfirmed_reason(ctx@)),
        ));
    }
    ctx.owner(OwnerId::UnconfirmedOwner, Confidence::Unknown, None, None, evidence)
}

/// The owner that the detectors after the package records find.
fn detect_fallback(ctx: &DetectionContext) -> (r: OwnershipNode)
    requires
        ctx.wf(),
    ensures
        r@ == detect_fallback_spec(ctx@),
{
    match detect_operating_system(ctx) {
        Some(node) => node,
        None => match detect_macports(ctx) {
            Some(node) => node,
            None => detect_unconfirmed(ctx),
        },
    }
}

/// The owner of an executable. The path detectors decide first, in priority
/// order; where none claims it, `platform_owner` (what the platform's package
/// records said, looked up only then) decides; otherwise the fallback does.
pub fn detect(ctx: &DetectionContext, platform_owner: Option<OwnershipNode>) -> (r: OwnershipNode)
    requires
        ctx.wf(),
        platform_owner matches Some(n) ==> is_record_node(ctx@, n@),
    ensures
        r@ == detect_spec(ctx@, opt_node_view(platform_owner)),
        consistent_node(ctx@, r@),
        r@.id == OwnerId::UnconfirmedOwner ==> r@.actions.update is None && r@.actions.remove is None,
{
    proof {
        lemma_detect_is_consistent(ctx@, opt_node_view(platform_owner));
        let n = detect_spec(ctx@, opt_node_view(platform_owner));
        if n.id == OwnerId::UnconfirmedOwner {
            lemma_unconfirmed_owners_suggest_no_changes(
                n.id,
                ctx@.command,
                n.package,
                n.version,
                ctx@.real_path,
                ctx@.platform,
            );
        }
    }
    match detect_by_layout(ctx) {
        Some(node) => node,
        None => match platform_owner {
            Some(node) => node,
            None => detect_fallback(ctx),
        },
    }
}

// ---------------------------------------------------------------------------
// Manager queries
// ---------------------------------------------------------------------------

/// What a manager's confirming query came to: its trimmed output where it
/// answered, and the evidence that records how it went.
pub struct ManagerQuery {
    pub result: Option<String>,
    pub evidence: Evidence,
}

pub open spec fn manager_query_view(q: Option<ManagerQuery>) -> Option<(Option<Seq<char>>, EvidenceModel)> {
    match q {
        Some(m) => Some((opt_view(m.result), m.evidence@)),
        None => None,
    }
}

/// The command line of a query, as it is quoted in evidence.
pub open spec fn invocation_spec(program: Seq<char>, arguments: Seq<Seq<char>>) -> Seq<char> {
    crate::exec::join_spaces(seq![program] + arguments)
}

pub fn invocation(query: &QuerySpec) -> (r: String)
    ensures
        r@ == invocation_spec(query.program@, views(query.arguments@)),
{
    let mut words: Vec<String> = Vec::new();
    words.push(owned(query.program));
    let mut i: usize = 0;
    while i < query.arguments.len()
        invariant
            i <= query.arguments@.len(),
            views(words@) == seq![query.program@] + views(query.arguments@).take(i as int),
        decreases query.arguments@.len() - i,
    {
        let ghost before = words@;
        let word = query.arguments[i].clone();
        words.push(word);
        proof {
            assert(views(words@) =~= views(before).push(word@));
            assert(views(query.arguments@).take(i + 1) =~= views(query.arguments@).take(i as int).push(word@));
        }
        i = i + 1;
    }
    proof {
        assert(views(query.arguments@).take(i as int) =~= views(query.arguments@));
    }
    crate::exec::join_with_spaces(&words)
}

pub open spec fn manager_query_spec(
    invocation: Seq<char>,
    result: QueryResult,
    expected_path: Seq<char>,
) -> Option<(Option<Seq<char>>, EvidenceModel)> {
    let quoted = "`"@ + invocation + "`"@;
    match result {
        Err(failure) => Some((None, ev("manager query"@, quoted + " "@ + describe_spec(failure)))),
        Ok(output) => if output.success && output.truncated {
            Some((None, ev("manager query"@, quoted + " output was truncated; ignoring it"@)))
        } else if output.success {
            let answer = trim(output.stdout@);
            if answer.len() == 0 {
                None
            } else {
                let relation = if same_path(answer, expected_path) {
                    " and it matches the resolved executable"@
                } else {
                    Seq::<char>::empty()
                };
                Some((Some(answer), ev("manager query"@, quoted + " returned `"@ + answer + "`"@ + relation)))
            }
        } else {
            Some((None, ev("manager query"@, quoted + " exited without confirming ownership"@)))
        },
    }
}

/// What a manager's confirming query came to, from its outcome. An empty
/// answer gives nothing; a failure, a truncation or a non-zero exit gives
/// evidence with no answer.
pub fn manager_query_outcome(invocation: &str, result: &QueryResult, expected_path: &str) -> (r: Option<ManagerQuery>)
    ensures
        manager_query_view(r) == manager_query_spec(invocation@, *result, expected_path@),
{
    let quoted = concat3("`", invocation, "`");
    match result {
        Err(failure) => Some(ManagerQuery {
            result: None,
            evidence: Evidence::new("manager query", concat3(quoted.as_str(), " ", failure.describe().as_str())),
        }),
        Ok(output) => {
            if output.success && output.truncated {
                Some(ManagerQuery {
                    result: None,
                    evidence: Evidence::new("manager query", concat2(quoted.as_str(), " output was truncated; ignoring it")),
                })
            } else if output.success {
                let answer = trim_str(output.stdout.as_str());
                if answer.as_str().unicode_len() == 0 {
                    return None;
                }
                let detail = if same_path_exec(answer.as_str(), expected_path) {
                    concat5(quoted.as_str(), " returned `", answer.as_str(), "`", " and it matches the resolved executable")
                } else {
                    let d = concat4(quoted.as_str(), " returned `", answer.as_str(), "`");
                    assert(d@ =~= quoted@ + " returned `"@ + answer@ + "`"@ + Seq::<char>::empty());
                    d
                };
                Some(ManagerQuery { result: Some(answer), evidence: Evidence::new("manager query", detail) })
            } else {
                Some(ManagerQuery {
                    result: None,
                    evidence: Evidence::new("manager query", concat2(quoted.as_str(), " exited without confirming ownership")),
                })
            }
        },
    }
}

/// The node after a manager's query: the query's evidence is added, and an
/// answer fills in a package and version not yet known, and the guide anew.
pub open spec fn enrich_spec(
    n: NodeModel,
    command: Seq<char>,
    expected_path: Seq<char>,
    query: Option<(Option<Seq<char>>, EvidenceModel)>,
    platform: Platform,
) -> NodeModel {
    match query {
        None => n,
        Some(q) => {
            let evidence = n.evidence.push(q.1);
            match q.0 {
                None => NodeModel { evidence, ..n },
                Some(answer) => {
                    let answers = seq![answer];
                    let package = if n.package is None {
                        tool_for(n.id, answers)
                    } else {
                        n.package
                    };
                    let version = if n.version is None {
                        if n.id == OwnerId::Fnm {
                            Some(trim_start_char(answer, 'v'))
                        } else if n.id == OwnerId::Rustup {
                            toolchain_spec(answer)
                        } else {
                            version_for(n.id, answers)
                        }
                    } else {
                        n.version
                    };
                    NodeModel {
                        evidence,
                        package,
                        version,
                        actions: guide_for(n.id, command, package, version, expected_path, platform),
                        ..n
                    }
                },
            }
        },
    }
}

/// Adds what a manager's confirming query came to to the node it confirms.
pub fn enrich_with_manager_query(
    owner: &mut OwnershipNode,
    command: &str,
    expected_path: &str,
    query: Option<ManagerQuery>,
    platform: Platform,
)
    ensures
        final(owner)@ == enrich_spec(old(owner)@, command@, expected_path@, manager_query_view(query), platform),
{
    let id = owner.id;
    let query = match query {
        Some(q) => q,
        None => {
            return;
        },
    };
    let ghost before = owner.evidence@;
    let ghost qe = query.evidence@;
    owner.evidence.push(query.evidence);
    proof {
        assert(evidence_views(owner.evidence@) =~= evidence_views(before).push(qe));
    }
    let answer = match query.result {
        Some(a) => a,
        None => {
            return;
        },
    };
    let mut answers: Vec<String> = Vec::new();
    answers.push(answer.clone());
    proof {
        assert(views(answers@) =~= seq![answer@]);
    }
    if owner.package.is_none() {
        owner.package = id.tool_for_paths(&answers);
    }
    if owner.version.is_none() {
        owner.version = if id == OwnerId::Fnm {
            Some(trim_start_char_str(answer.as_str(), 'v'))
        } else if id == OwnerId::Rustup {
            toolchain_from_rustup_path(answer.as_str())
        } else {
            id.version_for_paths(&answers)
        };
    }
    owner.actions = id.actions(
        command,
        as_opt_str(&owner.package),
        as_opt_str(&owner.version),
        expected_path,
        platform,
    );
}

/// The evidence about where a manager lives when nothing owns it.
pub open spec fn manager_source_evidence(manager: OwnerId, path: Option<Seq<char>>) -> EvidenceModel {
    match path {
        Some(p) => ev(
            "manager location"@,
            display_str(manager) + " is located at "@ + p + ", but that location has no recognized upstream owner"@,
        ),
        None => ev(
            "manager lookup"@,
            "the "@ + display_str(manager)
                + " runtime layout was recognized, but its own installation source was not discoverable on PATH"@,
        ),
    }
}

pub open spec fn unconfirmed_source_spec(manager: OwnerId, path: Option<Seq<char>>) -> NodeModel {
    node_spec(
        OwnerId::UnconfirmedSource,
        Confidence::Unknown,
        None,
        None,
        seq![manager_source_evidence(manager, path)],
        GuideModel {
            inspect: None,
            update: None,
            remove: None,
            note: Some(
                "Do not remove "@ + display_str(manager)
                    + " until its installer or package-manager record is identified."@,
            ),
        },
    )
}

/// The end of a chain whose manager has no recognized installation source.
pub fn unconfirmed_manager_source(manager: OwnerId, path: Option<&str>) -> (r: OwnershipNode)
    ensures
        r@ == unconfirmed_source_spec(manager, opt_str(path)),
{
    let name = manager.display_name();
    let evidence = match path {
        Some(p) => Evidence::new(
            "manager location",
            concat4(name, " is located at ", p, ", but that location has no recognized upstream owner"),
        ),
        None => Evidence::new(
            "manager lookup",
            concat3(
                "the ",
                name,
                " runtime layout was recognized, but its own installation source was not discoverable on PATH",
            ),
        ),
    };
    let mut all: Vec<Evidence> = Vec::new();
    all.push(evidence);
    let actions = ActionGuide {
        inspect: None,
        update: None,
        remove: None,
        note: Some(
            concat3("Do not remove ", name, " until its installer or package-manager record is identified."),
        ),
    };
    let r = owner(OwnerId::UnconfirmedSource, Confidence::Unknown, None, None, all, actions);
    proof {
        assert(r@.evidence =~= seq![manager_source_evidence(manager, opt_str(path))]);
    }
    r
}

// ---------------------------------------------------------------------------
// Package records of the platform
// ---------------------------------------------------------------------------

/// The first line of a tool's output, trimmed, where it is not empty.
pub open spec fn first_line_spec(text: Seq<char>) -> Option<Seq<char>> {
    let all = lines(text);
    if all.len() > 0 && trim(all[0]).len() > 0 {
        Some(trim(all[0]))
    } else {
        None
    }
}

/// The package named in a package tool's answer; dpkg answers `package: path`.
pub open spec fn package_name_spec(id: OwnerId, raw: Seq<char>) -> Seq<char> {
    if id == OwnerId::Dpkg {
        match rsplit_once(raw, ": "@) {
            Some(parts) => parts.0,
            None => raw,
        }
    } else {
        raw
    }
}

pub open spec fn linux_package_spec(
    id: OwnerId,
    program_name: Seq<char>,
    command: Seq<char>,
    path: Seq<char>,
    result: QueryResult,
    platform: Platform,
) -> Option<NodeModel> {
    match result {
        Err(_) => None,
        Ok(output) => if !output.success {
            None
        } else {
            match first_line_spec(output.stdout@) {
                None => None,
                Some(raw) => {
                    let package = package_name_spec(id, raw);
                    Some(
                        node_spec(
                            id,
                            Confidence::Confirmed,
                            Some(package),
                            None,
                            seq![ev("package query"@, "`"@ + program_name + "` reports: "@ + raw)],
                            guide_for(id, command, Some(package), None, path, platform),
                        ),
                    )
                },
            }
        },
    }
}

pub fn first_line(text: &str) -> (r: Option<String>)
    ensures
        opt_view(r) == first_line_spec(text@),
{
    let all = lines_str(text);
    if all.len() == 0 {
        return None;
    }
    let t = trim_str(all[0].as_str());
    proof {
        assert(views(all@)[0] == all@[0]@);
    }
    if t.as_str().unicode_len() > 0 {
        Some(t)
    } else {
        None
    }
}

/// The owner that a package tool's answer names, where it names one.
pub fn linux_package_owner(
    id: OwnerId,
    program_name: &str,
    command: &str,
    path: &str,
    result: &QueryResult,
    platform: Platform,
) -> (r: Option<OwnershipNode>)
    ensures
        opt_node_view(r) == linux_package_spec(id, program_name@, command@, path@, *result, platform),
{
    let output = match result {
        Ok(o) => o,
        Err(_) => {
            return None;
        },
    };
    if !output.success {
        return None;
    }
    let raw = match first_line(output.stdout.as_str()) {
        Some(raw) => raw,
        None => {
            return None;
        },
    };
    let package = if id == OwnerId::Dpkg {
        match rsplit_once_str(raw.as_str(), ": ") {
            Some((package, _)) => package,
            None => raw.clone(),
        }
    } else {
        raw.clone()
    };
    let actions = id.actions(command, Some(package.as_str()), None, path, platform);
    let mut evidence: Vec<Evidence> = Vec::new();
    evidence.push(Evidence::new("package query", concat4("`", program_name, "` reports: ", raw.as_str())));
    let r = owner(id, Confidence::Confirmed, Some(package), None, evidence, actions);
    proof {
        assert(r@.evidence =~= seq![ev("package query"@, "`"@ + program_name@ + "` reports: "@ + raw@)]);
    }
    Some(r)
}

/// How many package tools are asked on Linux.
pub const PACKAGE_TOOLS: usize = 4;

/// The `k`-th package tool asked on Linux.
pub open spec fn tool_program(k: int) -> Seq<char> {
    if k == 0 {
        "dpkg-query"@
    } else if k == 1 {
        "rpm"@
    } else if k == 2 {
        "pacman"@
    } else {
        "apk"@
    }
}

/// The arguments the `k`-th package tool takes before the path.
pub open spec fn tool_arguments(k: int) -> Seq<Seq<char>> {
    if k == 0 {
        seq!["-S"@]
    } else if k == 1 {
        seq!["-qf"@]
    } else if k == 2 {
        seq!["-Qo"@]
    } else {
        seq!["info"@, "-W"@]
    }
}

/// The owner the `k`-th package tool speaks for.
pub open spec fn tool_owner(k: int) -> OwnerId {
    if k == 0 {
        OwnerId::Dpkg
    } else if k == 1 {
        OwnerId::Rpm
    } else if k == 2 {
        OwnerId::Pacman
    } else {
        OwnerId::Apk
    }
}

/// The package tools asked, in order, on Linux: the program, its arguments
/// before the path, and the owner it speaks for.
pub fn linux_package_queries() -> (r: Vec<(&'static str, Vec<&'static str>, OwnerId)>)
    ensures
        r@.len() == PACKAGE_TOOLS,
        forall|k: int|
            0 <= k < PACKAGE_TOOLS ==> {
                &&& (#[trigger] r@[k]).0@ == tool_program(k)
                &&& r@[k].1@.map_values(|a: &str| a@) == tool_arguments(k)
                &&& r@[k].2 == tool_owner(k)
            },
{
    let dpkg = vec!["-S"];
    let rpm = vec!["-qf"];
    let pacman = vec!["-Qo"];
    let apk = vec!["info", "-W"];
    proof {
        assert(dpkg@.map_values(|a: &str| a@) =~= seq!["-S"@]);
        assert(rpm@.map_values(|a: &str| a@) =~= seq!["-qf"@]);
        assert(pacman@.map_values(|a: &str| a@) =~= seq!["-Qo"@]);
        assert(apk@.map_values(|a: &str| a@) =~= seq!["info"@, "-W"@]);
    }
    let r = vec![
        ("dpkg-query", dpkg, OwnerId::Dpkg),
        ("rpm", rpm, OwnerId::Rpm),
        ("pacman", pacman, OwnerId::Pacman),
        ("apk", apk, OwnerId::Apk),
    ];
    proof {
        assert forall|k: int| 0 <= k < PACKAGE_TOOLS implies {
            &&& (#[trigger] r@[k]).0@ == tool_program(k)
            &&& r@[k].1@.map_values(|a: &str| a@) == tool_arguments(k)
            &&& r@[k].2 == tool_owner(k)
        } by {
            if k == 0 {
            } else if k == 1 {
            } else if k == 2 {
            } else {
            }
        }
    }
    r
}

pub open spec fn field_in(prefix: Seq<char>) -> spec_fn(Seq<char>) -> Option<Seq<char>> {
    |line: Seq<char>| strip_prefix(trim(line), prefix)
}

/// The value after `prefix` on the first line that starts with it, trimmed,
/// where it is not empty.
pub open spec fn field_spec(text: Seq<char>, prefix: Seq<char>) -> Option<Seq<char>> {
    match first_some(lines(text), field_in(prefix)) {
        Some(v) => if trim(v).len() > 0 {
            Some(trim(v))
        } else {
            None
        },
        None => None,
    }
}

pub fn field(text: &str, prefix: &str) -> (r: Option<String>)
    ensures
        opt_view(r) == field_spec(text@, prefix@),
{
    let all = lines_str(text);
    let ghost ls = views(all@);
    let ghost f = field_in(prefix@);
    proof {
        lemma_first_some_end(ls, f);
    }
    let mut i: usize = 0;
    while i < all.len()
        invariant
            ls == views(all@),
            ls == lines(text@),
            f == field_in(prefix@),
            i <= all@.len(),
            first_some(ls, f) == first_some(ls.skip(i as int), f),
        decreases all@.len() - i,
    {
        proof {
            lemma_first_some_step(ls, f, i as int);
            assert(ls[i as int] == all@[i as int]@);
        }
        let line = trim_str(all[i].as_str());
        match strip_prefix_str(line.as_str(), prefix) {
            Some(v) => {
                let t = trim_str(v.as_str());
                if t.as_str().unicode_len() > 0 {
                    return Some(t);
                } else {
                    return None;
                }
            },
            None => {},
        }
        i = i + 1;
    }
    proof {
        lemma_first_some_end(ls, f);
    }
    None
}

pub open spec fn macos_receipt_spec(command: Seq<char>, path: Seq<char>, result: QueryResult, platform: Platform) -> Option<NodeModel> {
    match result {
        Err(_) => None,
        Ok(output) => match field_spec(output.stdout@, "pkgid:"@) {
            None => None,
            Some(package) => {
                let version = field_spec(output.stdout@, "pkg-version:"@);
                let first = seq![ev("pkgutil"@, "receipt "@ + package + " owns "@ + path)];
                let evidence = match version {
                    Some(v) => first.push(ev("pkgutil"@, "receipt records version "@ + v)),
                    None => first,
                };
                Some(node_spec(
                    OwnerId::MacosInstaller,
                    Confidence::Confirmed,
                    Some(package),
                    version,
                    evidence,
                    guide_for(OwnerId::MacosInstaller, command, Some(package), version, path, platform),
                ))
            },
        },
    }
}

/// The installer receipt that `pkgutil --file-info` reports for `path`.
pub fn macos_receipt_owner(command: &str, path: &str, result: &QueryResult, platform: Platform) -> (r: Option<OwnershipNode>)
    ensures
        opt_node_view(r) == macos_receipt_spec(command@, path@, *result, platform),
{
    let output = match result {
        Ok(o) => o,
        Err(_) => {
            return None;
        },
    };
    let package = match field(output.stdout.as_str(), "pkgid:") {
        Some(p) => p,
        None => {
            return None;
        },
    };
    let version = field(output.stdout.as_str(), "pkg-version:");
    let mut evidence: Vec<Evidence> = Vec::new();
    evidence.push(Evidence::new("pkgutil", concat4("receipt ", package.as_str(), " owns ", path)));
    let ghost first = evidence_views(evidence@);
    match &version {
        Some(v) => {
            evidence.push(Evidence::new("pkgutil", concat2("receipt records version ", v.as_str())));
        },
        None => {},
    }
    let actions = OwnerId::MacosInstaller.actions(
        command,
        Some(package.as_str()),
        as_opt_str(&version),
        path,
        platform,
    );
    let r = owner(OwnerId::MacosInstaller, Confidence::Confirmed, Some(package), version, evidence, actions);
    proof {
        let pkg = r@.package->0;
        assert(first =~= seq![ev("pkgutil"@, "receipt "@ + pkg + " owns "@ + path@)]);
        assert(r@.evidence =~= match r@.version {
            Some(v) => first.push(ev("pkgutil"@, "receipt records version "@ + v)),
            None => first,
        });
    }
    Some(r)
}

pub open spec fn python_version_in(path: Seq<char>) -> Option<Seq<char>> {
    match split_once(path, "/Library/Frameworks/Python.framework/Versions/"@) {
        Some(parts) => {
            let v = take_until(parts.1, '/');
            if v.len() > 0 {
                Some(v)
            } else {
                None
            }
        },
        None => None,
    }
}

pub open spec fn python_version_fn() -> spec_fn(Seq<char>) -> Option<Seq<char>> {
    |p: Seq<char>| python_version_in(p)
}

/// The python.org framework version that one of the paths lies in.
pub open spec fn python_framework_version_spec(paths: Seq<Seq<char>>) -> Option<Seq<char>> {
    first_some(paths, python_version_fn())
}

fn python_version_in_exec(path: &str) -> (r: Option<String>)
    ensures
        opt_view(r) == python_version_in(path@),
{
    match split_once_str(path, "/Library/Frameworks/Python.framework/Versions/") {
        Some((_, rest)) => {
            let v = take_until_str(rest.as_str(), '/');
            if v.as_str().unicode_len() > 0 {
                Some(v)
            } else {
                None
            }
        },
        None => None,
    }
}

pub fn python_framework_version(ctx: &DetectionContext) -> (r: Option<String>)
    requires
        ctx.wf(),
    ensures
        opt_view(r) == python_framework_version_spec(candidate_paths(ctx@)),
{
    let ghost ps = views(ctx.paths@);
    let ghost f = python_version_fn();
    proof {
        lemma_first_some_end(ps, f);
    }
    let mut i: usize = 0;
    while i < ctx.paths.len()
        invariant
            ctx.wf(),
            ps == views(ctx.paths@),
            f == python_version_fn(),
            i <= ctx.paths@.len(),
            first_some(ps, f) == first_some(ps.skip(i as int), f),
        decreases ctx.paths@.len() - i,
    {
        proof {
            lemma_first_some_step(ps, f, i as int);
        }
        let found = python_version_in_exec(ctx.paths[i].as_str());
        if found.is_some() {
            return found;
        }
        i = i + 1;
    }
    proof {
        lemma_first_some_end(ps, f);
    }
    None
}

/// The receipt package of a python.org framework version.
pub fn python_org_package(version: &str) -> (r: String)
    ensures
        r@ == "org.python.Python.PythonFramework-"@ + version@,
{
    concat2("org.python.Python.PythonFramework-", version)
}

pub open spec fn python_org_spec(c: ContextModel, version: Seq<char>, result: QueryResult) -> Option<NodeModel> {
    let package = "org.python.Python.PythonFramework-"@ + version;
    match result {
        Err(_) => None,
        Ok(output) => if !output.success {
            None
        } else {
            Some(context_node(
                c,
                OwnerId::PythonOrgInstaller,
                Confidence::Probable,
                Some(package),
                Some(version),
                context_evidence(c).push(
                    ev("pkgutil"@, "matching Python framework receipt "@ + package + " is installed"@),
                ),
            ))
        },
    }
}

/// The python.org installer, where `pkgutil --pkg-info` confirms the
/// framework version's receipt.
pub fn python_org_owner(ctx: &DetectionContext, version: &str, result: &QueryResult) -> (r: Option<OwnershipNode>)
    requires
        ctx.wf(),
    ensures
        opt_node_view(r) == python_org_spec(ctx@, version@, *result),
{
    match result {
        Ok(output) => {
            if !output.success {
                return None;
            }
        },
        Err(_) => {
            return None;
        },
    }
    let package = python_org_package(version);
    let mut evidence = ctx.evidence();
    let ghost before = evidence@;
    evidence.push(
        Evidence::new("pkgutil", concat3("matching Python framework receipt ", package.as_str(), " is installed")),
    );
    proof {
        assert(evidence_views(evidence@) =~= evidence_views(before).push(
            ev("pkgutil"@, "matching Python framework receipt "@ + package@ + " is installed"@),
        ));
    }
    Some(ctx.owner(OwnerId::PythonOrgInstaller, Confidence::Probable, Some(package), Some(owned(version)), evidence))
}

// ---------------------------------------------------------------------------
// Detection, one query at a time
// ---------------------------------------------------------------------------

/// The package-record query whose outcome detection waits on.
#[derive(Clone, Copy, Debug, PartialEq, Eq, Structural)]
pub enum Pending {
    /// Nothing has been asked yet.
    Start,
    /// The Linux package tool at this index of `linux_package_queries`.
    PackageTool(usize),
    /// `pkgutil --file-info` on the final target.
    ReceiptAtRealPath,
    /// `pkgutil --file-info` on the PATH entry.
    ReceiptAtPath,
    /// `pkgutil --pkg-info` on the python.org framework receipt.
    PythonFramework,
    /// `port -q provides` on the final target under the MacPorts prefix.
    MacPortsRegistry,
}

/// What detection needs next.
pub enum DetectionStep {
    /// Run `program`, as found on PATH, with `arguments`, then hand its
    /// outcome back to `detection_step` with `pending` (`None` where the
    /// program is not on PATH).
    Query { pending: Pending, program: &'static str, arguments: Vec<String> },
    /// Detection is over: this is the owner.
    Done(OwnershipNode),
}

pub enum StepModel {
    Query(Pending, Seq<char>, Seq<Seq<char>>),
    Done(NodeModel),
}

pub open spec fn step_view(s: DetectionStep) -> StepModel {
    match s {
        DetectionStep::Query { pending, program, arguments } => StepModel::Query(
            pending,
            program@,
            views(arguments@),
        ),
        DetectionStep::Done(n) => StepModel::Done(n@),
    }
}

/// Whether the fallback is MacPorts: a path under its prefix and none under
/// the operating system's.
pub open spec fn under_macports(c: ContextModel) -> bool {
    let paths = candidate_paths(c);
    !any_starts_with(paths, os_prefixes()) && any_starts_with(paths, seq!["/opt/local/"@])
}

/// The port that a line of `port -q provides` names: the text after
/// `provided by: `, or the line itself where it is one word; a sentence such
/// as `... is not provided by a MacPorts port.` names none.
pub open spec fn port_name_spec(line: Seq<char>) -> Option<Seq<char>> {
    match split_once(line, "provided by: "@) {
        Some(parts) => if trim(parts.1).len() > 0 {
            Some(trim(parts.1))
        } else {
            None
        },
        None => if contains(line, " "@) {
            None
        } else {
            Some(line)
        },
    }
}

/// The MacPorts owner that the local registry confirms, where it names a port.
pub open spec fn macports_registry_spec(c: ContextModel, result: QueryResult) -> Option<NodeModel> {
    match result {
        Err(_) => None,
        Ok(output) => if !output.success {
            None
        } else {
            match first_line_spec(output.stdout@) {
                None => None,
                Some(line) => match port_name_spec(line) {
                    None => None,
                    Some(port) => Some(
                        context_node(
                            c,
                            OwnerId::MacPorts,
                            Confidence::Confirmed,
                            Some(port),
                            None,
                            context_evidence(c).push(ev("port registry"@, "`port -q provides` reports: "@ + line)),
                        ),
                    ),
                },
            }
        },
    }
}

/// What follows once no package record claimed the executable: the MacPorts
/// registry query where the fallback is MacPorts, else the fallback's owner.
pub open spec fn fallback_step_spec(c: ContextModel) -> StepModel {
    if under_macports(c) {
        StepModel::Query(Pending::MacPortsRegistry, "port"@, seq!["-q"@, "provides"@, c.real_path])
    } else {
        StepModel::Done(detect_fallback_spec(c))
    }
}

/// The query of the `k`-th package tool, or the fallback once none is left.
pub open spec fn tool_step_spec(c: ContextModel, k: int) -> StepModel {
    if 0 <= k < PACKAGE_TOOLS {
        StepModel::Query(Pending::PackageTool(k as usize), tool_program(k), tool_arguments(k).push(c.real_path))
    } else {
        fallback_step_spec(c)
    }
}

pub open spec fn receipt_step_spec(pending: Pending, path: Seq<char>) -> StepModel {
    StepModel::Query(pending, "pkgutil"@, seq!["--file-info"@, path])
}

/// The python.org receipt query, where the paths lie in a framework version.
pub open spec fn python_step_spec(c: ContextModel) -> StepModel {
    match python_framework_version_spec(candidate_paths(c)) {
        Some(v) => StepModel::Query(
            Pending::PythonFramework,
            "pkgutil"@,
            seq!["--pkg-info"@, "org.python.Python.PythonFramework-"@ + v],
        ),
        None => fallback_step_spec(c),
    }
}

/// One step of detection: given what was pending and the outcome of that
/// query, the next query to run or the owner.
pub open spec fn detection_step_spec(c: ContextModel, pending: Pending, answer: Option<QueryResult>) -> StepModel {
    let fallback = fallback_step_spec(c);
    match pending {
        Pending::Start => match detect_layout_spec(c) {
            Some(n) => StepModel::Done(n),
            None => match c.platform {
                Platform::Linux => tool_step_spec(c, 0),
                Platform::MacOs => receipt_step_spec(Pending::ReceiptAtRealPath, c.real_path),
                Platform::Other => fallback,
            },
        },
        Pending::PackageTool(k) => if k >= PACKAGE_TOOLS {
            fallback
        } else {
            match answer {
                Some(r) => match linux_package_spec(
                    tool_owner(k as int),
                    tool_program(k as int),
                    c.command,
                    c.real_path,
                    r,
                    c.platform,
                ) {
                    Some(n) => StepModel::Done(n),
                    None => tool_step_spec(c, k + 1),
                },
                None => tool_step_spec(c, k + 1),
            }
        },
        Pending::ReceiptAtRealPath => match answer {
            Some(r) => match macos_receipt_spec(c.command, c.real_path, r, c.platform) {
                Some(n) => StepModel::Done(n),
                None => receipt_step_spec(Pending::ReceiptAtPath, c.path),
            },
            None => fallback,
        },
        Pending::ReceiptAtPath => match answer {
            Some(r) => match macos_receipt_spec(c.command, c.path, r, c.platform) {
                Some(n) => StepModel::Done(n),
                None => python_step_spec(c),
            },
            None => fallback,
        },
        Pending::PythonFramework => match (answer, python_framework_version_spec(candidate_paths(c))) {
            (Some(r), Some(v)) => match python_org_spec(c, v, r) {
                Some(n) => StepModel::Done(n),
                None => fallback,
            },
            _ => fallback,
        },
        Pending::MacPortsRegistry => match answer {
            Some(r) => match macports_registry_spec(c, r) {
                Some(n) => StepModel::Done(n),
                None => StepModel::Done(detect_fallback_spec(c)),
            },
            None => StepModel::Done(detect_fallback_spec(c)),
        },
    }
}

fn port_name(line: &str) -> (r: Option<String>)
    ensures
        opt_view(r) == port_name_spec(line@),
{
    match split_once_str(line, "provided by: ") {
        Some((_, rest)) => {
            let port = trim_str(rest.as_str());
            if port.as_str().unicode_len() > 0 {
                Some(port)
            } else {
                None
            }
        },
        None => {
            if contains_str(line, " ") {
                None
            } else {
                Some(owned(line))
            }
        },
    }
}

/// The MacPorts owner that `port -q provides` confirms for the final target.
pub fn macports_registry_owner(ctx: &DetectionContext, result: &QueryResult) -> (r: Option<OwnershipNode>)
    requires
        ctx.wf(),
    ensures
        opt_node_view(r) == macports_registry_spec(ctx@, *result),
{
    let output = match result {
        Ok(o) => o,
        Err(_) => {
            return None;
        },
    };
    if !output.success {
        return None;
    }
    let line = match first_line(output.stdout.as_str()) {
        Some(line) => line,
        None => {
            return None;
        },
    };
    let port = match port_name(line.as_str()) {
        Some(port) => port,
        None => {
            return None;
        },
    };
    let mut evidence = ctx.evidence();
    let ghost before = evidence@;
    evidence.push(Evidence::new("port registry", concat2("`port -q provides` reports: ", line.as_str())));
    proof {
        assert(evidence_views(evidence@) =~= evidence_views(before).push(
            ev("port registry"@, "`port -q provides` reports: "@ + line@),
        ));
    }
    Some(ctx.owner(OwnerId::MacPorts, Confidence::Confirmed, Some(port), None, evidence))
}

fn fallback_step(ctx: &DetectionContext) -> (r: DetectionStep)
    requires
        ctx.wf(),
    ensures
        step_view(r) == fallback_step_spec(ctx@),
{
    let os = vec!["/usr/bin/", "/bin/", "/System/"];
    let macports = vec!["/opt/local/"];
    proof {
        assert(os@.map_values(|p: &str| p@) =~= os_prefixes());
        assert(macports@.map_values(|p: &str| p@) =~= seq!["/opt/local/"@]);
    }
    if !ctx.starts_with_any(&os) && ctx.starts_with_any(&macports) {
        let arguments = vec![owned("-q"), owned("provides"), ctx.real_path.clone()];
        proof {
            assert(views(arguments@) =~= seq!["-q"@, "provides"@, ctx.real_path@]);
        }
        DetectionStep::Query { pending: Pending::MacPortsRegistry, program: "port", arguments }
    } else {
        DetectionStep::Done(detect_fallback(ctx))
    }
}

/// `words` followed by `last`, as owned strings.
fn words_then(words: &Vec<&str>, last: &str) -> (r: Vec<String>)
    ensures
        views(r@) == words@.map_values(|a: &str| a@).push(last@),
{
    let mut r: Vec<String> = Vec::new();
    let mut i: usize = 0;
    while i < words.len()
        invariant
            i <= words@.len(),
            views(r@) == words@.map_values(|a: &str| a@).take(i as int),
        decreases words@.len() - i,
    {
        r.push(owned(words[i]));
        proof {
            assert(words@.map_values(|a: &str| a@).take(i + 1) =~= words@.map_values(|a: &str| a@).take(
                i as int,
            ).push(words@[i as int]@));
            assert(views(r@) =~= words@.map_values(|a: &str| a@).take(i + 1));
        }
        i = i + 1;
    }
    r.push(owned(last));
    proof {
        assert(words@.map_values(|a: &str| a@).take(i as int) =~= words@.map_values(|a: &str| a@));
        assert(views(r@) =~= words@.map_values(|a: &str| a@).push(last@));
    }
    r
}

fn tool_step(ctx: &DetectionContext, k: usize) -> (r: DetectionStep)
    requires
        ctx.wf(),
    ensures
        step_view(r) == tool_step_spec(ctx@, k as int),
{
    if k < PACKAGE_TOOLS {
        let tools = linux_package_queries();
        let program: &'static str = tools[k].0;
        let arguments = words_then(&tools[k].1, ctx.real_path.as_str());
        DetectionStep::Query { pending: Pending::PackageTool(k), program, arguments }
    } else {
        fallback_step(ctx)
    }
}

fn receipt_step(pending: Pending, path: &str) -> (r: DetectionStep)
    ensures
        step_view(r) == receipt_step_spec(pending, path@),
{
    let arguments = vec![owned("--file-info"), owned(path)];
    proof {
        assert(views(arguments@) =~= seq!["--file-info"@, path@]);
    }
    DetectionStep::Query { pending, program: "pkgutil", arguments }
}

fn python_step(ctx: &DetectionContext) -> (r: DetectionStep)
    requires
        ctx.wf(),
    ensures
        step_view(r) == python_step_spec(ctx@),
{
    match python_framework_version(ctx) {
        Some(version) => {
            let arguments = vec![owned("--pkg-info"), python_org_package(version.as_str())];
            proof {
                assert(views(arguments@) =~= seq![
                    "--pkg-info"@,
                    "org.python.Python.PythonFramework-"@ + version@,
                ]);
            }
            DetectionStep::Query { pending: Pending::PythonFramework, program: "pkgutil", arguments }
        },
        None => fallback_step(ctx),
    }
}

/// One step of detection. Start with `Pending::Start` and no outcome; each
/// `Query` names what to run next and what to hand back with its outcome.
/// The path detectors decide first; then, on Linux, each package tool in turn
/// until one names a package; on macOS, the installer receipts of the final
/// target and of the PATH entry, then the python.org framework receipt; and
/// otherwise the fallback detectors.
pub fn detection_step(ctx: &DetectionContext, pending: Pending, answer: Option<QueryResult>) -> (r: DetectionStep)
    requires
        ctx.wf(),
    ensures
        step_view(r) == detection_step_spec(ctx@, pending, answer),
{
    match pending {
        Pending::Start => match detect_by_layout(ctx) {
            Some(node) => DetectionStep::Done(node),
            None => match ctx.platform {
                Platform::Linux => tool_step(ctx, 0),
                Platform::MacOs => receipt_step(Pending::ReceiptAtRealPath, ctx.real_path.as_str()),
                Platform::Other => fallback_step(ctx),
            },
        },
        Pending::PackageTool(k) => {
            if k >= PACKAGE_TOOLS {
                return fallback_step(ctx);
            }
            if let Some(result) = &answer {
                let tools = linux_package_queries();
                let found = linux_package_owner(
                    tools[k].2,
                    tools[k].0,
                    ctx.command.as_str(),
                    ctx.real_path.as_str(),
                    result,
                    ctx.platform,
                );
                if let Some(node) = found {
                    return DetectionStep::Done(node);
                }
            }
            tool_step(ctx, k + 1)
        },
        Pending::ReceiptAtRealPath => match &answer {
            Some(result) => match macos_receipt_owner(
                ctx.command.as_str(),
                ctx.real_path.as_str(),
                result,
                ctx.platform,
            ) {
                Some(node) => DetectionStep::Done(node),
                None => receipt_step(Pending::ReceiptAtPath, ctx.path.as_str()),
            },
            None => fallback_step(ctx),
        },
        Pending::ReceiptAtPath => match &answer {
            Some(result) => match macos_receipt_owner(ctx.command.as_str(), ctx.path.as_str(), result, ctx.platform) {
                Some(node) => DetectionStep::Done(node),
                None => python_step(ctx),
            },
            None => fallback_step(ctx),
        },
        Pending::PythonFramework => match &answer {
            Some(result) => match python_framework_version(ctx) {
                Some(version) => match python_org_owner(ctx, version.as_str(), result) {
                    Some(node) => DetectionStep::Done(node),
                    None => fallback_step(ctx),
                },
                None => fallback_step(ctx),
            },
            None => fallback_step(ctx),
        },
        Pending::MacPortsRegistry => match &answer {
            Some(result) => match macports_registry_owner(ctx, result) {
                Some(node) => DetectionStep::Done(node),
                None => DetectionStep::Done(detect_fallback(ctx)),
            },
            None => DetectionStep::Done(detect_fallback(ctx)),
        },
    }
}

// ---------------------------------------------------------------------------
// Laws
// ---------------------------------------------------------------------------

/// Detection run step by step from `pending`, each query answered as `respond`
/// answers it (`None`: the program is not on PATH), for at most `fuel` queries.
pub open spec fn run_steps(
    c: ContextModel,
    pending: Pending,
    answer: Option<QueryResult>,
    respond: spec_fn(Seq<char>, Seq<Seq<char>>) -> Option<QueryResult>,
    fuel: nat,
) -> Option<NodeModel>
    decreases fuel,
{
    match detection_step_spec(c, pending, answer) {
        StepModel::Done(n) => Some(n),
        StepModel::Query(next, program, arguments) => if fuel == 0 {
            None
        } else {
            run_steps(c, next, respond(program, arguments), respond, (fuel - 1) as nat)
        },
    }
}

/// The package that the `k`-th package tool's answer names.
pub open spec fn tool_answer(
    c: ContextModel,
    respond: spec_fn(Seq<char>, Seq<Seq<char>>) -> Option<QueryResult>,
    k: int,
) -> Option<NodeModel> {
    match respond(tool_program(k), tool_arguments(k).push(c.real_path)) {
        Some(r) => linux_package_spec(tool_owner(k), tool_program(k), c.command, c.real_path, r, c.platform),
        None => None,
    }
}

/// The first package tool, from the `k`-th on, whose answer names a package.
pub open spec fn first_tool_owner(
    c: ContextModel,
    respond: spec_fn(Seq<char>, Seq<Seq<char>>) -> Option<QueryResult>,
    k: int,
) -> Option<NodeModel>
    decreases PACKAGE_TOOLS - k,
{
    if k < 0 || k >= PACKAGE_TOOLS {
        None
    } else {
        match tool_answer(c, respond, k) {
            Some(n) => Some(n),
            None => first_tool_owner(c, respond, k + 1),
        }
    }
}

/// What the platform's package records say of the executable, where each
/// query is answered as `respond` answers it: on Linux the first package tool
/// that names a package; on macOS the receipt of the final target, else of the
/// PATH entry, else the python.org framework receipt, as long as `pkgutil` is
/// on PATH.
pub open spec fn platform_owner_spec(
    c: ContextModel,
    respond: spec_fn(Seq<char>, Seq<Seq<char>>) -> Option<QueryResult>,
) -> Option<NodeModel> {
    match c.platform {
        Platform::Linux => first_tool_owner(c, respond, 0),
        Platform::MacOs => match respond("pkgutil"@, seq!["--file-info"@, c.real_path]) {
            None => None,
            Some(r1) => match macos_receipt_spec(c.command, c.real_path, r1, c.platform) {
                Some(n) => Some(n),
                None => match respond("pkgutil"@, seq!["--file-info"@, c.path]) {
                    None => None,
                    Some(r2) => match macos_receipt_spec(c.command, c.path, r2, c.platform) {
                        Some(n) => Some(n),
                        None => match python_framework_version_spec(candidate_paths(c)) {
                            None => None,
                            Some(v) => match respond(
                                "pkgutil"@,
                                seq!["--pkg-info"@, "org.python.Python.PythonFramework-"@ + v],
                            ) {
                                None => None,
                                Some(r3) => python_org_spec(c, v, r3),
                            },
                        },
                    },
                },
            },
        },
        Platform::Other => None,
    }
}

proof fn lemma_package_tools_in_turn(
    c: ContextModel,
    respond: spec_fn(Seq<char>, Seq<Seq<char>>) -> Option<QueryResult>,
    k: int,
    fuel: nat,
)
    requires
        0 <= k < PACKAGE_TOOLS,
        fuel + k >= PACKAGE_TOOLS,
    ensures
        run_steps(
            c,
            Pending::PackageTool(k as usize),
            respond(tool_program(k), tool_arguments(k).push(c.real_path)),
            respond,
            fuel,
        ) == Some(
            match first_tool_owner(c, respond, k) {
                Some(n) => n,
                None => settled_fallback_spec(c, respond),
            },
        ),
    decreases PACKAGE_TOOLS - k,
{
    let u = k as usize;
    assert(u as int == k);
    let answer = respond(tool_program(k), tool_arguments(k).push(c.real_path));
    assert(tool_answer(c, respond, k) == match answer {
        Some(r) => linux_package_spec(tool_owner(k), tool_program(k), c.command, c.real_path, r, c.platform),
        None => None,
    });
    if k + 1 < PACKAGE_TOOLS {
        lemma_package_tools_in_turn(c, respond, k + 1, (fuel - 1) as nat);
    } else {
        assert(first_tool_owner(c, respond, k + 1) is None);
        if detection_step_spec(c, Pending::PackageTool(u), answer) == fallback_step_spec(c) {
            lemma_fallback_settles(c, Pending::PackageTool(u), answer, respond, fuel);
        }
    }
}

/// The owner once no package record claimed the executable: under the
/// MacPorts prefix, the port that the local registry names; otherwise, or
/// where it names none, the fallback's owner.
pub open spec fn settled_fallback_spec(
    c: ContextModel,
    respond: spec_fn(Seq<char>, Seq<Seq<char>>) -> Option<QueryResult>,
) -> NodeModel {
    if under_macports(c) {
        match respond("port"@, seq!["-q"@, "provides"@, c.real_path]) {
            Some(r) => match macports_registry_spec(c, r) {
                Some(n) => n,
                None => detect_fallback_spec(c),
            },
            None => detect_fallback_spec(c),
        }
    } else {
        detect_fallback_spec(c)
    }
}

/// Detection as a whole where each query is answered as `respond` answers
/// it: the path detectors, then the platform's package records, then the
/// MacPorts registry and the fallback.
pub open spec fn detection_spec(
    c: ContextModel,
    respond: spec_fn(Seq<char>, Seq<Seq<char>>) -> Option<QueryResult>,
) -> NodeModel {
    match detect_layout_spec(c) {
        Some(n) => n,
        None => match platform_owner_spec(c, respond) {
            Some(n) => n,
            None => settled_fallback_spec(c, respond),
        },
    }
}

proof fn lemma_fallback_settles(
    c: ContextModel,
    pending: Pending,
    answer: Option<QueryResult>,
    respond: spec_fn(Seq<char>, Seq<Seq<char>>) -> Option<QueryResult>,
    fuel: nat,
)
    requires
        detection_step_spec(c, pending, answer) == fallback_step_spec(c),
        fuel >= 1,
    ensures
        run_steps(c, pending, answer, respond, fuel) == Some(settled_fallback_spec(c, respond)),
{
    if under_macports(c) {
        let a = respond("port"@, seq!["-q"@, "provides"@, c.real_path]);
        assert(run_steps(c, pending, answer, respond, fuel) == run_steps(
            c,
            Pending::MacPortsRegistry,
            a,
            respond,
            (fuel - 1) as nat,
        ));
    }
}

/// Detection run one query at a time, each query answered as `respond`
/// answers it, asks at most five queries and ends with the owner of the
/// whole detection; away from the MacPorts prefix that is the owner that
/// `detect` gives for what the platform's package records say.
pub proof fn lemma_stepwise_detection_is_detection(
    c: ContextModel,
    respond: spec_fn(Seq<char>, Seq<Seq<char>>) -> Option<QueryResult>,
)
    ensures
        run_steps(c, Pending::Start, None, respond, 5) == Some(detection_spec(c, respond)),
        !under_macports(c) ==> detection_spec(c, respond) == detect_spec(c, platform_owner_spec(c, respond)),
{
    if detect_layout_spec(c) is Some {
        assert(run_steps(c, Pending::Start, None, respond, 5) == Some(detect_layout_spec(c)->0));
    } else {
        match c.platform {
            Platform::Linux => {
                lemma_linux_steps(c, respond);
            },
            Platform::MacOs => {
                lemma_macos_steps(c, respond);
            },
            Platform::Other => {
                lemma_fallback_settles(c, Pending::Start, None, respond, 5);
            },
        }
    }
}

proof fn lemma_linux_steps(c: ContextModel, respond: spec_fn(Seq<char>, Seq<Seq<char>>) -> Option<QueryResult>)
    requires
        detect_layout_spec(c) is None,
        c.platform == Platform::Linux,
    ensures
        run_steps(c, Pending::Start, None, respond, 5) == Some(detection_spec(c, respond)),
{
    lemma_package_tools_in_turn(c, respond, 0, 4);
    assert(run_steps(c, Pending::Start, None, respond, 5) == run_steps(
        c,
        Pending::PackageTool(0),
        respond(tool_program(0), tool_arguments(0).push(c.real_path)),
        respond,
        4,
    ));
}

proof fn lemma_macos_python(
    c: ContextModel,
    respond: spec_fn(Seq<char>, Seq<Seq<char>>) -> Option<QueryResult>,
    a2: Option<QueryResult>,
)
    requires
        c.platform == Platform::MacOs,
        a2 is Some,
        macos_receipt_spec(c.command, c.path, a2->0, c.platform) is None,
    ensures
        run_steps(c, Pending::ReceiptAtPath, a2, respond, 3) == Some(
            match python_framework_version_spec(candidate_paths(c)) {
                None => settled_fallback_spec(c, respond),
                Some(v) => match respond(
                    "pkgutil"@,
                    seq!["--pkg-info"@, "org.python.Python.PythonFramework-"@ + v],
                ) {
                    None => settled_fallback_spec(c, respond),
                    Some(r3) => match python_org_spec(c, v, r3) {
                        Some(n) => n,
                        None => settled_fallback_spec(c, respond),
                    },
                },
            },
        ),
{
    match python_framework_version_spec(candidate_paths(c)) {
        None => {
            lemma_fallback_settles(c, Pending::ReceiptAtPath, a2, respond, 3);
        },
        Some(v) => {
            let a3 = respond("pkgutil"@, seq!["--pkg-info"@, "org.python.Python.PythonFramework-"@ + v]);
            assert(run_steps(c, Pending::ReceiptAtPath, a2, respond, 3) == run_steps(
                c,
                Pending::PythonFramework,
                a3,
                respond,
                2,
            ));
            if detection_step_spec(c, Pending::PythonFramework, a3) == fallback_step_spec(c) {
                lemma_fallback_settles(c, Pending::PythonFramework, a3, respond, 2);
            }
        },
    }
}

proof fn lemma_macos_steps(c: ContextModel, respond: spec_fn(Seq<char>, Seq<Seq<char>>) -> Option<QueryResult>)
    requires
        detect_layout_spec(c) is None,
        c.platform == Platform::MacOs,
    ensures
        run_steps(c, Pending::Start, None, respond, 5) == Some(detection_spec(c, respond)),
{
    let a1 = respond("pkgutil"@, seq!["--file-info"@, c.real_path]);
    let a2 = respond("pkgutil"@, seq!["--file-info"@, c.path]);
    assert(run_steps(c, Pending::Start, None, respond, 5) == run_steps(
        c,
        Pending::ReceiptAtRealPath,
        a1,
        respond,
        4,
    ));
    match a1 {
        None => {
            lemma_fallback_settles(c, Pending::ReceiptAtRealPath, a1, respond, 4);
        },
        Some(r1) => {
            if macos_receipt_spec(c.command, c.real_path, r1, c.platform) is None {
                assert(run_steps(c, Pending::ReceiptAtRealPath, a1, respond, 4) == run_steps(
                    c,
                    Pending::ReceiptAtPath,
                    a2,
                    respond,
                    3,
                ));
                match a2 {
                    None => {
                        lemma_fallback_settles(c, Pending::ReceiptAtPath, a2, respond, 3);
                    },
                    Some(r2) => {
                        if macos_receipt_spec(c.command, c.path, r2, c.platform) is None {
                            lemma_macos_python(c, respond, a2);
                        }
                    },
                }
            }
        },
    }
}

/// The owners whose node is built from a package record alone, without the
/// evidence of the path.
pub open spec fn is_record_owner(id: OwnerId) -> bool {
    id == OwnerId::Dpkg || id == OwnerId::Rpm || id == OwnerId::Pacman || id == OwnerId::Apk || id
        == OwnerId::MacosInstaller
}

/// A node that the detection of `c` may give: its confidence is unknown
/// exactly for an unconfirmed owner; a node other than a package record
/// starts with the PATH entry's evidence and carries the guide for the real
/// path.
pub open spec fn consistent_node(c: ContextModel, n: NodeModel) -> bool {
    &&& (n.confidence == Confidence::Unknown) == (n.id == OwnerId::UnconfirmedOwner)
    &&& !is_record_owner(n.id) ==> {
        &&& n.evidence.len() > 0
        &&& n.evidence[0] == ev("PATH"@, "PATH entry is "@ + c.path)
        &&& n.actions == guide_for(n.id, c.command, n.package, n.version, c.real_path, c.platform)
    }
}

proof fn lemma_context_node_consistent(
    c: ContextModel,
    id: OwnerId,
    confidence: Confidence,
    package: Option<Seq<char>>,
    version: Option<Seq<char>>,
    extra: Seq<EvidenceModel>,
)
    requires
        (confidence == Confidence::Unknown) == (id == OwnerId::UnconfirmedOwner),
    ensures
        consistent_node(c, context_node(c, id, confidence, package, version, context_evidence(c) + extra)),
{
    let e = context_evidence(c);
    assert(e[0] == ev("PATH"@, "PATH entry is "@ + c.path));
    assert((e + extra)[0] == e[0]);
}

proof fn lemma_layout_consistent(c: ContextModel)
    requires
        detect_layout_spec(c) is Some,
    ensures
        consistent_node(c, detect_layout_spec(c)->0),
{
    let paths = candidate_paths(c);
    let none = Seq::<EvidenceModel>::empty();
    assert(context_evidence(c) + none =~= context_evidence(c));
    if detect_nix_spec(c) is Some {
        lemma_context_node_consistent(c, OwnerId::Nix, Confidence::Confirmed, nix_store_name_spec(paths), None, none);
    } else if detect_homebrew_spec(c) is Some {
        let p = cellar_package_spec(paths)->0;
        lemma_context_node_consistent(c, OwnerId::Homebrew, Confidence::Confirmed, Some(p.0), Some(p.1), none);
    } else if detect_path_manager_spec(c) is Some {
        let id = path_manager_id(paths)->0;
        let rules = path_manager_rules_spec();
        lemma_first_some_witness(rules, rule_hit(paths));
        let i = choose|i: int| 0 <= i < rules.len() && rule_hit(paths)(#[trigger] rules[i]) == path_manager_id(paths);
        assert(id == rules[i].1);
        assert(id != OwnerId::UnconfirmedOwner) by {
            if i == 0 {
            } else if i == 1 {
            } else if i == 2 {
            } else if i == 3 {
            } else if i == 4 {
            } else if i == 5 {
            } else if i == 6 {
            } else if i == 7 {
            } else if i == 8 {
            } else if i == 9 {
            } else {
            }
        }
        lemma_context_node_consistent(
            c,
            id,
            Confidence::Confirmed,
            tool_for(id, paths),
            version_for(id, paths),
            none,
        );
    } else if detect_cargo_home_spec(c) is Some {
        let id = cargo_home_id(c.command);
        let confidence = if id == OwnerId::Rustup && ends_with_name(c.real_path, "rustup"@) {
            Confidence::Confirmed
        } else {
            Confidence::Probable
        };
        lemma_context_node_consistent(c, id, confidence, None, None, none);
    } else if detect_pnpm_home_spec(c) is Some {
        lemma_context_node_consistent(c, OwnerId::PnpmHome, Confidence::Probable, None, None, none);
    } else if detect_deno_spec(c) is Some {
        lemma_context_node_consistent(c, OwnerId::DenoInstaller, Confidence::Confirmed, None, None, none);
    } else {
        lemma_context_node_consistent(c, OwnerId::BunInstaller, Confidence::Confirmed, None, None, none);
    }
}

proof fn lemma_fallback_consistent(c: ContextModel)
    ensures
        consistent_node(c, detect_fallback_spec(c)),
{
    let paths = candidate_paths(c);
    let none = Seq::<EvidenceModel>::empty();
    assert(context_evidence(c) + none =~= context_evidence(c));
    if any_starts_with(paths, os_prefixes()) {
        lemma_context_node_consistent(c, OwnerId::OperatingSystem, Confidence::Probable, None, None, none);
    } else if any_starts_with(paths, seq!["/opt/local/"@]) {
        lemma_context_node_consistent(c, OwnerId::MacPorts, Confidence::Probable, None, None, none);
    } else {
        let extra = seq![ev("unconfirmed"@, unconfirmed_reason(c))];
        assert(context_evidence(c).push(ev("unconfirmed"@, unconfirmed_reason(c))) =~= context_evidence(c)
            + extra);
        lemma_context_node_consistent(c, OwnerId::UnconfirmedOwner, Confidence::Unknown, None, None, extra);
    }
}

proof fn lemma_package_tools_consistent(
    c: ContextModel,
    respond: spec_fn(Seq<char>, Seq<Seq<char>>) -> Option<QueryResult>,
    k: int,
)
    requires
        first_tool_owner(c, respond, k) is Some,
    ensures
        is_record_owner(first_tool_owner(c, respond, k)->0.id),
        first_tool_owner(c, respond, k)->0.confidence == Confidence::Confirmed,
    decreases PACKAGE_TOOLS - k,
{
    if tool_answer(c, respond, k) is None {
        lemma_package_tools_consistent(c, respond, k + 1);
    }
}

proof fn lemma_platform_owner_consistent(
    c: ContextModel,
    respond: spec_fn(Seq<char>, Seq<Seq<char>>) -> Option<QueryResult>,
)
    requires
        platform_owner_spec(c, respond) is Some,
    ensures
        consistent_node(c, platform_owner_spec(c, respond)->0),
{
    match c.platform {
        Platform::Linux => {
            lemma_package_tools_consistent(c, respond, 0);
        },
        Platform::MacOs => {
            match python_framework_version_spec(candidate_paths(c)) {
                Some(v) => {
                    let package = "org.python.Python.PythonFramework-"@ + v;
                    let extra = seq![ev("pkgutil"@, "matching Python framework receipt "@ + package + " is installed"@)];
                    assert(context_evidence(c).push(extra[0]) =~= context_evidence(c) + extra);
                    lemma_context_node_consistent(
                        c,
                        OwnerId::PythonOrgInstaller,
                        Confidence::Probable,
                        Some(package),
                        Some(v),
                        extra,
                    );
                },
                None => {},
            }
        },
        Platform::Other => {},
    }
}

/// Detection run one query at a time gives a node whose confidence is
/// unknown exactly when the owner is unconfirmed, and an unconfirmed owner
/// comes with no update or removal command.
pub proof fn lemma_stepwise_detection_unknown_iff_unconfirmed(
    c: ContextModel,
    respond: spec_fn(Seq<char>, Seq<Seq<char>>) -> Option<QueryResult>,
)
    ensures
        run_steps(c, Pending::Start, None, respond, 5) is Some,
        ({
            let n = run_steps(c, Pending::Start, None, respond, 5)->0;
            &&& (n.confidence == Confidence::Unknown) == (n.id == OwnerId::UnconfirmedOwner)
            &&& n.id == OwnerId::UnconfirmedOwner ==> n.actions.update is None && n.actions.remove is None
        }),
{
    lemma_stepwise_detection_is_consistent(c, respond);
    let n = run_steps(c, Pending::Start, None, respond, 5)->0;
    if n.id == OwnerId::UnconfirmedOwner {
        lemma_unconfirmed_owners_suggest_no_changes(n.id, c.command, n.package, n.version, c.real_path, c.platform);
    }
}

/// Detection run one query at a time gives, for every owner other than a
/// package record, a node whose first evidence is the PATH entry and whose
/// guide is the owner's guide for the real path.
pub proof fn lemma_stepwise_detection_starts_from_the_path_entry(
    c: ContextModel,
    respond: spec_fn(Seq<char>, Seq<Seq<char>>) -> Option<QueryResult>,
)
    ensures
        run_steps(c, Pending::Start, None, respond, 5) is Some,
        ({
            let n = run_steps(c, Pending::Start, None, respond, 5)->0;
            !is_record_owner(n.id) ==> {
                &&& n.evidence.len() > 0
                &&& n.evidence[0] == ev("PATH"@, "PATH entry is "@ + c.path)
                &&& n.actions == guide_for(n.id, c.command, n.package, n.version, c.real_path, c.platform)
            }
        }),
{
    lemma_stepwise_detection_is_consistent(c, respond);
}

proof fn lemma_stepwise_detection_is_consistent(
    c: ContextModel,
    respond: spec_fn(Seq<char>, Seq<Seq<char>>) -> Option<QueryResult>,
)
    ensures
        run_steps(c, Pending::Start, None, respond, 5) is Some,
        consistent_node(c, run_steps(c, Pending::Start, None, respond, 5)->0),
{
    lemma_stepwise_detection_is_detection(c, respond);
    if detect_layout_spec(c) is Some {
        lemma_layout_consistent(c);
    } else if platform_owner_spec(c, respond) is Some {
        lemma_platform_owner_consistent(c, respond);
    } else {
        lemma_fallback_consistent(c);
        if under_macports(c) {
            match respond("port"@, seq!["-q"@, "provides"@, c.real_path]) {
                Some(r) => match macports_registry_spec(c, r) {
                    Some(n) => {
                        let line = first_line_spec(r->Ok_0.stdout@)->0;
                        let extra = seq![ev("port registry"@, "`port -q provides` reports: "@ + line)];
                        assert(context_evidence(c).push(extra[0]) =~= context_evidence(c) + extra);
                        lemma_context_node_consistent(
                            c,
                            OwnerId::MacPorts,
                            Confidence::Confirmed,
                            port_name_spec(line),
                            None,
                            extra,
                        );
                    },
                    None => {},
                },
                None => {},
            }
        }
    }
}

/// A node that one of the platform's package-record queries can give for
/// `c`: a Linux package tool's answer, an installer receipt for the final
/// target or the PATH entry, or the python.org framework receipt.
pub open spec fn is_record_node(c: ContextModel, n: NodeModel) -> bool {
    ||| exists|k: int, r: QueryResult|
        0 <= k < PACKAGE_TOOLS && #[trigger] linux_package_spec(
            tool_owner(k),
            tool_program(k),
            c.command,
            c.real_path,
            r,
            c.platform,
        ) == Some(n)
    ||| exists|r: QueryResult| #[trigger] macos_receipt_spec(c.command, c.real_path, r, c.platform) == Some(n)
    ||| exists|r: QueryResult| #[trigger] macos_receipt_spec(c.command, c.path, r, c.platform) == Some(n)
    ||| exists|v: Seq<char>, r: QueryResult|
        python_framework_version_spec(candidate_paths(c)) == Some(v) && #[trigger] python_org_spec(c, v, r) == Some(n)
}

proof fn lemma_record_node_consistent(c: ContextModel, n: NodeModel)
    requires
        is_record_node(c, n),
    ensures
        consistent_node(c, n),
{
    if exists|k: int, r: QueryResult|
        0 <= k < PACKAGE_TOOLS && #[trigger] linux_package_spec(
            tool_owner(k),
            tool_program(k),
            c.command,
            c.real_path,
            r,
            c.platform,
        ) == Some(n) {
        let (k, r) = choose|k: int, r: QueryResult|
            0 <= k < PACKAGE_TOOLS && #[trigger] linux_package_spec(
                tool_owner(k),
                tool_program(k),
                c.command,
                c.real_path,
                r,
                c.platform,
            ) == Some(n);
        assert(is_record_owner(tool_owner(k)));
    } else if exists|r: QueryResult| #[trigger] macos_receipt_spec(c.command, c.real_path, r, c.platform) == Some(n) {
    } else if exists|r: QueryResult| #[trigger] macos_receipt_spec(c.command, c.path, r, c.platform) == Some(n) {
    } else {
        let (v, r) = choose|v: Seq<char>, r: QueryResult|
            python_framework_version_spec(candidate_paths(c)) == Some(v) && #[trigger] python_org_spec(c, v, r)
                == Some(n);
        let package = "org.python.Python.PythonFramework-"@ + v;
        let extra = seq![ev("pkgutil"@, "matching Python framework receipt "@ + package + " is installed"@)];
        assert(context_evidence(c).push(extra[0]) =~= context_evidence(c) + extra);
        lemma_context_node_consistent(c, OwnerId::PythonOrgInstaller, Confidence::Probable, Some(package), Some(v), extra);
    }
}

proof fn lemma_detect_is_consistent(c: ContextModel, platform_owner: Option<NodeModel>)
    requires
        platform_owner matches Some(n) ==> is_record_node(c, n),
    ensures
        consistent_node(c, detect_spec(c, platform_owner)),
{
    if detect_layout_spec(c) is Some {
        lemma_layout_consistent(c);
    } else if platform_owner is Some {
        lemma_record_node_consistent(c, platform_owner->0);
    } else {
        lemma_fallback_consistent(c);
    }
}

/// Under `~/.cargo/bin/`, where no earlier path detector claims the
/// executable, the owner is rustup exactly for the toolchain's own commands
/// (`cargo`, `rustc`, `rustdoc`, `rustfmt`, `clippy-driver`), the rustup
/// installer exactly for `rustup`, and `cargo install` for anything else.
pub proof fn lemma_cargo_home_owner(c: ContextModel)
    requires
        any_contains(candidate_paths(c), "/.cargo/bin/"@),
        detect_nix_spec(c) is None,
        detect_homebrew_spec(c) is None,
        detect_path_manager_spec(c) is None,
    ensures
        detect_layout_spec(c) is Some,
        detect_spec(c, None) == detect_layout_spec(c)->0,
        (detect_layout_spec(c)->0.id == OwnerId::Rustup) == (c.command == "cargo"@ || c.command == "rustc"@
            || c.command == "rustdoc"@ || c.command == "rustfmt"@ || c.command == "clippy-driver"@),
        (detect_layout_spec(c)->0.id == OwnerId::RustupInstaller) == (c.command == "rustup"@),
        detect_layout_spec(c)->0.id == OwnerId::Rustup ==> ((detect_layout_spec(c)->0.confidence
            == Confidence::Confirmed) == ends_with_name(c.real_path, "rustup"@)),
        detect_layout_spec(c)->0.id != OwnerId::Rustup ==> detect_layout_spec(c)->0.confidence
            == Confidence::Probable,
        (detect_layout_spec(c)->0.id == OwnerId::CargoInstall) == !(c.command == "cargo"@ || c.command == "rustc"@
            || c.command == "rustdoc"@ || c.command == "rustfmt"@ || c.command == "clippy-driver"@ || c.command
            == "rustup"@),
{
    reveal_strlit("cargo");
    reveal_strlit("rustc");
    reveal_strlit("rustdoc");
    reveal_strlit("rustfmt");
    reveal_strlit("clippy-driver");
    reveal_strlit("rustup");
}

/// The version that a manager's query confirms is the one detection reads
/// from the path it answers: enriching an owner that had no version with an
/// answered path gives the version that detecting that path itself records
/// for the same manager; for fnm, whose query answers a version name, it is
/// that name without its leading `v`.
pub proof fn lemma_confirmed_version_is_the_answered_layout_version(
    n: NodeModel,
    command: Seq<char>,
    expected_path: Seq<char>,
    evidence: EvidenceModel,
    answer: Seq<char>,
    platform: Platform,
    at_answer: ContextModel,
)
    requires
        n.version is None,
        at_answer.path == answer,
        at_answer.real_path == answer,
        at_answer.link_target is None,
    ensures
        n.id != OwnerId::Fnm && n.id != OwnerId::Rustup && (detect_path_manager_spec(at_answer) matches Some(d) && d.id
            == n.id) ==> enrich_spec(n, command, expected_path, Some((Some(answer), evidence)), platform).version
            == detect_path_manager_spec(at_answer)->0.version,
        n.package is None && (detect_path_manager_spec(at_answer) matches Some(d) && d.id == n.id)
            ==> enrich_spec(n, command, expected_path, Some((Some(answer), evidence)), platform).package
            == detect_path_manager_spec(at_answer)->0.package,
        ({
            let e = enrich_spec(n, command, expected_path, Some((Some(answer), evidence)), platform);
            &&& e.id == n.id
            &&& e.confidence == n.confidence
            &&& e.evidence == n.evidence.push(evidence)
            &&& e.actions == guide_for(n.id, command, e.package, e.version, expected_path, platform)
        }),
        n.id == OwnerId::Fnm ==> enrich_spec(n, command, expected_path, Some((Some(answer), evidence)), platform).version
            == Some(trim_start_char(answer, 'v')),
        n.id == OwnerId::Rustup ==> enrich_spec(n, command, expected_path, Some((Some(answer), evidence)), platform).version
            == toolchain_spec(answer),
{
    let paths = candidate_paths(at_answer);
    assert(paths == seq![answer, answer]);
    let f = version_in_path(n.id);
    let one = seq![answer];
    assert(paths.drop_first() =~= one);
    assert(one.drop_first() =~= Seq::<Seq<char>>::empty());
    assert(first_some(one.drop_first(), f) is None);
    assert(version_for(n.id, paths) == version_for(n.id, one));
    let g = tool_in_path(tool_markers(n.id));
    assert(first_some(one.drop_first(), g) is None);
    assert(first_some(paths, g) == first_some(one, g));
}

/// An executable that no path detector, no package record and no operating
/// system or MacPorts prefix claims is reported as an unconfirmed owner, with
/// unknown confidence and no update or removal command.
pub proof fn lemma_unclaimed_executables_stay_unconfirmed(c: ContextModel)
    requires
        detect_layout_spec(c) is None,
        !any_starts_with(candidate_paths(c), os_prefixes()),
        !any_starts_with(candidate_paths(c), seq!["/opt/local/"@]),
    ensures
        detect_spec(c, None).id == OwnerId::UnconfirmedOwner,
        detect_spec(c, None).confidence == Confidence::Unknown,
        detect_spec(c, None).actions.update is None,
        detect_spec(c, None).actions.remove is None,
{
    owner::lemma_unconfirmed_owners_suggest_no_changes(
        OwnerId::UnconfirmedOwner,
        c.command,
        None,
        None,
        c.real_path,
        c.platform,
    );
}

/// A manager query that ran always leaves evidence on the owner it was meant
/// to confirm, whatever came of it, except for a successful, complete run
/// that printed nothing but whitespace.
pub proof fn lemma_every_manager_query_outcome_is_recorded(
    invocation: Seq<char>,
    result: QueryResult,
    expected_path: Seq<char>,
)
    ensures
        manager_query_spec(invocation, result, expected_path) is None <==> (result matches Ok(output)
            && output.success && !output.truncated && trim(output.stdout@).len() == 0),
{
}

} // verus!
