//! Building ownership graphs: one resolution per executable found, each with
//! an ordered, nearest-first owner chain.
use vstd::prelude::*;

use crate::detect::{ev, opt_node_view, unconfirmed_manager_source, unconfirmed_source_spec};
use crate::model::{
    Evidence, NodeModel, OwnerId, OwnerKind, OwnershipGraph, OwnershipNode, Resolution, ResolutionStatus,
    display_str, id_kind, node_views,
};
use crate::scan::ResolvedExecutable;
use crate::text::{concat3, concat5, opt_str, opt_view, owned, split_once, split_once_str};

verus! {

/// The part of `path` before the first `marker`.
pub open spec fn root_before_marker_spec(path: Seq<char>, marker: Seq<char>) -> Option<Seq<char>> {
    match split_once(path, marker) {
        Some(parts) => Some(parts.0),
        None => None,
    }
}

pub fn root_before_marker(path: &str, marker: &str) -> (r: Option<String>)
    ensures
        opt_view(r) == root_before_marker_spec(path@, marker@),
{
    match split_once_str(path, marker) {
        Some((root, _)) => Some(root),
        None => None,
    }
}

pub open spec fn or_else(a: Option<Seq<char>>, b: Option<Seq<char>>) -> Option<Seq<char>> {
    match a {
        Some(x) => Some(x),
        None => b,
    }
}

/// The nvm root a runtime lies under, else the one `$NVM_DIR` names.
pub fn nvm_root(runtime_path: &str, nvm_dir: Option<&str>) -> (r: Option<String>)
    ensures
        opt_view(r) == or_else(root_before_marker_spec(runtime_path@, "/versions/node/"@), opt_str(nvm_dir)),
{
    match root_before_marker(runtime_path, "/versions/node/") {
        Some(root) => Some(root),
        None => match nvm_dir {
            Some(d) => Some(owned(d)),
            None => None,
        },
    }
}

/// The SDKMAN! root a runtime lies under, else the one `$SDKMAN_DIR` names.
pub fn sdkman_root(runtime_path: &str, sdkman_dir: Option<&str>) -> (r: Option<String>)
    ensures
        opt_view(r) == or_else(root_before_marker_spec(runtime_path@, "/candidates/"@), opt_str(sdkman_dir)),
{
    match root_before_marker(runtime_path, "/candidates/") {
        Some(root) => Some(root),
        None => match sdkman_dir {
            Some(d) => Some(owned(d)),
            None => None,
        },
    }
}

/// How the next owner up a chain is looked for.
pub enum UpstreamPlan {
    /// The primary owner installs nothing that another owner manages.
    Nothing,
    /// The manager lives in a root directory; the root is inspected.
    Root { manager: OwnerId, root: Option<String> },
    /// The manager is an executable on PATH; that executable is inspected.
    Executable { manager: OwnerId, command: &'static str },
}

pub enum PlanModel {
    Nothing,
    Root { manager: OwnerId, root: Option<Seq<char>> },
    Executable { manager: OwnerId, command: Seq<char> },
}

pub open spec fn plan_view(p: UpstreamPlan) -> PlanModel {
    match p {
        UpstreamPlan::Nothing => PlanModel::Nothing,
        UpstreamPlan::Root { manager, root } => PlanModel::Root { manager, root: opt_view(root) },
        UpstreamPlan::Executable { manager, command } => PlanModel::Executable { manager, command: command@ },
    }
}

pub open spec fn upstream_plan_spec(
    primary: OwnerId,
    runtime_path: Seq<char>,
    nvm_dir: Option<Seq<char>>,
    sdkman_dir: Option<Seq<char>>,
) -> PlanModel {
    if id_kind(primary) != OwnerKind::VersionManager && id_kind(primary) != OwnerKind::ToolInstaller {
        PlanModel::Nothing
    } else if primary == OwnerId::Nvm {
        PlanModel::Root {
            manager: OwnerId::Nvm,
            root: or_else(root_before_marker_spec(runtime_path, "/versions/node/"@), nvm_dir),
        }
    } else if primary == OwnerId::Sdkman {
        PlanModel::Root {
            manager: OwnerId::Sdkman,
            root: or_else(root_before_marker_spec(runtime_path, "/candidates/"@), sdkman_dir),
        }
    } else {
        match crate::detect::owner::manager_executable_spec(primary) {
            Some(command) => PlanModel::Executable { manager: primary, command },
            None => PlanModel::Nothing,
        }
    }
}

/// Where to look for the owner of the manager that owns a runtime. Only
/// version managers and tool installers have one.
pub fn upstream_plan(
    primary: &OwnershipNode,
    runtime_path: &str,
    nvm_dir: Option<&str>,
    sdkman_dir: Option<&str>,
) -> (r: UpstreamPlan)
    ensures
        plan_view(r) == upstream_plan_spec(primary.id, runtime_path@, opt_str(nvm_dir), opt_str(sdkman_dir)),
{
    let kind = primary.kind();
    if kind != OwnerKind::VersionManager && kind != OwnerKind::ToolInstaller {
        return UpstreamPlan::Nothing;
    }
    if primary.id == OwnerId::Nvm {
        return UpstreamPlan::Root { manager: OwnerId::Nvm, root: nvm_root(runtime_path, nvm_dir) };
    }
    if primary.id == OwnerId::Sdkman {
        return UpstreamPlan::Root { manager: OwnerId::Sdkman, root: sdkman_root(runtime_path, sdkman_dir) };
    }
    match primary.id.manager_executable() {
        Some(command) => UpstreamPlan::Executable { manager: primary.id, command },
        None => UpstreamPlan::Nothing,
    }
}

/// The owner of a manager found at `location` (a root directory or an
/// executable), given what detection made of it there. A manager that
/// detection attributes to itself, or one not found, has an unconfirmed source.
pub open spec fn upstream_spec(
    manager: OwnerId,
    location: Option<Seq<char>>,
    detected: Option<NodeModel>,
) -> NodeModel {
    match location {
        None => unconfirmed_source_spec(manager, None),
        Some(place) => match detected {
            Some(n) => if n.id == manager {
                unconfirmed_source_spec(manager, Some(place))
            } else {
                n
            },
            None => unconfirmed_source_spec(manager, Some(place)),
        },
    }
}

pub fn upstream_owner(manager: OwnerId, location: Option<&str>, detected: Option<OwnershipNode>) -> (r: OwnershipNode)
    ensures
        r@ == upstream_spec(manager, opt_str(location), opt_node_view(detected)),
{
    match location {
        None => unconfirmed_manager_source(manager, None),
        Some(place) => match detected {
            Some(n) => {
                if n.id == manager {
                    unconfirmed_manager_source(manager, Some(place))
                } else {
                    n
                }
            },
            None => unconfirmed_manager_source(manager, Some(place)),
        },
    }
}

pub open spec fn status_of(active: bool) -> ResolutionStatus {
    if active {
        ResolutionStatus::Active
    } else {
        ResolutionStatus::Shadowed
    }
}

/// The chain of a resolution: the primary owner, then the upstream owner where there is one.
pub open spec fn chain_spec(primary: NodeModel, upstream: Option<NodeModel>) -> Seq<NodeModel> {
    match upstream {
        Some(u) => seq![primary, u],
        None => seq![primary],
    }
}

/// One PATH resolution and its owner chain, nearest owner first.
pub fn resolution(
    resolved: ResolvedExecutable,
    primary: OwnershipNode,
    upstream: Option<OwnershipNode>,
) -> (r: Resolution)
    ensures
        r.path@ == resolved.path@,
        r.real_path@ == resolved.real_path@,
        r.status == status_of(resolved.active),
        crate::model::node_views(r.owners@) == chain_spec(primary@, opt_node_view(upstream)),
{
    let ghost p = primary@;
    let mut owners: Vec<OwnershipNode> = Vec::new();
    owners.push(primary);
    match upstream {
        Some(u) => {
            owners.push(u);
        },
        None => {},
    }
    let status = if resolved.active {
        ResolutionStatus::Active
    } else {
        ResolutionStatus::Shadowed
    };
    let r = Resolution { path: resolved.path, real_path: resolved.real_path, status, owners };
    proof {
        assert(crate::model::node_views(r.owners@) =~= chain_spec(p, opt_node_view(upstream)));
    }
    r
}

// ---------------------------------------------------------------------------
// Following a chain upstream
// ---------------------------------------------------------------------------

/// A chain holds at most this many owners before traversal stops.
pub const MAX_CHAIN_OWNERS: usize = 8;

pub open spec fn chain_has(chain: Seq<NodeModel>, id: OwnerId) -> bool {
    exists|i: int| 0 <= i < chain.len() && (#[trigger] chain[i]).id == id
}

/// The end of a chain whose traversal stopped for the reason `detail` gives.
pub open spec fn stop_spec(manager: OwnerId, place: Seq<char>, detail: Seq<char>) -> NodeModel {
    let base = unconfirmed_source_spec(manager, Some(place));
    NodeModel { evidence: seq![ev("traversal"@, detail)], ..base }
}

/// Where the location of `manager` is owned by an owner already in the chain.
pub open spec fn cycle_stop_spec(manager: OwnerId, place: Seq<char>, repeated: OwnerId) -> NodeModel {
    if repeated == manager {
        unconfirmed_source_spec(manager, Some(place))
    } else {
        stop_spec(
            manager,
            place,
            display_str(manager) + " is located at "@ + place + ", which "@ + display_str(repeated)
                + " owns, and that owner already appears in this chain"@,
        )
    }
}

/// Where the chain already holds the most owners it may.
pub open spec fn long_stop_spec(manager: OwnerId, place: Seq<char>) -> NodeModel {
    stop_spec(
        manager,
        place,
        "the chain reached eight owners before the installation source of "@ + display_str(manager) + " at "@
            + place + " was found"@,
    )
}

/// A chain extended by what was found upstream of its last owner (the
/// manager): where the manager lies (`place`) and what detection made of it
/// there; and whether to keep going. The first step is the one-step chain of
/// `resolution`. Later, a manager that cannot be located ends the chain as it
/// stands; an owner already in the chain, or a ninth owner, ends it with an
/// unconfirmed source that says why.
pub open spec fn extend_spec(
    chain: Seq<NodeModel>,
    place: Option<Seq<char>>,
    detected: Option<NodeModel>,
) -> (Seq<NodeModel>, bool) {
    let manager = chain.last().id;
    match place {
        None => if chain.len() == 1 {
            (chain.push(unconfirmed_source_spec(manager, None)), false)
        } else {
            (chain, false)
        },
        Some(p) => match detected {
            None => (chain.push(unconfirmed_source_spec(manager, Some(p))), false),
            Some(n) => if chain_has(chain, n.id) {
                (chain.push(cycle_stop_spec(manager, p, n.id)), false)
            } else if chain.len() >= MAX_CHAIN_OWNERS {
                (chain.push(long_stop_spec(manager, p)), false)
            } else {
                (chain.push(n), n.id != OwnerId::UnconfirmedSource)
            },
        },
    }
}

fn chain_has_exec(owners: &Vec<OwnershipNode>, id: OwnerId) -> (r: bool)
    ensures
        r == chain_has(node_views(owners@), id),
{
    let ghost c = node_views(owners@);
    let mut i: usize = 0;
    while i < owners.len()
        invariant
            c == node_views(owners@),
            i <= owners@.len(),
            forall|j: int| 0 <= j < i ==> (#[trigger] c[j]).id != id,
        decreases owners@.len() - i,
    {
        if owners[i].id == id {
            proof {
                assert(c[i as int].id == id);
            }
            return true;
        }
        i = i + 1;
    }
    false
}

fn stop_node(manager: OwnerId, place: &str, detail: String) -> (r: OwnershipNode)
    ensures
        r@ == stop_spec(manager, place@, detail@),
{
    let mut r = unconfirmed_manager_source(manager, Some(place));
    let mut evidence: Vec<Evidence> = Vec::new();
    evidence.push(Evidence::new("traversal", detail));
    r.evidence = evidence;
    proof {
        assert(crate::model::evidence_views(r.evidence@) =~= seq![ev("traversal"@, detail@)]);
    }
    r
}

/// Extends `owners` by what was found upstream of its last owner: where that
/// manager lies (`place`), and what detection made of it there. Returns
/// whether the new last owner should be followed upstream in turn.
pub fn extend_chain(owners: &mut Vec<OwnershipNode>, place: Option<&str>, detected: Option<OwnershipNode>) -> (more: bool)
    requires
        old(owners)@.len() >= 1,
    ensures
        node_views(final(owners)@) == extend_spec(node_views(old(owners)@), opt_str(place), opt_node_view(detected)).0,
        more == extend_spec(node_views(old(owners)@), opt_str(place), opt_node_view(detected)).1,
{
    let ghost before = node_views(owners@);
    let manager = owners[owners.len() - 1].id;
    proof {
        assert(before.last().id == manager);
    }
    match place {
        None => {
            if owners.len() == 1 {
                owners.push(unconfirmed_manager_source(manager, None));
                proof {
                    assert(node_views(owners@) =~= before.push(unconfirmed_source_spec(manager, None)));
                }
            }
            false
        },
        Some(p) => match detected {
            None => {
                owners.push(unconfirmed_manager_source(manager, Some(p)));
                proof {
                    assert(node_views(owners@) =~= before.push(unconfirmed_source_spec(manager, Some(p@))));
                }
                false
            },
            Some(n) => {
                if chain_has_exec(owners, n.id) {
                    let stop = if n.id == manager {
                        unconfirmed_manager_source(manager, Some(p))
                    } else {
                        let mut detail = concat3(manager.display_name(), " is located at ", p);
                        detail.append(", which ");
                        detail.append(n.id.display_name());
                        detail.append(" owns, and that owner already appears in this chain");
                        stop_node(manager, p, detail)
                    };
                    owners.push(stop);
                    proof {
                        assert(node_views(owners@) =~= before.push(cycle_stop_spec(manager, p@, n@.id)));
                    }
                    false
                } else if owners.len() >= MAX_CHAIN_OWNERS {
                    let detail = concat5(
                        "the chain reached eight owners before the installation source of ",
                        manager.display_name(),
                        " at ",
                        p,
                        " was found",
                    );
                    owners.push(stop_node(manager, p, detail));
                    proof {
                        assert(node_views(owners@) =~= before.push(long_stop_spec(manager, p@)));
                    }
                    false
                } else {
                    let more = n.id != OwnerId::UnconfirmedSource;
                    let ghost nv = n@;
                    owners.push(n);
                    proof {
                        assert(node_views(owners@) =~= before.push(nv));
                    }
                    more
                }
            },
        },
    }
}

/// One PATH resolution with a whole owner chain, nearest owner first.
pub fn chain_resolution(resolved: ResolvedExecutable, owners: Vec<OwnershipNode>) -> (r: Resolution)
    ensures
        r.path@ == resolved.path@,
        r.real_path@ == resolved.real_path@,
        r.status == status_of(resolved.active),
        r.owners@ == owners@,
{
    let status = if resolved.active {
        ResolutionStatus::Active
    } else {
        ResolutionStatus::Shadowed
    };
    Resolution { path: resolved.path, real_path: resolved.real_path, status, owners }
}

/// A runtime owned by a manager that is itself a program on PATH is followed
/// upstream by looking that program up; nvm and SDKMAN! are followed through
/// their root directory; a package manager, an installer or the operating
/// system is where a chain ends.
pub proof fn lemma_managers_are_followed_upstream(
    runtime_path: Seq<char>,
    nvm_dir: Option<Seq<char>>,
    sdkman_dir: Option<Seq<char>>,
)
    ensures
        upstream_plan_spec(OwnerId::Fnm, runtime_path, nvm_dir, sdkman_dir) == (PlanModel::Executable {
            manager: OwnerId::Fnm,
            command: "fnm"@,
        }),
        upstream_plan_spec(OwnerId::Volta, runtime_path, nvm_dir, sdkman_dir) == (PlanModel::Executable {
            manager: OwnerId::Volta,
            command: "volta"@,
        }),
        upstream_plan_spec(OwnerId::Mise, runtime_path, nvm_dir, sdkman_dir) == (PlanModel::Executable {
            manager: OwnerId::Mise,
            command: "mise"@,
        }),
        upstream_plan_spec(OwnerId::Asdf, runtime_path, nvm_dir, sdkman_dir) == (PlanModel::Executable {
            manager: OwnerId::Asdf,
            command: "asdf"@,
        }),
        upstream_plan_spec(OwnerId::Pyenv, runtime_path, nvm_dir, sdkman_dir) == (PlanModel::Executable {
            manager: OwnerId::Pyenv,
            command: "pyenv"@,
        }),
        upstream_plan_spec(OwnerId::Rbenv, runtime_path, nvm_dir, sdkman_dir) == (PlanModel::Executable {
            manager: OwnerId::Rbenv,
            command: "rbenv"@,
        }),
        upstream_plan_spec(OwnerId::Uv, runtime_path, nvm_dir, sdkman_dir) == (PlanModel::Executable {
            manager: OwnerId::Uv,
            command: "uv"@,
        }),
        upstream_plan_spec(OwnerId::Rustup, runtime_path, nvm_dir, sdkman_dir) == (PlanModel::Executable {
            manager: OwnerId::Rustup,
            command: "rustup"@,
        }),
        upstream_plan_spec(OwnerId::CargoInstall, runtime_path, nvm_dir, sdkman_dir) == (PlanModel::Executable {
            manager: OwnerId::CargoInstall,
            command: "cargo"@,
        }),
        upstream_plan_spec(OwnerId::Nvm, runtime_path, nvm_dir, sdkman_dir) is Root,
        upstream_plan_spec(OwnerId::Sdkman, runtime_path, nvm_dir, sdkman_dir) is Root,
        upstream_plan_spec(OwnerId::Homebrew, runtime_path, nvm_dir, sdkman_dir) is Nothing,
        upstream_plan_spec(OwnerId::RustupInstaller, runtime_path, nvm_dir, sdkman_dir) is Nothing,
        upstream_plan_spec(OwnerId::MacosInstaller, runtime_path, nvm_dir, sdkman_dir) is Nothing,
        upstream_plan_spec(OwnerId::OperatingSystem, runtime_path, nvm_dir, sdkman_dir) is Nothing,
{
    crate::detect::owner::lemma_managers_name_their_executables();
}

/// The first step from a lone owner gives the chain that `resolution`
/// builds from its upstream owner.
pub proof fn lemma_first_step_is_one_step_chain(primary: NodeModel, place: Option<Seq<char>>, detected: Option<NodeModel>)
    ensures
        extend_spec(seq![primary], place, detected).0 == chain_spec(
            primary,
            Some(upstream_spec(primary.id, place, detected)),
        ),
{
    let c = seq![primary];
    assert(c.last() == primary);
    match (place, detected) {
        (Some(p), Some(n)) => {
            if chain_has(c, n.id) {
                assert(c[0].id == n.id);
            } else {
                assert(!(c[0].id == n.id));
            }
        },
        _ => {},
    }
}

/// Following a chain stops: a step that asks to go on adds exactly one owner
/// and leaves at most eight; a step that stops after adding a node ends the
/// chain with an unconfirmed source; and a chain whose owners are distinct
/// stays so while it goes on.
pub proof fn lemma_chain_steps_are_bounded(chain: Seq<NodeModel>, place: Option<Seq<char>>, detected: Option<NodeModel>)
    requires
        1 <= chain.len() <= MAX_CHAIN_OWNERS,
    ensures
        ({
            let (next, more) = extend_spec(chain, place, detected);
            &&& next.len() <= chain.len() + 1
            &&& next.take(chain.len() as int) == chain
            &&& more ==> next.len() == chain.len() + 1 && next.len() <= MAX_CHAIN_OWNERS
            &&& !more && next.len() == chain.len() + 1 ==> next.last().id == OwnerId::UnconfirmedSource
            &&& more && (forall|i: int, j: int|
                0 <= i < j < chain.len() ==> (#[trigger] chain[i]).id != (#[trigger] chain[j]).id) ==> (forall|
                i: int,
                j: int,
            | 0 <= i < j < next.len() ==> (#[trigger] next[i]).id != (#[trigger] next[j]).id)
        }),
{
    let (next, more) = extend_spec(chain, place, detected);
    assert(chain.push(chain.last()).take(chain.len() as int) =~= chain);
    if next.len() == chain.len() + 1 {
        assert(next.take(chain.len() as int) =~= chain);
    } else {
        assert(next =~= chain);
        assert(next.take(chain.len() as int) =~= chain);
    }
    if more {
        let n = detected->0;
        assert(!chain_has(chain, n.id));
        assert(next == chain.push(n));
        assert forall|i: int, j: int|
            0 <= i < j < next.len() && (forall|a: int, b: int|
                0 <= a < b < chain.len() ==> (#[trigger] chain[a]).id != (#[trigger] chain[b]).id) implies (#[trigger] next[i]).id
            != (#[trigger] next[j]).id by {
            if j == chain.len() {
                assert(next[i] == chain[i]);
                assert(next[j] == n);
            } else {
                assert(next[i] == chain[i]);
                assert(next[j] == chain[j]);
            }
        }
    }
}

pub fn graph(command: &str, resolutions: Vec<Resolution>) -> (r: OwnershipGraph)
    ensures
        r.command@ == command@,
        r.resolutions@ == resolutions@,
{
    OwnershipGraph { command: owned(command), resolutions }
}

/// The graphs of commands that were found at all.
pub open spec fn found_only(s: Seq<OwnershipGraph>) -> Seq<OwnershipGraph>
    decreases s.len(),
{
    if s.len() == 0 {
        s
    } else {
        let head = if s[0].resolutions@.len() > 0 {
            seq![s[0]]
        } else {
            Seq::<OwnershipGraph>::empty()
        };
        head + found_only(s.drop_first())
    }
}

/// The summary keeps every graph with `show_missing`, else only those of
/// commands found on PATH; the order is kept.
pub fn retain_found(graphs: Vec<OwnershipGraph>, show_missing: bool) -> (r: Vec<OwnershipGraph>)
    ensures
        show_missing ==> r@ == graphs@,
        !show_missing ==> r@ == found_only(graphs@),
{
    if show_missing {
        return graphs;
    }
    let ghost all = graphs@;
    let mut rest = graphs;
    let mut r: Vec<OwnershipGraph> = Vec::new();
    proof {
        assert(r@ + found_only(rest@) =~= found_only(all));
    }
    while rest.len() > 0
        invariant
            r@ + found_only(rest@) == found_only(all),
        decreases rest@.len(),
    {
        let ghost before_rest = rest@;
        let ghost before = r@;
        let g = rest.remove(0);
        proof {
            assert(rest@ =~= before_rest.drop_first());
            assert(g == before_rest[0]);
        }
        if g.resolutions.len() > 0 {
            r.push(g);
            proof {
                assert(r@ + found_only(rest@) =~= before + found_only(before_rest));
            }
        } else {
            proof {
                assert(r@ + found_only(rest@) =~= before + found_only(before_rest));
            }
        }
    }
    proof {
        assert(found_only(rest@) =~= Seq::<OwnershipGraph>::empty());
        assert(r@ =~= found_only(all));
    }
    r
}

/// A graph that the summary keeps without `show_missing` has a resolution,
/// and every graph with one is kept.
pub proof fn lemma_summary_keeps_exactly_found_commands(s: Seq<OwnershipGraph>, g: OwnershipGraph)
    ensures
        found_only(s).contains(g) <==> (s.contains(g) && g.resolutions@.len() > 0),
    decreases s.len(),
{
    if s.len() > 0 {
        lemma_summary_keeps_exactly_found_commands(s.drop_first(), g);
        let head = if s[0].resolutions@.len() > 0 {
            seq![s[0]]
        } else {
            Seq::<OwnershipGraph>::empty()
        };
        assert(found_only(s) == head + found_only(s.drop_first()));
        if s.contains(g) {
            let i = choose|i: int| 0 <= i < s.len() && s[i] == g;
            if i > 0 {
                assert(s.drop_first()[i - 1] == g);
            }
        }
        if s.drop_first().contains(g) {
            let i = choose|i: int| 0 <= i < s.drop_first().len() && s.drop_first()[i] == g;
            assert(s[i + 1] == g);
        }
        if found_only(s).contains(g) {
            let i = choose|i: int| 0 <= i < found_only(s).len() && found_only(s)[i] == g;
            if i >= head.len() {
                assert(found_only(s.drop_first())[i - head.len()] == g);
            }
        }
        if s.contains(g) && g.resolutions@.len() > 0 {
            if s[0] == g {
                assert(found_only(s)[0] == g);
            } else {
                let i = choose|i: int| 0 <= i < found_only(s.drop_first()).len() && found_only(s.drop_first())[i] == g;
                assert(found_only(s)[i + head.len()] == g);
            }
        }
    }
}

} // verus!
