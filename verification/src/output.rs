//! The text and JSON renderings of ownership graphs.
use vstd::prelude::*;

use crate::model::{
    ActionGuide, Evidence, EvidenceModel, GuideModel, NodeModel, OwnershipGraph, OwnershipNode,
    Resolution, ResolutionStatus, confidence_str, display_str, evidence_views, first_active_from, id_kind, id_str,
    kind_str, node_views, shadowed_in, status_str,
};
use crate::path::{same_path, same_path_exec};
use crate::text::{chars_of, concat2, concat3, concat4, opt_view, owned, substring, views};
use vstd::seq_lib::lemma_concat_associative;

verus! {

// ---------------------------------------------------------------------------
// Digits, numbers, padding
// ---------------------------------------------------------------------------

/// The lowercase hexadecimal digit for `d`.
pub open spec fn hex_digit(d: nat) -> char {
    "0123456789abcdef"@[d as int]
}

/// The digit for `d` (below sixteen), as a one-character string.
pub fn digit(d: usize) -> (r: String)
    requires
        d < 16,
    ensures
        r@ == seq![hex_digit(d as nat)],
{
    proof {
        reveal_strlit("0123456789abcdef");
    }
    let r = substring("0123456789abcdef", d, d + 1);
    assert(r@ =~= seq![hex_digit(d as nat)]);
    r
}

/// `n` in decimal.
pub open spec fn decimal(n: nat) -> Seq<char>
    decreases n,
{
    if n < 10 {
        seq![hex_digit(n)]
    } else {
        decimal(n / 10).push(hex_digit(n % 10))
    }
}

pub fn decimal_exec(n: usize) -> (r: String)
    ensures
        r@ == decimal(n as nat),
    decreases n,
{
    if n < 10 {
        digit(n)
    } else {
        let mut r = decimal_exec(n / 10);
        let d = digit(n % 10);
        r.append(d.as_str());
        r
    }
}

/// `n` spaces.
pub open spec fn spaces(n: nat) -> Seq<char> {
    Seq::new(n, |i: int| ' ')
}

pub fn spaces_exec(n: usize) -> (r: String)
    ensures
        r@ == spaces(n as nat),
{
    let mut r = String::new();
    let mut i: usize = 0;
    while i < n
        invariant
            i <= n,
            r@ == spaces(i as nat),
        decreases n - i,
    {
        r.append(" ");
        proof {
            reveal_strlit(" ");
            assert(r@ =~= spaces((i + 1) as nat));
        }
        i = i + 1;
    }
    r
}

/// `s` padded with spaces to `width` characters, as `{:<width$}` writes it.
pub open spec fn pad(s: Seq<char>, width: nat) -> Seq<char> {
    if s.len() < width {
        s + spaces((width - s.len()) as nat)
    } else {
        s
    }
}

pub fn pad_exec(s: &str, width: usize) -> (r: String)
    ensures
        r@ == pad(s@, width as nat),
{
    let n = s.unicode_len();
    let mut r = owned(s);
    if n < width {
        r.append(spaces_exec(width - n).as_str());
    }
    r
}

// ---------------------------------------------------------------------------
// Text
// ---------------------------------------------------------------------------

pub open spec fn chain_link(n: NodeModel) -> Seq<char> {
    display_str(n.id) + " ["@ + confidence_str(n.confidence) + "]"@
}

pub open spec fn join_links(owners: Seq<NodeModel>) -> Seq<char>
    decreases owners.len(),
{
    if owners.len() == 0 {
        Seq::<char>::empty()
    } else if owners.len() == 1 {
        chain_link(owners[0])
    } else {
        join_links(owners.drop_last()) + " → "@ + chain_link(owners.last())
    }
}

/// The chain of owners as one line: `name [confidence] → ...`.
pub open spec fn owner_chain_spec(owners: Seq<NodeModel>) -> Seq<char> {
    if owners.len() == 0 {
        "unconfirmed owner [unknown]"@
    } else {
        join_links(owners)
    }
}

pub fn owner_chain(resolution: &Resolution) -> (r: String)
    ensures
        r@ == owner_chain_spec(node_views(resolution.owners@)),
{
    let owners = &resolution.owners;
    if owners.len() == 0 {
        return owned("unconfirmed owner [unknown]");
    }
    let ghost ns = node_views(owners@);
    let mut r = String::new();
    let mut i: usize = 0;
    proof {
        assert(ns.take(0) =~= Seq::<NodeModel>::empty());
    }
    while i < owners.len()
        invariant
            ns == node_views(owners@),
            i <= owners@.len(),
            r@ == join_links(ns.take(i as int)),
        decreases owners@.len() - i,
    {
        let n = &owners[i];
        proof {
            assert(ns.take(i + 1).drop_last() =~= ns.take(i as int));
            assert(ns.take(i + 1).last() == n@);
        }
        if i > 0 {
            r.append(" → ");
        } else {
            proof {
                assert(ns.take(1) =~= seq![n@]);
            }
        }
        r.append(n.display_name());
        r.append(" [");
        r.append(n.confidence.as_str());
        r.append("]");
        i = i + 1;
    }
    proof {
        assert(ns.take(owners@.len() as int) =~= ns);
    }
    r
}

// ---------------------------------------------------------------------------
// Text trees
// ---------------------------------------------------------------------------

/// A line of a tree with lines of its own below it.
pub struct SubModel {
    pub label: Seq<char>,
    pub leaves: Seq<Seq<char>>,
}

/// A line of a tree with sub-trees below it.
pub struct ItemModel {
    pub label: Seq<char>,
    pub subs: Seq<SubModel>,
}

/// One line of a tree: the branch mark of the last child or of another.
pub open spec fn branch(prefix: Seq<char>, last: bool, label: Seq<char>) -> Seq<char> {
    prefix + (if last {
        "└── "@
    } else {
        "├── "@
    }) + label + "\n"@
}

/// The prefix of the lines below a branch.
pub open spec fn deeper(prefix: Seq<char>, last: bool) -> Seq<char> {
    prefix + if last {
        "    "@
    } else {
        "│   "@
    }
}

/// The first `k` of `ls` as branches, the last of `ls` closing the list.
pub open spec fn leaves_text(prefix: Seq<char>, ls: Seq<Seq<char>>, k: int) -> Seq<char>
    decreases k,
{
    if k <= 0 || k > ls.len() {
        Seq::<char>::empty()
    } else {
        leaves_text(prefix, ls, k - 1) + branch(prefix, k == ls.len(), ls[k - 1])
    }
}

pub open spec fn sub_text(prefix: Seq<char>, last: bool, s: SubModel) -> Seq<char> {
    branch(prefix, last, s.label) + leaves_text(deeper(prefix, last), s.leaves, s.leaves.len() as int)
}

pub open spec fn subs_text(prefix: Seq<char>, ss: Seq<SubModel>, k: int) -> Seq<char>
    decreases k,
{
    if k <= 0 || k > ss.len() {
        Seq::<char>::empty()
    } else {
        subs_text(prefix, ss, k - 1) + sub_text(prefix, k == ss.len(), ss[k - 1])
    }
}

pub open spec fn item_text(prefix: Seq<char>, last: bool, it: ItemModel) -> Seq<char> {
    branch(prefix, last, it.label) + subs_text(deeper(prefix, last), it.subs, it.subs.len() as int)
}

pub open spec fn items_text(prefix: Seq<char>, its: Seq<ItemModel>, k: int) -> Seq<char>
    decreases k,
{
    if k <= 0 || k > its.len() {
        Seq::<char>::empty()
    } else {
        items_text(prefix, its, k - 1) + item_text(prefix, k == its.len(), its[k - 1])
    }
}

struct TextSub {
    label: String,
    leaves: Vec<String>,
}

struct TextItem {
    label: String,
    subs: Vec<TextSub>,
}

spec fn sub_view(s: TextSub) -> SubModel {
    SubModel { label: s.label@, leaves: views(s.leaves@) }
}

spec fn subs_view(v: Seq<TextSub>) -> Seq<SubModel> {
    v.map_values(|s: TextSub| sub_view(s))
}

spec fn item_view(i: TextItem) -> ItemModel {
    ItemModel { label: i.label@, subs: subs_view(i.subs@) }
}

spec fn items_view(v: Seq<TextItem>) -> Seq<ItemModel> {
    v.map_values(|i: TextItem| item_view(i))
}

fn branch_str(prefix: &str, last: bool, label: &str) -> (r: String)
    ensures
        r@ == branch(prefix@, last, label@),
{
    let mut r = owned(prefix);
    if last {
        r.append("└── ");
    } else {
        r.append("├── ");
    }
    r.append(label);
    r.append("\n");
    r
}

fn deeper_str(prefix: &str, last: bool) -> (r: String)
    ensures
        r@ == deeper(prefix@, last),
{
    if last {
        concat2(prefix, "    ")
    } else {
        concat2(prefix, "│   ")
    }
}

fn leaves_str(prefix: &str, ls: &Vec<String>) -> (r: String)
    ensures
        r@ == leaves_text(prefix@, views(ls@), ls@.len() as int),
{
    let ghost vs = views(ls@);
    let mut out = String::new();
    let mut i: usize = 0;
    while i < ls.len()
        invariant
            vs == views(ls@),
            vs.len() == ls@.len(),
            i <= ls@.len(),
            out@ == leaves_text(prefix@, vs, i as int),
        decreases ls@.len() - i,
    {
        out.append(branch_str(prefix, i + 1 == ls.len(), ls[i].as_str()).as_str());
        i = i + 1;
    }
    out
}

fn sub_str(prefix: &str, last: bool, s: &TextSub) -> (r: String)
    ensures
        r@ == sub_text(prefix@, last, sub_view(*s)),
{
    let mut r = branch_str(prefix, last, s.label.as_str());
    let inner = deeper_str(prefix, last);
    r.append(leaves_str(inner.as_str(), &s.leaves).as_str());
    r
}

fn subs_str(prefix: &str, ss: &Vec<TextSub>) -> (r: String)
    ensures
        r@ == subs_text(prefix@, subs_view(ss@), ss@.len() as int),
{
    let ghost vs = subs_view(ss@);
    let mut out = String::new();
    let mut i: usize = 0;
    while i < ss.len()
        invariant
            vs == subs_view(ss@),
            vs.len() == ss@.len(),
            i <= ss@.len(),
            out@ == subs_text(prefix@, vs, i as int),
        decreases ss@.len() - i,
    {
        out.append(sub_str(prefix, i + 1 == ss.len(), &ss[i]).as_str());
        i = i + 1;
    }
    out
}

fn item_str(prefix: &str, last: bool, it: &TextItem) -> (r: String)
    ensures
        r@ == item_text(prefix@, last, item_view(*it)),
{
    let mut r = branch_str(prefix, last, it.label.as_str());
    let inner = deeper_str(prefix, last);
    r.append(subs_str(inner.as_str(), &it.subs).as_str());
    r
}

fn items_str(prefix: &str, its: &Vec<TextItem>) -> (r: String)
    ensures
        r@ == items_text(prefix@, items_view(its@), its@.len() as int),
{
    let ghost vs = items_view(its@);
    let mut out = String::new();
    let mut i: usize = 0;
    while i < its.len()
        invariant
            vs == items_view(its@),
            vs.len() == its@.len(),
            i <= its@.len(),
            out@ == items_text(prefix@, vs, i as int),
        decreases its@.len() - i,
    {
        out.append(item_str(prefix, i + 1 == its.len(), &its[i]).as_str());
        i = i + 1;
    }
    out
}

// ---------------------------------------------------------------------------
// What the individual view shows of a resolution
// ---------------------------------------------------------------------------

pub open spec fn leaf(label: Seq<char>) -> SubModel {
    SubModel { label, leaves: Seq::empty() }
}

pub open spec fn plain(label: Seq<char>) -> ItemModel {
    ItemModel { label, subs: Seq::empty() }
}

pub open spec fn opt_labels(label: Seq<char>, value: Option<Seq<char>>) -> Seq<Seq<char>> {
    match value {
        Some(v) => seq![label + v],
        None => Seq::empty(),
    }
}

/// The lines of an action guide that are present, in order.
pub open spec fn action_lines(a: GuideModel) -> Seq<Seq<char>> {
    opt_labels("inspect: "@, a.inspect) + opt_labels("update: "@, a.update) + opt_labels("remove: "@, a.remove)
        + opt_labels("note: "@, a.note)
}

pub open spec fn evidence_line(e: EvidenceModel) -> Seq<char> {
    e.source + ": "@ + e.detail
}

/// An owner in detail: kind, package, version, evidence and actions.
pub open spec fn owner_item(index: nat, n: NodeModel) -> ItemModel {
    let kind = kind_str(id_kind(n.id));
    ItemModel {
        label: "owner["@ + decimal(index + 1) + "]: "@ + display_str(n.id) + " ("@ + kind + ", "@
            + confidence_str(n.confidence) + ")"@,
        subs: seq![leaf("kind: "@ + kind)] + opt_labels("package: "@, n.package).map_values(
            |l: Seq<char>| leaf(l),
        ) + opt_labels("version: "@, n.version).map_values(|l: Seq<char>| leaf(l)) + (if n.evidence.len()
            > 0 {
            seq![SubModel { label: "evidence"@, leaves: n.evidence.map_values(|e: EvidenceModel| evidence_line(e)) }]
        } else {
            Seq::empty()
        }) + (if action_lines(n.actions).len() > 0 {
            seq![SubModel { label: "actions"@, leaves: action_lines(n.actions) }]
        } else {
            Seq::empty()
        }),
    }
}

pub open spec fn hint_line() -> Seq<char> {
    "hint: use --explain to see how the manager itself was installed"@
}

/// The lines below a resolution: the executable, where it resolves to, the
/// ownership chain, and either every owner in detail (`explain`) or the
/// nearest owner's actions.
pub open spec fn resolution_items(command: Seq<char>, r: Resolution, explain: bool) -> Seq<ItemModel> {
    let owners = node_views(r.owners@);
    let ownership = "ownership: "@ + command + " → "@ + owner_chain_spec(owners);
    seq![plain("executable: "@ + r.path@)] + (if !same_path(r.path@, r.real_path@) {
        seq![plain("resolves to: "@ + r.real_path@)]
    } else {
        Seq::empty()
    }) + if explain {
        seq![ItemModel { label: ownership, subs: owners.map_values(|n: NodeModel| leaf(chain_link(n))) }]
            + Seq::new(owners.len(), |k: int| owner_item(k as nat, owners[k]))
    } else {
        seq![plain(ownership)] + (if owners.len() > 0 && action_lines(owners[0].actions).len() > 0 {
            seq![ItemModel {
                label: "actions ("@ + display_str(owners[0].id) + ")"@,
                subs: action_lines(owners[0].actions).map_values(|l: Seq<char>| leaf(l)),
            }]
        } else {
            Seq::empty()
        }) + if owners.len() > 1 {
            seq![plain(hint_line())]
        } else {
            Seq::empty()
        }
    }
}

pub open spec fn status_mark(r: Resolution) -> Seq<char> {
    match r.status {
        ResolutionStatus::Active => "● "@,
        ResolutionStatus::Shadowed => "○ "@,
    }
}

/// A resolution as a branch of its command's tree.
pub open spec fn resolution_text(command: Seq<char>, r: Resolution, last: bool, explain: bool) -> Seq<char> {
    let items = resolution_items(command, r, explain);
    branch(Seq::empty(), last, status_mark(r) + status_str(r.status)) + items_text(
        deeper(Seq::empty(), last),
        items,
        items.len() as int,
    )
}

pub open spec fn resolutions_text(command: Seq<char>, rs: Seq<Resolution>, explain: bool, k: int) -> Seq<char>
    decreases k,
{
    if k <= 0 || k > rs.len() {
        Seq::<char>::empty()
    } else {
        resolutions_text(command, rs, explain, k - 1) + resolution_text(command, rs[k - 1], k == rs.len(), explain)
    }
}

/// A command's tree: the command, then its active and shadowed resolutions.
pub open spec fn graph_text(g: OwnershipGraph, explain: bool) -> Seq<char> {
    g.command@ + "\n"@ + if g.resolutions@.len() == 0 {
        branch(Seq::empty(), true, "not found in PATH"@)
    } else {
        resolutions_text(g.command@, g.resolutions@, explain, g.resolutions@.len() as int)
    }
}

fn push_label(v: &mut Vec<String>, label: &str, value: &Option<String>)
    ensures
        views(final(v)@) == views(old(v)@) + opt_labels(label@, opt_view(*value)),
{
    let ghost before = views(v@);
    match value {
        Some(x) => {
            v.push(concat2(label, x.as_str()));
            proof {
                assert(views(v@) =~= before + opt_labels(label@, opt_view(*value)));
            }
        },
        None => {
            proof {
                assert(views(v@) =~= before + opt_labels(label@, opt_view(*value)));
            }
        },
    }
}

fn action_lines_vec(a: &ActionGuide) -> (r: Vec<String>)
    ensures
        views(r@) == action_lines(a@),
{
    let mut r: Vec<String> = Vec::new();
    proof {
        assert(views(r@) =~= Seq::<Seq<char>>::empty());
    }
    push_label(&mut r, "inspect: ", &a.inspect);
    push_label(&mut r, "update: ", &a.update);
    push_label(&mut r, "remove: ", &a.remove);
    push_label(&mut r, "note: ", &a.note);
    proof {
        assert(Seq::<Seq<char>>::empty() + opt_labels("inspect: "@, a@.inspect) =~= opt_labels(
            "inspect: "@,
            a@.inspect,
        ));
    }
    r
}

fn leaf_subs(ls: Vec<String>) -> (r: Vec<TextSub>)
    ensures
        subs_view(r@) == views(ls@).map_values(|l: Seq<char>| leaf(l)),
{
    let ghost target = views(ls@).map_values(|l: Seq<char>| leaf(l));
    let mut r: Vec<TextSub> = Vec::new();
    let mut i: usize = 0;
    while i < ls.len()
        invariant
            target == views(ls@).map_values(|l: Seq<char>| leaf(l)),
            i <= ls@.len(),
            r@.len() == i,
            subs_view(r@) == target.take(i as int),
        decreases ls@.len() - i,
    {
        let ghost prev = subs_view(r@);
        let label = ls[i].clone();
        r.push(TextSub { label, leaves: Vec::new() });
        proof {
            assert(views(r@[i as int].leaves@) =~= Seq::<Seq<char>>::empty());
            assert(sub_view(r@[i as int]) == leaf(views(ls@)[i as int]));
            assert(subs_view(r@) =~= prev.push(leaf(views(ls@)[i as int])));
            assert(target.take(i + 1) =~= target.take(i as int).push(target[i as int]));
        }
        i = i + 1;
    }
    proof {
        assert(target.take(ls@.len() as int) =~= target);
    }
    r
}

fn evidence_lines_vec(evidence: &Vec<Evidence>) -> (r: Vec<String>)
    ensures
        views(r@) == evidence_views(evidence@).map_values(|e: EvidenceModel| evidence_line(e)),
{
    let ghost target = evidence_views(evidence@).map_values(|e: EvidenceModel| evidence_line(e));
    let mut r: Vec<String> = Vec::new();
    let mut i: usize = 0;
    while i < evidence.len()
        invariant
            target == evidence_views(evidence@).map_values(|e: EvidenceModel| evidence_line(e)),
            i <= evidence@.len(),
            views(r@) == target.take(i as int),
        decreases evidence@.len() - i,
    {
        let ghost prev = views(r@);
        r.push(concat3(evidence[i].source.as_str(), ": ", evidence[i].detail.as_str()));
        proof {
            assert(evidence_views(evidence@)[i as int] == evidence@[i as int]@);
            assert(views(r@) =~= prev.push(evidence_line(evidence@[i as int]@)));
            assert(target.take(i + 1) =~= target.take(i as int).push(target[i as int]));
        }
        i = i + 1;
    }
    proof {
        assert(target.take(evidence@.len() as int) =~= target);
    }
    r
}

fn owner_item_exec(index: usize, owner: &OwnershipNode) -> (r: TextItem)
    requires
        index < usize::MAX,
    ensures
        item_view(r) == owner_item(index as nat, owner@),
{
    let mut label = owned("owner[");
    label.append(decimal_exec(index + 1).as_str());
    label.append("]: ");
    label.append(owner.display_name());
    label.append(" (");
    label.append(owner.kind().as_str());
    label.append(", ");
    label.append(owner.confidence.as_str());
    label.append(")");
    let mut subs: Vec<TextSub> = Vec::new();
    subs.push(TextSub { label: concat2("kind: ", owner.kind().as_str()), leaves: Vec::new() });
    let mut details: Vec<String> = Vec::new();
    push_label(&mut details, "package: ", &owner.package);
    push_label(&mut details, "version: ", &owner.version);
    let ghost first = subs_view(subs@);
    let ghost detail_views = views(details@);
    let mut more = leaf_subs(details);
    subs.append(&mut more);
    let ghost with_details = subs_view(subs@);
    proof {
        assert(views(subs@[0].leaves@) =~= Seq::<Seq<char>>::empty());
        assert(with_details =~= first + detail_views.map_values(|l: Seq<char>| leaf(l)));
        assert(detail_views.map_values(|l: Seq<char>| leaf(l)) =~= opt_labels(
            "package: "@,
            owner@.package,
        ).map_values(|l: Seq<char>| leaf(l)) + opt_labels("version: "@, owner@.version).map_values(
            |l: Seq<char>| leaf(l),
        ));
    }
    if owner.evidence.len() > 0 {
        subs.push(TextSub { label: owned("evidence"), leaves: evidence_lines_vec(&owner.evidence) });
    }
    let ghost with_evidence = subs_view(subs@);
    let actions = action_lines_vec(&owner.actions);
    if actions.len() > 0 {
        subs.push(TextSub { label: owned("actions"), leaves: actions });
    }
    let r = TextItem { label, subs };
    proof {
        let n = owner@;
        let ev_part = if n.evidence.len() > 0 {
            seq![SubModel { label: "evidence"@, leaves: n.evidence.map_values(|e: EvidenceModel| evidence_line(e)) }]
        } else {
            Seq::<SubModel>::empty()
        };
        let act_part = if action_lines(n.actions).len() > 0 {
            seq![SubModel { label: "actions"@, leaves: action_lines(n.actions) }]
        } else {
            Seq::<SubModel>::empty()
        };
        assert(with_evidence =~= with_details + ev_part);
        assert(subs_view(r.subs@) =~= with_evidence + act_part);
        assert(item_view(r).subs =~~= owner_item(index as nat, n).subs);
        assert(item_view(r).label =~= owner_item(index as nat, n).label);
    }
    r
}

fn resolution_items_exec(command: &str, resolution: &Resolution, explain: bool) -> (r: Vec<TextItem>)
    ensures
        items_view(r@) == resolution_items(command@, *resolution, explain),
{
    let ghost owners = node_views(resolution.owners@);
    let mut items: Vec<TextItem> = Vec::new();
    items.push(TextItem { label: concat2("executable: ", resolution.path.as_str()), subs: Vec::new() });
    let ghost part1 = items_view(items@);
    proof {
        assert(subs_view(items@[0].subs@) =~= Seq::<SubModel>::empty());
        assert(part1 =~= seq![plain("executable: "@ + resolution.path@)]);
    }
    let differs = !same_path_exec(resolution.path.as_str(), resolution.real_path.as_str());
    if differs {
        items.push(TextItem { label: concat2("resolves to: ", resolution.real_path.as_str()), subs: Vec::new() });
        proof {
            assert(subs_view(items@.last().subs@) =~= Seq::<SubModel>::empty());
        }
    }
    let ghost part2 = items_view(items@);
    proof {
        assert(part2 =~= part1 + (if differs {
            seq![plain("resolves to: "@ + resolution.real_path@)]
        } else {
            Seq::<ItemModel>::empty()
        }));
    }
    let mut ownership = concat3("ownership: ", command, " → ");
    ownership.append(owner_chain(resolution).as_str());
    let ghost head = part2;
    if explain {
        let mut links: Vec<String> = Vec::new();
        let mut i: usize = 0;
        while i < resolution.owners.len()
            invariant
                owners == node_views(resolution.owners@),
                i <= resolution.owners@.len(),
                views(links@) == owners.take(i as int).map_values(|n: NodeModel| chain_link(n)),
            decreases resolution.owners@.len() - i,
        {
            let n = &resolution.owners[i];
            let ghost prev = views(links@);
            links.push(concat4(n.display_name(), " [", n.confidence.as_str(), "]"));
            proof {
                assert(owners[i as int] == n@);
                assert(views(links@) =~= prev.push(chain_link(n@)));
                assert(owners.take(i + 1) =~= owners.take(i as int).push(n@));
                assert(owners.take(i + 1).map_values(|n: NodeModel| chain_link(n)) =~= owners.take(
                    i as int,
                ).map_values(|n: NodeModel| chain_link(n)).push(chain_link(n@)));
            }
            i = i + 1;
        }
        proof {
            assert(owners.take(owners.len() as int) =~= owners);
            assert(views(links@).map_values(|l: Seq<char>| leaf(l)) =~= owners.map_values(
                |n: NodeModel| leaf(chain_link(n)),
            ));
        }
        items.push(TextItem { label: ownership, subs: leaf_subs(links) });
        let ghost with_chain = items_view(items@);
        let mut k: usize = 0;
        while k < resolution.owners.len()
            invariant
                owners == node_views(resolution.owners@),
                k <= resolution.owners@.len(),
                items_view(items@) == with_chain + Seq::new(k as nat, |j: int| owner_item(j as nat, owners[j])),
            decreases resolution.owners@.len() - k,
        {
            let item = owner_item_exec(k, &resolution.owners[k]);
            let ghost prev = items_view(items@);
            items.push(item);
            proof {
                assert(owners[k as int] == resolution.owners@[k as int]@);
                assert(items_view(items@) =~= prev.push(owner_item(k as nat, owners[k as int])));
                assert(items_view(items@) =~= with_chain + Seq::new((k + 1) as nat, |j: int| owner_item(j as nat, owners[j])));
            }
            k = k + 1;
        }
        proof {
            assert(items_view(items@) =~~= resolution_items(command@, *resolution, explain));
        }
    } else {
        items.push(TextItem { label: ownership, subs: Vec::new() });
        proof {
            assert(subs_view(items@.last().subs@) =~= Seq::<SubModel>::empty());
        }
        let ghost with_chain = items_view(items@);
        if resolution.owners.len() > 0 {
            let actions = action_lines_vec(&resolution.owners[0].actions);
            if actions.len() > 0 {
                let label = concat3("actions (", resolution.owners[0].display_name(), ")");
                items.push(TextItem { label, subs: leaf_subs(actions) });
            }
        }
        let ghost with_actions = items_view(items@);
        if resolution.owners.len() > 1 {
            items.push(TextItem { label: owned("hint: use --explain to see how the manager itself was installed"), subs: Vec::new() });
            proof {
                assert(subs_view(items@.last().subs@) =~= Seq::<SubModel>::empty());
            }
        }
        proof {
            let act_part = if owners.len() > 0 && action_lines(owners[0].actions).len() > 0 {
                seq![ItemModel {
                    label: "actions ("@ + display_str(owners[0].id) + ")"@,
                    subs: action_lines(owners[0].actions).map_values(|l: Seq<char>| leaf(l)),
                }]
            } else {
                Seq::<ItemModel>::empty()
            };
            let hint_part = if owners.len() > 1 {
                seq![plain(hint_line())]
            } else {
                Seq::<ItemModel>::empty()
            };
            assert(with_actions =~~= with_chain + act_part);
            assert(items_view(items@) =~~= with_actions + hint_part);
            assert(items_view(items@) =~~= resolution_items(command@, *resolution, explain));
        }
    }
    items
}

fn resolution_str(command: &str, resolution: &Resolution, last: bool, explain: bool) -> (r: String)
    ensures
        r@ == resolution_text(command@, *resolution, last, explain),
{
    let mut heading = match resolution.status {
        ResolutionStatus::Active => owned("● "),
        ResolutionStatus::Shadowed => owned("○ "),
    };
    heading.append(resolution.status.as_str());
    let mut r = branch_str("", last, heading.as_str());
    let inner = deeper_str("", last);
    let items = resolution_items_exec(command, resolution, explain);
    r.append(items_str(inner.as_str(), &items).as_str());
    proof {
        reveal_strlit("");
        assert(""@ =~= Seq::<char>::empty());
    }
    r
}

/// The individual view: each command, then each of its resolutions.
pub open spec fn inspect_text(gs: Seq<OwnershipGraph>, explain: bool) -> Seq<char>
    decreases gs.len(),
{
    if gs.len() == 0 {
        Seq::<char>::empty()
    } else {
        let sep = if gs.len() > 1 {
            "\n"@
        } else {
            Seq::<char>::empty()
        };
        inspect_text(gs.drop_last(), explain) + sep + graph_text(gs.last(), explain)
    }
}

fn graph_str(graph: &OwnershipGraph, explain: bool) -> (r: String)
    ensures
        r@ == graph_text(*graph, explain),
{
    let mut r = owned(graph.command.as_str());
    r.append("\n");
    if graph.resolutions.len() == 0 {
        r.append(branch_str("", true, "not found in PATH").as_str());
        proof {
            reveal_strlit("");
            assert(""@ =~= Seq::<char>::empty());
        }
        return r;
    }
    let ghost rs = graph.resolutions@;
    let mut body = String::new();
    let mut i: usize = 0;
    while i < graph.resolutions.len()
        invariant
            rs == graph.resolutions@,
            i <= rs.len(),
            body@ == resolutions_text(graph.command@, rs, explain, i as int),
        decreases rs.len() - i,
    {
        body.append(
            resolution_str(graph.command.as_str(), &graph.resolutions[i], i + 1 == graph.resolutions.len(), explain).as_str(),
        );
        i = i + 1;
    }
    r.append(body.as_str());
    r
}

fn inspect_str(graphs: &Vec<OwnershipGraph>, explain: bool) -> (r: String)
    ensures
        r@ == inspect_text(graphs@, explain),
{
    let mut out = String::new();
    let mut i: usize = 0;
    proof {
        assert(graphs@.take(0) =~= Seq::<OwnershipGraph>::empty());
    }
    while i < graphs.len()
        invariant
            i <= graphs@.len(),
            out@ == inspect_text(graphs@.take(i as int), explain),
        decreases graphs@.len() - i,
    {
        proof {
            assert(graphs@.take(i + 1).drop_last() =~= graphs@.take(i as int));
            assert(graphs@.take(i + 1).last() == graphs@[i as int]);
        }
        let g = graph_str(&graphs[i], explain);
        if i > 0 {
            out.append("\n");
            out.append(g.as_str());
        } else {
            out.append(g.as_str());
            proof {
                assert(out@ =~= inspect_text(graphs@.take(1), explain));
            }
        }
        i = i + 1;
    }
    proof {
        assert(graphs@.take(graphs@.len() as int) =~= graphs@);
    }
    out
}

/// The individual view of every graph.
pub fn print_inspect(graphs: &Vec<OwnershipGraph>, explain: bool) -> (r: String)
    ensures
        r@ == inspect_text(graphs@, explain),
{
    inspect_str(graphs, explain)
}

// ---------------------------------------------------------------------------
// The summary
// ---------------------------------------------------------------------------

/// The widest command name, in bytes, and at least seven.
pub open spec fn command_width(gs: Seq<OwnershipGraph>) -> nat
    decreases gs.len(),
{
    if gs.len() == 0 {
        7
    } else {
        let rest = command_width(gs.drop_last());
        let w = (vstd::utf8::encode_utf8(gs.last().command@).len() as usize) as nat;
        if w > rest {
            w
        } else {
            rest
        }
    }
}

pub open spec fn summary_row(g: OwnershipGraph, width: nat) -> Seq<char> {
    match first_active_from(g.resolutions@, 0) {
        None => pad(g.command@, width) + "  "@ + pad("unknown"@, 10) + "  "@ + pad("0"@, 9)
            + "  not found\n"@,
        Some(k) => {
            let active = g.resolutions@[k];
            let owners = node_views(active.owners@);
            let confidence = if owners.len() > 0 {
                confidence_str(owners[0].confidence)
            } else {
                "unknown"@
            };
            pad(g.command@, width) + "  "@ + pad(confidence, 10) + "  "@ + pad(
                decimal(shadowed_in(g.resolutions@)),
                9,
            ) + "  "@ + owner_chain_spec(owners) + "\n"@
        },
    }
}

pub open spec fn summary_rows(gs: Seq<OwnershipGraph>, width: nat) -> Seq<char>
    decreases gs.len(),
{
    if gs.len() == 0 {
        Seq::<char>::empty()
    } else {
        summary_rows(gs.drop_last(), width) + summary_row(gs.last(), width)
    }
}

/// The summary: a header, one row per command with the active owner chain,
/// and with `explain` the individual view of the same graphs.
pub open spec fn list_text(gs: Seq<OwnershipGraph>, explain: bool) -> Seq<char> {
    let width = command_width(gs);
    let header = pad("COMMAND"@, width) + "  "@ + pad("CONFIDENCE"@, 10) + "  "@ + pad("SHADOWED"@, 9)
        + "  OWNER CHAIN\n"@;
    let details = if explain && gs.len() > 0 {
        "\nDetails\n\n"@ + inspect_text(gs, true)
    } else {
        Seq::<char>::empty()
    };
    header + summary_rows(gs, width) + details
}

fn summary_row_str(graph: &OwnershipGraph, width: usize) -> (r: String)
    ensures
        r@ == summary_row(*graph, width as nat),
{
    match graph.active() {
        None => {
            let mut r = pad_exec(graph.command.as_str(), width);
            r.append("  ");
            r.append(pad_exec("unknown", 10).as_str());
            r.append("  ");
            r.append(pad_exec("0", 9).as_str());
            r.append("  not found\n");
            r
        },
        Some(active) => {
            let confidence = match active.primary_owner() {
                Some(owner) => owner.confidence.as_str(),
                None => "unknown",
            };
            let mut r = pad_exec(graph.command.as_str(), width);
            r.append("  ");
            r.append(pad_exec(confidence, 10).as_str());
            r.append("  ");
            r.append(pad_exec(decimal_exec(graph.shadowed_count()).as_str(), 9).as_str());
            r.append("  ");
            r.append(owner_chain(active).as_str());
            r.append("\n");
            r
        },
    }
}

fn command_width_exec(graphs: &Vec<OwnershipGraph>) -> (r: usize)
    ensures
        r == command_width(graphs@),
{
    let mut w: usize = 7;
    let mut i: usize = 0;
    proof {
        assert(graphs@.take(0) =~= Seq::<OwnershipGraph>::empty());
    }
    while i < graphs.len()
        invariant
            i <= graphs@.len(),
            w == command_width(graphs@.take(i as int)),
        decreases graphs@.len() - i,
    {
        proof {
            assert(graphs@.take(i + 1).drop_last() =~= graphs@.take(i as int));
        }
        let n = graphs[i].command.as_str().len();
        if n > w {
            w = n;
        }
        i = i + 1;
    }
    proof {
        assert(graphs@.take(graphs@.len() as int) =~= graphs@);
    }
    w
}

/// The summary of every graph.
pub fn print_list(graphs: &Vec<OwnershipGraph>, explain: bool) -> (r: String)
    ensures
        r@ == list_text(graphs@, explain),
{
    let width = command_width_exec(graphs);
    let mut out = pad_exec("COMMAND", width);
    out.append("  ");
    out.append(pad_exec("CONFIDENCE", 10).as_str());
    out.append("  ");
    out.append(pad_exec("SHADOWED", 9).as_str());
    out.append("  OWNER CHAIN\n");
    let mut rows = String::new();
    let mut i: usize = 0;
    proof {
        assert(graphs@.take(0) =~= Seq::<OwnershipGraph>::empty());
    }
    while i < graphs.len()
        invariant
            width == command_width(graphs@),
            i <= graphs@.len(),
            rows@ == summary_rows(graphs@.take(i as int), width as nat),
        decreases graphs@.len() - i,
    {
        proof {
            assert(graphs@.take(i + 1).drop_last() =~= graphs@.take(i as int));
            assert(graphs@.take(i + 1).last() == graphs@[i as int]);
        }
        let row = summary_row_str(&graphs[i], width);
        rows.append(row.as_str());
        i = i + 1;
    }
    proof {
        assert(graphs@.take(graphs@.len() as int) =~= graphs@);
    }
    out.append(rows.as_str());
    if explain && graphs.len() > 0 {
        let mut details = owned("\nDetails\n\n");
        details.append(inspect_str(graphs, true).as_str());
        out.append(details.as_str());
    } else {
        assert(out@ + Seq::<char>::empty() =~= out@);
    }
    out
}

// ---------------------------------------------------------------------------
// JSON
// ---------------------------------------------------------------------------

/// Rust's `char::is_control`: the general category Cc.
pub open spec fn is_control(c: char) -> bool {
    c <= '\u{1f}' || ('\u{7f}' <= c && c <= '\u{9f}')
}

/// Four lowercase hexadecimal digits of `n`.
pub open spec fn hex4(n: nat) -> Seq<char> {
    seq![hex_digit((n / 4096) % 16), hex_digit((n / 256) % 16), hex_digit((n / 16) % 16), hex_digit(n % 16)]
}

/// One character as it stands inside a JSON string.
pub open spec fn escape_char(c: char) -> Seq<char> {
    if c == '"' {
        "\\\""@
    } else if c == '\\' {
        "\\\\"@
    } else if c == '\n' {
        "\\n"@
    } else if c == '\r' {
        "\\r"@
    } else if c == '\t' {
        "\\t"@
    } else if is_control(c) {
        "\\u"@ + hex4(c as nat)
    } else {
        seq![c]
    }
}

/// `s` as it stands inside a JSON string.
pub open spec fn escape_spec(s: Seq<char>) -> Seq<char>
    decreases s.len(),
{
    if s.len() == 0 {
        s
    } else {
        escape_spec(s.drop_last()) + escape_char(s.last())
    }
}

fn escape_char_str(value: &str, i: usize, c: char) -> (r: String)
    requires
        i < value@.len() <= usize::MAX,
        value@[i as int] == c,
    ensures
        r@ == escape_char(c),
{
    if c == '"' {
        owned("\\\"")
    } else if c == '\\' {
        owned("\\\\")
    } else if c == '\n' {
        owned("\\n")
    } else if c == '\r' {
        owned("\\r")
    } else if c == '\t' {
        owned("\\t")
    } else if c <= '\u{1f}' || ('\u{7f}' <= c && c <= '\u{9f}') {
        let n = c as u32;
        assert(n as nat == c as nat);
        let mut r = owned("\\u");
        r.append(digit(((n / 4096) % 16) as usize).as_str());
        r.append(digit(((n / 256) % 16) as usize).as_str());
        r.append(digit(((n / 16) % 16) as usize).as_str());
        r.append(digit((n % 16) as usize).as_str());
        assert(r@ =~= "\\u"@ + hex4(c as nat));
        r
    } else {
        let r = substring(value, i, i + 1);
        assert(r@ =~= seq![c]);
        r
    }
}

/// `value` escaped for a JSON string.
pub fn escape(value: &str) -> (r: String)
    ensures
        r@ == escape_spec(value@),
{
    let v = chars_of(value);
    let n = v.len();
    assert(v@.len() == n);
    let mut r = String::new();
    let mut i: usize = 0;
    proof {
        assert(value@.take(0) =~= Seq::<char>::empty());
    }
    while i < v.len()
        invariant
            v@ == value@,
            i <= v@.len(),
            v@.len() <= usize::MAX,
            r@ == escape_spec(value@.take(i as int)),
        decreases v@.len() - i,
    {
        proof {
            assert(value@.take(i + 1).drop_last() =~= value@.take(i as int));
            assert(value@.take(i + 1).last() == value@[i as int]);
        }
        r.append(escape_char_str(value, i, v[i]).as_str());
        i = i + 1;
    }
    proof {
        assert(value@.take(v@.len() as int) =~= value@);
    }
    r
}

pub open spec fn comma_if(b: bool) -> Seq<char> {
    if b {
        ","@
    } else {
        Seq::<char>::empty()
    }
}

pub open spec fn string_field(indent: nat, key: Seq<char>, value: Seq<char>, comma: bool) -> Seq<char> {
    spaces(indent) + "\""@ + escape_spec(key) + "\": \""@ + escape_spec(value) + "\""@ + comma_if(comma) + "\n"@
}

pub open spec fn optional_field(indent: nat, key: Seq<char>, value: Option<Seq<char>>, comma: bool) -> Seq<char> {
    match value {
        Some(v) => string_field(indent, key, v, comma),
        None => spaces(indent) + "\""@ + escape_spec(key) + "\": null"@ + comma_if(comma) + "\n"@,
    }
}

fn comma_str(b: bool) -> (r: &'static str)
    ensures
        r@ == comma_if(b),
{
    if b {
        ","
    } else {
        proof {
            reveal_strlit("");
        }
        assert(""@ =~= Seq::<char>::empty());
        ""
    }
}

fn json_string_field(indent: usize, key: &str, value: &str, comma: bool) -> (r: String)
    ensures
        r@ == string_field(indent as nat, key@, value@, comma),
{
    let mut r = spaces_exec(indent);
    r.append("\"");
    r.append(escape(key).as_str());
    r.append("\": \"");
    r.append(escape(value).as_str());
    r.append("\"");
    r.append(comma_str(comma));
    r.append("\n");
    r
}

fn json_optional_field(indent: usize, key: &str, value: &Option<String>, comma: bool) -> (r: String)
    ensures
        r@ == optional_field(indent as nat, key@, opt_view(*value), comma),
{
    match value {
        Some(v) => json_string_field(indent, key, v.as_str(), comma),
        None => {
            let mut r = spaces_exec(indent);
            r.append("\"");
            r.append(escape(key).as_str());
            r.append("\": null");
            r.append(comma_str(comma));
            r.append("\n");
            r
        },
    }
}

pub open spec fn evidence_item(e: EvidenceModel, last: bool) -> Seq<char> {
    "              {\n"@ + string_field(16, "source"@, e.source, true) + string_field(16, "detail"@, e.detail, false)
        + "              }"@ + comma_if(!last) + "\n"@
}

pub open spec fn evidence_json(es: Seq<EvidenceModel>, total: nat) -> Seq<char>
    decreases es.len(),
{
    if es.len() == 0 {
        Seq::<char>::empty()
    } else {
        evidence_json(es.drop_last(), total) + evidence_item(es.last(), es.len() == total)
    }
}

pub open spec fn owner_json(n: NodeModel, last: bool) -> Seq<char> {
    "          {\n"@ + string_field(12, "id"@, id_str(n.id), true) + string_field(12, "name"@, display_str(n.id), true)
        + string_field(12, "kind"@, kind_str(id_kind(n.id)), true) + optional_field(12, "package"@, n.package, true)
        + optional_field(12, "version"@, n.version, true) + string_field(
        12,
        "confidence"@,
        confidence_str(n.confidence),
        true,
    ) + "            \"evidence\": [\n"@ + evidence_json(n.evidence, n.evidence.len())
        + "            ],\n"@ + "            \"action_guide\": {\n"@ + optional_field(14, "inspect"@, n.actions.inspect, true)
        + optional_field(14, "update"@, n.actions.update, true) + optional_field(14, "remove"@, n.actions.remove, true)
        + optional_field(14, "note"@, n.actions.note, false) + "            }\n"@ + "          }"@ + comma_if(!last) + "\n"@
}

pub open spec fn owners_json(ns: Seq<NodeModel>, total: nat) -> Seq<char>
    decreases ns.len(),
{
    if ns.len() == 0 {
        Seq::<char>::empty()
    } else {
        owners_json(ns.drop_last(), total) + owner_json(ns.last(), ns.len() == total)
    }
}

pub open spec fn resolution_json(r: Resolution, last: bool) -> Seq<char> {
    let owners = node_views(r.owners@);
    "      {\n"@ + string_field(8, "status"@, status_str(r.status), true) + string_field(8, "path"@, r.path@, true)
        + string_field(8, "real_path"@, r.real_path@, true) + "        \"ownership_chain\": [\n"@
        + owners_json(owners, owners.len()) + "        ]\n"@ + "      }"@ + comma_if(!last) + "\n"@
}

pub open spec fn resolutions_json(rs: Seq<Resolution>, total: nat) -> Seq<char>
    decreases rs.len(),
{
    if rs.len() == 0 {
        Seq::<char>::empty()
    } else {
        resolutions_json(rs.drop_last(), total) + resolution_json(rs.last(), rs.len() == total)
    }
}

pub open spec fn graph_json(g: OwnershipGraph, last: bool) -> Seq<char> {
    "  {\n"@ + "    \"command\": \""@ + escape_spec(g.command@) + "\",\n"@ + "    \"resolutions\": [\n"@
        + resolutions_json(g.resolutions@, g.resolutions@.len()) + "    ]\n"@ + "  }"@ + comma_if(!last) + "\n"@
}

pub open spec fn graphs_json(gs: Seq<OwnershipGraph>, total: nat) -> Seq<char>
    decreases gs.len(),
{
    if gs.len() == 0 {
        Seq::<char>::empty()
    } else {
        graphs_json(gs.drop_last(), total) + graph_json(gs.last(), gs.len() == total)
    }
}

/// The versioned JSON document: an array of graphs.
pub open spec fn json_text(gs: Seq<OwnershipGraph>) -> Seq<char> {
    "[\n"@ + graphs_json(gs, gs.len()) + "]\n"@
}

fn evidence_item_str(e: &Evidence, last: bool) -> (r: String)
    ensures
        r@ == evidence_item(e@, last),
{
    let mut r = owned("              {\n");
    r.append(json_string_field(16, "source", e.source.as_str(), true).as_str());
    r.append(json_string_field(16, "detail", e.detail.as_str(), false).as_str());
    r.append("              }");
    r.append(comma_str(!last));
    r.append("\n");
    r
}

fn evidence_json_str(evidence: &Vec<Evidence>) -> (r: String)
    ensures
        r@ == evidence_json(evidence_views(evidence@), evidence@.len()),
{
    let ghost es = evidence_views(evidence@);
    let n = evidence.len();
    let mut out = String::new();
    let mut i: usize = 0;
    proof {
        assert(es.take(0) =~= Seq::<EvidenceModel>::empty());
    }
    while i < n
        invariant
            n == evidence@.len(),
            es == evidence_views(evidence@),
            i <= n,
            out@ == evidence_json(es.take(i as int), n as nat),
        decreases n - i,
    {
        proof {
            assert(es.take(i + 1).drop_last() =~= es.take(i as int));
            assert(es.take(i + 1).last() == evidence@[i as int]@);
        }
        out.append(evidence_item_str(&evidence[i], i + 1 == n).as_str());
        i = i + 1;
    }
    proof {
        assert(es.take(n as int) =~= es);
    }
    out
}

fn owner_json_str(owner: &OwnershipNode, last: bool) -> (r: String)
    ensures
        r@ == owner_json(owner@, last),
{
    let mut r = owned("          {\n");
    r.append(json_string_field(12, "id", owner.id.as_str(), true).as_str());
    r.append(json_string_field(12, "name", owner.display_name(), true).as_str());
    r.append(json_string_field(12, "kind", owner.kind().as_str(), true).as_str());
    r.append(json_optional_field(12, "package", &owner.package, true).as_str());
    r.append(json_optional_field(12, "version", &owner.version, true).as_str());
    r.append(json_string_field(12, "confidence", owner.confidence.as_str(), true).as_str());
    r.append("            \"evidence\": [\n");
    r.append(evidence_json_str(&owner.evidence).as_str());
    r.append("            ],\n");
    r.append("            \"action_guide\": {\n");
    r.append(json_optional_field(14, "inspect", &owner.actions.inspect, true).as_str());
    r.append(json_optional_field(14, "update", &owner.actions.update, true).as_str());
    r.append(json_optional_field(14, "remove", &owner.actions.remove, true).as_str());
    r.append(json_optional_field(14, "note", &owner.actions.note, false).as_str());
    r.append("            }\n");
    r.append("          }");
    r.append(comma_str(!last));
    r.append("\n");
    r
}

fn owners_json_str(owners: &Vec<OwnershipNode>) -> (r: String)
    ensures
        r@ == owners_json(node_views(owners@), owners@.len()),
{
    let ghost ns = node_views(owners@);
    let n = owners.len();
    let mut out = String::new();
    let mut i: usize = 0;
    proof {
        assert(ns.take(0) =~= Seq::<NodeModel>::empty());
    }
    while i < n
        invariant
            n == owners@.len(),
            ns == node_views(owners@),
            i <= n,
            out@ == owners_json(ns.take(i as int), n as nat),
        decreases n - i,
    {
        proof {
            assert(ns.take(i + 1).drop_last() =~= ns.take(i as int));
            assert(ns.take(i + 1).last() == owners@[i as int]@);
        }
        out.append(owner_json_str(&owners[i], i + 1 == n).as_str());
        i = i + 1;
    }
    proof {
        assert(ns.take(n as int) =~= ns);
    }
    out
}

fn resolution_json_str(resolution: &Resolution, last: bool) -> (r: String)
    ensures
        r@ == resolution_json(*resolution, last),
{
    let mut r = owned("      {\n");
    r.append(json_string_field(8, "status", resolution.status.as_str(), true).as_str());
    r.append(json_string_field(8, "path", resolution.path.as_str(), true).as_str());
    r.append(json_string_field(8, "real_path", resolution.real_path.as_str(), true).as_str());
    r.append("        \"ownership_chain\": [\n");
    r.append(owners_json_str(&resolution.owners).as_str());
    r.append("        ]\n");
    r.append("      }");
    r.append(comma_str(!last));
    r.append("\n");
    r
}

fn graph_json_str(graph: &OwnershipGraph, last: bool) -> (r: String)
    ensures
        r@ == graph_json(*graph, last),
{
    let rs = &graph.resolutions;
    let n = rs.len();
    let mut body = String::new();
    let mut i: usize = 0;
    proof {
        assert(rs@.take(0) =~= Seq::<Resolution>::empty());
    }
    while i < n
        invariant
            n == rs@.len(),
            i <= n,
            body@ == resolutions_json(rs@.take(i as int), n as nat),
        decreases n - i,
    {
        proof {
            assert(rs@.take(i + 1).drop_last() =~= rs@.take(i as int));
            assert(rs@.take(i + 1).last() == rs@[i as int]);
        }
        body.append(resolution_json_str(&rs[i], i + 1 == n).as_str());
        i = i + 1;
    }
    proof {
        assert(rs@.take(n as int) =~= rs@);
    }
    let mut r = owned("  {\n");
    r.append("    \"command\": \"");
    r.append(escape(graph.command.as_str()).as_str());
    r.append("\",\n");
    r.append("    \"resolutions\": [\n");
    r.append(body.as_str());
    r.append("    ]\n");
    r.append("  }");
    r.append(comma_str(!last));
    r.append("\n");
    r
}

/// The JSON document of every graph.
pub fn print_json(graphs: &Vec<OwnershipGraph>) -> (r: String)
    ensures
        r@ == json_text(graphs@),
{
    let n = graphs.len();
    let mut body = String::new();
    let mut i: usize = 0;
    proof {
        assert(graphs@.take(0) =~= Seq::<OwnershipGraph>::empty());
    }
    while i < n
        invariant
            n == graphs@.len(),
            i <= n,
            body@ == graphs_json(graphs@.take(i as int), n as nat),
        decreases n - i,
    {
        proof {
            assert(graphs@.take(i + 1).drop_last() =~= graphs@.take(i as int));
            assert(graphs@.take(i + 1).last() == graphs@[i as int]);
        }
        body.append(graph_json_str(&graphs[i], i + 1 == n).as_str());
        i = i + 1;
    }
    proof {
        assert(graphs@.take(n as int) =~= graphs@);
    }
    let mut r = owned("[\n");
    r.append(body.as_str());
    r.append("]\n");
    r
}

// ---------------------------------------------------------------------------
// The JSON document as a JSON value
// ---------------------------------------------------------------------------

/// A JSON value: `null`, a string, an array, or an object with its members in order.
pub enum JsonModel {
    Null,
    Text(Seq<char>),
    List(Seq<JsonModel>),
    Object(Seq<(Seq<char>, JsonModel)>),
}

/// A JSON value written out: strings escaped, each element and member of an
/// array or object on a line of its own, two spaces deeper than the bracket
/// that holds it, members after the first separated by commas.
pub closed spec fn render(v: JsonModel, indent: nat) -> Seq<char>
    decreases v, 0nat,
{
    match v {
        JsonModel::Null => "null"@,
        JsonModel::Text(s) => "\""@ + escape_spec(s) + "\""@,
        JsonModel::List(items) => "[\n"@ + render_items(items, indent, items.len()) + spaces(indent) + "]"@,
        JsonModel::Object(members) => "{\n"@ + render_members(members, indent, members.len()) + spaces(indent)
            + "}"@,
    }
}

pub closed spec fn render_items(items: Seq<JsonModel>, indent: nat, k: nat) -> Seq<char>
    decreases items, k,
{
    if k == 0 || k > items.len() {
        Seq::<char>::empty()
    } else {
        render_items(items, indent, (k - 1) as nat) + spaces(indent + 2) + render(items[k - 1], indent + 2)
            + comma_if(k < items.len()) + "\n"@
    }
}

pub closed spec fn render_members(members: Seq<(Seq<char>, JsonModel)>, indent: nat, k: nat) -> Seq<char>
    decreases members, k,
{
    if k == 0 || k > members.len() {
        Seq::<char>::empty()
    } else {
        render_members(members, indent, (k - 1) as nat) + spaces(indent + 2) + "\""@ + escape_spec(
            members[k - 1].0,
        ) + "\": "@ + render(members[k - 1].1, indent + 2) + comma_if(k < members.len()) + "\n"@
    }
}

pub open spec fn opt_json(v: Option<Seq<char>>) -> JsonModel {
    match v {
        Some(s) => JsonModel::Text(s),
        None => JsonModel::Null,
    }
}

pub open spec fn evidence_value(e: EvidenceModel) -> JsonModel {
    JsonModel::Object(seq![("source"@, JsonModel::Text(e.source)), ("detail"@, JsonModel::Text(e.detail))])
}

pub open spec fn guide_value(a: GuideModel) -> JsonModel {
    JsonModel::Object(
        seq![
            ("inspect"@, opt_json(a.inspect)),
            ("update"@, opt_json(a.update)),
            ("remove"@, opt_json(a.remove)),
            ("note"@, opt_json(a.note)),
        ],
    )
}

pub open spec fn owner_members(n: NodeModel) -> Seq<(Seq<char>, JsonModel)> {
    seq![
        ("id"@, JsonModel::Text(id_str(n.id))),
        ("name"@, JsonModel::Text(display_str(n.id))),
        ("kind"@, JsonModel::Text(kind_str(id_kind(n.id)))),
        ("package"@, opt_json(n.package)),
        ("version"@, opt_json(n.version)),
        ("confidence"@, JsonModel::Text(confidence_str(n.confidence))),
        ("evidence"@, JsonModel::List(n.evidence.map_values(|e: EvidenceModel| evidence_value(e)))),
        ("action_guide"@, guide_value(n.actions)),
    ]
}

pub open spec fn owner_value(n: NodeModel) -> JsonModel {
    JsonModel::Object(owner_members(n))
}

pub open spec fn resolution_members(r: Resolution) -> Seq<(Seq<char>, JsonModel)> {
    seq![
        ("status"@, JsonModel::Text(status_str(r.status))),
        ("path"@, JsonModel::Text(r.path@)),
        ("real_path"@, JsonModel::Text(r.real_path@)),
        ("ownership_chain"@, JsonModel::List(node_views(r.owners@).map_values(|n: NodeModel| owner_value(n)))),
    ]
}

pub open spec fn resolution_value(r: Resolution) -> JsonModel {
    JsonModel::Object(resolution_members(r))
}

pub open spec fn graph_members(g: OwnershipGraph) -> Seq<(Seq<char>, JsonModel)> {
    seq![
        ("command"@, JsonModel::Text(g.command@)),
        ("resolutions"@, JsonModel::List(g.resolutions@.map_values(|r: Resolution| resolution_value(r)))),
    ]
}

pub open spec fn graph_value(g: OwnershipGraph) -> JsonModel {
    JsonModel::Object(graph_members(g))
}

/// The graphs as one JSON array, one object per graph, in order.
pub open spec fn graphs_value(gs: Seq<OwnershipGraph>) -> JsonModel {
    JsonModel::List(gs.map_values(|g: OwnershipGraph| graph_value(g)))
}

pub open spec fn member_line(indent: nat, key: Seq<char>, v: JsonModel, comma: bool) -> Seq<char> {
    spaces(indent + 2) + "\""@ + escape_spec(key) + "\": "@ + render(v, indent + 2) + comma_if(comma) + "\n"@
}

pub proof fn lemma_member_step(members: Seq<(Seq<char>, JsonModel)>, indent: nat, k: nat)
    requires
        1 <= k <= members.len(),
    ensures
        render_members(members, indent, k) == render_members(members, indent, (k - 1) as nat) + member_line(
            indent,
            members[k - 1].0,
            members[k - 1].1,
            k < members.len(),
        ),
{
    let a = render_members(members, indent, (k - 1) as nat);
    assert(render_members(members, indent, k) =~= a + member_line(
        indent,
        members[k - 1].0,
        members[k - 1].1,
        k < members.len(),
    ));
}

pub proof fn lemma_text_member(indent: nat, key: Seq<char>, s: Seq<char>, comma: bool)
    ensures
        member_line(indent, key, JsonModel::Text(s), comma) == string_field(indent + 2, key, s, comma),
{
    reveal_strlit("\"");
    reveal_strlit("\": ");
    reveal_strlit("\": \"");
    assert(member_line(indent, key, JsonModel::Text(s), comma) =~= string_field(indent + 2, key, s, comma));
}

pub proof fn lemma_optional_member(indent: nat, key: Seq<char>, v: Option<Seq<char>>, comma: bool)
    ensures
        member_line(indent, key, opt_json(v), comma) == optional_field(indent + 2, key, v, comma),
{
    match v {
        Some(s) => lemma_text_member(indent, key, s, comma),
        None => {
            reveal_strlit("\"");
            reveal_strlit("\": ");
            reveal_strlit("null");
            reveal_strlit("\": null");
            assert(member_line(indent, key, opt_json(v), comma) =~= optional_field(indent + 2, key, v, comma));
        },
    }
}

proof fn lemma_evidence_item(e: EvidenceModel, last: bool)
    ensures
        spaces(14) + render(evidence_value(e), 14) + comma_if(!last) + "\n"@ == evidence_item(e, last),
{
    let ms = seq![("source"@, JsonModel::Text(e.source)), ("detail"@, JsonModel::Text(e.detail))];
    lemma_member_step(ms, 14, 1);
    lemma_member_step(ms, 14, 2);
    lemma_text_member(14, "source"@, e.source, true);
    lemma_text_member(14, "detail"@, e.detail, false);
    reveal_strlit("              {\n");
    reveal_strlit("              }");
    reveal_strlit("{\n");
    reveal_strlit("}");
    assert(spaces(14) + "{\n"@ =~= "              {\n"@);
    assert(spaces(14) + "}"@ =~= "              }"@);
    assert(render_members(ms, 14, 0) =~= Seq::<char>::empty());
    assert(spaces(14) + render(evidence_value(e), 14) + comma_if(!last) + "\n"@ =~= evidence_item(e, last));
}

pub open spec fn plain_char(c: char) -> bool {
    ('a' <= c && c <= 'z') || c == '_'
}

pub proof fn lemma_plain_escapes(s: Seq<char>)
    requires
        forall|i: int| 0 <= i < s.len() ==> plain_char(#[trigger] s[i]),
    ensures
        escape_spec(s) == s,
    decreases s.len(),
{
    if s.len() > 0 {
        let t = s.drop_last();
        assert forall|i: int| 0 <= i < t.len() implies plain_char(#[trigger] t[i]) by {
            assert(t[i] == s[i]);
        }
        lemma_plain_escapes(t);
        assert(plain_char(s[s.len() - 1]));
        assert(escape_char(s.last()) == seq![s.last()]);
        assert(t + seq![s.last()] =~= s);
    }
}

proof fn lemma_evidence_list(es: Seq<EvidenceModel>, k: nat)
    requires
        k <= es.len(),
    ensures
        evidence_json(es.take(k as int), es.len()) == render_items(
            es.map_values(|e: EvidenceModel| evidence_value(e)),
            12,
            k,
        ),
    decreases k,
{
    let items = es.map_values(|e: EvidenceModel| evidence_value(e));
    if k == 0 {
        assert(es.take(0) =~= Seq::<EvidenceModel>::empty());
    } else {
        lemma_evidence_list(es, (k - 1) as nat);
        let t = es.take(k as int);
        assert(t.drop_last() =~= es.take(k - 1));
        assert(t.last() == es[k - 1]);
        assert(items[k - 1] == evidence_value(es[k - 1]));
        lemma_evidence_item(es[k - 1], k == es.len());
        let r0 = render_items(items, 12, (k - 1) as nat);
        let line = spaces(14) + render(items[k - 1], 14) + comma_if(k < items.len()) + "\n"@;
        assert(render_items(items, 12, k) =~= r0 + line);
    }
}

#[verifier::spinoff_prover]
#[verifier::rlimit(100)]
proof fn lemma_guide_member(a: GuideModel)
    ensures
        member_line(10, "action_guide"@, guide_value(a), false) == "            \"action_guide\": {\n"@
            + optional_field(14, "inspect"@, a.inspect, true) + optional_field(14, "update"@, a.update, true)
            + optional_field(14, "remove"@, a.remove, true) + optional_field(14, "note"@, a.note, false)
            + "            }\n"@,
{
    let ms = seq![
        ("inspect"@, opt_json(a.inspect)),
        ("update"@, opt_json(a.update)),
        ("remove"@, opt_json(a.remove)),
        ("note"@, opt_json(a.note)),
    ];
    lemma_member_step(ms, 12, 1);
    lemma_member_step(ms, 12, 2);
    lemma_member_step(ms, 12, 3);
    lemma_member_step(ms, 12, 4);
    lemma_optional_member(12, "inspect"@, a.inspect, true);
    lemma_optional_member(12, "update"@, a.update, true);
    lemma_optional_member(12, "remove"@, a.remove, true);
    lemma_optional_member(12, "note"@, a.note, false);
    reveal_strlit("action_guide");
    lemma_plain_escapes("action_guide"@);
    reveal_strlit("            \"action_guide\": {\n");
    reveal_strlit("            }\n");
    reveal_strlit("\"");
    reveal_strlit("\": ");
    reveal_strlit("{\n");
    reveal_strlit("}");
    reveal_strlit("\n");
    assert(render_members(ms, 12, 0) =~= Seq::<char>::empty());
    assert(member_line(10, "action_guide"@, guide_value(a), false) =~= "            \"action_guide\": {\n"@
        + optional_field(14, "inspect"@, a.inspect, true) + optional_field(14, "update"@, a.update, true)
        + optional_field(14, "remove"@, a.remove, true) + optional_field(14, "note"@, a.note, false)
        + "            }\n"@);
}

proof fn lemma_evidence_member(es: Seq<EvidenceModel>)
    ensures
        member_line(10, "evidence"@, JsonModel::List(es.map_values(|e: EvidenceModel| evidence_value(e))), true)
            == "            \"evidence\": [\n"@ + evidence_json(es, es.len()) + "            ],\n"@,
{
    lemma_evidence_list(es, es.len());
    assert(es.take(es.len() as int) =~= es);
    reveal_strlit("evidence");
    lemma_plain_escapes("evidence"@);
    reveal_strlit("            \"evidence\": [\n");
    reveal_strlit("            ],\n");
    reveal_strlit("\"");
    reveal_strlit("\": ");
    reveal_strlit("[\n");
    reveal_strlit("]");
    reveal_strlit(",");
    reveal_strlit("\n");
    assert(member_line(10, "evidence"@, JsonModel::List(es.map_values(|e: EvidenceModel| evidence_value(e))), true)
        =~= "            \"evidence\": [\n"@ + evidence_json(es, es.len()) + "            ],\n"@);
}

/// The first six members of an owner, written out.
pub open spec fn owner_head(n: NodeModel) -> Seq<char> {
    string_field(12, "id"@, id_str(n.id), true) + string_field(12, "name"@, display_str(n.id), true)
        + string_field(12, "kind"@, kind_str(id_kind(n.id)), true) + optional_field(12, "package"@, n.package, true)
        + optional_field(12, "version"@, n.version, true) + string_field(
        12,
        "confidence"@,
        confidence_str(n.confidence),
        true,
    )
}

#[verifier::spinoff_prover]
proof fn lemma_owner_head(n: NodeModel)
    ensures
        render_members(owner_members(n), 10, 6) == owner_head(n),
{
    let ms = owner_members(n);
    lemma_member_step(ms, 10, 1);
    lemma_member_step(ms, 10, 2);
    lemma_member_step(ms, 10, 3);
    lemma_member_step(ms, 10, 4);
    lemma_member_step(ms, 10, 5);
    lemma_member_step(ms, 10, 6);
    lemma_text_member(10, "id"@, id_str(n.id), true);
    lemma_text_member(10, "name"@, display_str(n.id), true);
    lemma_text_member(10, "kind"@, kind_str(id_kind(n.id)), true);
    lemma_optional_member(10, "package"@, n.package, true);
    lemma_optional_member(10, "version"@, n.version, true);
    lemma_text_member(10, "confidence"@, confidence_str(n.confidence), true);
    assert(render_members(ms, 10, 0) =~= Seq::<char>::empty());
    assert(render_members(ms, 10, 1) =~= string_field(12, "id"@, id_str(n.id), true));
}

#[verifier::spinoff_prover]
proof fn lemma_owner_members_text(n: NodeModel)
    ensures
        render_members(owner_members(n), 10, 8) == owner_head(n) + "            \"evidence\": [\n"@ + evidence_json(
            n.evidence,
            n.evidence.len(),
        ) + "            ],\n"@ + "            \"action_guide\": {\n"@ + optional_field(
            14,
            "inspect"@,
            n.actions.inspect,
            true,
        ) + optional_field(14, "update"@, n.actions.update, true) + optional_field(
            14,
            "remove"@,
            n.actions.remove,
            true,
        ) + optional_field(14, "note"@, n.actions.note, false) + "            }\n"@,
{
    let ms = owner_members(n);
    lemma_owner_head(n);
    lemma_member_step(ms, 10, 7);
    lemma_member_step(ms, 10, 8);
    lemma_evidence_member(n.evidence);
    lemma_guide_member(n.actions);
    let h = owner_head(n);
    let e1 = "            \"evidence\": [\n"@;
    let ej = evidence_json(n.evidence, n.evidence.len());
    let e2 = "            ],\n"@;
    let g1 = "            \"action_guide\": {\n"@;
    let o1 = optional_field(14, "inspect"@, n.actions.inspect, true);
    let o2 = optional_field(14, "update"@, n.actions.update, true);
    let o3 = optional_field(14, "remove"@, n.actions.remove, true);
    let o4 = optional_field(14, "note"@, n.actions.note, false);
    let g2 = "            }\n"@;
    lemma_concat_associative(h, e1 + ej, e2);
    lemma_concat_associative(h, e1, ej);
    let p7 = h + e1 + ej + e2;
    lemma_concat_associative(p7, g1 + o1 + o2 + o3 + o4, g2);
    lemma_concat_associative(p7, g1 + o1 + o2 + o3, o4);
    lemma_concat_associative(p7, g1 + o1 + o2, o3);
    lemma_concat_associative(p7, g1 + o1, o2);
    lemma_concat_associative(p7, g1, o1);
}

#[verifier::spinoff_prover]
pub proof fn lemma_owner_item(n: NodeModel, last: bool)
    ensures
        spaces(10) + render(owner_value(n), 10) + comma_if(!last) + "\n"@ == owner_json(n, last),
{
    lemma_owner_members_text(n);
    let m8 = render_members(owner_members(n), 10, 8);
    let open = "          {\n"@;
    let close = "          }"@;
    reveal_strlit("          {\n");
    reveal_strlit("          }");
    reveal_strlit("{\n");
    reveal_strlit("}");
    assert(spaces(10) + "{\n"@ =~= open);
    assert(spaces(10) + "}"@ =~= close);
    let inner = "{\n"@ + m8 + spaces(10) + "}"@;
    assert(render(owner_value(n), 10) == inner);
    assert(spaces(10) + inner =~= (spaces(10) + "{\n"@) + m8 + (spaces(10) + "}"@));
    let f1 = string_field(12, "id"@, id_str(n.id), true);
    let f2 = string_field(12, "name"@, display_str(n.id), true);
    let f3 = string_field(12, "kind"@, kind_str(id_kind(n.id)), true);
    let f4 = optional_field(12, "package"@, n.package, true);
    let f5 = optional_field(12, "version"@, n.version, true);
    let f6 = string_field(12, "confidence"@, confidence_str(n.confidence), true);
    let e1 = "            \"evidence\": [\n"@;
    let ej = evidence_json(n.evidence, n.evidence.len());
    let e2 = "            ],\n"@;
    let g1 = "            \"action_guide\": {\n"@;
    let o1 = optional_field(14, "inspect"@, n.actions.inspect, true);
    let o2 = optional_field(14, "update"@, n.actions.update, true);
    let o3 = optional_field(14, "remove"@, n.actions.remove, true);
    let o4 = optional_field(14, "note"@, n.actions.note, false);
    let g2 = "            }\n"@;
    lemma_concat_associative(open, f1 + f2 + f3 + f4 + f5, f6);
    lemma_concat_associative(open, f1 + f2 + f3 + f4, f5);
    lemma_concat_associative(open, f1 + f2 + f3, f4);
    lemma_concat_associative(open, f1 + f2, f3);
    lemma_concat_associative(open, f1, f2);
    let h = owner_head(n);
    assert(open + h == open + f1 + f2 + f3 + f4 + f5 + f6);
    lemma_concat_associative(open, h + e1 + ej + e2 + g1 + o1 + o2 + o3 + o4, g2);
    lemma_concat_associative(open, h + e1 + ej + e2 + g1 + o1 + o2 + o3, o4);
    lemma_concat_associative(open, h + e1 + ej + e2 + g1 + o1 + o2, o3);
    lemma_concat_associative(open, h + e1 + ej + e2 + g1 + o1, o2);
    lemma_concat_associative(open, h + e1 + ej + e2 + g1, o1);
    lemma_concat_associative(open, h + e1 + ej + e2, g1);
    lemma_concat_associative(open, h + e1 + ej, e2);
    lemma_concat_associative(open, h + e1, ej);
    lemma_concat_associative(open, h, e1);
    assert(open + m8 == open + f1 + f2 + f3 + f4 + f5 + f6 + e1 + ej + e2 + g1 + o1 + o2 + o3 + o4 + g2);
    assert(spaces(10) + inner == open + m8 + close);
}

/// A string written out.
pub proof fn lemma_render_text(s: Seq<char>, indent: nat)
    ensures
        render(JsonModel::Text(s), indent) == "\""@ + escape_spec(s) + "\""@,
{
}

/// An array written out: its elements, then the closing bracket.
pub proof fn lemma_render_list(items: Seq<JsonModel>, indent: nat)
    ensures
        render(JsonModel::List(items), indent) == "[\n"@ + render_items(items, indent, items.len()) + spaces(indent)
            + "]"@,
{
}

/// An object written out: its members, then the closing brace.
pub proof fn lemma_render_object(members: Seq<(Seq<char>, JsonModel)>, indent: nat)
    ensures
        render(JsonModel::Object(members), indent) == "{\n"@ + render_members(members, indent, members.len())
            + spaces(indent) + "}"@,
{
}

/// No element and no member is written before the first.
pub proof fn lemma_render_none(items: Seq<JsonModel>, members: Seq<(Seq<char>, JsonModel)>, indent: nat)
    ensures
        render_items(items, indent, 0) == Seq::<char>::empty(),
        render_members(members, indent, 0) == Seq::<char>::empty(),
{
}

/// The `k`-th element of an array, on its own line.
pub proof fn lemma_item_step(items: Seq<JsonModel>, indent: nat, k: nat)
    requires
        1 <= k <= items.len(),
    ensures
        render_items(items, indent, k) == render_items(items, indent, (k - 1) as nat) + (spaces(indent + 2)
            + render(items[k - 1], indent + 2) + comma_if(k < items.len()) + "\n"@),
{
    let r0 = render_items(items, indent, (k - 1) as nat);
    assert(render_items(items, indent, k) =~= r0 + (spaces(indent + 2) + render(items[k - 1], indent + 2)
        + comma_if(k < items.len()) + "\n"@));
}

proof fn lemma_first_active_at(rs: Seq<Resolution>, i: int, k: int)
    requires
        0 <= i <= k < rs.len(),
        rs[k].status == ResolutionStatus::Active,
        forall|j: int| 0 <= j < k ==> (#[trigger] rs[j]).status != ResolutionStatus::Active,
    ensures
        first_active_from(rs, i) == Some(k),
    decreases k - i,
{
    if i < k {
        lemma_first_active_at(rs, i + 1, k);
    }
}

/// A summary row starts with the command and then, in the CONFIDENCE column,
/// the confidence of the primary (nearest) owner of the command's active
/// resolution, the first one whose status is active; `unknown` where that
/// resolution has no owner.
pub proof fn lemma_summary_confidence_is_the_primary_owners(g: OwnershipGraph, width: nat, k: int)
    requires
        0 <= k < g.resolutions@.len(),
        g.resolutions@[k].status == ResolutionStatus::Active,
        forall|j: int| 0 <= j < k ==> (#[trigger] g.resolutions@[j]).status != ResolutionStatus::Active,
    ensures
        ({
            let owners = g.resolutions@[k].owners@;
            let confidence = if owners.len() > 0 {
                confidence_str(owners[0]@.confidence)
            } else {
                "unknown"@
            };
            let head = pad(g.command@, width) + "  "@ + pad(confidence, 10);
            &&& summary_row(g, width).take(head.len() as int) == head
            &&& summary_row(g, width) == head + "  "@ + pad(decimal(shadowed_in(g.resolutions@)), 9) + "  "@
                + owner_chain_spec(node_views(owners)) + "\n"@
        }),
{
    lemma_first_active_at(g.resolutions@, 0, k);
    let active = g.resolutions@[k];
    let owners = node_views(active.owners@);
    let confidence = if owners.len() > 0 {
        confidence_str(owners[0].confidence)
    } else {
        "unknown"@
    };
    assert(owners.len() == active.owners@.len());
    assert(owners.len() > 0 ==> owners[0] == active.owners@[0]@);
    let head = pad(g.command@, width) + "  "@ + pad(confidence, 10);
    let rest = "  "@ + pad(decimal(shadowed_in(g.resolutions@)), 9) + "  "@ + owner_chain_spec(owners) + "\n"@;
    assert(summary_row(g, width) =~= head + rest);
    assert((head + rest).take(head.len() as int) =~= head);
}

/// Escaped text holds no control character: every newline, tab and other
/// control character of the input is written as an escape sequence.
pub proof fn lemma_escaped_text_has_no_control_characters(s: Seq<char>)
    ensures
        forall|i: int| 0 <= i < escape_spec(s).len() ==> !is_control(#[trigger] escape_spec(s)[i]),
    decreases s.len(),
{
    if s.len() > 0 {
        lemma_escaped_text_has_no_control_characters(s.drop_last());
        let c = s.last();
        let head = escape_spec(s.drop_last());
        let tail = escape_char(c);
        reveal_strlit("\\\"");
        reveal_strlit("\\\\");
        reveal_strlit("\\n");
        reveal_strlit("\\r");
        reveal_strlit("\\t");
        reveal_strlit("\\u");
        reveal_strlit("0123456789abcdef");
        assert forall|i: int| 0 <= i < tail.len() implies !is_control(#[trigger] tail[i]) by {
            if !(c == '"' || c == '\\' || c == '\n' || c == '\r' || c == '\t') && is_control(c) {
                let n = c as nat;
                assert(hex4(n)[0] == hex_digit((n / 4096) % 16));
                assert(hex4(n)[1] == hex_digit((n / 256) % 16));
                assert(hex4(n)[2] == hex_digit((n / 16) % 16));
                assert(hex4(n)[3] == hex_digit(n % 16));
                assert(tail == "\\u"@ + hex4(n));
            }
        }
        assert forall|i: int| 0 <= i < escape_spec(s).len() implies !is_control(#[trigger] escape_spec(s)[i]) by {
            assert(escape_spec(s) == head + tail);
            if i >= head.len() {
                assert(escape_spec(s)[i] == tail[i - head.len()]);
            } else {
                assert(escape_spec(s)[i] == head[i]);
            }
        }
    }
}

} // verus!
