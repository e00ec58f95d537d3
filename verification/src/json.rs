//! The JSON document read as a JSON value: the text that `print_json`
//! writes is the written-out form of a value that mirrors the graphs.
use vstd::prelude::*;

use crate::model::{NodeModel, OwnershipGraph, Resolution, node_views, status_str};
use crate::output::{
    JsonModel, comma_if, escape_spec, graph_json, graph_members, graph_value, graphs_json, graphs_value, json_text,
    lemma_item_step, lemma_member_step, lemma_owner_item, lemma_plain_escapes, lemma_render_list,
    lemma_render_none, lemma_render_object, lemma_render_text, lemma_text_member, member_line, owner_value,
    owners_json, render, render_items, render_members, resolution_json, resolution_members, resolution_value,
    resolutions_json, spaces, string_field,
};
use vstd::seq_lib::lemma_concat_associative;

verus! {

proof fn lemma_owner_list(ns: Seq<NodeModel>, k: nat)
    requires
        k <= ns.len(),
    ensures
        owners_json(ns.take(k as int), ns.len()) == render_items(ns.map_values(|n: NodeModel| owner_value(n)), 8, k),
    decreases k,
{
    let items = ns.map_values(|n: NodeModel| owner_value(n));
    if k == 0 {
        assert(ns.take(0) =~= Seq::<NodeModel>::empty());
        lemma_render_none(items, Seq::empty(), 8);
    } else {
        lemma_owner_list(ns, (k - 1) as nat);
        let t = ns.take(k as int);
        assert(t.drop_last() =~= ns.take(k - 1));
        assert(t.last() == ns[k - 1]);
        assert(items[k - 1] == owner_value(ns[k - 1]));
        lemma_owner_item(ns[k - 1], k == ns.len());
        lemma_item_step(items, 8, k);
    }
}

pub open spec fn chain_items(r: Resolution) -> Seq<JsonModel> {
    node_views(r.owners@).map_values(|n: NodeModel| owner_value(n))
}

#[verifier::spinoff_prover]
proof fn lemma_chain_member(r: Resolution)
    ensures
        member_line(6, "ownership_chain"@, JsonModel::List(chain_items(r)), false) == "        \"ownership_chain\": [\n"@
            + owners_json(node_views(r.owners@), node_views(r.owners@).len()) + "        ]\n"@,
{
    let ns = node_views(r.owners@);
    lemma_owner_list(ns, ns.len());
    assert(ns.take(ns.len() as int) =~= ns);
    reveal_strlit("ownership_chain");
    lemma_plain_escapes("ownership_chain"@);
    reveal_strlit("        \"ownership_chain\": [\n");
    reveal_strlit("        ]\n");
    reveal_strlit("\"");
    reveal_strlit("\": ");
    reveal_strlit("[\n");
    reveal_strlit("]");
    reveal_strlit("\n");
    lemma_render_list(chain_items(r), 8);
    let oj = owners_json(ns, ns.len());
    assert(member_line(6, "ownership_chain"@, JsonModel::List(chain_items(r)), false) =~= "        \"ownership_chain\": [\n"@
        + oj + "        ]\n"@);
}

#[verifier::spinoff_prover]
proof fn lemma_resolution_members(r: Resolution)
    ensures
        render_members(resolution_members(r), 6, 4) == string_field(8, "status"@, status_str(r.status), true)
            + string_field(8, "path"@, r.path@, true) + string_field(8, "real_path"@, r.real_path@, true) + ("        \"ownership_chain\": [\n"@
            + owners_json(node_views(r.owners@), node_views(r.owners@).len()) + "        ]\n"@),
{
    let ms = resolution_members(r);
    lemma_member_step(ms, 6, 1);
    lemma_member_step(ms, 6, 2);
    lemma_member_step(ms, 6, 3);
    lemma_member_step(ms, 6, 4);
    lemma_text_member(6, "status"@, status_str(r.status), true);
    lemma_text_member(6, "path"@, r.path@, true);
    lemma_text_member(6, "real_path"@, r.real_path@, true);
    lemma_chain_member(r);
    lemma_render_none(Seq::empty(), ms, 6);
    assert(render_members(ms, 6, 1) =~= string_field(8, "status"@, status_str(r.status), true));
}

#[verifier::spinoff_prover]
proof fn lemma_resolution_item(r: Resolution, last: bool)
    ensures
        spaces(6) + render(resolution_value(r), 6) + comma_if(!last) + "\n"@ == resolution_json(r, last),
{
    let ms = resolution_members(r);
    let ns = node_views(r.owners@);
    let f1 = string_field(8, "status"@, status_str(r.status), true);
    let f2 = string_field(8, "path"@, r.path@, true);
    let f3 = string_field(8, "real_path"@, r.real_path@, true);
    let c1 = "        \"ownership_chain\": [\n"@;
    let oj = owners_json(ns, ns.len());
    let c2 = "        ]\n"@;
    lemma_resolution_members(r);
    let m4 = render_members(ms, 6, 4);
    let open = "      {\n"@;
    let close = "      }"@;
    assert(spaces(6) + "{\n"@ == open) by {
        reveal_strlit("      {\n");
        reveal_strlit("{\n");
        assert(spaces(6) + "{\n"@ =~= open);
    }
    assert(spaces(6) + "}"@ == close) by {
        reveal_strlit("      }");
        reveal_strlit("}");
        assert(spaces(6) + "}"@ =~= close);
    }
    lemma_concat_associative(f1 + f2 + f3, c1 + oj, c2);
    lemma_concat_associative(f1 + f2 + f3, c1, oj);
    lemma_concat_associative(open, f1 + f2 + f3 + c1 + oj, c2);
    lemma_concat_associative(open, f1 + f2 + f3 + c1, oj);
    lemma_concat_associative(open, f1 + f2 + f3, c1);
    lemma_concat_associative(open, f1 + f2, f3);
    lemma_concat_associative(open, f1, f2);
    assert(open + m4 == open + f1 + f2 + f3 + c1 + oj + c2);
    let inner = "{\n"@ + m4 + spaces(6) + "}"@;
    lemma_render_object(ms, 6);
    assert(render(resolution_value(r), 6) == inner);
    lemma_concat_associative(spaces(6), "{\n"@ + m4, spaces(6) + "}"@);
    lemma_concat_associative(spaces(6), "{\n"@, m4);
    lemma_concat_associative("{\n"@ + m4, spaces(6), "}"@);
    assert(spaces(6) + inner == open + m4 + close);
}

proof fn lemma_resolution_list(rs: Seq<Resolution>, k: nat)
    requires
        k <= rs.len(),
    ensures
        resolutions_json(rs.take(k as int), rs.len()) == render_items(
            rs.map_values(|r: Resolution| resolution_value(r)),
            4,
            k,
        ),
    decreases k,
{
    let items = rs.map_values(|r: Resolution| resolution_value(r));
    if k == 0 {
        assert(rs.take(0) =~= Seq::<Resolution>::empty());
        lemma_render_none(items, Seq::empty(), 4);
    } else {
        lemma_resolution_list(rs, (k - 1) as nat);
        let t = rs.take(k as int);
        assert(t.drop_last() =~= rs.take(k - 1));
        assert(t.last() == rs[k - 1]);
        assert(items[k - 1] == resolution_value(rs[k - 1]));
        lemma_resolution_item(rs[k - 1], k == rs.len());
        lemma_item_step(items, 4, k);
    }
}

pub open spec fn graph_resolution_items(g: OwnershipGraph) -> Seq<JsonModel> {
    g.resolutions@.map_values(|r: Resolution| resolution_value(r))
}

#[verifier::spinoff_prover]
proof fn lemma_command_member(g: OwnershipGraph)
    ensures
        member_line(2, "command"@, JsonModel::Text(g.command@), true) == "    \"command\": \""@ + escape_spec(g.command@)
            + "\",\n"@,
{
    reveal_strlit("command");
    lemma_plain_escapes("command"@);
    reveal_strlit("    \"command\": \"");
    reveal_strlit("\",\n");
    reveal_strlit("\"");
    reveal_strlit("\": ");
    reveal_strlit(",");
    reveal_strlit("\n");
    lemma_render_text(g.command@, 4);
    assert(member_line(2, "command"@, JsonModel::Text(g.command@), true) =~= "    \"command\": \""@ + escape_spec(g.command@)
        + "\",\n"@);
}

#[verifier::spinoff_prover]
proof fn lemma_resolutions_member(g: OwnershipGraph)
    ensures
        member_line(2, "resolutions"@, JsonModel::List(graph_resolution_items(g)), false) == "    \"resolutions\": [\n"@
            + resolutions_json(g.resolutions@, g.resolutions@.len()) + "    ]\n"@,
{
    let rs = g.resolutions@;
    lemma_resolution_list(rs, rs.len());
    assert(rs.take(rs.len() as int) =~= rs);
    reveal_strlit("resolutions");
    lemma_plain_escapes("resolutions"@);
    reveal_strlit("    \"resolutions\": [\n");
    reveal_strlit("    ]\n");
    reveal_strlit("\"");
    reveal_strlit("\": ");
    reveal_strlit("[\n");
    reveal_strlit("]");
    reveal_strlit("\n");
    lemma_render_list(graph_resolution_items(g), 4);
    let rj = resolutions_json(rs, rs.len());
    assert(member_line(2, "resolutions"@, JsonModel::List(graph_resolution_items(g)), false) =~= "    \"resolutions\": [\n"@ + rj
        + "    ]\n"@);
}

#[verifier::spinoff_prover]
proof fn lemma_graph_members(g: OwnershipGraph)
    ensures
        render_members(graph_members(g), 2, 2) == "    \"command\": \""@ + escape_spec(g.command@) + "\",\n"@ + ("    \"resolutions\": [\n"@
            + resolutions_json(g.resolutions@, g.resolutions@.len()) + "    ]\n"@),
{
    let ms = graph_members(g);
    lemma_member_step(ms, 2, 1);
    lemma_member_step(ms, 2, 2);
    lemma_render_none(Seq::empty(), ms, 2);
    lemma_command_member(g);
    lemma_resolutions_member(g);
    assert(render_members(ms, 2, 1) =~= "    \"command\": \""@ + escape_spec(g.command@) + "\",\n"@);
}

#[verifier::spinoff_prover]
proof fn lemma_graph_item(g: OwnershipGraph, last: bool)
    ensures
        spaces(2) + render(graph_value(g), 2) + comma_if(!last) + "\n"@ == graph_json(g, last),
{
    let ms = graph_members(g);
    let rs = g.resolutions@;
    let a1 = "    \"command\": \""@;
    let ec = escape_spec(g.command@);
    let a2 = "\",\n"@;
    let b1 = "    \"resolutions\": [\n"@;
    let rj = resolutions_json(rs, rs.len());
    let b2 = "    ]\n"@;
    lemma_graph_members(g);
    let m2 = render_members(ms, 2, 2);
    let open = "  {\n"@;
    let close = "  }"@;
    assert(spaces(2) + "{\n"@ == open) by {
        reveal_strlit("  {\n");
        reveal_strlit("{\n");
        assert(spaces(2) + "{\n"@ =~= open);
    }
    assert(spaces(2) + "}"@ == close) by {
        reveal_strlit("  }");
        reveal_strlit("}");
        assert(spaces(2) + "}"@ =~= close);
    }
    lemma_concat_associative(a1 + ec + a2, b1 + rj, b2);
    lemma_concat_associative(a1 + ec + a2, b1, rj);
    lemma_concat_associative(open, a1 + ec + a2 + b1 + rj, b2);
    lemma_concat_associative(open, a1 + ec + a2 + b1, rj);
    lemma_concat_associative(open, a1 + ec + a2, b1);
    lemma_concat_associative(open, a1 + ec, a2);
    lemma_concat_associative(open, a1, ec);
    assert(open + m2 == open + a1 + ec + a2 + b1 + rj + b2);
    let inner = "{\n"@ + m2 + spaces(2) + "}"@;
    lemma_render_object(ms, 2);
    assert(render(graph_value(g), 2) == inner);
    lemma_concat_associative(spaces(2), "{\n"@ + m2, spaces(2) + "}"@);
    lemma_concat_associative(spaces(2), "{\n"@, m2);
    lemma_concat_associative("{\n"@ + m2, spaces(2), "}"@);
    assert(spaces(2) + inner == open + m2 + close);
}

proof fn lemma_graph_list(gs: Seq<OwnershipGraph>, k: nat)
    requires
        k <= gs.len(),
    ensures
        graphs_json(gs.take(k as int), gs.len()) == render_items(
            gs.map_values(|g: OwnershipGraph| graph_value(g)),
            0,
            k,
        ),
    decreases k,
{
    let items = gs.map_values(|g: OwnershipGraph| graph_value(g));
    if k == 0 {
        assert(gs.take(0) =~= Seq::<OwnershipGraph>::empty());
        lemma_render_none(items, Seq::empty(), 0);
    } else {
        lemma_graph_list(gs, (k - 1) as nat);
        let t = gs.take(k as int);
        assert(t.drop_last() =~= gs.take(k - 1));
        assert(t.last() == gs[k - 1]);
        assert(items[k - 1] == graph_value(gs[k - 1]));
        lemma_graph_item(gs[k - 1], k == gs.len());
        lemma_item_step(items, 0, k);
    }
}

/// The JSON document is a JSON array written out, with one object per graph
/// in order; each graph object holds its command and one object per
/// resolution, each resolution its status, paths and owner chain, and each
/// owner its stable id, display name, kind, package, version, confidence,
/// evidence and action guide, with `null` for what is absent.
pub proof fn lemma_json_document_is_the_graphs_value(gs: Seq<OwnershipGraph>)
    ensures
        json_text(gs) == render(graphs_value(gs), 0) + "\n"@,
{
    let items = gs.map_values(|g: OwnershipGraph| graph_value(g));
    lemma_graph_list(gs, gs.len());
    assert(gs.take(gs.len() as int) =~= gs);
    lemma_render_list(items, 0);
    let x = "[\n"@ + graphs_json(gs, gs.len());
    assert(spaces(0) =~= Seq::<char>::empty());
    assert(x + spaces(0) =~= x);
    lemma_concat_associative(x, "]"@, "\n"@);
    assert("]"@ + "\n"@ == "]\n"@) by {
        reveal_strlit("]");
        reveal_strlit("\n");
        reveal_strlit("]\n");
        assert("]"@ + "\n"@ =~= "]\n"@);
    }
}

} // verus!
