//! Where on PATH a command may be found, and which of the hits is active.
use vstd::prelude::*;

use crate::path::{components, components_of, join, join_exec, same_path, same_path_exec};
use crate::text::{concat3, owned, split, split_str, views};

verus! {

/// The runtimes that the summary view inspects, in display order.
pub open spec fn known_runtimes_spec() -> Seq<Seq<char>> {
    seq![
        "node"@, "npm"@, "pnpm"@, "deno"@, "bun"@, "python3"@, "pip3"@, "ruby"@, "gem"@, "java"@,
        "javac"@, "go"@, "rustc"@, "cargo"@, "php"@, "dotnet"@, "flutter"@, "dart"@,
    ]
}

pub fn known_runtimes() -> (r: Vec<&'static str>)
    ensures
        r@.map_values(|s: &str| s@) == known_runtimes_spec(),
{
    let r = vec![
        "node", "npm", "pnpm", "deno", "bun", "python3", "pip3", "ruby", "gem", "java", "javac",
        "go", "rustc", "cargo", "php", "dotnet", "flutter", "dart",
    ];
    assert(r@.map_values(|s: &str| s@) =~= known_runtimes_spec());
    r
}

#[derive(Debug, PartialEq, Eq)]
pub struct ResolvedExecutable {
    pub path: String,
    pub real_path: String,
    pub active: bool,
}

/// A command given as a path (more than one component) is looked up as it
/// stands, not searched for on PATH.
pub open spec fn is_direct(command: Seq<char>) -> bool {
    components(command).len() > 1
}

pub fn is_direct_exec(command: &str) -> (r: bool)
    ensures
        r == is_direct(command@),
{
    components_of(command).len() > 1
}

/// Whether `x` names the same path as one of `seen`.
pub open spec fn seen_before(seen: Seq<Seq<char>>, x: Seq<char>) -> bool {
    exists|i: int| 0 <= i < seen.len() && same_path(#[trigger] seen[i], x)
}

/// The entries of `s` that name no path named earlier in `s`.
pub open spec fn first_occurrences(s: Seq<Seq<char>>) -> Seq<Seq<char>>
    decreases s.len(),
{
    if s.len() == 0 {
        s
    } else {
        let rest = first_occurrences(s.drop_last());
        if seen_before(s.drop_last(), s.last()) {
            rest
        } else {
            rest.push(s.last())
        }
    }
}

/// Where `command` may be found: each PATH directory joined with it, each
/// path considered once, in PATH order.
pub open spec fn candidates_spec(command: Seq<char>, path_env: Seq<char>) -> Seq<Seq<char>> {
    first_occurrences(split(path_env, ':').map_values(|dir: Seq<char>| join(dir, command)))
}

/// The places on PATH where `command` may be found, in PATH order, each once.
pub fn path_candidates(command: &str, path_env: &str) -> (r: Vec<String>)
    ensures
        views(r@) == candidates_spec(command@, path_env@),
{
    let dirs = split_str(path_env, ':');
    let ghost joined = split(path_env@, ':').map_values(|dir: Seq<char>| join(dir, command@));
    let mut all: Vec<String> = Vec::new();
    let mut r: Vec<String> = Vec::new();
    let mut i: usize = 0;
    proof {
        assert(joined.take(0) =~= Seq::<Seq<char>>::empty());
    }
    while i < dirs.len()
        invariant
            views(dirs@) == split(path_env@, ':'),
            joined == split(path_env@, ':').map_values(|dir: Seq<char>| join(dir, command@)),
            i <= dirs@.len(),
            views(all@) == joined.take(i as int),
            views(r@) == first_occurrences(joined.take(i as int)),
        decreases dirs@.len() - i,
    {
        let candidate = join_exec(dirs[i].as_str(), command);
        proof {
            assert(joined[i as int] == candidate@);
            assert(joined.take(i + 1).drop_last() =~= joined.take(i as int));
            assert(joined.take(i + 1).last() == candidate@);
        }
        let mut seen = false;
        let mut k: usize = 0;
        while k < all.len()
            invariant
                k <= all@.len(),
                seen == exists|j: int| 0 <= j < k && same_path(#[trigger] views(all@)[j], candidate@),
            decreases all@.len() - k,
        {
            proof {
                assert(views(all@)[k as int] == all@[k as int]@);
            }
            if same_path_exec(all[k].as_str(), candidate.as_str()) {
                seen = true;
            }
            k = k + 1;
        }
        proof {
            assert(seen == seen_before(views(all@), candidate@));
        }
        let ghost before_all = all@;
        let ghost before_r = r@;
        if !seen {
            r.push(candidate.clone());
            proof {
                assert(views(r@) =~= views(before_r).push(candidate@));
            }
        }
        all.push(candidate);
        proof {
            assert(views(all@) =~= views(before_all).push(candidate@));
            assert(views(all@) =~= joined.take(i + 1));
        }
        i = i + 1;
    }
    proof {
        assert(joined.take(dirs@.len() as int) =~= joined);
    }
    r
}

/// What was found, in PATH order, with the first hit active and the rest shadowed.
pub open spec fn resolved_spec(found: Seq<(Seq<char>, Seq<char>)>) -> Seq<(Seq<char>, Seq<char>, bool)> {
    Seq::new(found.len(), |i: int| (found[i].0, found[i].1, i == 0))
}

pub open spec fn resolved_views(v: Seq<ResolvedExecutable>) -> Seq<(Seq<char>, Seq<char>, bool)> {
    v.map_values(|r: ResolvedExecutable| (r.path@, r.real_path@, r.active))
}

pub open spec fn found_views(v: Seq<(String, String)>) -> Seq<(Seq<char>, Seq<char>)> {
    v.map_values(|p: (String, String)| (p.0@, p.1@))
}

/// The executables found, in PATH order, given each hit's path and final
/// target: the first is active, every later one is shadowed by it.
pub fn mark_active(found: Vec<(String, String)>) -> (r: Vec<ResolvedExecutable>)
    ensures
        resolved_views(r@) == resolved_spec(found_views(found@)),
{
    let mut r: Vec<ResolvedExecutable> = Vec::new();
    let mut rest = found;
    let ghost all = found_views(rest@);
    let total = rest.len();
    assert(all.len() == total);
    let mut i: usize = 0;
    assert(all.skip(0) =~= all);
    while rest.len() > 0
        invariant
            i + rest@.len() == all.len(),
            all.len() <= usize::MAX,
            found_views(rest@) == all.skip(i as int),
            resolved_views(r@) == resolved_spec(all).take(i as int),
        decreases rest@.len(),
    {
        let ghost before_rest = found_views(rest@);
        let (path, real_path) = rest.remove(0);
        let ghost before = r@;
        proof {
            assert(before_rest[0] == (path@, real_path@));
            assert(found_views(rest@) =~= before_rest.drop_first());
        }
        let item = ResolvedExecutable { path, real_path, active: i == 0 };
        r.push(item);
        proof {
            assert(resolved_views(r@) =~= resolved_views(before).push((item.path@, item.real_path@, i == 0)));
            assert(resolved_spec(all).take(i + 1) =~= resolved_spec(all).take(i as int).push(resolved_spec(all)[i as int]));
            assert(all.skip(i + 1) =~= all.skip(i as int).drop_first());
        }
        i = i + 1;
    }
    proof {
        assert(resolved_spec(all).take(i as int) =~= resolved_spec(all));
    }
    r
}

/// Only the first hit on PATH is active.
pub proof fn lemma_only_first_hit_is_active(found: Seq<(Seq<char>, Seq<char>)>, i: int)
    requires
        0 <= i < found.len(),
    ensures
        resolved_spec(found)[i].2 <==> i == 0,
{
}

} // verus!
