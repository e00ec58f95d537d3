//! What each owner is called, where its layout lives, how to query it, and
//! which commands inspect, update or remove what it installed.
use vstd::prelude::*;

use crate::model::{
    ActionGuide, GuideModel, OwnerId, OwnerKind, all_ids, all_owner_ids, display_str, id_at, id_index,
    id_kind, lemma_display_names_distinct, lemma_id_at_index, lemma_index_id,
};
use crate::text::{
    chars_of, concat2, concat3, concat4, first_some, lemma_first_some_at, lemma_first_some_end, lemma_first_some_step,
    opt_str, opt_view, owned, split, split_once, split_once_str, split_str, str_eq, substring,
    take_until, take_until_str, trim_start_char, trim_start_char_str, unwrap_or, views,
};

verus! {

/// The operating system whose tools an action guide names.
#[derive(Clone, Copy, Debug, PartialEq, Eq, Structural)]
pub enum Platform {
    MacOs,
    Linux,
    Other,
}

/// A read-only manager query: the program to run and its arguments.
pub struct QuerySpec {
    pub program: &'static str,
    pub arguments: Vec<String>,
}

// ---------------------------------------------------------------------------
// Shell quoting
// ---------------------------------------------------------------------------

/// A character that a guide writes unquoted.
pub open spec fn is_safe_char(c: char) -> bool {
    ||| ('a' <= c && c <= 'z')
    ||| ('A' <= c && c <= 'Z')
    ||| ('0' <= c && c <= '9')
    ||| c == '-' || c == '.' || c == '_' || c == '@' || c == '/' || c == '+' || c == '<' || c == '>'
}

pub open spec fn all_safe(v: Seq<char>) -> bool {
    forall|i: int| 0 <= i < v.len() ==> is_safe_char(#[trigger] v[i])
}

/// `v` with each single quote written as `'\''`.
pub open spec fn escape_single_quotes(v: Seq<char>) -> Seq<char>
    decreases v.len(),
{
    if v.len() == 0 {
        v
    } else {
        escape_single_quotes(v.drop_last()) + if v.last() == '\'' {
            "'\\''"@
        } else {
            seq![v.last()]
        }
    }
}

/// `v` as one shell word: unchanged when every character is safe, else single-quoted.
pub open spec fn quote(v: Seq<char>) -> Seq<char> {
    if v.len() > 0 && all_safe(v) {
        v
    } else {
        "'"@ + escape_single_quotes(v) + "'"@
    }
}

fn is_safe_char_exec(c: char) -> (r: bool)
    ensures
        r == is_safe_char(c),
{
    ('a' <= c && c <= 'z') || ('A' <= c && c <= 'Z') || ('0' <= c && c <= '9') || c == '-' || c
        == '.' || c == '_' || c == '@' || c == '/' || c == '+' || c == '<' || c == '>'
}

/// Quotes `value` for a shell where it needs it.
pub fn shell_quote(value: &str) -> (r: String)
    ensures
        r@ == quote(value@),
{
    let v = chars_of(value);
    let mut safe = v.len() > 0;
    let mut i: usize = 0;
    while i < v.len()
        invariant
            v@ == value@,
            i <= v@.len(),
            safe == (v@.len() > 0 && forall|j: int| 0 <= j < i ==> is_safe_char(#[trigger] v@[j])),
        decreases v@.len() - i,
    {
        if !is_safe_char_exec(v[i]) {
            safe = false;
        }
        i = i + 1;
    }
    if safe {
        return owned(value);
    }
    let mut out = owned("'");
    let mut k: usize = 0;
    proof {
        assert(value@.take(0) =~= Seq::<char>::empty());
    }
    while k < v.len()
        invariant
            v@ == value@,
            k <= v@.len(),
            out@ == "'"@ + escape_single_quotes(value@.take(k as int)),
        decreases v@.len() - k,
    {
        proof {
            assert(value@.take(k + 1).drop_last() =~= value@.take(k as int));
        }
        if v[k] == '\'' {
            out.append("'\\''");
        } else {
            let one = substring(value, k, k + 1);
            assert(one@ =~= seq![value@[k as int]]);
            out.append(one.as_str());
        }
        proof {
            assert(out@ =~= "'"@ + escape_single_quotes(value@.take(k + 1)));
        }
        k = k + 1;
    }
    proof {
        assert(value@.take(v@.len() as int) =~= value@);
    }
    out.append("'");
    out
}


// ---------------------------------------------------------------------------
// Names, executables, queries
// ---------------------------------------------------------------------------

/// The owner whose display name is `name`, the first in declaration order.
pub open spec fn from_name_spec(name: Seq<char>) -> Option<OwnerId> {
    first_some(all_ids(), named(name))
}

pub open spec fn named(name: Seq<char>) -> spec_fn(OwnerId) -> Option<OwnerId> {
    |id: OwnerId|
        if display_str(id) == name {
            Some(id)
        } else {
            None
        }
}

pub open spec fn manager_executable_spec(id: OwnerId) -> Option<Seq<char>> {
    match id {
        OwnerId::Fnm => Some("fnm"@),
        OwnerId::Volta => Some("volta"@),
        OwnerId::Mise => Some("mise"@),
        OwnerId::Asdf => Some("asdf"@),
        OwnerId::Pyenv => Some("pyenv"@),
        OwnerId::Rbenv => Some("rbenv"@),
        OwnerId::Uv => Some("uv"@),
        OwnerId::Rustup => Some("rustup"@),
        OwnerId::CargoInstall => Some("cargo"@),
        _ => None,
    }
}

/// The program and arguments of an owner's confirming query.
pub open spec fn query_spec(id: OwnerId, command: Seq<char>) -> Option<(Seq<char>, Seq<Seq<char>>)> {
    match id {
        OwnerId::Mise => Some(("mise"@, seq!["which"@, command])),
        OwnerId::Asdf => Some(("asdf"@, seq!["which"@, command])),
        OwnerId::Pyenv => Some(("pyenv"@, seq!["which"@, command])),
        OwnerId::Rbenv => Some(("rbenv"@, seq!["which"@, command])),
        OwnerId::Volta => Some(("volta"@, seq!["which"@, command])),
        OwnerId::Rustup => Some(("rustup"@, seq!["which"@, command])),
        OwnerId::Fnm => Some(("fnm"@, seq!["current"@])),
        _ => None,
    }
}

impl OwnerId {
    /// The display name, by which older records name an owner.
    pub fn name(self) -> (r: &'static str)
        ensures
            r@ == display_str(self),
    {
        self.display_name()
    }

    /// The owner with display name `name`.
    pub fn from_name(name: &str) -> (r: Option<OwnerId>)
        ensures
            r == from_name_spec(name@),
    {
        let ids = all_owner_ids();
        let ghost f = named(name@);
        let mut i: usize = 0;
        proof {
            lemma_first_some_end(ids@, f);
        }
        while i < ids.len()
            invariant
                ids@ == all_ids(),
                f == named(name@),
                i <= ids@.len(),
                first_some(ids@, f) == first_some(ids@.skip(i as int), f),
            decreases ids@.len() - i,
        {
            proof {
                lemma_first_some_step(ids@, f, i as int);
            }
            let id = ids[i];
            if str_eq(name, id.display_name()) {
                return Some(id);
            }
            i = i + 1;
        }
        proof {
            lemma_first_some_end(ids@, f);
        }
        None
    }

    /// The executable through which a manager is found on PATH, where it has one.
    pub fn manager_executable(self) -> (r: Option<&'static str>)
        ensures
            opt_str(r) == manager_executable_spec(self),
    {
        match self {
            OwnerId::Fnm => Some("fnm"),
            OwnerId::Volta => Some("volta"),
            OwnerId::Mise => Some("mise"),
            OwnerId::Asdf => Some("asdf"),
            OwnerId::Pyenv => Some("pyenv"),
            OwnerId::Rbenv => Some("rbenv"),
            OwnerId::Uv => Some("uv"),
            OwnerId::Rustup => Some("rustup"),
            OwnerId::CargoInstall => Some("cargo"),
            _ => None,
        }
    }

    /// The read-only query that confirms this owner, where it has one.
    pub fn query(self, command: &str) -> (r: Option<QuerySpec>)
        ensures
            match query_spec(self, command@) {
                Some(q) => r is Some && r->0.program@ == q.0 && views(r->0.arguments@) == q.1,
                None => r is None,
            },
    {
        let program: &'static str = match self {
            OwnerId::Mise => "mise",
            OwnerId::Asdf => "asdf",
            OwnerId::Pyenv => "pyenv",
            OwnerId::Rbenv => "rbenv",
            OwnerId::Volta => "volta",
            OwnerId::Rustup => "rustup",
            OwnerId::Fnm => {
                let arguments = vec![owned("current")];
                assert(views(arguments@) =~= seq!["current"@]);
                return Some(QuerySpec { program: "fnm", arguments });
            },
            _ => {
                return None;
            },
        };
        let arguments = vec![owned("which"), owned(command)];
        assert(views(arguments@) =~= seq!["which"@, command@]);
        Some(QuerySpec { program, arguments })
    }
}

// ---------------------------------------------------------------------------
// Layout markers
// ---------------------------------------------------------------------------

pub open spec fn str_views(v: Seq<&str>) -> Seq<Seq<char>> {
    v.map_values(|x: &str| x@)
}

/// Path fragments that identify a version manager's layout, in priority order.
pub open spec fn path_manager_rules_spec() -> Seq<(Seq<char>, OwnerId)> {
    seq![
        ("/.nvm/versions/"@, OwnerId::Nvm),
        ("/.local/share/fnm/"@, OwnerId::Fnm),
        ("/fnm_multishells/"@, OwnerId::Fnm),
        ("/.volta/"@, OwnerId::Volta),
        ("/.local/share/mise/"@, OwnerId::Mise),
        ("/.mise/"@, OwnerId::Mise),
        ("/.asdf/"@, OwnerId::Asdf),
        ("/.pyenv/"@, OwnerId::Pyenv),
        ("/.rbenv/"@, OwnerId::Rbenv),
        ("/.sdkman/"@, OwnerId::Sdkman),
        ("/.local/share/uv/python/"@, OwnerId::Uv),
    ]
}

pub open spec fn rule_views(v: Seq<(&str, OwnerId)>) -> Seq<(Seq<char>, OwnerId)> {
    v.map_values(|x: (&str, OwnerId)| (x.0@, x.1))
}

pub fn path_manager_rules() -> (r: Vec<(&'static str, OwnerId)>)
    ensures
        rule_views(r@) == path_manager_rules_spec(),
{
    let r = vec![
        ("/.nvm/versions/", OwnerId::Nvm),
        ("/.local/share/fnm/", OwnerId::Fnm),
        ("/fnm_multishells/", OwnerId::Fnm),
        ("/.volta/", OwnerId::Volta),
        ("/.local/share/mise/", OwnerId::Mise),
        ("/.mise/", OwnerId::Mise),
        ("/.asdf/", OwnerId::Asdf),
        ("/.pyenv/", OwnerId::Pyenv),
        ("/.rbenv/", OwnerId::Rbenv),
        ("/.sdkman/", OwnerId::Sdkman),
        ("/.local/share/uv/python/", OwnerId::Uv),
    ];
    assert(rule_views(r@) =~= path_manager_rules_spec());
    r
}

pub open spec fn fixed_tool(id: OwnerId) -> Option<Seq<char>> {
    match id {
        OwnerId::Nvm | OwnerId::Fnm => Some("node"@),
        OwnerId::Pyenv | OwnerId::Uv => Some("python"@),
        OwnerId::Rbenv => Some("ruby"@),
        _ => None,
    }
}

pub open spec fn tool_markers(id: OwnerId) -> Seq<Seq<char>> {
    match id {
        OwnerId::Volta => seq!["/.volta/tools/image/"@],
        OwnerId::Mise => seq!["/.local/share/mise/installs/"@, "/.mise/installs/"@],
        OwnerId::Asdf => seq!["/.asdf/installs/"@],
        OwnerId::Sdkman => seq!["/.sdkman/candidates/"@],
        _ => Seq::<Seq<char>>::empty(),
    }
}

pub open spec fn version_markers(id: OwnerId) -> Seq<Seq<char>> {
    match id {
        OwnerId::Nvm => seq!["/.nvm/versions/node/"@],
        OwnerId::Fnm => seq!["/node-versions/"@],
        OwnerId::Volta => seq!["/.volta/tools/image/node/"@],
        OwnerId::Mise => seq!["/.local/share/mise/installs/"@, "/.mise/installs/"@],
        OwnerId::Asdf => seq!["/.asdf/installs/"@],
        OwnerId::Pyenv => seq!["/.pyenv/versions/"@],
        OwnerId::Rbenv => seq!["/.rbenv/versions/"@],
        OwnerId::Sdkman => seq!["/.sdkman/candidates/"@],
        OwnerId::Uv => seq!["/.local/share/uv/python/"@],
        _ => Seq::<Seq<char>>::empty(),
    }
}

/// The directory right after `marker` in `path`, where there is a non-empty one.
pub open spec fn tool_at(path: Seq<char>, marker: Seq<char>) -> Option<Seq<char>> {
    match split_once(path, marker) {
        Some(parts) => {
            let name = take_until(parts.1, '/');
            if name.len() > 0 {
                Some(name)
            } else {
                None
            }
        },
        None => None,
    }
}

pub open spec fn tool_at_marker(path: Seq<char>) -> spec_fn(Seq<char>) -> Option<Seq<char>> {
    |m: Seq<char>| tool_at(path, m)
}

pub open spec fn tool_in_path(markers: Seq<Seq<char>>) -> spec_fn(Seq<char>) -> Option<Seq<char>> {
    |p: Seq<char>| first_some(markers, tool_at_marker(p))
}

/// The tool an owner manages: fixed for some owners, else read from the first
/// path (then the first marker) that names one.
pub open spec fn tool_for(id: OwnerId, paths: Seq<Seq<char>>) -> Option<Seq<char>> {
    match fixed_tool(id) {
        Some(t) => Some(t),
        None => first_some(paths, tool_in_path(tool_markers(id))),
    }
}

/// Whether an owner keeps the version one directory below the tool's name.
pub open spec fn version_after_tool(id: OwnerId) -> bool {
    id == OwnerId::Mise || id == OwnerId::Asdf || id == OwnerId::Sdkman
}

/// The version named after `marker` in `path`, without leading `v`s.
pub open spec fn version_at(id: OwnerId, path: Seq<char>, marker: Seq<char>) -> Option<Seq<char>> {
    match split_once(path, marker) {
        Some(parts) => {
            let pieces = split(parts.1, '/');
            let candidate = if version_after_tool(id) {
                if pieces.len() > 1 {
                    Some(pieces[1])
                } else {
                    None
                }
            } else {
                Some(pieces[0])
            };
            match candidate {
                Some(c) => if c.len() > 0 {
                    Some(trim_start_char(c, 'v'))
                } else {
                    None
                },
                None => None,
            }
        },
        None => None,
    }
}

pub open spec fn version_at_marker(id: OwnerId, path: Seq<char>) -> spec_fn(Seq<char>) -> Option<Seq<char>> {
    |m: Seq<char>| version_at(id, path, m)
}

pub open spec fn version_in_path(id: OwnerId) -> spec_fn(Seq<char>) -> Option<Seq<char>> {
    |p: Seq<char>| first_some(version_markers(id), version_at_marker(id, p))
}

/// The version an owner's layout records: from the first path, then the first
/// marker, that names a non-empty one.
pub open spec fn version_for(id: OwnerId, paths: Seq<Seq<char>>) -> Option<Seq<char>> {
    first_some(paths, version_in_path(id))
}

fn tool_markers_exec(id: OwnerId) -> (r: Vec<&'static str>)
    ensures
        str_views(r@) == tool_markers(id),
{
    let r: Vec<&'static str> = match id {
        OwnerId::Volta => vec!["/.volta/tools/image/"],
        OwnerId::Mise => vec!["/.local/share/mise/installs/", "/.mise/installs/"],
        OwnerId::Asdf => vec!["/.asdf/installs/"],
        OwnerId::Sdkman => vec!["/.sdkman/candidates/"],
        _ => Vec::new(),
    };
    assert(str_views(r@) =~= tool_markers(id));
    r
}

fn version_markers_exec(id: OwnerId) -> (r: Vec<&'static str>)
    ensures
        str_views(r@) == version_markers(id),
{
    let r: Vec<&'static str> = match id {
        OwnerId::Nvm => vec!["/.nvm/versions/node/"],
        OwnerId::Fnm => vec!["/node-versions/"],
        OwnerId::Volta => vec!["/.volta/tools/image/node/"],
        OwnerId::Mise => vec!["/.local/share/mise/installs/", "/.mise/installs/"],
        OwnerId::Asdf => vec!["/.asdf/installs/"],
        OwnerId::Pyenv => vec!["/.pyenv/versions/"],
        OwnerId::Rbenv => vec!["/.rbenv/versions/"],
        OwnerId::Sdkman => vec!["/.sdkman/candidates/"],
        OwnerId::Uv => vec!["/.local/share/uv/python/"],
        _ => Vec::new(),
    };
    assert(str_views(r@) =~= version_markers(id));
    r
}

fn tool_at_exec(path: &str, marker: &str) -> (r: Option<String>)
    ensures
        opt_view(r) == tool_at(path@, marker@),
{
    match split_once_str(path, marker) {
        Some((_, rest)) => {
            let name = take_until_str(rest.as_str(), '/');
            if name.as_str().unicode_len() > 0 {
                Some(name)
            } else {
                None
            }
        },
        None => None,
    }
}

fn version_at_exec(id: OwnerId, path: &str, marker: &str) -> (r: Option<String>)
    ensures
        opt_view(r) == version_at(id, path@, marker@),
{
    match split_once_str(path, marker) {
        Some((_, rest)) => {
            let pieces = split_str(rest.as_str(), '/');
            let index: usize = if id == OwnerId::Mise || id == OwnerId::Asdf || id == OwnerId::Sdkman {
                1
            } else {
                0
            };
            if index >= pieces.len() {
                return None;
            }
            let candidate = &pieces[index];
            assert(candidate@ == split(rest@, '/')[index as int]);
            if candidate.as_str().unicode_len() > 0 {
                Some(trim_start_char_str(candidate.as_str(), 'v'))
            } else {
                None
            }
        },
        None => None,
    }
}

impl OwnerId {
    /// The tool this owner manages, as its layout names it.
    pub fn tool_for_paths(self, paths: &Vec<String>) -> (r: Option<String>)
        ensures
            opt_view(r) == tool_for(self, views(paths@)),
    {
        match self {
            OwnerId::Nvm | OwnerId::Fnm => {
                return Some(owned("node"));
            },
            OwnerId::Pyenv | OwnerId::Uv => {
                return Some(owned("python"));
            },
            OwnerId::Rbenv => {
                return Some(owned("ruby"));
            },
            _ => {},
        }
        let markers = tool_markers_exec(self);
        let ghost ps = views(paths@);
        let ghost ms = tool_markers(self);
        let ghost outer = tool_in_path(ms);
        proof {
            lemma_first_some_end(ps, outer);
        }
        let mut i: usize = 0;
        while i < paths.len()
            invariant
                ps == views(paths@),
                ms == tool_markers(self),
                outer == tool_in_path(ms),
                str_views(markers@) == ms,
                fixed_tool(self) is None,
                i <= paths@.len(),
                tool_for(self, ps) == first_some(ps.skip(i as int), outer),
            decreases paths@.len() - i,
        {
            proof {
                lemma_first_some_step(ps, outer, i as int);
            }
            let path = paths[i].as_str();
            let ghost inner = tool_at_marker(path@);
            proof {
                lemma_first_some_end(ms, inner);
            }
            let mut k: usize = 0;
            while k < markers.len()
                invariant
                    str_views(markers@) == ms,
                    inner == tool_at_marker(path@),
                    ps == views(paths@),
                    i < paths@.len(),
                    path@ == paths@[i as int]@,
                    outer == tool_in_path(ms),
                    fixed_tool(self) is None,
                    tool_for(self, ps) == first_some(ps.skip(i as int), outer),
                    k <= markers@.len(),
                    first_some(ms, inner) == first_some(ms.skip(k as int), inner),
                decreases markers@.len() - k,
            {
                proof {
                    lemma_first_some_step(ms, inner, k as int);
                }
                let found = tool_at_exec(path, markers[k]);
                proof {
                    assert(str_views(markers@)[k as int] == markers@[k as int]@);
                }
                if found.is_some() {
                    proof {
                        lemma_first_some_step(ps, outer, i as int);
                        assert(ps[i as int] == path@);
                        assert(outer(ps[i as int]) == first_some(ms, inner));
                    }
                    return found;
                }
                k = k + 1;
            }
            proof {
                lemma_first_some_end(ms, inner);
                assert(ps[i as int] == path@);
                assert(outer(ps[i as int]) == first_some(ms, inner));
            }
            i = i + 1;
        }
        proof {
            lemma_first_some_end(ps, outer);
        }
        None
    }

    /// The version this owner's layout records.
    pub fn version_for_paths(self, paths: &Vec<String>) -> (r: Option<String>)
        ensures
            opt_view(r) == version_for(self, views(paths@)),
    {
        let markers = version_markers_exec(self);
        let ghost ps = views(paths@);
        let ghost ms = version_markers(self);
        let ghost outer = version_in_path(self);
        proof {
            lemma_first_some_end(ps, outer);
        }
        let mut i: usize = 0;
        while i < paths.len()
            invariant
                ps == views(paths@),
                ms == version_markers(self),
                outer == version_in_path(self),
                str_views(markers@) == ms,
                i <= paths@.len(),
                version_for(self, ps) == first_some(ps.skip(i as int), outer),
            decreases paths@.len() - i,
        {
            proof {
                lemma_first_some_step(ps, outer, i as int);
            }
            let path = paths[i].as_str();
            let ghost inner = version_at_marker(self, path@);
            proof {
                lemma_first_some_end(ms, inner);
            }
            let mut k: usize = 0;
            while k < markers.len()
                invariant
                    str_views(markers@) == ms,
                    inner == version_at_marker(self, path@),
                    ps == views(paths@),
                    i < paths@.len(),
                    path@ == paths@[i as int]@,
                    outer == version_in_path(self),
                    ms == version_markers(self),
                    version_for(self, ps) == first_some(ps.skip(i as int), outer),
                    k <= markers@.len(),
                    first_some(ms, inner) == first_some(ms.skip(k as int), inner),
                decreases markers@.len() - k,
            {
                proof {
                    lemma_first_some_step(ms, inner, k as int);
                }
                let found = version_at_exec(self, path, markers[k]);
                proof {
                    assert(str_views(markers@)[k as int] == markers@[k as int]@);
                }
                if found.is_some() {
                    proof {
                        lemma_first_some_step(ps, outer, i as int);
                        assert(ps[i as int] == path@);
                        assert(outer(ps[i as int]) == first_some(ms, inner));
                    }
                    return found;
                }
                k = k + 1;
            }
            proof {
                lemma_first_some_end(ms, inner);
                assert(ps[i as int] == path@);
                assert(outer(ps[i as int]) == first_some(ms, inner));
            }
            i = i + 1;
        }
        proof {
            lemma_first_some_end(ps, outer);
        }
        None
    }
}

// ---------------------------------------------------------------------------
// Action guides
// ---------------------------------------------------------------------------

pub open spec fn unknown_inspect_spec(qpath: Seq<char>, platform: Platform) -> Option<Seq<char>> {
    match platform {
        Platform::MacOs => Some("pkgutil --file-info "@ + qpath),
        Platform::Linux => Some(
            "dpkg-query -S "@ + qpath + "  # also try rpm -qf, pacman -Qo, or apk info -W"@,
        ),
        Platform::Other => None,
    }
}

/// The guide for an owner, from the command, the package and version found,
/// and the resolved path.
pub open spec fn guide_for(
    id: OwnerId,
    command: Seq<char>,
    package: Option<Seq<char>>,
    version: Option<Seq<char>>,
    path: Seq<char>,
    platform: Platform,
) -> GuideModel {
    let tool = quote(unwrap_or(package, command));
    let cmd = quote(command);
    let ver = quote(unwrap_or(version, "<version>"@));
    let pkg = quote(unwrap_or(package, "<package>"@));
    let qpath = quote(path);
    match id {
        OwnerId::Homebrew => GuideModel {
            inspect: Some("brew info "@ + pkg),
            update: Some("brew upgrade "@ + pkg),
            remove: Some("brew uninstall "@ + pkg),
            note: None,
        },
        OwnerId::Nix => GuideModel {
            inspect: Some("nix-store --query --roots "@ + qpath),
            update: None,
            remove: None,
            note: Some("Use the flake, profile, or configuration reported as a root; the store path alone does not identify a safe update/remove command."@),
        },
        OwnerId::Nvm => GuideModel {
            inspect: Some("nvm current"@),
            update: Some("nvm install "@ + "<new-version>"@),
            remove: Some("nvm uninstall "@ + ver),
            note: Some("Switch away from the selected version before uninstalling it."@),
        },
        OwnerId::Fnm => GuideModel {
            inspect: Some("fnm current"@),
            update: Some("fnm install "@ + "<new-version>"@),
            remove: Some("fnm uninstall "@ + ver),
            note: None,
        },
        OwnerId::Volta => GuideModel {
            inspect: Some("volta which "@ + cmd),
            update: Some("volta install "@ + tool + "@"@ + "<new-version>"@),
            remove: Some("volta uninstall "@ + tool),
            note: None,
        },
        OwnerId::Mise => GuideModel {
            inspect: Some("mise which "@ + cmd),
            update: Some("mise upgrade "@ + tool),
            remove: Some("mise uninstall "@ + tool + "@"@ + ver),
            note: None,
        },
        OwnerId::Asdf => GuideModel {
            inspect: Some("asdf which "@ + cmd),
            update: Some("asdf install "@ + tool + " "@ + "<new-version>"@),
            remove: Some("asdf uninstall "@ + tool + " "@ + ver),
            note: None,
        },
        OwnerId::Pyenv => GuideModel {
            inspect: Some("pyenv which "@ + cmd),
            update: Some("pyenv install "@ + "<new-version>"@),
            remove: Some("pyenv uninstall "@ + ver),
            note: None,
        },
        OwnerId::Rbenv => GuideModel {
            inspect: Some("rbenv which "@ + cmd),
            update: Some("rbenv install "@ + "<new-version>"@),
            remove: Some("rbenv uninstall "@ + ver),
            note: Some("The install/uninstall subcommands require the ruby-build plugin."@),
        },
        OwnerId::Sdkman => GuideModel {
            inspect: Some("sdk current"@),
            update: Some("sdk upgrade "@ + tool),
            remove: Some("sdk uninstall "@ + tool + " "@ + ver),
            note: None,
        },
        OwnerId::Uv => GuideModel {
            inspect: Some("uv python list"@),
            update: Some("uv python install "@ + "<new-version>"@),
            remove: Some("uv python uninstall "@ + ver),
            note: None,
        },
        OwnerId::Rustup => GuideModel {
            inspect: Some("rustup which "@ + cmd),
            update: Some("rustup update"@),
            remove: Some("rustup toolchain uninstall "@ + ver),
            note: Some("Confirm the active toolchain with `rustup show active-toolchain` before removing it."@),
        },
        OwnerId::RustupInstaller => GuideModel {
            inspect: Some("rustup show"@),
            update: Some("rustup self update"@),
            remove: Some("rustup self uninstall"@),
            note: Some("Self-uninstall removes rustup-managed toolchains as well; review `rustup show` first."@),
        },
        OwnerId::CargoInstall => GuideModel {
            inspect: Some("cargo install --list"@),
            update: None,
            remove: None,
            note: Some("Map executable "@ + cmd + " to its crate in `cargo install --list` before using `cargo install <crate>` or `cargo uninstall <crate>`."@),
        },
        OwnerId::PnpmHome => GuideModel {
            inspect: Some("pnpm bin -g"@),
            update: None,
            remove: None,
            note: Some("Confirm whether Corepack or pnpm's standalone installer created this home before removing it."@),
        },
        OwnerId::DenoInstaller => GuideModel {
            inspect: Some("deno --version"@),
            update: Some("deno upgrade"@),
            remove: None,
            note: Some("Use the uninstall instructions for the installer that created DENO_INSTALL; no removal command is inferred from the path alone."@),
        },
        OwnerId::BunInstaller => GuideModel {
            inspect: Some("bun --version"@),
            update: Some("bun upgrade"@),
            remove: None,
            note: Some("Confirm BUN_INSTALL and follow Bun's uninstall instructions before deleting files."@),
        },
        OwnerId::MacosInstaller => GuideModel {
            inspect: if pkg == "<package>"@ { None } else { Some("pkgutil --pkg-info "@ + pkg) },
            update: None,
            remove: None,
            note: Some("Update by installing a newer package from the same vendor. macOS receipts do not define a generic safe uninstall command; follow the vendor's uninstall instructions."@),
        },
        OwnerId::PythonOrgInstaller => GuideModel {
            inspect: Some("pkgutil --pkg-info "@ + pkg),
            update: None,
            remove: None,
            note: Some("Update with a newer python.org installer. Follow python.org's macOS uninstall guidance rather than deleting framework files blindly."@),
        },
        OwnerId::MacPorts => GuideModel {
            inspect: Some("port provides "@ + qpath),
            update: None,
            remove: None,
            note: Some("Resolve the owning port first, then use `port upgrade <port>` or `port uninstall <port>`."@),
        },
        OwnerId::Dpkg => GuideModel {
            inspect: Some("dpkg-query -S "@ + qpath),
            update: Some("apt install --only-upgrade "@ + pkg),
            remove: Some("apt remove "@ + pkg),
            note: None,
        },
        OwnerId::Rpm => GuideModel {
            inspect: Some("rpm -qf "@ + qpath),
            update: None,
            remove: None,
            note: Some("Use the system's RPM frontend (for example dnf or zypper) with the reported package; rpm ownership alone does not identify the frontend."@),
        },
        OwnerId::Pacman => GuideModel {
            inspect: Some("pacman -Qo "@ + qpath),
            update: Some("pacman -S "@ + pkg),
            remove: Some("pacman -Rns "@ + pkg),
            note: None,
        },
        OwnerId::Apk => GuideModel {
            inspect: Some("apk info -W "@ + qpath),
            update: Some("apk upgrade "@ + pkg),
            remove: Some("apk del "@ + pkg),
            note: None,
        },
        OwnerId::OperatingSystem => GuideModel {
            inspect: None,
            update: None,
            remove: None,
            note: Some("Update this runtime through operating-system updates. Removing an OS-provided runtime is not recommended by this tool."@),
        },
        OwnerId::UnconfirmedOwner => GuideModel {
            inspect: unknown_inspect_spec(qpath, platform),
            update: None,
            remove: None,
            note: Some("Ownership is unconfirmed. Do not update or remove this file until a receipt, package record, or installer is identified."@),
        },
        OwnerId::UnconfirmedSource => GuideModel {
            inspect: None,
            update: None,
            remove: None,
            note: Some("The installation source of this manager is unconfirmed. Do not remove it until its installer or package-manager record is identified."@),
        },
    }
}

/// The inspect command for a receipt package, unless none was identified.
pub fn package_id_from_command_context(package: &str) -> (r: Option<String>)
    ensures
        r is None <==> package@ == "<package>"@,
        r is Some ==> r->0@ == "pkgutil --pkg-info "@ + package@,
{
    if str_eq(package, "<package>") {
        None
    } else {
        Some(concat2("pkgutil --pkg-info ", package))
    }
}

/// How to look up an unclaimed file with the platform's own package tools.
pub fn unknown_inspect_command(path: &str, platform: Platform) -> (r: Option<String>)
    ensures
        opt_view(r) == unknown_inspect_spec(path@, platform),
{
    match platform {
        Platform::MacOs => Some(concat2("pkgutil --file-info ", path)),
        Platform::Linux => Some(
            concat3("dpkg-query -S ", path, "  # also try rpm -qf, pacman -Qo, or apk info -W"),
        ),
        Platform::Other => None,
    }
}

impl OwnerId {
    /// Suggested commands for what this owner installed. Nothing here is run.
    pub fn actions(
        self,
        command: &str,
        package: Option<&str>,
        version: Option<&str>,
        path: &str,
        platform: Platform,
    ) -> (r: ActionGuide)
        ensures
            r@ == guide_for(self, command@, opt_str(package), opt_str(version), path@, platform),
    {
        let tool = shell_quote(package.unwrap_or(command));
        let cmd = shell_quote(command);
        let ver = shell_quote(version.unwrap_or("<version>"));
        let pkg = shell_quote(package.unwrap_or("<package>"));
        let qpath = shell_quote(path);
        match self {
            OwnerId::Homebrew => ActionGuide {
                inspect: Some(concat2("brew info ", pkg.as_str())),
                update: Some(concat2("brew upgrade ", pkg.as_str())),
                remove: Some(concat2("brew uninstall ", pkg.as_str())),
                note: None,
            },
            OwnerId::Nix => ActionGuide {
                inspect: Some(concat2("nix-store --query --roots ", qpath.as_str())),
                update: None,
                remove: None,
                note: Some(owned("Use the flake, profile, or configuration reported as a root; the store path alone does not identify a safe update/remove command.")),
            },
            OwnerId::Nvm => ActionGuide {
                inspect: Some(owned("nvm current")),
                update: Some(concat2("nvm install ", "<new-version>")),
                remove: Some(concat2("nvm uninstall ", ver.as_str())),
                note: Some(owned("Switch away from the selected version before uninstalling it.")),
            },
            OwnerId::Fnm => ActionGuide {
                inspect: Some(owned("fnm current")),
                update: Some(concat2("fnm install ", "<new-version>")),
                remove: Some(concat2("fnm uninstall ", ver.as_str())),
                note: None,
            },
            OwnerId::Volta => ActionGuide {
                inspect: Some(concat2("volta which ", cmd.as_str())),
                update: Some(concat4("volta install ", tool.as_str(), "@", "<new-version>")),
                remove: Some(concat2("volta uninstall ", tool.as_str())),
                note: None,
            },
            OwnerId::Mise => ActionGuide {
                inspect: Some(concat2("mise which ", cmd.as_str())),
                update: Some(concat2("mise upgrade ", tool.as_str())),
                remove: Some(concat4("mise uninstall ", tool.as_str(), "@", ver.as_str())),
                note: None,
            },
            OwnerId::Asdf => ActionGuide {
                inspect: Some(concat2("asdf which ", cmd.as_str())),
                update: Some(concat4("asdf install ", tool.as_str(), " ", "<new-version>")),
                remove: Some(concat4("asdf uninstall ", tool.as_str(), " ", ver.as_str())),
                note: None,
            },
            OwnerId::Pyenv => ActionGuide {
                inspect: Some(concat2("pyenv which ", cmd.as_str())),
                update: Some(concat2("pyenv install ", "<new-version>")),
                remove: Some(concat2("pyenv uninstall ", ver.as_str())),
                note: None,
            },
            OwnerId::Rbenv => ActionGuide {
                inspect: Some(concat2("rbenv which ", cmd.as_str())),
                update: Some(concat2("rbenv install ", "<new-version>")),
                remove: Some(concat2("rbenv uninstall ", ver.as_str())),
                note: Some(owned("The install/uninstall subcommands require the ruby-build plugin.")),
            },
            OwnerId::Sdkman => ActionGuide {
                inspect: Some(owned("sdk current")),
                update: Some(concat2("sdk upgrade ", tool.as_str())),
                remove: Some(concat4("sdk uninstall ", tool.as_str(), " ", ver.as_str())),
                note: None,
            },
            OwnerId::Uv => ActionGuide {
                inspect: Some(owned("uv python list")),
                update: Some(concat2("uv python install ", "<new-version>")),
                remove: Some(concat2("uv python uninstall ", ver.as_str())),
                note: None,
            },
            OwnerId::Rustup => ActionGuide {
                inspect: Some(concat2("rustup which ", cmd.as_str())),
                update: Some(owned("rustup update")),
                remove: Some(concat2("rustup toolchain uninstall ", ver.as_str())),
                note: Some(owned("Confirm the active toolchain with `rustup show active-toolchain` before removing it.")),
            },
            OwnerId::RustupInstaller => ActionGuide {
                inspect: Some(owned("rustup show")),
                update: Some(owned("rustup self update")),
                remove: Some(owned("rustup self uninstall")),
                note: Some(owned("Self-uninstall removes rustup-managed toolchains as well; review `rustup show` first.")),
            },
            OwnerId::CargoInstall => ActionGuide {
                inspect: Some(owned("cargo install --list")),
                update: None,
                remove: None,
                note: Some(concat3("Map executable ", cmd.as_str(), " to its crate in `cargo install --list` before using `cargo install <crate>` or `cargo uninstall <crate>`.")),
            },
            OwnerId::PnpmHome => ActionGuide {
                inspect: Some(owned("pnpm bin -g")),
                update: None,
                remove: None,
                note: Some(owned("Confirm whether Corepack or pnpm's standalone installer created this home before removing it.")),
            },
            OwnerId::DenoInstaller => ActionGuide {
                inspect: Some(owned("deno --version")),
                update: Some(owned("deno upgrade")),
                remove: None,
                note: Some(owned("Use the uninstall instructions for the installer that created DENO_INSTALL; no removal command is inferred from the path alone.")),
            },
            OwnerId::BunInstaller => ActionGuide {
                inspect: Some(owned("bun --version")),
                update: Some(owned("bun upgrade")),
                remove: None,
                note: Some(owned("Confirm BUN_INSTALL and follow Bun's uninstall instructions before deleting files.")),
            },
            OwnerId::MacosInstaller => ActionGuide {
                inspect: package_id_from_command_context(pkg.as_str()),
                update: None,
                remove: None,
                note: Some(owned("Update by installing a newer package from the same vendor. macOS receipts do not define a generic safe uninstall command; follow the vendor's uninstall instructions.")),
            },
            OwnerId::PythonOrgInstaller => ActionGuide {
                inspect: Some(concat2("pkgutil --pkg-info ", pkg.as_str())),
                update: None,
                remove: None,
                note: Some(owned("Update with a newer python.org installer. Follow python.org's macOS uninstall guidance rather than deleting framework files blindly.")),
            },
            OwnerId::MacPorts => ActionGuide {
                inspect: Some(concat2("port provides ", qpath.as_str())),
                update: None,
                remove: None,
                note: Some(owned("Resolve the owning port first, then use `port upgrade <port>` or `port uninstall <port>`.")),
            },
            OwnerId::Dpkg => ActionGuide {
                inspect: Some(concat2("dpkg-query -S ", qpath.as_str())),
                update: Some(concat2("apt install --only-upgrade ", pkg.as_str())),
                remove: Some(concat2("apt remove ", pkg.as_str())),
                note: None,
            },
            OwnerId::Rpm => ActionGuide {
                inspect: Some(concat2("rpm -qf ", qpath.as_str())),
                update: None,
                remove: None,
                note: Some(owned("Use the system's RPM frontend (for example dnf or zypper) with the reported package; rpm ownership alone does not identify the frontend.")),
            },
            OwnerId::Pacman => ActionGuide {
                inspect: Some(concat2("pacman -Qo ", qpath.as_str())),
                update: Some(concat2("pacman -S ", pkg.as_str())),
                remove: Some(concat2("pacman -Rns ", pkg.as_str())),
                note: None,
            },
            OwnerId::Apk => ActionGuide {
                inspect: Some(concat2("apk info -W ", qpath.as_str())),
                update: Some(concat2("apk upgrade ", pkg.as_str())),
                remove: Some(concat2("apk del ", pkg.as_str())),
                note: None,
            },
            OwnerId::OperatingSystem => ActionGuide {
                inspect: None,
                update: None,
                remove: None,
                note: Some(owned("Update this runtime through operating-system updates. Removing an OS-provided runtime is not recommended by this tool.")),
            },
            OwnerId::UnconfirmedOwner => ActionGuide {
                inspect: unknown_inspect_command(qpath.as_str(), platform),
                update: None,
                remove: None,
                note: Some(owned("Ownership is unconfirmed. Do not update or remove this file until a receipt, package record, or installer is identified.")),
            },
            OwnerId::UnconfirmedSource => ActionGuide {
                inspect: None,
                update: None,
                remove: None,
                note: Some(owned("The installation source of this manager is unconfirmed. Do not remove it until its installer or package-manager record is identified.")),
            },
        }
    }
}

// ---------------------------------------------------------------------------
// Reading a shell word back
// ---------------------------------------------------------------------------

/// A character that a POSIX shell treats specially outside quotes.
pub open spec fn sh_special(ch: char) -> bool {
    ||| ch == ' ' || ch == '\t' || ch == '\n' || ch == '\r'
    ||| ch == '|' || ch == '&' || ch == ';' || ch == '<' || ch == '>' || ch == '(' || ch == ')'
    ||| ch == '$' || ch == '`' || ch == '"' || ch == '*' || ch == '?' || ch == '['
    ||| ch == ']' || ch == '#' || ch == '~' || ch == '{' || ch == '}' || ch == '!'
}

pub open spec fn prepend(v: Seq<char>, o: Option<Seq<char>>) -> Option<Seq<char>> {
    match o {
        Some(w) => Some(v + w),
        None => None,
    }
}

/// The literal text that the shell reads from `s`, after quote removal,
/// outside single quotes or (`quoted`) inside them; `None` where `s` holds
/// anything that the shell would split, expand or redirect on, or leaves a
/// quote open.
pub open spec fn sh_read(s: Seq<char>, quoted: bool) -> Option<Seq<char>>
    decreases s.len(),
{
    if s.len() == 0 {
        if quoted {
            None
        } else {
            Some(Seq::empty())
        }
    } else {
        let ch = s[0];
        let rest = s.drop_first();
        if quoted {
            if ch == '\'' {
                sh_read(rest, false)
            } else {
                prepend(seq![ch], sh_read(rest, true))
            }
        } else if ch == '\'' {
            sh_read(rest, true)
        } else if ch == '\\' {
            if rest.len() == 0 {
                None
            } else {
                prepend(seq![rest[0]], sh_read(rest.drop_first(), false))
            }
        } else if sh_special(ch) {
            None
        } else {
            prepend(seq![ch], sh_read(rest, false))
        }
    }
}

/// The one word that `s` stands for in a shell command line, if it is one.
pub open spec fn shell_word(s: Seq<char>) -> Option<Seq<char>> {
    if s.len() == 0 {
        None
    } else {
        sh_read(s, false)
    }
}

proof fn lemma_read_safe(v: Seq<char>)
    requires
        all_safe(v),
        forall|i: int| 0 <= i < v.len() ==> v[i] != '<' && v[i] != '>',
    ensures
        sh_read(v, false) == Some(v),
    decreases v.len(),
{
    if v.len() > 0 {
        let rest = v.drop_first();
        assert(is_safe_char(v[0]));
        assert forall|i: int| 0 <= i < rest.len() implies is_safe_char(#[trigger] rest[i]) by {
            assert(rest[i] == v[i + 1]);
        }
        assert forall|i: int| 0 <= i < rest.len() implies rest[i] != '<' && rest[i] != '>' by {
            assert(rest[i] == v[i + 1]);
        }
        lemma_read_safe(rest);
        assert(seq![v[0]] + rest =~= v);
    }
}

proof fn lemma_read_escaped(v: Seq<char>, t: Seq<char>)
    ensures
        sh_read(escape_single_quotes(v) + t, true) == prepend(v, sh_read(t, true)),
    decreases v.len(),
{
    if v.len() == 0 {
        assert(escape_single_quotes(v) + t =~= t);
        match sh_read(t, true) {
            Some(w) => assert(v + w =~= w),
            None => {},
        }
    } else {
        let last = v.last();
        let piece = if last == '\'' {
            "'\\''"@
        } else {
            seq![last]
        };
        let t2 = piece + t;
        assert(escape_single_quotes(v) + t =~= escape_single_quotes(v.drop_last()) + t2);
        lemma_read_escaped(v.drop_last(), t2);
        if last == '\'' {
            reveal_strlit("'\\''");
            let a = t2.drop_first();
            let b = a.drop_first();
            assert(t2[0] == '\'');
            assert(a[0] == '\\');
            assert(b[0] == '\'');
            let c = b.drop_first();
            assert(c[0] == '\'');
            assert(c.drop_first() =~= t);
            assert(sh_read(c, false) == sh_read(t, true));
            assert(sh_read(a, false) == prepend(seq!['\''], sh_read(c, false)));
            assert(sh_read(t2, true) == prepend(seq!['\''], sh_read(t, true)));
        } else {
            assert(t2[0] == last);
            assert(t2.drop_first() =~= t);
            assert(sh_read(t2, true) == prepend(seq![last], sh_read(t, true)));
        }
        match sh_read(t, true) {
            Some(w) => {
                assert(v.drop_last() + (seq![last] + w) =~= v + w);
            },
            None => {},
        }
    }
}

/// A value quoted for a guide is read back by a POSIX shell as exactly one
/// word, equal to the value, with nothing split, expanded or redirected;
/// except where the value is written unquoted and holds `<` or `>`.
pub proof fn lemma_quote_reads_back_as_one_word(v: Seq<char>)
    requires
        !(v.len() > 0 && all_safe(v) && (v.contains('<') || v.contains('>'))),
    ensures
        shell_word(quote(v)) == Some(v),
{
    if v.len() > 0 && all_safe(v) {
        assert forall|i: int| 0 <= i < v.len() implies v[i] != '<' && v[i] != '>' by {
            if v[i] == '<' || v[i] == '>' {
                assert(v.contains(v[i]));
            }
        }
        lemma_read_safe(v);
    } else {
        reveal_strlit("'");
        let q = "'"@ + escape_single_quotes(v) + "'"@;
        assert(q[0] == '\'');
        assert(q.drop_first() =~= escape_single_quotes(v) + "'"@);
        lemma_read_escaped(v, "'"@);
        let close = "'"@;
        assert(close[0] == '\'');
        assert(close.drop_first() =~= Seq::<char>::empty());
        assert(sh_read(close.drop_first(), false) == Some(Seq::<char>::empty()));
        assert(sh_read(close, true) == Some(Seq::<char>::empty()));
        assert(v + Seq::<char>::empty() =~= v);
    }
}

/// A version manager's guide removes exactly the version that was found:
/// for a known version `v`, the remove command ends with `v`, quoted for the
/// shell, after the manager's own uninstall command (and the tool's name
/// where the manager keeps several tools).
pub proof fn lemma_remove_names_the_found_version(
    command: Seq<char>,
    package: Option<Seq<char>>,
    v: Seq<char>,
    path: Seq<char>,
    platform: Platform,
)
    ensures
        guide_for(OwnerId::Pyenv, command, package, Some(v), path, platform).remove == Some("pyenv uninstall "@ + quote(v)),
        guide_for(OwnerId::Rbenv, command, package, Some(v), path, platform).remove == Some("rbenv uninstall "@ + quote(v)),
        guide_for(OwnerId::Nvm, command, package, Some(v), path, platform).remove == Some("nvm uninstall "@ + quote(v)),
        guide_for(OwnerId::Fnm, command, package, Some(v), path, platform).remove == Some("fnm uninstall "@ + quote(v)),
        guide_for(OwnerId::Uv, command, package, Some(v), path, platform).remove == Some("uv python uninstall "@ + quote(v)),
        guide_for(OwnerId::Rustup, command, package, Some(v), path, platform).remove == Some(
            "rustup toolchain uninstall "@ + quote(v),
        ),
        guide_for(OwnerId::Mise, command, package, Some(v), path, platform).remove == Some(
            "mise uninstall "@ + quote(unwrap_or(package, command)) + "@"@ + quote(v),
        ),
        guide_for(OwnerId::Asdf, command, package, Some(v), path, platform).remove == Some(
            "asdf uninstall "@ + quote(unwrap_or(package, command)) + " "@ + quote(v),
        ),
        guide_for(OwnerId::Sdkman, command, package, Some(v), path, platform).remove == Some(
            "sdk uninstall "@ + quote(unwrap_or(package, command)) + " "@ + quote(v),
        ),
{
}

/// A version manager's guide inspects the command through the manager and
/// updates by installing a new version with it; only the guides of the
/// managers that keep several tools name the tool.
pub proof fn lemma_manager_guides_inspect_and_update(
    command: Seq<char>,
    package: Option<Seq<char>>,
    version: Option<Seq<char>>,
    path: Seq<char>,
    platform: Platform,
)
    ensures
        guide_for(OwnerId::Pyenv, command, package, version, path, platform).inspect == Some("pyenv which "@ + quote(command)),
        guide_for(OwnerId::Rbenv, command, package, version, path, platform).inspect == Some("rbenv which "@ + quote(command)),
        guide_for(OwnerId::Mise, command, package, version, path, platform).inspect == Some("mise which "@ + quote(command)),
        guide_for(OwnerId::Asdf, command, package, version, path, platform).inspect == Some("asdf which "@ + quote(command)),
        guide_for(OwnerId::Volta, command, package, version, path, platform).inspect == Some("volta which "@ + quote(command)),
        guide_for(OwnerId::Rustup, command, package, version, path, platform).inspect == Some("rustup which "@ + quote(command)),
        guide_for(OwnerId::Nvm, command, package, version, path, platform).inspect == Some("nvm current"@),
        guide_for(OwnerId::Fnm, command, package, version, path, platform).inspect == Some("fnm current"@),
        guide_for(OwnerId::Pyenv, command, package, version, path, platform).update == Some("pyenv install <new-version>"@),
        guide_for(OwnerId::Rbenv, command, package, version, path, platform).update == Some("rbenv install <new-version>"@),
        guide_for(OwnerId::Nvm, command, package, version, path, platform).update == Some("nvm install <new-version>"@),
        guide_for(OwnerId::Fnm, command, package, version, path, platform).update == Some("fnm install <new-version>"@),
        guide_for(OwnerId::Rustup, command, package, version, path, platform).update == Some("rustup update"@),
        guide_for(OwnerId::Mise, command, package, version, path, platform).update == Some(
            "mise upgrade "@ + quote(unwrap_or(package, command)),
        ),
        guide_for(OwnerId::Volta, command, package, version, path, platform).remove == Some(
            "volta uninstall "@ + quote(unwrap_or(package, command)),
        ),
{
    reveal_strlit("pyenv install ");
    reveal_strlit("rbenv install ");
    reveal_strlit("nvm install ");
    reveal_strlit("fnm install ");
    reveal_strlit("<new-version>");
    reveal_strlit("pyenv install <new-version>");
    reveal_strlit("rbenv install <new-version>");
    reveal_strlit("nvm install <new-version>");
    reveal_strlit("fnm install <new-version>");
    assert("pyenv install "@ + "<new-version>"@ =~= "pyenv install <new-version>"@);
    assert("rbenv install "@ + "<new-version>"@ =~= "rbenv install <new-version>"@);
    assert("nvm install "@ + "<new-version>"@ =~= "nvm install <new-version>"@);
    assert("fnm install "@ + "<new-version>"@ =~= "fnm install <new-version>"@);
}

/// Each manager that is itself a program on PATH names that program, so its
/// own installation source is looked for upstream.
pub proof fn lemma_managers_name_their_executables()
    ensures
        manager_executable_spec(OwnerId::Fnm) == Some("fnm"@),
        manager_executable_spec(OwnerId::Volta) == Some("volta"@),
        manager_executable_spec(OwnerId::Mise) == Some("mise"@),
        manager_executable_spec(OwnerId::Asdf) == Some("asdf"@),
        manager_executable_spec(OwnerId::Pyenv) == Some("pyenv"@),
        manager_executable_spec(OwnerId::Rbenv) == Some("rbenv"@),
        manager_executable_spec(OwnerId::Uv) == Some("uv"@),
        manager_executable_spec(OwnerId::Rustup) == Some("rustup"@),
        manager_executable_spec(OwnerId::CargoInstall) == Some("cargo"@),
{
}

/// An owner's display name leads back to that owner.
pub proof fn lemma_names_round_trip(id: OwnerId)
    ensures
        from_name_spec(display_str(id)) == Some(id),
{
    let k = id_index(id);
    let f = named(display_str(id));
    lemma_index_id(id);
    assert forall|j: int| 0 <= j < k implies f(#[trigger] all_ids()[j]) is None by {
        lemma_id_at_index(j);
        lemma_display_names_distinct(id_at(j), id);
    }
    lemma_first_some_at(all_ids(), f, k);
}

/// No guide suggests an update or a removal for an owner of unknown kind or
/// for the operating system.
pub proof fn lemma_unconfirmed_owners_suggest_no_changes(
    id: OwnerId,
    command: Seq<char>,
    package: Option<Seq<char>>,
    version: Option<Seq<char>>,
    path: Seq<char>,
    platform: Platform,
)
    requires
        id_kind(id) == OwnerKind::Unknown || id == OwnerId::OperatingSystem,
    ensures
        guide_for(id, command, package, version, path, platform).update is None,
        guide_for(id, command, package, version, path, platform).remove is None,
{
}

} // verus!
