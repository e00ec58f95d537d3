//! Unix paths held as text, compared the way `std::path::Path` compares them:
//! component by component.
use vstd::prelude::*;

use crate::text::{chars_of, concat3, opt_view, owned, split, split_str, str_eq, substring, views};

verus! {

/// The non-empty pieces other than `.`, in order.
pub open spec fn normal_segments(segs: Seq<Seq<char>>) -> Seq<Seq<char>>
    decreases segs.len(),
{
    if segs.len() == 0 {
        segs
    } else {
        let rest = normal_segments(segs.drop_last());
        if segs.last().len() > 0 && segs.last() != "."@ {
            rest.push(segs.last())
        } else {
            rest
        }
    }
}

/// The components of a Unix path: `/` for a root, `.` for a leading current
/// directory, then every non-empty piece other than `.`.
pub open spec fn components(s: Seq<char>) -> Seq<Seq<char>> {
    let segs = split(s, '/');
    let lead = if s.len() > 0 && s[0] == '/' {
        seq!["/"@]
    } else if segs[0] == "."@ {
        seq!["."@]
    } else {
        Seq::<Seq<char>>::empty()
    };
    lead + normal_segments(segs)
}

/// Two paths name the same components.
pub open spec fn same_path(a: Seq<char>, b: Seq<char>) -> bool {
    components(a) == components(b)
}

/// The last component of `s` is `name`.
pub open spec fn ends_with_name(s: Seq<char>, name: Seq<char>) -> bool {
    components(s).len() > 0 && components(s).last() == name
}

/// The components of `s`.
pub fn components_of(s: &str) -> (r: Vec<String>)
    ensures
        views(r@) == components(s@),
{
    let segs = split_str(s, '/');
    let sv = chars_of(s);
    let mut r: Vec<String> = Vec::new();
    if sv.len() > 0 && sv[0] == '/' {
        r.push(owned("/"));
    } else if str_eq(segs[0].as_str(), ".") {
        r.push(owned("."));
    }
    let ghost lead = views(r@);
    proof {
        assert(lead =~= if s@.len() > 0 && s@[0] == '/' {
            seq!["/"@]
        } else if split(s@, '/')[0] == "."@ {
            seq!["."@]
        } else {
            Seq::<Seq<char>>::empty()
        });
        assert(views(segs@).take(0) =~= Seq::<Seq<char>>::empty());
        assert(lead + normal_segments(views(segs@).take(0)) =~= lead);
    }
    let mut i: usize = 0;
    while i < segs.len()
        invariant
            i <= segs@.len(),
            views(segs@) == split(s@, '/'),
            views(r@) == lead + normal_segments(views(segs@).take(i as int)),
        decreases segs@.len() - i,
    {
        let seg = &segs[i];
        proof {
            assert(views(segs@).take(i + 1).drop_last() =~= views(segs@).take(i as int));
            assert(views(segs@).take(i + 1).last() == seg@);
        }
        if seg.as_str().unicode_len() > 0 && !str_eq(seg.as_str(), ".") {
            let ghost before = r@;
            r.push(owned(seg.as_str()));
            proof {
                assert(views(r@) =~= views(before).push(seg@));
            }
        }
        i = i + 1;
    }
    proof {
        assert(views(segs@).take(segs@.len() as int) =~= views(segs@));
    }
    r
}

fn same_strings(a: &Vec<String>, b: &Vec<String>) -> (r: bool)
    ensures
        r == (views(a@) == views(b@)),
{
    if a.len() != b.len() {
        proof {
            assert(views(a@).len() != views(b@).len());
        }
        return false;
    }
    let mut i: usize = 0;
    while i < a.len()
        invariant
            a@.len() == b@.len(),
            i <= a@.len(),
            forall|j: int| 0 <= j < i ==> a@[j]@ == b@[j]@,
        decreases a@.len() - i,
    {
        if !str_eq(a[i].as_str(), b[i].as_str()) {
            proof {
                assert(views(a@)[i as int] != views(b@)[i as int]);
            }
            return false;
        }
        i = i + 1;
    }
    proof {
        assert(views(a@) =~= views(b@));
    }
    true
}

/// Whether two paths are equal as `std::path::Path` compares them.
pub fn same_path_exec(a: &str, b: &str) -> (r: bool)
    ensures
        r == same_path(a@, b@),
{
    let ca = components_of(a);
    let cb = components_of(b);
    same_strings(&ca, &cb)
}

/// Whether the last component of `s` is `name`.
pub fn ends_with_name_exec(s: &str, name: &str) -> (r: bool)
    ensures
        r == ends_with_name(s@, name@),
{
    let c = components_of(s);
    if c.len() == 0 {
        return false;
    }
    str_eq(c[c.len() - 1].as_str(), name)
}

/// `s` without trailing slashes.
pub open spec fn trim_trailing_slashes(s: Seq<char>) -> Seq<char>
    decreases s.len(),
{
    if s.len() > 0 && s.last() == '/' {
        trim_trailing_slashes(s.drop_last())
    } else {
        s
    }
}

/// The last index of `c` in `s`.
pub open spec fn last_index_of(s: Seq<char>, c: char) -> Option<int>
    decreases s.len(),
{
    if s.len() == 0 {
        None
    } else if s.last() == c {
        Some(s.len() - 1)
    } else {
        last_index_of(s.drop_last(), c)
    }
}

/// The directory holding `s`, as text: `None` for a root or an empty path, the
/// empty path for a bare name.
pub open spec fn parent_dir(s: Seq<char>) -> Option<Seq<char>> {
    let t = trim_trailing_slashes(s);
    if t.len() == 0 {
        None
    } else {
        match last_index_of(t, '/') {
            None => Some(Seq::<char>::empty()),
            Some(i) => {
                let base = trim_trailing_slashes(t.take(i));
                if base.len() == 0 {
                    Some("/"@)
                } else {
                    Some(base)
                }
            },
        }
    }
}

/// `dir` joined with a relative `name`, with one separator between them.
pub open spec fn join(dir: Seq<char>, name: Seq<char>) -> Seq<char> {
    if dir.len() == 0 {
        name
    } else if dir.last() == '/' {
        dir + name
    } else {
        dir + "/"@ + name
    }
}

/// Where a symlink at `path` whose stored target is `target` points.
pub open spec fn link_destination(path: Seq<char>, target: Seq<char>) -> Option<Seq<char>> {
    if target.len() > 0 && target[0] == '/' {
        Some(target)
    } else {
        match parent_dir(path) {
            Some(d) => Some(join(d, target)),
            None => None,
        }
    }
}

proof fn lemma_last_index_of_bound(s: Seq<char>, c: char)
    ensures
        last_index_of(s, c) matches Some(i) ==> 0 <= i < s.len() && s[i] == c,
    decreases s.len(),
{
    if s.len() > 0 && s.last() != c {
        lemma_last_index_of_bound(s.drop_last(), c);
    }
}

proof fn lemma_trim_slashes_take(s: Seq<char>, j: int)
    requires
        0 < j <= s.len(),
        s[j - 1] == '/',
    ensures
        trim_trailing_slashes(s.take(j)) == trim_trailing_slashes(s.take(j - 1)),
{
    assert(s.take(j).drop_last() =~= s.take(j - 1));
}

fn trim_trailing_slashes_len(v: &Vec<char>, end: usize) -> (r: usize)
    requires
        end <= v@.len(),
    ensures
        r <= end,
        trim_trailing_slashes(v@.take(end as int)) == v@.take(r as int),
{
    let mut j = end;
    while j > 0 && v[j - 1] == '/'
        invariant
            j <= end <= v@.len(),
            trim_trailing_slashes(v@.take(end as int)) == trim_trailing_slashes(v@.take(j as int)),
        decreases j,
    {
        proof {
            lemma_trim_slashes_take(v@, j as int);
        }
        j = j - 1;
    }
    proof {
        let t = v@.take(j as int);
        if t.len() > 0 {
            assert(t.last() == v@[j - 1]);
        }
    }
    j
}

fn last_index_of_exec(v: &Vec<char>, end: usize, c: char) -> (r: Option<usize>)
    requires
        end <= v@.len(),
    ensures
        match last_index_of(v@.take(end as int), c) {
            Some(i) => r == Some(i as usize),
            None => r is None,
        },
{
    let mut j = end;
    while j > 0 && v[j - 1] != c
        invariant
            j <= end <= v@.len(),
            last_index_of(v@.take(end as int), c) == last_index_of(v@.take(j as int), c),
        decreases j,
    {
        proof {
            assert(v@.take(j as int).drop_last() =~= v@.take(j - 1));
        }
        j = j - 1;
    }
    if j == 0 {
        proof {
            assert(v@.take(0) =~= Seq::<char>::empty());
        }
        None
    } else {
        Some(j - 1)
    }
}

/// Where a symlink at `path` whose stored target is `target` points: an
/// absolute target as it stands, a relative one joined to the link's directory.
pub fn link_destination_exec(path: &str, target: &str) -> (r: Option<String>)
    ensures
        match link_destination(path@, target@) {
            Some(d) => r is Some && r->0@ == d,
            None => r is None,
        },
{
    let tv = chars_of(target);
    if tv.len() > 0 && tv[0] == '/' {
        return Some(owned(target));
    }
    let pv = chars_of(path);
    let t_len = trim_trailing_slashes_len(&pv, pv.len());
    proof {
        assert(pv@.take(pv@.len() as int) =~= pv@);
    }
    if t_len == 0 {
        return None;
    }
    let ghost t = pv@.take(t_len as int);
    let dir: String = match last_index_of_exec(&pv, t_len, '/') {
        None => {
            let d = String::new();
            d
        },
        Some(i) => {
            proof {
                lemma_last_index_of_bound(t, '/');
                assert(t.take(i as int) =~= pv@.take(i as int));
            }
            let b = trim_trailing_slashes_len(&pv, i);
            if b == 0 {
                owned("/")
            } else {
                let d = substring(path, 0, b);
                assert(d@ =~= pv@.take(b as int));
                d
            }
        },
    };
    assert(parent_dir(path@) == Some(dir@));
    let dv = chars_of(dir.as_str());
    if dv.len() == 0 {
        Some(owned(target))
    } else if dv[dv.len() - 1] == '/' {
        let mut out = dir;
        out.append(target);
        Some(out)
    } else {
        Some(concat3(dir.as_str(), "/", target))
    }
}

pub fn join_exec(dir: &str, name: &str) -> (r: String)
    ensures
        r@ == join(dir@, name@),
{
    let n = dir.unicode_len();
    if n == 0 {
        owned(name)
    } else if dir.get_char(n - 1) == '/' {
        let mut r = owned(dir);
        r.append(name);
        r
    } else {
        concat3(dir, "/", name)
    }
}

/// Components written back as a path.
pub open spec fn render(comps: Seq<Seq<char>>) -> Seq<char>
    decreases comps.len(),
{
    if comps.len() == 0 {
        Seq::<char>::empty()
    } else {
        join(render(comps.drop_last()), comps.last())
    }
}

/// The components `comps[from..]` written back as a path.
pub fn render_from(comps: &Vec<String>, from: usize) -> (r: String)
    requires
        from <= comps@.len(),
    ensures
        r@ == render(views(comps@).skip(from as int)),
{
    let ghost cs = views(comps@).skip(from as int);
    let mut r = String::new();
    let mut i: usize = from;
    proof {
        assert(cs.take(0) =~= Seq::<Seq<char>>::empty());
    }
    while i < comps.len()
        invariant
            from <= i <= comps@.len(),
            cs == views(comps@).skip(from as int),
            r@ == render(cs.take(i - from)),
        decreases comps@.len() - i,
    {
        proof {
            assert(cs.take(i - from + 1).drop_last() =~= cs.take(i - from));
            assert(cs.take(i - from + 1).last() == comps@[i as int]@);
        }
        r = join_exec(r.as_str(), comps[i].as_str());
        i = i + 1;
    }
    proof {
        assert(cs.take(i - from) =~= cs);
    }
    r
}

/// What is left of `path` below `base`, compared component by component;
/// `None` where `base` is not above `path` or nothing is left.
pub open spec fn relative_to(path: Seq<char>, base: Seq<char>) -> Option<Seq<char>> {
    let pc = components(path);
    let bc = components(base);
    if bc.len() < pc.len() && pc.take(bc.len() as int) == bc {
        Some(render(pc.skip(bc.len() as int)))
    } else {
        None
    }
}

pub fn relative_to_exec(path: &str, base: &str) -> (r: Option<String>)
    ensures
        opt_view(r) == relative_to(path@, base@),
{
    let pc = components_of(path);
    let bc = components_of(base);
    if bc.len() >= pc.len() {
        return None;
    }
    let mut i: usize = 0;
    while i < bc.len()
        invariant
            views(pc@) == components(path@),
            views(bc@) == components(base@),
            bc@.len() < pc@.len(),
            i <= bc@.len(),
            forall|j: int| 0 <= j < i ==> views(pc@)[j] == views(bc@)[j],
        decreases bc@.len() - i,
    {
        proof {
            assert(views(pc@)[i as int] == pc@[i as int]@);
            assert(views(bc@)[i as int] == bc@[i as int]@);
        }
        if !str_eq(pc[i].as_str(), bc[i].as_str()) {
            proof {
                assert(views(pc@).take(bc@.len() as int)[i as int] != views(bc@)[i as int]);
                assert(views(pc@).take(bc@.len() as int) != views(bc@));
            }
            return None;
        }
        i = i + 1;
    }
    proof {
        assert(views(pc@).take(bc@.len() as int) =~= views(bc@));
    }
    Some(render_from(&pc, bc.len()))
}

} // verus!
