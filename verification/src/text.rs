//! Character-level text operations with their meaning stated over `Seq<char>`.
use vstd::prelude::*;
use vstd::std_specs::iter::IteratorSpec;

verus! {

// ---------------------------------------------------------------------------
// Specifications
// ---------------------------------------------------------------------------

/// `m` occurs in `s` starting at index `i`.
pub open spec fn matches_at(s: Seq<char>, m: Seq<char>, i: int) -> bool {
    0 <= i && i + m.len() <= s.len() && s.subrange(i, i + m.len()) == m
}

/// The first index at or after `i` where `m` occurs in `s`.
pub open spec fn find_from(s: Seq<char>, m: Seq<char>, i: int) -> Option<int>
    decreases s.len() + 1 - i,
{
    if i < 0 || i + m.len() > s.len() {
        None
    } else if matches_at(s, m, i) {
        Some(i)
    } else {
        find_from(s, m, i + 1)
    }
}

/// The first index where `m` occurs in `s`.
pub open spec fn find(s: Seq<char>, m: Seq<char>) -> Option<int> {
    find_from(s, m, 0)
}

/// The last index at or before `i` where `m` occurs in `s`.
pub open spec fn rfind_upto(s: Seq<char>, m: Seq<char>, i: int) -> Option<int>
    decreases i + 1,
{
    if i < 0 {
        None
    } else if matches_at(s, m, i) {
        Some(i)
    } else {
        rfind_upto(s, m, i - 1)
    }
}

/// The last index where `m` occurs in `s`.
pub open spec fn rfind(s: Seq<char>, m: Seq<char>) -> Option<int> {
    rfind_upto(s, m, s.len() - m.len())
}

pub open spec fn contains(s: Seq<char>, m: Seq<char>) -> bool {
    find(s, m) is Some
}

pub open spec fn starts_with(s: Seq<char>, p: Seq<char>) -> bool {
    p.len() <= s.len() && s.take(p.len() as int) == p
}

/// `s` split around the first occurrence of `m`.
pub open spec fn split_once(s: Seq<char>, m: Seq<char>) -> Option<(Seq<char>, Seq<char>)> {
    match find(s, m) {
        Some(i) => Some((s.take(i), s.skip(i + m.len()))),
        None => None,
    }
}

/// `s` split around the last occurrence of `m`.
pub open spec fn rsplit_once(s: Seq<char>, m: Seq<char>) -> Option<(Seq<char>, Seq<char>)> {
    match rfind(s, m) {
        Some(i) => Some((s.take(i), s.skip(i + m.len()))),
        None => None,
    }
}

/// The part of `s` before the first `c` (all of `s` where there is none).
pub open spec fn take_until(s: Seq<char>, c: char) -> Seq<char> {
    match find(s, seq![c]) {
        Some(i) => s.take(i),
        None => s,
    }
}

/// The pieces of `s` between occurrences of `sep`; there is always at least one.
pub open spec fn split(s: Seq<char>, sep: char) -> Seq<Seq<char>>
    decreases s.len(),
{
    if s.len() == 0 {
        seq![Seq::<char>::empty()]
    } else {
        let rest = split(s.drop_last(), sep);
        if s.last() == sep {
            rest.push(Seq::<char>::empty())
        } else {
            rest.update(rest.len() - 1, rest.last().push(s.last()))
        }
    }
}

/// `s` without a leading `p`, where it has one.
pub open spec fn strip_prefix(s: Seq<char>, p: Seq<char>) -> Option<Seq<char>> {
    if starts_with(s, p) {
        Some(s.skip(p.len() as int))
    } else {
        None
    }
}

/// Rust's `char::is_whitespace`: the Unicode `White_Space` property.
pub open spec fn is_ws(c: char) -> bool {
    ||| ('\u{9}' <= c && c <= '\u{d}')
    ||| c == ' '
    ||| c == '\u{85}'
    ||| c == '\u{a0}'
    ||| c == '\u{1680}'
    ||| ('\u{2000}' <= c && c <= '\u{200a}')
    ||| c == '\u{2028}'
    ||| c == '\u{2029}'
    ||| c == '\u{202f}'
    ||| c == '\u{205f}'
    ||| c == '\u{3000}'
}

pub open spec fn trim_start(s: Seq<char>) -> Seq<char>
    decreases s.len(),
{
    if s.len() > 0 && is_ws(s[0]) {
        trim_start(s.drop_first())
    } else {
        s
    }
}

pub open spec fn trim_end(s: Seq<char>) -> Seq<char>
    decreases s.len(),
{
    if s.len() > 0 && is_ws(s.last()) {
        trim_end(s.drop_last())
    } else {
        s
    }
}

/// Rust's `str::trim`.
pub open spec fn trim(s: Seq<char>) -> Seq<char> {
    trim_end(trim_start(s))
}

/// `s` with every leading `c` removed.
pub open spec fn trim_start_char(s: Seq<char>, c: char) -> Seq<char>
    decreases s.len(),
{
    if s.len() > 0 && s[0] == c {
        trim_start_char(s.drop_first(), c)
    } else {
        s
    }
}

/// A line as `str::lines` yields it: a trailing `\r` goes only where a `\n` followed.
pub open spec fn strip_cr(line: Seq<char>) -> Seq<char> {
    if line.len() > 0 && line.last() == '\r' {
        line.drop_last()
    } else {
        line
    }
}

pub open spec fn strip_all_cr(parts: Seq<Seq<char>>) -> Seq<Seq<char>>
    decreases parts.len(),
{
    if parts.len() == 0 {
        parts
    } else {
        strip_all_cr(parts.drop_last()).push(strip_cr(parts.last()))
    }
}

/// Rust's `str::lines`.
pub open spec fn lines(s: Seq<char>) -> Seq<Seq<char>> {
    let parts = split(s, '\n');
    let body = strip_all_cr(parts.drop_last());
    if parts.last().len() > 0 {
        body.push(parts.last())
    } else {
        body
    }
}

/// Views of a sequence of strings.
pub open spec fn views(v: Seq<String>) -> Seq<Seq<char>> {
    v.map_values(|x: String| x@)
}

pub open spec fn opt_str(o: Option<&str>) -> Option<Seq<char>> {
    match o {
        Some(s) => Some(s@),
        None => None,
    }
}

pub open spec fn unwrap_or(o: Option<Seq<char>>, d: Seq<char>) -> Seq<char> {
    match o {
        Some(s) => s,
        None => d,
    }
}

pub open spec fn opt_view(o: Option<String>) -> Option<Seq<char>> {
    match o {
        Some(s) => Some(s@),
        None => None,
    }
}


/// The first `Some` that `f` gives over `s`, in order.
pub open spec fn first_some<A, B>(s: Seq<A>, f: spec_fn(A) -> Option<B>) -> Option<B>
    decreases s.len(),
{
    if s.len() == 0 {
        None
    } else {
        match f(s[0]) {
            Some(b) => Some(b),
            None => first_some(s.drop_first(), f),
        }
    }
}

pub proof fn lemma_first_some_step<A, B>(s: Seq<A>, f: spec_fn(A) -> Option<B>, i: int)
    requires
        0 <= i < s.len(),
    ensures
        first_some(s.skip(i), f) == match f(s[i]) {
            Some(b) => Some(b),
            None => first_some(s.skip(i + 1), f),
        },
{
    assert(s.skip(i).drop_first() =~= s.skip(i + 1));
    assert(s.skip(i)[0] == s[i]);
}

pub proof fn lemma_first_some_end<A, B>(s: Seq<A>, f: spec_fn(A) -> Option<B>)
    ensures
        first_some(s.skip(s.len() as int), f) is None,
        first_some(s.skip(0), f) == first_some(s, f),
{
    assert(s.skip(s.len() as int) =~= Seq::<A>::empty());
    assert(s.skip(0) =~= s);
}

/// What `first_some` gives is what `f` gives for some element.
pub proof fn lemma_first_some_witness<A, B>(s: Seq<A>, f: spec_fn(A) -> Option<B>)
    requires
        first_some(s, f) is Some,
    ensures
        exists|i: int| 0 <= i < s.len() && f(#[trigger] s[i]) == first_some(s, f),
    decreases s.len(),
{
    if f(s[0]) is None {
        let t = s.drop_first();
        lemma_first_some_witness(t, f);
        let i = choose|i: int| 0 <= i < t.len() && f(#[trigger] t[i]) == first_some(t, f);
        assert(s[i + 1] == t[i]);
    }
}

/// Where `f` is `None` before index `k` and `Some` at it, the first `Some` is at `k`.
pub proof fn lemma_first_some_at<A, B>(s: Seq<A>, f: spec_fn(A) -> Option<B>, k: int)
    requires
        0 <= k < s.len(),
        f(s[k]) is Some,
        forall|j: int| 0 <= j < k ==> f(#[trigger] s[j]) is None,
    ensures
        first_some(s, f) == f(s[k]),
    decreases k,
{
    if k > 0 {
        let t = s.drop_first();
        assert forall|j: int| 0 <= j < k - 1 implies f(#[trigger] t[j]) is None by {
            assert(t[j] == s[j + 1]);
        }
        assert(t[k - 1] == s[k]);
        lemma_first_some_at(t, f, k - 1);
        assert(f(s[0]) is None);
    }
}

// ---------------------------------------------------------------------------
// Lemmas
// ---------------------------------------------------------------------------

pub proof fn lemma_find_from(s: Seq<char>, m: Seq<char>, i: int)
    requires
        0 <= i,
    ensures
        match find_from(s, m, i) {
            Some(k) => i <= k && matches_at(s, m, k) && forall|j: int|
                i <= j < k ==> !#[trigger] matches_at(s, m, j),
            None => forall|j: int| i <= j ==> !#[trigger] matches_at(s, m, j),
        },
    decreases s.len() + 1 - i,
{
    if i + m.len() > s.len() {
    } else if matches_at(s, m, i) {
    } else {
        lemma_find_from(s, m, i + 1);
    }
}

pub proof fn lemma_rfind_upto(s: Seq<char>, m: Seq<char>, i: int)
    ensures
        match rfind_upto(s, m, i) {
            Some(k) => 0 <= k <= i && matches_at(s, m, k) && forall|j: int|
                k < j <= i ==> !#[trigger] matches_at(s, m, j),
            None => forall|j: int| j <= i ==> !#[trigger] matches_at(s, m, j),
        },
    decreases i + 1,
{
    if i < 0 {
    } else if matches_at(s, m, i) {
    } else {
        lemma_rfind_upto(s, m, i - 1);
    }
}

pub proof fn lemma_split_nonempty(s: Seq<char>, sep: char)
    ensures
        split(s, sep).len() >= 1,
    decreases s.len(),
{
    if s.len() > 0 {
        lemma_split_nonempty(s.drop_last(), sep);
    }
}

proof fn lemma_trim_start_skip(s: Seq<char>, i: int)
    requires
        0 <= i < s.len(),
        is_ws(s[i]),
    ensures
        trim_start(s.skip(i)) == trim_start(s.skip(i + 1)),
{
    assert(s.skip(i).drop_first() =~= s.skip(i + 1));
}

proof fn lemma_trim_end_take(s: Seq<char>, j: int)
    requires
        0 < j <= s.len(),
        is_ws(s[j - 1]),
    ensures
        trim_end(s.take(j)) == trim_end(s.take(j - 1)),
{
    assert(s.take(j).drop_last() =~= s.take(j - 1));
}

proof fn lemma_trim_start_char_skip(s: Seq<char>, i: int, c: char)
    requires
        0 <= i < s.len(),
        s[i] == c,
    ensures
        trim_start_char(s.skip(i), c) == trim_start_char(s.skip(i + 1), c),
{
    assert(s.skip(i).drop_first() =~= s.skip(i + 1));
}

// ---------------------------------------------------------------------------
// Executable operations
// ---------------------------------------------------------------------------

/// The characters of `s`, in order.
pub fn chars_of(s: &str) -> (out: Vec<char>)
    ensures
        out@ == s@,
{
    let mut out: Vec<char> = Vec::new();
    let mut it = s.chars();
    let ghost all = s@;
    proof {
        broadcast use vstd::string::group_string_axioms;
    }
    loop
        invariant
            it.remaining() == all.skip(out@.len() as int),
            out@ == all.take(out@.len() as int),
            out@.len() <= all.len(),
            it.obeys_prophetic_iter_laws(),
        ensures
            out@ == all,
        decreases all.len() - out@.len(),
    {
        match it.next() {
            Some(c) => {
                out.push(c);
            },
            None => {
                assert(all.take(all.len() as int) =~= all);
                break ;
            },
        }
    }
    out
}

/// A new string holding `s@[from..to]`.
pub fn substring(s: &str, from: usize, to: usize) -> (out: String)
    requires
        from <= to <= s@.len(),
    ensures
        out@ == s@.subrange(from as int, to as int),
{
    String::from_str(s.substring_char(from, to))
}

/// A new string holding all of `s`.
pub fn owned(s: &str) -> (out: String)
    ensures
        out@ == s@,
{
    String::from_str(s)
}

pub fn concat2(a: &str, b: &str) -> (out: String)
    ensures
        out@ == a@ + b@,
{
    let mut out = String::from_str(a);
    out.append(b);
    out
}

pub fn concat3(a: &str, b: &str, c: &str) -> (out: String)
    ensures
        out@ == a@ + b@ + c@,
{
    let mut out = String::from_str(a);
    out.append(b);
    out.append(c);
    out
}

pub fn concat4(a: &str, b: &str, c: &str, d: &str) -> (out: String)
    ensures
        out@ == a@ + b@ + c@ + d@,
{
    let mut out = String::from_str(a);
    out.append(b);
    out.append(c);
    out.append(d);
    out
}

pub fn concat5(a: &str, b: &str, c: &str, d: &str, e: &str) -> (out: String)
    ensures
        out@ == a@ + b@ + c@ + d@ + e@,
{
    let mut out = String::from_str(a);
    out.append(b);
    out.append(c);
    out.append(d);
    out.append(e);
    out
}

/// Whether the characters `m` occur in `s` at `i`.
pub fn matches_at_exec(s: &Vec<char>, m: &Vec<char>, i: usize) -> (r: bool)
    ensures
        r == matches_at(s@, m@, i as int),
{
    if i > s.len() || m.len() > s.len() - i {
        return false;
    }
    let mut k: usize = 0;
    while k < m.len()
        invariant
            i + m@.len() <= s@.len(),
            s@.len() <= usize::MAX,
            k <= m@.len(),
            forall|j: int| 0 <= j < k ==> s@[i + j] == m@[j],
        decreases m@.len() - k,
    {
        if s[i + k] != m[k] {
            assert(s@.subrange(i as int, i + m@.len())[k as int] != m@[k as int]);
            return false;
        }
        k = k + 1;
    }
    assert(s@.subrange(i as int, i + m@.len()) =~= m@);
    true
}

pub fn find_chars(s: &Vec<char>, m: &Vec<char>) -> (r: Option<usize>)
    ensures
        match r {
            Some(k) => find(s@, m@) == Some(k as int),
            None => find(s@, m@) is None,
        },
{
    if m.len() > s.len() {
        return None;
    }
    let last = s.len() - m.len();
    let mut i: usize = 0;
    loop
        invariant
            i <= last,
            last + m@.len() == s@.len(),
            find(s@, m@) == find_from(s@, m@, i as int),
        decreases last - i,
    {
        if matches_at_exec(s, m, i) {
            return Some(i);
        }
        if i == last {
            assert(find_from(s@, m@, i + 1) is None);
            return None;
        }
        i = i + 1;
    }
}

/// The first index where `m` occurs in `s`.
pub fn find_str(s: &str, m: &str) -> (r: Option<usize>)
    ensures
        match r {
            Some(k) => find(s@, m@) == Some(k as int),
            None => find(s@, m@) is None,
        },
{
    let sv = chars_of(s);
    let mv = chars_of(m);
    find_chars(&sv, &mv)
}

pub fn contains_str(s: &str, m: &str) -> (r: bool)
    ensures
        r == contains(s@, m@),
{
    find_str(s, m).is_some()
}

pub fn starts_with_str(s: &str, p: &str) -> (r: bool)
    ensures
        r == starts_with(s@, p@),
{
    let sv = chars_of(s);
    let pv = chars_of(p);
    let r = matches_at_exec(&sv, &pv, 0);
    proof {
        if r {
            assert(sv@.take(pv@.len() as int) =~= sv@.subrange(0, pv@.len() as int));
        } else if pv@.len() <= sv@.len() {
            assert(sv@.take(pv@.len() as int) =~= sv@.subrange(0, pv@.len() as int));
        }
    }
    r
}

/// Equality of two strings' characters.
pub fn str_eq(a: &str, b: &str) -> (r: bool)
    ensures
        r == (a@ == b@),
{
    let av = chars_of(a);
    let bv = chars_of(b);
    if av.len() != bv.len() {
        return false;
    }
    let r = matches_at_exec(&av, &bv, 0);
    proof {
        assert(av@.subrange(0, bv@.len() as int) =~= av@);
    }
    r
}

pub fn split_once_str(s: &str, m: &str) -> (r: Option<(String, String)>)
    ensures
        match r {
            Some(p) => split_once(s@, m@) == Some((p.0@, p.1@)),
            None => split_once(s@, m@) is None,
        },
{
    let sv = chars_of(s);
    let mv = chars_of(m);
    match find_chars(&sv, &mv) {
        Some(i) => {
            proof {
                lemma_find_from(s@, m@, 0);
            }
            assert(matches_at(s@, m@, i as int));
            let n = sv.len();
            let before = substring(s, 0, i);
            let after = substring(s, i + mv.len(), n);
            assert(before@ =~= s@.take(i as int));
            assert(after@ =~= s@.skip(i + m@.len()));
            Some((before, after))
        },
        None => None,
    }
}

pub fn rsplit_once_str(s: &str, m: &str) -> (r: Option<(String, String)>)
    ensures
        match r {
            Some(p) => rsplit_once(s@, m@) == Some((p.0@, p.1@)),
            None => rsplit_once(s@, m@) is None,
        },
{
    let sv = chars_of(s);
    let mv = chars_of(m);
    if mv.len() > sv.len() {
        proof {
            lemma_rfind_upto(s@, m@, s@.len() - m@.len());
        }
        return None;
    }
    let mut i: usize = sv.len() - mv.len();
    loop
        invariant
            i + mv@.len() <= sv@.len(),
            rfind(s@, m@) == rfind_upto(s@, m@, i as int),
            sv@ == s@,
            mv@ == m@,
        decreases i,
    {
        if matches_at_exec(&sv, &mv, i) {
            let n = sv.len();
            let before = substring(s, 0, i);
            let after = substring(s, i + mv.len(), n);
            assert(before@ =~= s@.take(i as int));
            assert(after@ =~= s@.skip(i + m@.len()));
            return Some((before, after));
        }
        if i == 0 {
            assert(rfind_upto(s@, m@, -1) is None);
            return None;
        }
        i = i - 1;
    }
}

pub fn strip_prefix_str(s: &str, p: &str) -> (r: Option<String>)
    ensures
        opt_view(r) == strip_prefix(s@, p@),
{
    if starts_with_str(s, p) {
        let n = s.unicode_len();
        let k = p.unicode_len();
        let out = substring(s, k, n);
        assert(out@ =~= s@.skip(p@.len() as int));
        Some(out)
    } else {
        None
    }
}

/// The part of `s` before the first `c`.
pub fn take_until_str(s: &str, c: char) -> (out: String)
    ensures
        out@ == take_until(s@, c),
{
    let sv = chars_of(s);
    let mut i: usize = 0;
    while i < sv.len()
        invariant
            i <= sv@.len(),
            sv@ == s@,
            forall|j: int| 0 <= j < i ==> s@[j] != c,
        decreases sv@.len() - i,
    {
        if sv[i] == c {
            proof {
                lemma_find_from(s@, seq![c], 0);
                assert(matches_at(s@, seq![c], i as int)) by {
                    assert(s@.subrange(i as int, i + 1) =~= seq![c]);
                }
                match find(s@, seq![c]) {
                    Some(k) => {
                        if k < i {
                            assert(s@.subrange(k, k + 1)[0] == s@[k]);
                        }
                    },
                    None => {},
                }
            }
            return substring(s, 0, i);
        }
        i = i + 1;
    }
    proof {
        lemma_find_from(s@, seq![c], 0);
        match find(s@, seq![c]) {
            Some(k) => {
                assert(s@.subrange(k, k + 1)[0] == s@[k]);
            },
            None => {},
        }
        assert(s@.take(s@.len() as int) =~= s@);
    }
    owned(s)
}

/// The pieces of `s` between occurrences of `sep`.
pub fn split_str(s: &str, sep: char) -> (out: Vec<String>)
    ensures
        views(out@) == split(s@, sep),
        out@.len() >= 1,
{
    let sv = chars_of(s);
    let mut out: Vec<String> = Vec::new();
    let mut start: usize = 0;
    let mut i: usize = 0;
    proof {
        assert(s@.take(0) =~= Seq::<char>::empty());
        assert(s@.subrange(0, 0) =~= Seq::<char>::empty());
    }
    while i < sv.len()
        invariant
            sv@ == s@,
            start <= i <= sv@.len(),
            views(out@).push(s@.subrange(start as int, i as int)) == split(s@.take(i as int), sep),
        decreases sv@.len() - i,
    {
        let ghost prev = s@.take(i as int);
        assert(s@.take(i + 1).drop_last() =~= prev);
        assert(s@.take(i + 1).last() == s@[i as int]);
        if sv[i] == sep {
            let piece = substring(s, start, i);
            let ghost before = out@;
            out.push(piece);
            proof {
                assert(views(out@) =~= views(before).push(piece@));
                assert(s@.subrange((i + 1) as int, (i + 1) as int) =~= Seq::<char>::empty());
            }
            start = i + 1;
        } else {
            proof {
                assert(s@.subrange(start as int, i + 1) =~= s@.subrange(start as int, i as int).push(s@[i as int]));
            }
        }
        i = i + 1;
    }
    let last = substring(s, start, sv.len());
    let ghost before = out@;
    out.push(last);
    proof {
        assert(s@.take(sv@.len() as int) =~= s@);
        assert(views(out@) =~= views(before).push(last@));
    }
    out
}

/// Rust's `str::trim`.
pub fn trim_str(s: &str) -> (out: String)
    ensures
        out@ == trim(s@),
{
    let sv = chars_of(s);
    let mut a: usize = 0;
    assert(s@.skip(0) =~= s@);
    while a < sv.len() && is_ws_exec(sv[a])
        invariant
            sv@ == s@,
            a <= sv@.len(),
            trim_start(s@) == trim_start(s@.skip(a as int)),
        decreases sv@.len() - a,
    {
        proof {
            lemma_trim_start_skip(s@, a as int);
        }
        a = a + 1;
    }
    let ghost t = s@.skip(a as int);
    proof {
        assert(trim_start(t) == t);
    }
    let mut b: usize = sv.len();
    proof {
        assert(t.take(t.len() as int) =~= t);
    }
    while b > a && is_ws_exec(sv[b - 1])
        invariant
            sv@ == s@,
            a <= b <= sv@.len(),
            t == s@.skip(a as int),
            trim_end(t) == trim_end(t.take(b - a)),
        decreases b,
    {
        proof {
            assert(t[b - a - 1] == s@[b - 1]);
            lemma_trim_end_take(t, b - a);
        }
        b = b - 1;
    }
    let out = substring(s, a, b);
    proof {
        assert(out@ =~= t.take(b - a));
        let u = t.take(b - a);
        if u.len() > 0 {
            assert(u.last() == s@[b - 1]);
        }
    }
    out
}

/// Every leading `c` removed from `s`.
pub fn trim_start_char_str(s: &str, c: char) -> (out: String)
    ensures
        out@ == trim_start_char(s@, c),
{
    let sv = chars_of(s);
    let mut a: usize = 0;
    proof {
        assert(s@.skip(0) =~= s@);
    }
    while a < sv.len() && sv[a] == c
        invariant
            sv@ == s@,
            a <= sv@.len(),
            trim_start_char(s@, c) == trim_start_char(s@.skip(a as int), c),
        decreases sv@.len() - a,
    {
        proof {
            lemma_trim_start_char_skip(s@, a as int, c);
        }
        a = a + 1;
    }
    let out = substring(s, a, sv.len());
    assert(out@ =~= s@.skip(a as int));
    out
}

pub fn is_ws_exec(c: char) -> (r: bool)
    ensures
        r == is_ws(c),
{
    ('\u{9}' <= c && c <= '\u{d}') || c == ' ' || c == '\u{85}' || c == '\u{a0}' || c
        == '\u{1680}' || ('\u{2000}' <= c && c <= '\u{200a}') || c == '\u{2028}' || c
        == '\u{2029}' || c == '\u{202f}' || c == '\u{205f}' || c == '\u{3000}'
}

/// Rust's `str::lines`.
pub fn lines_str(s: &str) -> (out: Vec<String>)
    ensures
        views(out@) == lines(s@),
{
    let parts = split_str(s, '\n');
    let n = parts.len();
    let mut out: Vec<String> = Vec::new();
    let mut k: usize = 0;
    while k + 1 < n
        invariant
            n == parts@.len(),
            n >= 1,
            k + 1 <= n,
            views(parts@) == split(s@, '\n'),
            views(out@) == strip_all_cr(views(parts@).take(k as int)),
        decreases n - k,
    {
        let line = &parts[k];
        let lv = chars_of(line.as_str());
        let piece = if lv.len() > 0 && lv[lv.len() - 1] == '\r' {
            substring(line.as_str(), 0, lv.len() - 1)
        } else {
            owned(line.as_str())
        };
        let ghost before = out@;
        out.push(piece);
        proof {
            let ps = views(parts@);
            assert(ps.take(k + 1).drop_last() =~= ps.take(k as int));
            assert(ps.take(k + 1).last() == parts@[k as int]@);
            assert(piece@ =~= strip_cr(parts@[k as int]@));
            assert(views(out@) =~= views(before).push(piece@));
        }
        k = k + 1;
    }
    proof {
        assert(views(parts@).take(k as int) =~= views(parts@).drop_last());
    }
    let last = &parts[n - 1];
    if last.as_str().unicode_len() > 0 {
        let piece = owned(last.as_str());
        let ghost before = out@;
        out.push(piece);
        proof {
            assert(views(out@) =~= views(before).push(piece@));
        }
    }
    out
}

/// Characters and their view through a `String`.
pub fn clone_opt(o: &Option<String>) -> (r: Option<String>)
    ensures
        r == *o,
{
    match o {
        Some(s) => Some(s.clone()),
        None => None,
    }
}

} // verus!
