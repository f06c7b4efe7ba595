//! Paths as text, joined with `/` and compared component by component.
//!
//! A path is read the way the standard library reads a Unix path: an optional root or leading `.`,
//! then components separated by `/`, where repeated separators and `.` components in the middle count
//! for nothing. Whether a file lies below a directory is decided on those components, not on the text.

use crate::util::text::{chars_equal, extend_chars, find_char, first_index_of, lemma_first_index_of, slice_chars};
use vstd::prelude::*;

verus! {

/// `dir` joined with `name`: `name` itself when it is absolute, otherwise the two with one separator
/// between them.
pub open spec fn join_path(dir: Seq<char>, name: Seq<char>) -> Seq<char> {
    if name.len() > 0 && name[0] == '/' {
        name
    } else if dir.len() == 0 || dir.last() == '/' {
        dir + name
    } else {
        dir + seq!['/'] + name
    }
}

pub fn join_chars(dir: &[char], name: &[char]) -> (joined: Vec<char>)
    ensures
        joined@ == join_path(dir@, name@),
{
    let mut joined: Vec<char> = Vec::new();
    if name.len() > 0 && name[0] == '/' {
        extend_chars(&mut joined, name);
        return joined;
    }
    extend_chars(&mut joined, dir);
    if dir.len() > 0 && dir[dir.len() - 1] != '/' {
        joined.push('/');
    }
    extend_chars(&mut joined, name);
    joined
}

/// A path that starts at the root.
pub open spec fn is_absolute_path(path: Seq<char>) -> bool {
    path.len() > 0 && path[0] == '/'
}

/// `p` starts with a `.` component: a lone dot, ended by a separator or by the end of the text.
pub open spec fn leads_with_dot(p: Seq<char>) -> bool {
    p.len() > 0 && p[0] == '.' && (p.len() == 1 || p[1] == '/')
}

/// `p` ends with a `.` component.
pub open spec fn ends_with_dot(p: Seq<char>) -> bool {
    p.len() > 0 && p.last() == '.' && (p.len() == 1 || p[p.len() - 2] == '/')
}

/// `p` without the separators and `.` components before its first real component.
pub open spec fn trim_front(p: Seq<char>) -> Seq<char>
    decreases p.len(),
{
    if p.len() > 0 && (p[0] == '/' || leads_with_dot(p)) {
        trim_front(p.drop_first())
    } else {
        p
    }
}

/// `p` without the separators and `.` components after its last real component.
pub open spec fn trim_back(p: Seq<char>) -> Seq<char>
    decreases p.len(),
{
    if p.len() > 0 && (p.last() == '/' || ends_with_dot(p)) {
        trim_back(p.drop_last())
    } else {
        p
    }
}

/// The first component of a text that starts with one: everything up to the next separator.
pub open spec fn first_component(p: Seq<char>) -> Seq<char> {
    p.take(first_index_of(p, '/'))
}

/// What follows the first component.
pub open spec fn after_first_component(p: Seq<char>) -> Seq<char> {
    p.skip(first_index_of(p, '/'))
}

/// Trimming the front of a path leaves a tail of it that starts with a real component, if anything.
pub proof fn lemma_trim_front_is_suffix(p: Seq<char>)
    ensures
        trim_front(p).len() <= p.len(),
        trim_front(p) == p.skip(p.len() - trim_front(p).len()),
        trim_front(p).len() == 0 || (trim_front(p)[0] != '/' && !leads_with_dot(trim_front(p))),
    decreases p.len(),
{
    if p.len() > 0 && (p[0] == '/' || leads_with_dot(p)) {
        lemma_trim_front_is_suffix(p.drop_first());
        let t = trim_front(p.drop_first());
        assert(p.drop_first().skip(p.drop_first().len() - t.len()) =~= p.skip(p.len() - t.len()));
    } else {
        assert(p.skip(0) =~= p);
    }
}

/// What is left of `path` once the components of `root` have been matched against its components
/// from the front, one by one; `None` at the first that differs.
pub open spec fn walk_below(path: Seq<char>, root: Seq<char>) -> Option<Seq<char>>
    decreases root.len(),
{
    let r = trim_front(root);
    if r.len() == 0 {
        Some(trim_back(trim_front(path)))
    } else {
        let p = trim_front(path);
        if p.len() > 0 && first_component(p) == first_component(r) {
            proof {
                lemma_trim_front_is_suffix(root);
                lemma_first_index_of(r, '/');
            }
            walk_below(after_first_component(p), after_first_component(r))
        } else {
            None
        }
    }
}

/// How a path starts: at the root (2), with a `.` component (1), or with a plain component (0).
pub open spec fn path_start(p: Seq<char>) -> int {
    if p.len() > 0 && p[0] == '/' {
        2
    } else if leads_with_dot(p) {
        1
    } else {
        0
    }
}

/// The characters that make up a path's start: one for a root or a leading `.`, none otherwise.
pub open spec fn start_len(p: Seq<char>) -> int {
    if path_start(p) == 0 {
        0
    } else {
        1
    }
}

/// What is left of `path` below the directory `root`, compared component by component as
/// `Path::strip_prefix` compares them, or `None` when `path` is not inside `root`. The root and the
/// leading `.` must agree, and what is left loses the separators and `.` components around it. An
/// empty root has no components and takes any path, which then only loses what trails it.
pub open spec fn below_root(path: Seq<char>, root: Seq<char>) -> Option<Seq<char>> {
    if root.len() == 0 {
        Some(path.take(start_len(path)) + trim_back(path.skip(start_len(path))))
    } else if path_start(path) != path_start(root) {
        None
    } else {
        walk_below(path.skip(start_len(path)), root.skip(start_len(root)))
    }
}

/// The text with every backslash turned into a forward slash.
pub open spec fn forward_slashes(text: Seq<char>) -> Seq<char> {
    text.map_values(|c: char| if c == '\\' { '/' } else { c })
}

/// Where the text from `from` on starts once its leading separators and `.` components are skipped.
pub fn trim_front_at(p: &[char], from: usize) -> (at: usize)
    requires
        from <= p@.len(),
    ensures
        from <= at <= p@.len(),
        p@.skip(at as int) == trim_front(p@.skip(from as int)),
{
    let mut i = from;
    while i < p.len() && (p[i] == '/' || (p[i] == '.' && (i + 1 == p.len() || p[i + 1] == '/')))
        invariant
            from <= i <= p@.len(),
            trim_front(p@.skip(i as int)) == trim_front(p@.skip(from as int)),
        decreases p@.len() - i,
    {
        assert(p@.skip(i as int).drop_first() =~= p@.skip(i + 1));
        i = i + 1;
    }
    proof {
        let rest = p@.skip(i as int);
        if rest.len() > 0 {
            assert(rest[0] == p@[i as int]);
            if rest.len() > 1 {
                assert(rest[1] == p@[i + 1]);
            }
        }
    }
    i
}

fn trim_back_end(p: &[char], start: usize, end: usize) -> (at: usize)
    requires
        start <= end <= p@.len(),
    ensures
        start <= at <= end,
        p@.subrange(start as int, at as int) == trim_back(p@.subrange(start as int, end as int)),
{
    let mut e = end;
    while e > start && (p[e - 1] == '/' || (p[e - 1] == '.' && (e - 1 == start || p[e - 2] == '/')))
        invariant
            start <= e <= end <= p@.len(),
            trim_back(p@.subrange(start as int, e as int)) == trim_back(
                p@.subrange(start as int, end as int),
            ),
        decreases e - start,
    {
        let ghost part = p@.subrange(start as int, e as int);
        assert(part.last() == p@[e - 1]);
        if e - 1 > start {
            assert(part[part.len() - 2] == p@[e - 2]);
        }
        assert(part.drop_last() =~= p@.subrange(start as int, e - 1));
        e = e - 1;
    }
    proof {
        let part = p@.subrange(start as int, e as int);
        if part.len() > 0 {
            assert(part.last() == p@[e - 1]);
            if part.len() > 1 {
                assert(part[part.len() - 2] == p@[e - 2]);
            }
        }
    }
    e
}

fn walk_below_chars(p: &[char], p_from: usize, r: &[char], r_from: usize) -> (rest: Option<Vec<char>>)
    requires
        p_from <= p@.len(),
        r_from <= r@.len(),
    ensures
        match walk_below(p@.skip(p_from as int), r@.skip(r_from as int)) {
            Some(expected) => rest matches Some(found) && found@ == expected,
            None => rest is None,
        },
{
    let ghost target = walk_below(p@.skip(p_from as int), r@.skip(r_from as int));
    let mut pi = p_from;
    let mut ri = r_from;
    loop
        invariant
            pi <= p@.len(),
            ri <= r@.len(),
            walk_below(p@.skip(pi as int), r@.skip(ri as int)) == target,
            target == walk_below(p@.skip(p_from as int), r@.skip(r_from as int)),
        decreases r@.len() - ri,
    {
        let r1 = trim_front_at(r, ri);
        let p1 = trim_front_at(p, pi);
        let ghost rr = r@.skip(r1 as int);
        let ghost pp = p@.skip(p1 as int);
        if r1 == r.len() {
            assert(rr.len() == 0);
            let e = trim_back_end(p, p1, p.len());
            assert(p@.subrange(p1 as int, p@.len() as int) =~= pp);
            assert(trim_front(r@.skip(ri as int)).len() == 0);
            assert(walk_below(p@.skip(pi as int), r@.skip(ri as int)) == Some(
                trim_back(trim_front(p@.skip(pi as int))),
            ));
            assert(target == Some(trim_back(pp)));
            let found = slice_chars(p, p1, e);
            return Some(found);
        }
        if p1 == p.len() {
            assert(pp.len() == 0);
            assert(trim_front(r@.skip(ri as int)).len() != 0);
            assert(trim_front(p@.skip(pi as int)).len() == 0);
            assert(target is None);
            return None;
        }
        let pe = find_char(p, p1, '/');
        let re = find_char(r, r1, '/');
        assert(p@.subrange(p1 as int, p@.len() as int) =~= pp);
        assert(r@.subrange(r1 as int, r@.len() as int) =~= rr);
        proof {
            lemma_first_index_of(rr, '/');
            lemma_trim_front_is_suffix(r@.skip(ri as int));
            assert(rr[0] != '/');
            assert(first_index_of(rr, '/') >= 1);
            assert(re > r1);
        }
        let pc = slice_chars(p, p1, pe);
        let rc = slice_chars(r, r1, re);
        assert(pc@ =~= first_component(pp));
        assert(rc@ =~= first_component(rr));
        if !chars_equal(pc.as_slice(), rc.as_slice()) {
            return None;
        }
        assert(after_first_component(pp) =~= p@.skip(pe as int));
        assert(after_first_component(rr) =~= r@.skip(re as int));
        pi = pe;
        ri = re;
    }
}

fn start_kind(p: &[char]) -> (kind: u8)
    ensures
        kind == path_start(p@),
{
    if p.len() > 0 && p[0] == '/' {
        2
    } else if p.len() > 0 && p[0] == '.' && (p.len() == 1 || p[1] == '/') {
        1
    } else {
        0
    }
}

pub fn below_root_chars(path: &[char], root: &[char]) -> (rest: Option<Vec<char>>)
    ensures
        match below_root(path@, root@) {
            Some(expected) => rest matches Some(found) && found@ == expected,
            None => rest is None,
        },
{
    let path_kind = start_kind(path);
    let skip_path: usize = if path_kind == 0 { 0 } else { 1 };
    if root.len() == 0 {
        let e = trim_back_end(path, skip_path, path.len());
        assert(path@.subrange(skip_path as int, path@.len() as int) =~= path@.skip(skip_path as int));
        assert(path@.subrange(0, e as int) =~= path@.take(skip_path as int) + path@.subrange(
            skip_path as int,
            e as int,
        ));
        return Some(slice_chars(path, 0, e));
    }
    let root_kind = start_kind(root);
    if path_kind != root_kind {
        return None;
    }
    let skip_root: usize = if root_kind == 0 { 0 } else { 1 };
    walk_below_chars(path, skip_path, root, skip_root)
}

pub fn forward_slash_chars(text: &[char]) -> (out: Vec<char>)
    ensures
        out@ == forward_slashes(text@),
{
    let mut out: Vec<char> = Vec::new();
    let mut i: usize = 0;
    while i < text.len()
        invariant
            i <= text@.len(),
            out@ == forward_slashes(text@.take(i as int)),
        decreases text@.len() - i,
    {
        let c = text[i];
        out.push(if c == '\\' { '/' } else { c });
        assert(forward_slashes(text@.take(i + 1)) =~= forward_slashes(text@.take(i as int)).push(
            if c == '\\' { '/' } else { c },
        ));
        i = i + 1;
    }
    assert(text@.take(text@.len() as int) =~= text@);
    out
}

proof fn lemma_first_index_of_concat(a: Seq<char>, b: Seq<char>, c: char)
    ensures
        first_index_of(a + b, c) == if first_index_of(a, c) < a.len() {
            first_index_of(a, c)
        } else {
            a.len() + first_index_of(b, c)
        },
    decreases a.len(),
{
    if a.len() == 0 {
        assert(a + b =~= b);
    } else {
        assert((a + b)[0] == a[0]);
        if a[0] != c {
            assert((a + b).drop_first() =~= a.drop_first() + b);
            lemma_first_index_of_concat(a.drop_first(), b, c);
        }
    }
}

/// `d` followed by `s` splits at a component boundary: where one ends, a separator stands.
pub open spec fn meets_at_separator(d: Seq<char>, s: Seq<char>) -> bool {
    s.len() == 0 || s[0] == '/' || d.len() == 0 || d.last() == '/'
}

proof fn lemma_trim_front_concat(d: Seq<char>, s: Seq<char>)
    requires
        meets_at_separator(d, s),
    ensures
        trim_front(d + s) == if trim_front(d).len() > 0 {
            trim_front(d) + s
        } else {
            trim_front(s)
        },
    decreases d.len(),
{
    let x = d + s;
    if d.len() == 0 {
        assert(x =~= s);
    } else {
        assert(x[0] == d[0]);
        if d.len() > 1 {
            assert(x[1] == d[1]);
        } else if s.len() > 0 {
            assert(x[1] == s[0]);
        }
        if d[0] == '/' || leads_with_dot(d) {
            assert(x.drop_first() =~= d.drop_first() + s);
            if d.drop_first().len() > 0 {
                assert(d.drop_first().last() == d.last());
            }
            lemma_trim_front_concat(d.drop_first(), s);
        }
    }
}

proof fn lemma_walk_below_prefix(d: Seq<char>, s: Seq<char>)
    requires
        meets_at_separator(d, s),
    ensures
        walk_below(d + s, d) == Some(trim_back(trim_front(s))),
    decreases d.len(),
{
    let r = trim_front(d);
    lemma_trim_front_concat(d, s);
    lemma_trim_front_is_suffix(d);
    if r.len() > 0 {
        let p = r + s;
        let i = first_index_of(r, '/');
        lemma_first_index_of(r, '/');
        lemma_first_index_of_concat(r, s, '/');
        assert(r.last() == d.last());
        if i == r.len() {
            assert(r.last() != '/');
            lemma_first_index_of(s, '/');
            assert(first_index_of(s, '/') == 0);
        }
        assert(first_index_of(p, '/') == i);
        assert(first_component(p) =~= first_component(r));
        let rest = after_first_component(r);
        assert(after_first_component(p) =~= rest + s);
        assert(i >= 1);
        if rest.len() > 0 {
            assert(rest.last() == r.last());
        }
        lemma_walk_below_prefix(rest, s);
    }
}

/// A relative path with nothing to trim: it neither starts nor ends with a separator or a `.`
/// component.
pub open spec fn is_plain_relative(rel: Seq<char>) -> bool {
    rel.len() == 0 || (rel[0] != '/' && !leads_with_dot(rel) && rel.last() != '/' && !ends_with_dot(
        rel,
    ))
}

/// A plain relative path joined onto a directory lies below that directory, and what lies below is
/// exactly the path that was joined on, whatever the directory's own separators and `.` components.
pub proof fn lemma_joined_path_lies_below_its_dir(dir: Seq<char>, rel: Seq<char>)
    requires
        is_plain_relative(rel),
    ensures
        below_root(join_path(dir, rel), dir) == Some(rel),
{
    let joined = join_path(dir, rel);
    assert(trim_front(rel) == rel);
    assert(trim_back(rel) == rel);
    if dir.len() == 0 {
        assert(joined =~= rel);
        assert(start_len(rel) == 0);
        assert(rel.take(0) + trim_back(rel.skip(0)) =~= rel);
    } else {
        let t = if dir.last() == '/' {
            rel
        } else {
            seq!['/'] + rel
        };
        assert(joined =~= dir + t);
        assert(joined[0] == dir[0]);
        if dir.len() > 1 {
            assert(joined[1] == dir[1]);
        } else if dir.last() != '/' {
            assert(joined[1] == '/');
        }
        assert(path_start(joined) == path_start(dir));
        let k = start_len(dir);
        let d = dir.skip(k);
        assert(joined.skip(k) =~= d + t);
        if d.len() > 0 {
            assert(d.last() == dir.last());
        }
        lemma_walk_below_prefix(d, t);
        if dir.last() != '/' {
            assert(t.drop_first() =~= rel);
            assert(trim_front(t) == trim_front(rel));
        }
    }
}

} // verus!
