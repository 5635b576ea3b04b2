//! File-system paths as text, with the meaning that `std::path::Path` gives
//! them on Unix: `/` separates components, a leading `/` is the root, empty
//! components and `.` components past the start are ignored, and a leading
//! `.` component stands for the current directory.

use vstd::prelude::*;
use crate::text::{chars_of, string_of, push_chars, opt_view};

verus! {

/// The path starts at the root directory.
pub open spec fn starts_with_root(p: Seq<char>) -> bool {
    p.len() > 0 && p[0] == '/'
}

/// The path starts with a current-directory component (`.` or `./...`).
pub open spec fn starts_with_cur_dir(p: Seq<char>) -> bool {
    &&& !starts_with_root(p)
    &&& p.len() > 0
    &&& p[0] == '.'
    &&& (p.len() == 1 || p[1] == '/')
}

/// Where the body of the path starts: past the root separator or past the
/// leading current-directory component, if there is one.
pub open spec fn body_start(p: Seq<char>) -> int {
    if starts_with_root(p) || starts_with_cur_dir(p) {
        1
    } else {
        0
    }
}

/// Index just past the last separator in `p[lo..n]`, or `lo` when there is
/// none: where the last segment of `p[..n]` starts.
pub open spec fn segment_start(p: Seq<char>, lo: int, n: int) -> int
    decreases n - lo,
{
    if n <= lo {
        lo
    } else if p[n - 1] == '/' {
        n
    } else {
        segment_start(p, lo, n - 1)
    }
}

/// The segment `p[s..n]` yields no component: it is empty or `.`.
pub open spec fn is_empty_segment(p: Seq<char>, s: int, n: int) -> bool {
    n == s || (n == s + 1 && p[s] == '.')
}

/// Where the segment `p[s..n]` is cut off together with the separator
/// before it.
pub open spec fn cut_before(s: int, lo: int) -> int {
    if s > lo {
        s - 1
    } else {
        s
    }
}

/// The length of `p[..n]` once the segments at its end that yield no
/// component are cut off, with their separators, never going below `lo`.
pub open spec fn trim_end(p: Seq<char>, lo: int, n: int) -> int
    decreases n - lo,
{
    if n <= lo {
        n
    } else {
        let s = segment_start(p, lo, n);
        if is_empty_segment(p, s, n) {
            proof {
                lemma_segment_start_bounds(p, lo, n);
            }
            trim_end(p, lo, cut_before(s, lo))
        } else {
            n
        }
    }
}

pub proof fn lemma_segment_start_bounds(p: Seq<char>, lo: int, n: int)
    requires
        lo <= n,
    ensures
        lo <= segment_start(p, lo, n) <= n,
    decreases n - lo,
{
    if n > lo && p[n - 1] != '/' {
        lemma_segment_start_bounds(p, lo, n - 1);
    }
}

pub proof fn lemma_trim_end_bounds(p: Seq<char>, lo: int, n: int)
    requires
        lo <= n,
    ensures
        lo <= trim_end(p, lo, n) <= n,
    decreases n - lo,
{
    if n > lo {
        let s = segment_start(p, lo, n);
        lemma_segment_start_bounds(p, lo, n);
        if is_empty_segment(p, s, n) {
            lemma_trim_end_bounds(p, lo, cut_before(s, lo));
        }
    }
}

/// End of the last component of the path's body.
pub open spec fn last_end(p: Seq<char>) -> int {
    trim_end(p, body_start(p), p.len() as int)
}

/// Start of the last component of the path's body.
pub open spec fn last_start(p: Seq<char>) -> int {
    segment_start(p, body_start(p), last_end(p))
}

/// The body of the path has a component (a name or `..`).
pub open spec fn has_body_component(p: Seq<char>) -> bool {
    last_end(p) > body_start(p)
}

/// The last component of the path's body.
pub open spec fn last_component(p: Seq<char>) -> Seq<char> {
    p.subrange(last_start(p), last_end(p))
}

/// `Path::file_name`: the last component, when it is a name (not `..`, the
/// root or the current directory).
pub open spec fn file_name(p: Seq<char>) -> Option<Seq<char>> {
    if has_body_component(p) && last_component(p) != seq!['.', '.'] {
        Some(last_component(p))
    } else {
        None
    }
}

/// `Path::parent`: the path without its last component, once components
/// that yield nothing are cut from its end; `None` for the empty path and
/// for a path that is only the root.
pub open spec fn parent(p: Seq<char>) -> Option<Seq<char>> {
    let lo = body_start(p);
    if has_body_component(p) {
        Some(p.subrange(0, trim_end(p, lo, cut_before(last_start(p), lo))))
    } else if starts_with_cur_dir(p) {
        Some(Seq::empty())
    } else {
        None
    }
}

/// Index of the last `.` in `name[..n]`, or -1 when there is none.
pub open spec fn last_dot(name: Seq<char>, n: int) -> int
    decreases n,
{
    if n <= 0 {
        -1
    } else if name[n - 1] == '.' {
        n - 1
    } else {
        last_dot(name, n - 1)
    }
}

/// The stem of a file name: the whole name when it holds no `.` or only a
/// leading one, else the part before the last `.`.
pub open spec fn stem_of(name: Seq<char>) -> Seq<char> {
    let d = last_dot(name, name.len() as int);
    if d <= 0 {
        name
    } else {
        name.subrange(0, d)
    }
}

/// The extension of a file name: the part after the last `.`, when there is
/// a `.` that is not the name's first character.
pub open spec fn extension_of(name: Seq<char>) -> Option<Seq<char>> {
    let d = last_dot(name, name.len() as int);
    if d <= 0 {
        None
    } else {
        Some(name.subrange(d + 1, name.len() as int))
    }
}

/// `Path::file_stem`.
pub open spec fn file_stem(p: Seq<char>) -> Option<Seq<char>> {
    match file_name(p) {
        Some(name) => Some(stem_of(name)),
        None => None,
    }
}

/// `Path::extension`.
pub open spec fn extension(p: Seq<char>) -> Option<Seq<char>> {
    match file_name(p) {
        Some(name) => extension_of(name),
        None => None,
    }
}

/// `Path::join`: an absolute `rel` replaces `base`; otherwise `rel` is
/// appended, with a separator in between when `base` is not empty and does
/// not end in one.
pub open spec fn join(base: Seq<char>, rel: Seq<char>) -> Seq<char> {
    if starts_with_root(rel) {
        rel
    } else if base.len() > 0 && base.last() != '/' {
        base + seq!['/'] + rel
    } else {
        base + rel
    }
}

/// No character of `s` is `c`.
pub open spec fn lacks(s: Seq<char>, c: char) -> bool {
    forall|i: int| 0 <= i < s.len() ==> s[i] != c
}

/// A segment that starts at `j` and holds no separator up to `n` starts at
/// `j`.
proof fn lemma_segment_start_at(p: Seq<char>, lo: int, j: int, n: int)
    requires
        lo <= j <= n <= p.len(),
        j == lo || p[j - 1] == '/',
        forall|k: int| j <= k < n ==> p[k] != '/',
    ensures
        segment_start(p, lo, n) == j,
    decreases n - j,
{
    if n > j {
        lemma_segment_start_at(p, lo, j, n - 1);
    }
}

/// The last segment of `p[..n]` holds no separator, and a separator (or the
/// start of the body) comes right before it.
proof fn lemma_segment_has_no_separator(p: Seq<char>, lo: int, n: int)
    requires
        lo <= n <= p.len(),
    ensures
        forall|k: int| segment_start(p, lo, n) <= k < n ==> p[k] != '/',
        segment_start(p, lo, n) == lo || p[segment_start(p, lo, n) - 1] == '/',
    decreases n - lo,
{
    if n > lo && p[n - 1] != '/' {
        lemma_segment_has_no_separator(p, lo, n - 1);
    }
}

/// Segments and trimming of `p[..n]` only depend on `p[..n]`.
proof fn lemma_prefix_segment_start(p: Seq<char>, q: Seq<char>, lo: int, n: int)
    requires
        0 <= lo <= n <= p.len(),
        n <= q.len(),
        forall|k: int| 0 <= k < n ==> p[k] == q[k],
    ensures
        segment_start(p, lo, n) == segment_start(q, lo, n),
    decreases n - lo,
{
    if n > lo {
        assert(p[n - 1] == q[n - 1]);
        if p[n - 1] != '/' {
            lemma_prefix_segment_start(p, q, lo, n - 1);
        }
    }
}

proof fn lemma_prefix_trim_end(p: Seq<char>, q: Seq<char>, lo: int, n: int)
    requires
        0 <= lo <= n <= p.len(),
        n <= q.len(),
        forall|k: int| 0 <= k < n ==> p[k] == q[k],
    ensures
        trim_end(p, lo, n) == trim_end(q, lo, n),
    decreases n - lo,
{
    if n > lo {
        lemma_prefix_segment_start(p, q, lo, n);
        lemma_segment_start_bounds(p, lo, n);
        let s = segment_start(p, lo, n);
        if is_empty_segment(p, s, n) {
            lemma_prefix_trim_end(p, q, lo, cut_before(s, lo));
        }
    }
}

/// Trimming a trimmed length changes nothing; what is left past the body's
/// start ends in a segment that yields a component.
proof fn lemma_trim_end_fixpoint(p: Seq<char>, lo: int, n: int)
    requires
        lo <= n <= p.len(),
    ensures
        trim_end(p, lo, trim_end(p, lo, n)) == trim_end(p, lo, n),
        trim_end(p, lo, n) > lo ==> !is_empty_segment(
            p,
            segment_start(p, lo, trim_end(p, lo, n)),
            trim_end(p, lo, n),
        ),
        trim_end(p, lo, n) > lo ==> p[trim_end(p, lo, n) - 1] != '/',
    decreases n - lo,
{
    if n > lo {
        lemma_segment_start_bounds(p, lo, n);
        let s = segment_start(p, lo, n);
        if is_empty_segment(p, s, n) {
            lemma_trim_end_fixpoint(p, lo, cut_before(s, lo));
        } else {
            if p[n - 1] == '/' {
                assert(s == n);
            }
        }
    }
}

/// Within a name that ends in `.` and a part without `.`, the last `.` is
/// that one.
proof fn lemma_last_dot_before(a: Seq<char>, b: Seq<char>, n: int)
    requires
        lacks(b, '.'),
        a.len() + 1 <= n <= a.len() + 1 + b.len(),
    ensures
        last_dot(a + seq!['.'] + b, n) == a.len(),
    decreases n,
{
    let x = a + seq!['.'] + b;
    if n > a.len() + 1 {
        assert(x[n - 1] == b[n - 1 - a.len() - 1]);
        lemma_last_dot_before(a, b, n - 1);
    } else {
        assert(x[n - 1] == '.');
    }
}

/// The bounds of the last component of a path with a body component, and
/// the length of its parent.
proof fn lemma_last_component_facts(t: Seq<char>)
    requires
        has_body_component(t),
    ensures
        body_start(t) <= last_start(t) < last_end(t) <= t.len(),
        body_start(t) <= trim_end(t, body_start(t), cut_before(last_start(t), body_start(t)))
            <= cut_before(last_start(t), body_start(t)) <= last_start(t),
        lacks(last_component(t), '/'),
        last_component(t).len() > 0,
{
    let lo = body_start(t);
    let m = last_end(t);
    lemma_trim_end_bounds(t, lo, t.len() as int);
    lemma_segment_start_bounds(t, lo, m);
    lemma_trim_end_fixpoint(t, lo, t.len() as int);
    lemma_segment_has_no_separator(t, lo, m);
    let s = last_start(t);
    let c = cut_before(s, lo);
    lemma_trim_end_bounds(t, lo, c);
    assert forall|i: int| 0 <= i < last_component(t).len() implies last_component(t)[i] != '/' by {
        assert(last_component(t)[i] == t[s + i]);
    }
}

/// Joining the parent of a path with a name of two or more characters and
/// no separator gives a path whose parent is that same parent and whose
/// last component is the name.
pub proof fn lemma_join_parent(t: Seq<char>, n: Seq<char>)
    requires
        has_body_component(t),
        n.len() >= 2,
        lacks(n, '/'),
    ensures
        parent(t) is Some,
        parent(join(parent(t)->0, n)) == parent(t),
        has_body_component(join(parent(t)->0, n)),
        last_end(join(parent(t)->0, n)) == join(parent(t)->0, n).len(),
        last_component(join(parent(t)->0, n)) == n,
{
    lemma_last_component_facts(t);
    let lo = body_start(t);
    let s = last_start(t);
    let c = cut_before(s, lo);
    let k = trim_end(t, lo, c);
    lemma_trim_end_fixpoint(t, lo, c);
    let pp = t.subrange(0, k);
    assert(parent(t) == Some(pp));
    assert(!starts_with_root(n));
    let q = join(pp, n);
    // Where the name starts in `q`.
    let j: int = if k > 0 && pp.last() != '/' {
        k + 1
    } else {
        k
    };
    if k > 0 && pp.last() != '/' {
        assert(q =~= pp + seq!['/'] + n);
        assert(q[k] == '/');
    } else {
        assert(q =~= pp + n);
    }
    assert(q.len() == j + n.len());
    assert forall|i: int| 0 <= i < k implies q[i] == t[i] by {
        assert(q[i] == pp[i]);
    }
    assert forall|i: int| 0 <= i < n.len() implies q[j + i] == n[i] by {}
    // The body of `q` starts where the body of `t` does.
    if k >= 2 {
        assert(q[0] == t[0] && q[1] == t[1]);
    } else if k == 1 {
        if lo == 0 {
            lemma_segment_start_at(t, 0, 0, 1);
            assert(t[0] != '.');
            assert(q[0] == t[0]);
        } else {
            assert(q[0] == t[0]);
            assert(q.len() >= 2);
        }
    } else {
        assert(q[0] == n[0]);
        assert(q[1] == n[1]);
    }
    assert(body_start(q) == lo);
    assert forall|i: int| j <= i < q.len() implies q[i] != '/' by {
        assert(q[i] == n[i - j]);
    }
    assert(j == lo || q[j - 1] == '/');
    lemma_segment_start_at(q, lo, j, q.len() as int);
    assert(!is_empty_segment(q, j, q.len() as int));
    assert(last_end(q) == q.len());
    assert(last_start(q) == j);
    assert(last_component(q) =~= n);
    lemma_prefix_trim_end(q, t, lo, k);
    assert(cut_before(j, lo) == k);
    assert(q.subrange(0, k) =~= pp);
}

/// No character of the stem of a separator-free, non-empty name is a
/// separator, and the stem is not empty.
proof fn lemma_stem_of_name(name: Seq<char>)
    requires
        lacks(name, '/'),
        name.len() > 0,
    ensures
        lacks(stem_of(name), '/'),
        stem_of(name).len() > 0,
{
    lemma_last_dot_bounds(name, name.len() as int);
    let d = last_dot(name, name.len() as int);
    if d > 0 {
        assert forall|i: int| 0 <= i < stem_of(name).len() implies stem_of(name)[i] != '/' by {
            assert(stem_of(name)[i] == name[i]);
        }
    }
}

proof fn lemma_last_dot_bounds(name: Seq<char>, n: int)
    requires
        n <= name.len(),
    ensures
        -1 <= last_dot(name, n) < n || (n <= 0 && last_dot(name, n) == -1),
    decreases n,
{
    if n > 0 && name[n - 1] != '.' {
        lemma_last_dot_bounds(name, n - 1);
    }
}

/// Index of the first separator in `s` at or after `i`, or its length.
pub open spec fn separator_from(s: Seq<char>, i: int) -> int
    decreases s.len() - i,
{
    if i >= s.len() {
        s.len() as int
    } else if s[i] == '/' {
        i
    } else {
        separator_from(s, i + 1)
    }
}

/// Index of the first separator in `s`, or its length.
pub open spec fn first_separator(s: Seq<char>) -> int {
    separator_from(s, 0)
}

/// Past its first separator, if it has one, `s` only holds segments that
/// yield no component (empty or `.`): appended to a file name, it leaves
/// that name the path's last component.
pub open spec fn nothing_after_separator(s: Seq<char>) -> bool {
    trim_end(s, first_separator(s), s.len() as int) == first_separator(s)
}

proof fn lemma_separator_from(s: Seq<char>, i: int)
    requires
        0 <= i <= s.len(),
    ensures
        i <= separator_from(s, i) <= s.len(),
        forall|k: int| i <= k < separator_from(s, i) ==> s[k] != '/',
        separator_from(s, i) < s.len() ==> s[separator_from(s, i)] == '/',
    decreases s.len() - i,
{
    if i < s.len() && s[i] != '/' {
        lemma_separator_from(s, i + 1);
    }
}

/// Segments of `e` past a separator at `j` are those of `q` past `j + off`
/// when `q` holds `e[j..]` from `j + off` on.
proof fn lemma_shift_segment_start(e: Seq<char>, q: Seq<char>, j: int, off: int, lo: int, m: int)
    requires
        0 <= j < e.len(),
        e[j] == '/',
        j < m <= e.len(),
        0 <= off,
        lo <= j + off,
        e.len() + off <= q.len(),
        forall|k: int| j <= k < e.len() ==> q[k + off] == e[k],
    ensures
        segment_start(q, lo, m + off) == segment_start(e, j, m) + off,
        segment_start(e, j, m) > j,
    decreases m,
{
    assert(q[m - 1 + off] == e[m - 1]);
    if e[m - 1] != '/' {
        lemma_shift_segment_start(e, q, j, off, lo, m - 1);
    }
}

proof fn lemma_shift_trim_end(e: Seq<char>, q: Seq<char>, j: int, off: int, lo: int, m: int)
    requires
        0 <= j < e.len(),
        e[j] == '/',
        j <= m <= e.len(),
        0 <= off,
        lo <= j + off,
        e.len() + off <= q.len(),
        forall|k: int| j <= k < e.len() ==> q[k + off] == e[k],
        trim_end(e, j, m) == j,
    ensures
        trim_end(q, lo, m + off) == trim_end(q, lo, j + off),
    decreases m,
{
    if m > j {
        lemma_shift_segment_start(e, q, j, off, lo, m);
        let s = segment_start(e, j, m);
        lemma_segment_start_bounds(e, j, m);
        assert(is_empty_segment(e, s, m));
        if m == s + 1 {
            assert(q[s + off] == e[s]);
        }
        assert(is_empty_segment(q, s + off, m + off));
        lemma_shift_trim_end(e, q, j, off, lo, s - 1);
    }
}

/// Joining the parent of a path with a name `a + e`, where `a` has two or
/// more characters and no separator and `e` only empty or `.` segments past
/// its first separator, gives a path with the same parent, whose last
/// component is `a` and the part of `e` before its first separator.
pub proof fn lemma_join_parent_trailing(t: Seq<char>, a: Seq<char>, e: Seq<char>)
    requires
        has_body_component(t),
        a.len() >= 2,
        lacks(a, '/'),
        nothing_after_separator(e),
    ensures
        parent(t) is Some,
        parent(join(parent(t)->0, a + e)) == parent(t),
        has_body_component(join(parent(t)->0, a + e)),
        last_component(join(parent(t)->0, a + e)) == a + e.subrange(0, first_separator(e)),
{
    lemma_separator_from(e, 0);
    let je = first_separator(e);
    let e0 = e.subrange(0, je);
    let n1 = a + e0;
    assert forall|i: int| 0 <= i < n1.len() implies n1[i] != '/' by {
        if i >= a.len() {
            assert(n1[i] == e[i - a.len()]);
        }
    }
    lemma_join_parent(t, n1);
    let pp = parent(t)->0;
    let q1 = join(pp, n1);
    let q = join(pp, a + e);
    assert(!starts_with_root(a + e)) by {
        assert((a + e)[0] == a[0]);
    }
    assert(!starts_with_root(n1)) by {
        assert(n1[0] == a[0]);
    }
    if je == e.len() {
        assert(e0 =~= e);
    } else {
        assert(q =~= q1 + e.subrange(je, e.len() as int));
        let off = q1.len() - je;
        assert(q1.len() >= n1.len());
        assert forall|k: int| je <= k < e.len() implies q[k + off] == e[k] by {}
        assert forall|k: int| 0 <= k < q1.len() implies q[k] == q1[k] by {}
        let lo = body_start(q1);
        assert(q[0] == q1[0] && q[1] == q1[1]);
        assert(body_start(q) == lo);
        lemma_shift_trim_end(e, q, je, off, lo, e.len() as int);
        lemma_prefix_trim_end(q, q1, lo, q1.len() as int);
        assert(last_end(q) == q1.len());
        lemma_prefix_segment_start(q, q1, lo, q1.len() as int);
        assert(last_start(q) == last_start(q1));
        lemma_last_component_facts(q1);
        assert(last_end(q1) == q1.len());
        assert(last_component(q) =~= last_component(q1));
        let c = cut_before(last_start(q1), lo);
        lemma_prefix_trim_end(q, q1, lo, c);
        let k = trim_end(q1, lo, c);
        assert(q.subrange(0, k) =~= q1.subrange(0, k));
    }
}

/// Renaming a file within its directory: for a path with a file stem,
/// joining its parent with `stem.extension`, where the extension has only
/// empty or `.` segments past its first separator, gives a path with the
/// same parent. When, besides, the part `e0` of the extension before its
/// first separator holds no `.` (and is not empty, or the stem is not `.`),
/// that path also has the same stem, and `e0` as its extension.
pub proof fn lemma_rename_within_directory(t: Seq<char>, ext: Seq<char>)
    requires
        file_stem(t) is Some,
        nothing_after_separator(ext),
    ensures
        parent(t) is Some,
        parent(join(parent(t)->0, file_stem(t)->0 + seq!['.'] + ext)) == parent(t),
        ({
            let e0 = ext.subrange(0, first_separator(ext));
            lacks(e0, '.') && (e0.len() > 0 || file_stem(t) != Some(seq!['.'])) ==> {
                let q = join(parent(t)->0, file_stem(t)->0 + seq!['.'] + ext);
                &&& file_stem(q) == file_stem(t)
                &&& extension(q) == Some(e0)
            }
        }),
{
    lemma_last_component_facts(t);
    let name = last_component(t);
    lemma_stem_of_name(name);
    let stem = stem_of(name);
    let a = stem + seq!['.'];
    assert forall|i: int| 0 <= i < a.len() implies a[i] != '/' by {
        if i < stem.len() {
            assert(a[i] == stem[i]);
        }
    }
    lemma_join_parent_trailing(t, a, ext);
    assert(stem + seq!['.'] + ext =~= a + ext);
    lemma_separator_from(ext, 0);
    let e0 = ext.subrange(0, first_separator(ext));
    let n = stem + seq!['.'] + e0;
    assert(a + e0 =~= n);
    if lacks(e0, '.') && (e0.len() > 0 || file_stem(t) != Some(seq!['.'])) {
        let q = join(parent(t)->0, a + ext);
        if n == seq!['.', '.'] {
            assert(n.len() == 2);
            assert(stem.len() == 1 && e0.len() == 0);
            assert(stem =~= seq!['.']) by {
                assert(stem[0] == n[0]);
            }
            assert(false);
        }
        assert(file_name(q) == Some(n));
        lemma_last_dot_before(stem, e0, n.len() as int);
        assert(n.subrange(0, stem.len() as int) =~= stem);
        assert(n.subrange((stem.len() + 1) as int, n.len() as int) =~= e0);
    }
}

fn body_start_of(p: &Vec<char>) -> (r: usize)
    ensures
        r == body_start(p@),
{
    let n = p.len();
    if n > 0 && p[0] == '/' {
        1
    } else if n > 0 && p[0] == '.' && (n == 1 || p[1] == '/') {
        1
    } else {
        0
    }
}

fn segment_start_of(p: &Vec<char>, lo: usize, n: usize) -> (r: usize)
    requires
        lo <= n <= p@.len(),
    ensures
        r == segment_start(p@, lo as int, n as int),
        lo <= r <= n,
{
    let mut i = n;
    while i > lo && p[i - 1] != '/'
        invariant
            lo <= i <= n <= p@.len(),
            segment_start(p@, lo as int, i as int) == segment_start(p@, lo as int, n as int),
        decreases i,
    {
        i = i - 1;
    }
    i
}

fn trim_end_of(p: &Vec<char>, lo: usize, n: usize) -> (r: usize)
    requires
        lo <= n <= p@.len(),
    ensures
        r == trim_end(p@, lo as int, n as int),
        lo <= r <= n,
{
    let mut m = n;
    loop
        invariant
            lo <= m <= n <= p@.len(),
            trim_end(p@, lo as int, m as int) == trim_end(p@, lo as int, n as int),
        decreases m,
    {
        if m <= lo {
            return m;
        }
        let s = segment_start_of(p, lo, m);
        if s == m || (s + 1 == m && p[s] == '.') {
            m = if s > lo {
                s - 1
            } else {
                s
            };
        } else {
            return m;
        }
    }
}

/// Bounds of the last component of the body: `(body start, start, end)`.
fn last_component_bounds(p: &Vec<char>) -> (r: (usize, usize, usize))
    ensures
        r.0 == body_start(p@),
        r.1 == last_start(p@),
        r.2 == last_end(p@),
        r.0 <= r.1 <= r.2 <= p@.len(),
{
    let lo = body_start_of(p);
    let m = trim_end_of(p, lo, p.len());
    let s = segment_start_of(p, lo, m);
    (lo, s, m)
}

/// `Path::new(path).parent()`, as text.
pub fn parent_of(path: &str) -> (r: Option<String>)
    ensures
        opt_view(r) == parent(path@),
{
    let p = chars_of(path);
    let (lo, s, m) = last_component_bounds(&p);
    if m > lo {
        let cut = if s > lo {
            s - 1
        } else {
            s
        };
        let k = trim_end_of(&p, lo, cut);
        Some(string_of(&p, 0, k))
    } else if lo == 1 && p[0] == '.' {
        Some(String::new())
    } else {
        None
    }
}

/// Bounds of the file name of the path, when it has one.
fn file_name_bounds(p: &Vec<char>) -> (r: Option<(usize, usize)>)
    ensures
        match r {
            Some((s, m)) => s <= m <= p@.len() && file_name(p@) == Some(p@.subrange(s as int, m as int)),
            None => file_name(p@) is None,
        },
{
    let (lo, s, m) = last_component_bounds(p);
    let is_parent_dir = m - s == 2 && p[s] == '.' && p[s + 1] == '.';
    proof {
        let seg = p@.subrange(s as int, m as int);
        let dd = seq!['.', '.'];
        assert(dd.len() == 2 && dd[0] == '.' && dd[1] == '.');
        if is_parent_dir {
            assert(seg =~= dd);
        }
        if seg == dd {
            assert(seg[0] == p@[s as int]);
            assert(seg[1] == p@[s + 1]);
        }
    }
    if m > lo && !is_parent_dir {
        Some((s, m))
    } else {
        None
    }
}

/// `Path::new(path).file_name()`, as text.
pub fn file_name_of(path: &str) -> (r: Option<String>)
    ensures
        opt_view(r) == file_name(path@),
{
    let p = chars_of(path);
    match file_name_bounds(&p) {
        Some((s, m)) => Some(string_of(&p, s, m)),
        None => None,
    }
}

/// Index, relative to `s`, of the last `.` in `p[s..m]`, if there is one.
fn last_dot_in(p: &Vec<char>, s: usize, m: usize) -> (r: Option<usize>)
    requires
        s <= m <= p@.len(),
    ensures
        match r {
            Some(d) => d == last_dot(p@.subrange(s as int, m as int), (m - s) as int) && d < m - s,
            None => last_dot(p@.subrange(s as int, m as int), (m - s) as int) == -1,
        },
{
    let ghost name = p@.subrange(s as int, m as int);
    let mut j = m;
    while j > s && p[j - 1] != '.'
        invariant
            s <= j <= m <= p@.len(),
            name == p@.subrange(s as int, m as int),
            last_dot(name, (j - s) as int) == last_dot(name, (m - s) as int),
        decreases j,
    {
        assert(name[(j - 1 - s) as int] == p@[j - 1]);
        j = j - 1;
    }
    if j == s {
        None
    } else {
        assert(name[(j - 1 - s) as int] == p@[j - 1]);
        Some(j - 1 - s)
    }
}

/// `Path::new(path).file_stem()`, as text.
pub fn file_stem_of(path: &str) -> (r: Option<String>)
    ensures
        opt_view(r) == file_stem(path@),
{
    let p = chars_of(path);
    match file_name_bounds(&p) {
        Some((s, m)) => {
            match last_dot_in(&p, s, m) {
                Some(d) if d > 0 => {
                    let ghost name = p@.subrange(s as int, m as int);
                    let r = string_of(&p, s, s + d);
                    assert(r@ =~= name.subrange(0, d as int));
                    Some(r)
                },
                _ => Some(string_of(&p, s, m)),
            }
        },
        None => None,
    }
}

/// `Path::new(base).join(rel)`, as text.
pub fn join_of(base: &str, rel: &str) -> (r: String)
    ensures
        r@ == join(base@, rel@),
{
    let b = chars_of(base);
    let x = chars_of(rel);
    if x.len() > 0 && x[0] == '/' {
        let r = string_of(&x, 0, x.len());
        assert(r@ =~= rel@);
        r
    } else {
        let mut r = string_of(&b, 0, b.len());
        assert(r@ =~= base@);
        if b.len() > 0 && b[b.len() - 1] != '/' {
            let sep = vec!['/'];
            push_chars(&mut r, &sep, 0, 1);
            assert(sep@.subrange(0, 1) =~= seq!['/']);
        }
        push_chars(&mut r, &x, 0, x.len());
        assert(x@.subrange(0, x@.len() as int) =~= rel@);
        r
    }
}

} // verus!
