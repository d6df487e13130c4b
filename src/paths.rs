//! Paths as character sequences, with `/` as separator. Trailing
//! separators and trailing `.` components are ignored; the file name is
//! then what follows the last `/`, and `.` or `..` is no file name. The extension is what follows the last
//! `.` of the file name, unless that dot opens the name.

use vstd::prelude::*;

verus! {

/// Index of the last `c` in `s`, or -1 where there is none.
pub open spec fn last_index(s: Seq<char>, c: char) -> int
    decreases s.len(),
{
    if s.len() == 0 {
        -1
    } else if s.last() == c {
        s.len() - 1
    } else {
        last_index(s.drop_last(), c)
    }
}

/// `p` without its trailing separators and trailing `.` components.
pub open spec fn trim_tail(p: Seq<char>) -> Seq<char>
    decreases p.len(),
{
    if p.len() > 0 && p.last() == '/' {
        trim_tail(p.drop_last())
    } else if p.len() >= 2 && p.last() == '.' && p[p.len() - 2] == '/' {
        trim_tail(p.drop_last())
    } else {
        p
    }
}

/// Where the file name of `p` starts.
pub open spec fn name_start(p: Seq<char>) -> int {
    last_index(trim_tail(p), '/') + 1
}

/// The last component of `p`.
pub open spec fn file_name(p: Seq<char>) -> Seq<char> {
    trim_tail(p).subrange(name_start(p), trim_tail(p).len() as int)
}

/// Whether `p` has a file name: a last component that is neither empty
/// nor `.` nor `..`.
pub open spec fn has_name(p: Seq<char>) -> bool {
    &&& file_name(p).len() > 0
    &&& file_name(p) != seq!['.']
    &&& file_name(p) != seq!['.', '.']
}

/// Index, within the file name, of the dot that opens the extension, or a
/// value of at most 0 where the name has no extension.
pub open spec fn ext_dot(p: Seq<char>) -> int {
    last_index(file_name(p), '.')
}

/// The extension of `p`, without its dot.
pub open spec fn extension(p: Seq<char>) -> Option<Seq<char>> {
    if has_name(p) && ext_dot(p) > 0 {
        Some(trim_tail(p).subrange(name_start(p) + ext_dot(p) + 1, trim_tail(p).len() as int))
    } else {
        None
    }
}

/// `p` without trailing separators, and without the dot and extension if
/// it has one.
pub open spec fn stem_path(p: Seq<char>) -> Seq<char> {
    if ext_dot(p) > 0 {
        trim_tail(p).subrange(0, name_start(p) + ext_dot(p))
    } else {
        trim_tail(p)
    }
}

/// `p` with its extension replaced by `ext` (removed where `ext` is
/// empty); a path without a file name is left as it is.
pub open spec fn with_extension(p: Seq<char>, ext: Seq<char>) -> Seq<char> {
    if !has_name(p) {
        p
    } else if ext.len() == 0 {
        stem_path(p)
    } else {
        stem_path(p) + seq!['.'] + ext
    }
}

/// `rel` placed under `root`; an absolute `rel` stands alone.
pub open spec fn join(root: Seq<char>, rel: Seq<char>) -> Seq<char> {
    if rel.len() > 0 && rel[0] == '/' {
        rel
    } else if root.len() == 0 || root.last() == '/' {
        root + rel
    } else {
        root + seq!['/'] + rel
    }
}

fn last_index_of(s: &str, n: usize, c: char) -> (r: Option<usize>)
    requires
        n == s@.len(),
    ensures
        last_index(s@, c) < 0 ==> r is None,
        last_index(s@, c) >= 0 ==> r == Some(last_index(s@, c) as usize),
        -1 <= last_index(s@, c) < n,
{
    let mut i: usize = n;
    assert(s@.subrange(0, n as int) == s@);
    while i > 0
        invariant
            n == s@.len(),
            i <= n,
            last_index(s@, c) == last_index(s@.subrange(0, i as int), c),
        decreases i,
    {
        let ghost pre = s@.subrange(0, i as int);
        if s.get_char(i - 1) == c {
            assert(pre.last() == c);
            return Some(i - 1);
        }
        assert(pre.drop_last() == s@.subrange(0, i - 1));
        i -= 1;
    }
    None
}

proof fn lemma_last_index_bounds(s: Seq<char>, c: char)
    ensures
        -1 <= last_index(s, c) < s.len(),
        last_index(s, c) >= 0 ==> s[last_index(s, c)] == c,
    decreases s.len(),
{
    if s.len() > 0 && s.last() != c {
        lemma_last_index_bounds(s.drop_last(), c);
    }
}

proof fn lemma_trim_prefix(p: Seq<char>)
    ensures
        trim_tail(p).len() <= p.len(),
        trim_tail(p) == p.subrange(0, trim_tail(p).len() as int),
    decreases p.len(),
{
    if (p.len() > 0 && p.last() == '/') || (p.len() >= 2 && p.last() == '.' && p[p.len() - 2]
        == '/') {
        lemma_trim_prefix(p.drop_last());
        assert(p.drop_last().subrange(0, trim_tail(p).len() as int) == p.subrange(
            0,
            trim_tail(p).len() as int,
        ));
    } else {
        assert(p.subrange(0, p.len() as int) == p);
    }
}

/// Replacing the extension of a path keeps its directory part: what comes
/// before the file name is unchanged.
pub proof fn lemma_with_extension_keeps_directory(p: Seq<char>, ext: Seq<char>)
    ensures
        0 <= name_start(p) <= with_extension(p, ext).len(),
        with_extension(p, ext).subrange(0, name_start(p)) == p.subrange(0, name_start(p)),
{
    lemma_trim_prefix(p);
    let t = trim_tail(p);
    lemma_last_index_bounds(t, '/');
    lemma_last_index_bounds(file_name(p), '.');
    let q = with_extension(p, ext);
    let n = name_start(p);
    assert(t.subrange(0, n) == p.subrange(0, n));
    if has_name(p) {
        assert(stem_path(p).subrange(0, n) == t.subrange(0, n));
        assert(q.subrange(0, n) == stem_path(p).subrange(0, n));
    }
}

proof fn lemma_last_index_skip(s: Seq<char>, t: Seq<char>, c: char)
    requires
        forall|i: int| 0 <= i < t.len() ==> t[i] != c,
    ensures
        last_index(s + t, c) == last_index(s, c),
    decreases t.len(),
{
    if t.len() == 0 {
        assert(s + t == s);
    } else {
        assert((s + t).drop_last() == s + t.drop_last());
        assert((s + t).last() == t[t.len() - 1]);
        lemma_last_index_skip(s, t.drop_last(), c);
    }
}

proof fn lemma_last_index_prefix(s: Seq<char>, m: int, c: char)
    requires
        last_index(s, c) < m <= s.len(),
    ensures
        last_index(s.subrange(0, m), c) == last_index(s, c),
    decreases s.len(),
{
    lemma_last_index_bounds(s, c);
    if m == s.len() {
        assert(s.subrange(0, m) == s);
    } else {
        assert(s.drop_last().subrange(0, m) == s.subrange(0, m));
        lemma_last_index_prefix(s.drop_last(), m, c);
    }
}

/// Giving a named path an extension that holds no `/` and no `.` makes it
/// that path's extension.
pub proof fn lemma_with_extension_sets_extension(p: Seq<char>, ext: Seq<char>)
    requires
        has_name(p),
        ext.len() > 0,
        forall|i: int| 0 <= i < ext.len() ==> ext[i] != '/' && ext[i] != '.',
    ensures
        extension(with_extension(p, ext)) == Some(ext),
{
    lemma_trim_prefix(p);
    let t = trim_tail(p);
    lemma_last_index_bounds(t, '/');
    lemma_last_index_bounds(file_name(p), '.');
    let ns = name_start(p);
    let stem = stem_path(p);
    let m = stem.len() as int;
    assert(stem == t.subrange(0, m));
    lemma_last_index_prefix(t, m, '/');
    let dotted = seq!['.'] + ext;
    assert forall|i: int| 0 <= i < dotted.len() implies dotted[i] != '/' by {
        if i > 0 {
            assert(dotted[i] == ext[i - 1]);
        }
    }
    let r = stem + dotted;
    assert(r == with_extension(p, ext));
    assert(r.last() == ext[ext.len() - 1]);
    assert(trim_tail(r) == r);
    lemma_last_index_skip(stem, dotted, '/');
    assert(name_start(r) == ns);
    let x = stem.subrange(ns, m);
    assert(x.len() > 0);
    assert(file_name(r) == x.push('.') + ext);
    lemma_last_index_skip(x.push('.'), ext, '.');
    assert(x.push('.').last() == '.');
    assert(ext_dot(r) == x.len());
    assert(file_name(r).len() > 2);
    assert(r.subrange(ns + x.len() + 1, r.len() as int) == ext);
}

proof fn lemma_after_last_index(s: Seq<char>, c: char, j: int)
    requires
        last_index(s, c) < j < s.len(),
    ensures
        s[j] != c,
    decreases s.len(),
{
    lemma_last_index_bounds(s, c);
    if s.last() != c && j < s.len() - 1 {
        lemma_after_last_index(s.drop_last(), c, j);
        assert(s.drop_last()[j] == s[j]);
    }
}

/// An extension holds no `/` and no `.`.
pub proof fn lemma_extension_plain(p: Seq<char>)
    ensures
        extension(p) matches Some(e) ==> forall|i: int|
            0 <= i < e.len() ==> e[i] != '/' && e[i] != '.',
{
    lemma_trim_prefix(p);
    let t = trim_tail(p);
    lemma_last_index_bounds(t, '/');
    lemma_last_index_bounds(file_name(p), '.');
    if extension(p) is Some {
        let e = extension(p)->0;
        let ns = name_start(p);
        let d = ext_dot(p);
        assert forall|i: int| 0 <= i < e.len() implies e[i] != '/' && e[i] != '.' by {
            assert(e[i] == t[ns + d + 1 + i]);
            assert(file_name(p)[d + 1 + i] == t[ns + d + 1 + i]);
            lemma_after_last_index(t, '/', ns + d + 1 + i);
            lemma_after_last_index(file_name(p), '.', d + 1 + i);
        }
    }
}

fn trimmed_len(p: &str, n: usize) -> (r: usize)
    requires
        n == p@.len(),
    ensures
        r <= n,
        trim_tail(p@) == p@.subrange(0, r as int),
{
    let mut i: usize = n;
    assert(p@.subrange(0, n as int) == p@);
    while i > 0 && (p.get_char(i - 1) == '/' || (i >= 2 && p.get_char(i - 1) == '.' && p.get_char(
        i - 2,
    ) == '/'))
        invariant
            n == p@.len(),
            i <= n,
            trim_tail(p@) == trim_tail(p@.subrange(0, i as int)),
        decreases i,
    {
        assert(p@.subrange(0, i as int).drop_last() == p@.subrange(0, i - 1));
        assert(i >= 2 ==> p@.subrange(0, i as int)[i - 2] == p@[i - 2]);
        i -= 1;
    }
    i
}

/// Where the trimmed path ends, where its file name starts, the dot of
/// the extension within the name, and whether there is a file name.
fn split_name(p: &str, n: usize) -> (r: (usize, usize, Option<usize>, bool))
    requires
        n == p@.len(),
    ensures
        r.0 <= n,
        trim_tail(p@) == p@.subrange(0, r.0 as int),
        r.1 == name_start(p@),
        r.1 <= r.0,
        ext_dot(p@) > 0 ==> r.2 == Some(ext_dot(p@) as usize),
        ext_dot(p@) <= 0 ==> r.2 is None,
        ext_dot(p@) < r.0 - r.1,
        r.3 == has_name(p@),
{
    let t = trimmed_len(p, n);
    let q = p.substring_char(0, t);
    proof {
        lemma_last_index_bounds(q@, '/');
    }
    let start = match last_index_of(q, t, '/') {
        Some(k) => k + 1,
        None => 0,
    };
    let name = q.substring_char(start, t);
    assert(name@ == file_name(p@));
    proof {
        lemma_last_index_bounds(name@, '.');
    }
    let dot = match last_index_of(name, t - start, '.') {
        Some(d) => if d > 0 {
            Some(d)
        } else {
            None
        },
        None => None,
    };
    let dotdot = t - start == 2 && name.get_char(0) == '.' && name.get_char(1) == '.';
    let single = t - start == 1 && name.get_char(0) == '.';
    assert(dotdot ==> name@ == seq!['.', '.']);
    assert(single ==> name@ == seq!['.']);
    (t, start, dot, start < t && !dotdot && !single)
}

/// The extension of `p`, without its dot.
pub fn extension_of(p: &str) -> (r: Option<String>)
    ensures
        r matches Some(e) ==> extension(p@) == Some(e@),
        r is None ==> extension(p@) is None,
{
    let n = p.unicode_len();
    let (t, start, dot, named) = split_name(p, n);
    match dot {
        Some(d) => if named {
            Some(String::from_str(p.substring_char(start + d + 1, t)))
        } else {
            None
        },
        None => None,
    }
}

/// `p` with its extension replaced by `ext`.
pub fn set_extension(p: &str, ext: &str) -> (r: String)
    ensures
        r@ == with_extension(p@, ext@),
{
    let n = p.unicode_len();
    let (t, start, dot, named) = split_name(p, n);
    if !named {
        return String::from_str(p);
    }
    let stem_end = match dot {
        Some(d) => start + d,
        None => t,
    };
    let mut out = String::from_str(p.substring_char(0, stem_end));
    assert(out@ == stem_path(p@));
    if ext.unicode_len() > 0 {
        out.append(".");
        proof {
            reveal_strlit(".");
        }
        out.append(ext);
    }
    out
}

/// `rel` placed under `root`.
pub fn join_path(root: &str, rel: &str) -> (r: String)
    ensures
        r@ == join(root@, rel@),
{
    let rn = root.unicode_len();
    if rel.unicode_len() > 0 && rel.get_char(0) == '/' {
        return String::from_str(rel);
    }
    let mut out = String::from_str(root);
    if rn > 0 && root.get_char(rn - 1) != '/' {
        out.append("/");
        proof {
            reveal_strlit("/");
        }
    }
    out.append(rel);
    out
}

} // verus!
