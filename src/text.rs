//! Character-level helpers: lowercasing, placeholder filling, words.

use vstd::prelude::*;

verus! {

/// The lowercase form of `s` as `str::to_lowercase` gives it.
pub uninterp spec fn lower_of(s: Seq<char>) -> Seq<char>;

/// Relies on `str::to_lowercase`: the lowercase form of `s`, which depends
/// on its characters alone.
#[verifier::external_body]
pub(crate) fn lowercase(s: &str) -> (r: String)
    ensures
        r@ == lower_of(s@),
{
    s.to_lowercase()
}

/// The placeholder of a key whose lowercase form is `lowered`.
pub open spec fn placeholder(lowered: Seq<char>) -> Seq<char> {
    seq!['<'] + lowered + seq!['>']
}

/// `s` opens with `pat`.
pub open spec fn starts_with(s: Seq<char>, pat: Seq<char>) -> bool {
    pat.len() <= s.len() && s.subrange(0, pat.len() as int) == pat
}

/// `s` with every occurrence of the non-empty `pat` replaced by `value`,
/// scanning from the left; replaced text is not read again.
pub open spec fn replace_all(s: Seq<char>, pat: Seq<char>, value: Seq<char>) -> Seq<char>
    decreases s.len(),
{
    if s.len() == 0 || pat.len() == 0 {
        s
    } else if starts_with(s, pat) {
        value + replace_all(s.subrange(pat.len() as int, s.len() as int), pat, value)
    } else {
        seq![s[0]] + replace_all(s.subrange(1, s.len() as int), pat, value)
    }
}

fn starts_with_at(s: &str, n: usize, i: usize, pat: &str, k: usize) -> (r: bool)
    requires
        n == s@.len(),
        k == pat@.len(),
        i < n,
    ensures
        r == starts_with(s@.subrange(i as int, n as int), pat@),
{
    let ghost rest = s@.subrange(i as int, n as int);
    if n - i < k {
        return false;
    }
    let mut j: usize = 0;
    while j < k
        invariant
            n == s@.len(),
            k == pat@.len(),
            i + k <= n,
            j <= k,
            rest == s@.subrange(i as int, n as int),
            forall|m: int| 0 <= m < j ==> pat@[m] == #[trigger] rest[m],
        decreases k - j,
    {
        if pat.get_char(j) != s.get_char(i + j) {
            assert(rest.subrange(0, k as int)[j as int] != pat@[j as int]);
            return false;
        }
        j += 1;
    }
    assert(rest.subrange(0, k as int) == pat@);
    true
}

/// Replaces every occurrence of `pat` in `s` by `value`.
pub fn replace_pattern(s: &str, pat: &str, value: &str) -> (r: String)
    requires
        pat@.len() > 0,
    ensures
        r@ == replace_all(s@, pat@, value@),
{
    let n = s.unicode_len();
    let k = pat.unicode_len();
    let mut out = String::from_str("");
    proof {
        reveal_strlit("");
    }
    let mut i: usize = 0;
    assert(s@.subrange(0, n as int) == s@);
    assert(out@ + replace_all(s@, pat@, value@) == replace_all(s@, pat@, value@));
    while i < n
        invariant
            n == s@.len(),
            k == pat@.len(),
            k > 0,
            i <= n,
            out@ + replace_all(s@.subrange(i as int, n as int), pat@, value@) == replace_all(
                s@,
                pat@,
                value@,
            ),
        decreases n - i,
    {
        let ghost rest = s@.subrange(i as int, n as int);
        if starts_with_at(s, n, i, pat, k) {
            assert(rest.subrange(k as int, rest.len() as int) == s@.subrange(i + k, n as int));
            out.append(value);
            i = i + k;
        } else {
            assert(rest.subrange(1, rest.len() as int) == s@.subrange(i + 1, n as int));
            let one = s.substring_char(i, i + 1);
            assert(one@ == seq![rest[0]]);
            out.append(one);
            i = i + 1;
        }
    }
    assert(s@.subrange(n as int, n as int) == Seq::<char>::empty());
    out
}

/// Replaces every placeholder of `key` in `s` by `value`: the key is
/// lowered and put between `<` and `>`.
pub fn fill_placeholder(s: &str, key: &str, value: &str) -> (r: String)
    ensures
        r@ == replace_all(s@, placeholder(lower_of(key@)), value@),
{
    let lowered = lowercase(key);
    let mut pat = String::from_str("<");
    pat.append(lowered.as_str());
    pat.append(">");
    proof {
        reveal_strlit("<");
        reveal_strlit(">");
        assert(pat@ == placeholder(lower_of(key@)));
    }
    replace_pattern(s, pat.as_str(), value)
}

/// Whether `a` and `b` hold the same characters.
pub fn str_eq(a: &str, b: &str) -> (r: bool)
    ensures
        r == (a@ == b@),
{
    let n = a.unicode_len();
    if n != b.unicode_len() {
        return false;
    }
    let mut i: usize = 0;
    while i < n
        invariant
            n == a@.len(),
            n == b@.len(),
            i <= n,
            forall|j: int| 0 <= j < i ==> a@[j] == b@[j],
        decreases n - i,
    {
        if a.get_char(i) != b.get_char(i) {
            return false;
        }
        i += 1;
    }
    assert(a@ == b@);
    true
}

/// ASCII whitespace, which separates the words of a command line.
pub open spec fn is_space(c: char) -> bool {
    c == ' ' || c == '\t' || c == '\n' || c == '\r' || c == '\x0C'
}

/// The words of `s`, `cur` being the word that is being read.
pub open spec fn words_from(s: Seq<char>, cur: Seq<char>) -> Seq<Seq<char>>
    decreases s.len(),
{
    if s.len() == 0 {
        if cur.len() == 0 {
            seq![]
        } else {
            seq![cur]
        }
    } else if is_space(s[0]) {
        if cur.len() == 0 {
            words_from(s.drop_first(), seq![])
        } else {
            seq![cur] + words_from(s.drop_first(), seq![])
        }
    } else {
        words_from(s.drop_first(), cur.push(s[0]))
    }
}

/// The maximal runs of non-whitespace characters of `s`, in order.
pub open spec fn words(s: Seq<char>) -> Seq<Seq<char>> {
    words_from(s, seq![])
}

/// The views of a list of strings.
pub open spec fn views(v: Seq<String>) -> Seq<Seq<char>> {
    v.map_values(|w: String| w@)
}

fn char_is_space(c: char) -> (r: bool)
    ensures
        r == is_space(c),
{
    c == ' ' || c == '\t' || c == '\n' || c == '\r' || c == '\x0C'
}

/// Splits `s` into its whitespace-separated words.
pub fn split_words(s: &str) -> (r: Vec<String>)
    ensures
        views(r@) == words(s@),
{
    let n = s.unicode_len();
    let mut out: Vec<String> = Vec::new();
    let mut start: usize = 0;
    let mut i: usize = 0;
    assert(s@.subrange(0, n as int) == s@);
    assert(s@.subrange(0, 0) == Seq::<char>::empty());
    assert(views(out@) == Seq::<Seq<char>>::empty());
    assert(views(out@) + words(s@) == words(s@));
    while i < n
        invariant
            n == s@.len(),
            start <= i <= n,
            views(out@) + words_from(s@.subrange(i as int, n as int), s@.subrange(start as int, i as int))
                == words(s@),
        decreases n - i,
    {
        let ghost rest = s@.subrange(i as int, n as int);
        let ghost cur = s@.subrange(start as int, i as int);
        let c = s.get_char(i);
        assert(rest.drop_first() == s@.subrange(i + 1, n as int));
        if char_is_space(c) {
            if start < i {
                let w = String::from_str(s.substring_char(start, i));
                proof {
                    assert(views(out@.push(w)) == views(out@).push(w@));
                    assert(views(out@) + (seq![cur] + words_from(rest.drop_first(), seq![]))
                        == views(out@).push(w@) + words_from(rest.drop_first(), seq![]));
                }
                out.push(w);
            }
            start = i + 1;
            assert(s@.subrange(start as int, i + 1) == Seq::<char>::empty());
        } else {
            assert(cur.push(c) == s@.subrange(start as int, i + 1));
        }
        i += 1;
    }
    if start < n {
        let w = String::from_str(s.substring_char(start, n));
        proof {
            assert(views(out@.push(w)) == views(out@).push(w@));
            assert(views(out@) + seq![w@] == views(out@).push(w@));
        }
        out.push(w);
    } else {
        assert(views(out@) + Seq::<Seq<char>>::empty() == views(out@));
    }
    out
}

} // verus!
