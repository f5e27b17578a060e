//! Character-level helpers: conversions, trimming, substring search.
use vstd::prelude::*;
use vstd::std_specs::iter::IteratorSpec;

verus! {

/// The characters of `s`, in order.
pub fn chars_of(s: &str) -> (r: Vec<char>)
    ensures
        r@ == s@,
{
    let n = s.unicode_len();
    let mut it = s.chars();
    let mut r: Vec<char> = Vec::new();
    loop
        invariant
            it.obeys_prophetic_iter_laws(),
            r@ + it.remaining() == s@,
            n == s@.len(),
        decreases n - r@.len(),
    {
        match it.next() {
            Some(c) => {
                r.push(c);
            },
            None => {
                return r;
            },
        }
    }
}


/// The characters `v` as a `String`.
///
/// Relies on `FromIterator<char>` for `String`, which appends the characters in
/// order.
#[verifier::external_body]
pub(crate) fn string_of(v: &[char]) -> (r: String)
    ensures
        r@ == v@,
{
    v.iter().collect()
}

/// What `str::to_lowercase` makes of a text.
pub uninterp spec fn lower_of(s: Seq<char>) -> Seq<char>;

/// Relies on `str::to_lowercase`: the result depends on the characters alone,
/// and an empty text stays empty.
#[verifier::external_body]
pub(crate) fn lowercase(s: &str) -> (r: String)
    ensures
        r@ == lower_of(s@),
        s@.len() == 0 ==> r@.len() == 0,
{
    s.to_lowercase()
}

/// The characters that Unicode gives the White_Space property, as
/// `char::is_whitespace` and `str::trim` use them.
pub open spec fn is_space(c: char) -> bool {
    ('\u{9}' <= c && c <= '\u{d}') || c == ' ' || c == '\u{85}' || c == '\u{a0}'
        || c == '\u{1680}' || ('\u{2000}' <= c && c <= '\u{200a}') || c == '\u{2028}'
        || c == '\u{2029}' || c == '\u{202f}' || c == '\u{205f}' || c == '\u{3000}'
}

pub fn is_space_char(c: char) -> (r: bool)
    ensures
        r == is_space(c),
{
    ('\u{9}' <= c && c <= '\u{d}') || c == ' ' || c == '\u{85}' || c == '\u{a0}'
        || c == '\u{1680}' || ('\u{2000}' <= c && c <= '\u{200a}') || c == '\u{2028}'
        || c == '\u{2029}' || c == '\u{202f}' || c == '\u{205f}' || c == '\u{3000}'
}

pub open spec fn trim_start(s: Seq<char>) -> Seq<char>
    decreases s.len(),
{
    if s.len() > 0 && is_space(s[0]) {
        trim_start(s.drop_first())
    } else {
        s
    }
}

pub open spec fn trim_end(s: Seq<char>) -> Seq<char>
    decreases s.len(),
{
    if s.len() > 0 && is_space(s.last()) {
        trim_end(s.drop_last())
    } else {
        s
    }
}

/// `s` without leading and trailing white space.
pub open spec fn trimmed(s: Seq<char>) -> Seq<char> {
    trim_end(trim_start(s))
}

/// The bounds of `trimmed(s)` within `s`.
pub fn trim_bounds(s: &[char]) -> (r: (usize, usize))
    ensures
        r.0 <= r.1 <= s@.len(),
        s@.subrange(r.0 as int, r.1 as int) == trimmed(s@),
{
    let n = s.len();
    let mut lo: usize = 0;
    assert(s@.subrange(0, n as int) =~= s@);
    while lo < n && is_space_char(s[lo])
        invariant
            lo <= n == s@.len(),
            trim_start(s@) == trim_start(s@.subrange(lo as int, n as int)),
        decreases n - lo,
    {
        assert(s@.subrange(lo as int, n as int).drop_first() =~= s@.subrange(lo + 1, n as int));
        lo = lo + 1;
    }
    let ghost t = s@.subrange(lo as int, n as int);
    assert(trim_start(t) == t);
    let mut hi: usize = n;
    while hi > lo && is_space_char(s[hi - 1])
        invariant
            lo <= hi <= n == s@.len(),
            t == s@.subrange(lo as int, n as int),
            trim_end(t) == trim_end(s@.subrange(lo as int, hi as int)),
        decreases hi,
    {
        assert(s@.subrange(lo as int, hi as int).drop_last() =~= s@.subrange(lo as int, hi - 1));
        hi = hi - 1;
    }
    (lo, hi)
}

/// `w` occurs in `t` starting at index `i`.
pub open spec fn occurs_at(t: Seq<char>, w: Seq<char>, i: int) -> bool {
    0 <= i && i + w.len() <= t.len() && t.subrange(i, i + w.len()) == w
}

/// `w` occurs somewhere in `t`, as `str::contains` tests it.
pub open spec fn contains(t: Seq<char>, w: Seq<char>) -> bool {
    exists|i: int| occurs_at(t, w, i)
}

fn matches_at(t: &[char], w: &[char], i: usize) -> (r: bool)
    requires
        i + w@.len() <= t@.len(),
    ensures
        r == (t@.subrange(i as int, i + w@.len()) == w@),
{
    let m = w.len();
    let n = t.len();
    let mut k: usize = 0;
    while k < m
        invariant
            k <= m == w@.len(),
            n == t@.len(),
            i + m <= t@.len(),
            forall|j: int| 0 <= j < k ==> t@[i + j] == w@[j],
        decreases m - k,
    {
        assert(i + k < t@.len());
        if t[i + k] != w[k] {
            assert(t@.subrange(i as int, i + m)[k as int] != w@[k as int]);
            return false;
        }
        k = k + 1;
    }
    assert(t@.subrange(i as int, i + m) =~= w@);
    true
}

/// Whether `w` occurs in `t`.
pub fn contains_chars(t: &[char], w: &[char]) -> (r: bool)
    ensures
        r == contains(t@, w@),
{
    let n = t.len();
    let m = w.len();
    if m > n {
        return false;
    }
    let mut i: usize = 0;
    loop
        invariant
            m <= n == t@.len(),
            m == w@.len(),
            i <= n - m,
            forall|j: int| 0 <= j < i ==> !occurs_at(t@, w@, j),
        ensures
            forall|j: int| 0 <= j <= n - m ==> !occurs_at(t@, w@, j),
        decreases n - m - i,
    {
        if matches_at(t, w, i) {
            assert(occurs_at(t@, w@, i as int));
            return true;
        }
        if i == n - m {
            assert(forall|j: int| 0 <= j <= i ==> !occurs_at(t@, w@, j));
            break;
        }
        i = i + 1;
    }
    assert forall|j: int| !occurs_at(t@, w@, j) by {
        if 0 <= j <= n - m {
        }
    }
    false
}

/// Whether two texts hold the same characters.
pub fn chars_eq(a: &[char], b: &[char]) -> (r: bool)
    ensures
        r == (a@ == b@),
{
    if a.len() != b.len() {
        return false;
    }
    let r = matches_at(a, b, 0);
    assert(a@.subrange(0, b@.len() as int) =~= a@);
    r
}


/// `s` without one trailing `%`, if it ends with one.
pub open spec fn strip_percent(s: Seq<char>) -> Seq<char> {
    if s.len() > 0 && s.last() == '%' {
        s.drop_last()
    } else {
        s
    }
}

/// A copy of `v[lo..hi]`.
pub fn copy_range(v: &[char], lo: usize, hi: usize) -> (r: Vec<char>)
    requires
        lo <= hi <= v@.len(),
    ensures
        r@ == v@.subrange(lo as int, hi as int),
{
    let mut r: Vec<char> = Vec::new();
    let mut i: usize = lo;
    while i < hi
        invariant
            lo <= i <= hi <= v@.len(),
            r@ == v@.subrange(lo as int, i as int),
        decreases hi - i,
    {
        r.push(v[i]);
        assert(v@.subrange(lo as int, i + 1) =~= v@.subrange(lo as int, i as int).push(v@[i as int]));
        i = i + 1;
    }
    r
}

/// The text of `s` trimmed of white space, then of one trailing `%`.
pub fn trimmed_number_text(s: &str) -> (r: Vec<char>)
    ensures
        r@ == strip_percent(trimmed(s@)),
{
    let cs = chars_of(s);
    let (lo, hi) = trim_bounds(cs.as_slice());
    let end = if hi > lo && cs[hi - 1] == '%' { hi - 1 } else { hi };
    let r = copy_range(cs.as_slice(), lo, end);
    assert(r@ =~= strip_percent(trimmed(s@)));
    r
}

} // verus!
