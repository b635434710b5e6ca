//! Character-level text utilities: substring search, line ends, trimming and
//! labelled-field extraction over `Seq<char>` models.
use vstd::prelude::*;

verus! {

/// The Unicode `White_Space` property, which is what `char::is_whitespace` tests.
pub open spec fn is_white_space(c: char) -> bool {
    ('\u{9}' <= c && c <= '\u{d}') || c == ' ' || c == '\u{85}' || c == '\u{a0}'
        || c == '\u{1680}' || ('\u{2000}' <= c && c <= '\u{200a}') || c == '\u{2028}'
        || c == '\u{2029}' || c == '\u{202f}' || c == '\u{205f}' || c == '\u{3000}'
}

/// Whether `c` is white space, as `char::is_whitespace` tells.
pub fn white_space(c: char) -> (r: bool)
    ensures
        r == is_white_space(c),
{
    ('\u{9}' <= c && c <= '\u{d}') || c == ' ' || c == '\u{85}' || c == '\u{a0}'
        || c == '\u{1680}' || ('\u{2000}' <= c && c <= '\u{200a}') || c == '\u{2028}'
        || c == '\u{2029}' || c == '\u{202f}' || c == '\u{205f}' || c == '\u{3000}'
}

/// Relies on `String::push`: appends one character at the end.
#[verifier::external_body]
pub(crate) fn push_char(s: &mut String, c: char)
    ensures
        final(s)@ == old(s)@.push(c),
{
    s.push(c)
}

/// The characters of `s`, in order.
pub fn chars_of(s: &str) -> (r: Vec<char>)
    ensures
        r@ == s@,
{
    let mut r: Vec<char> = Vec::new();
    for c in it: s.chars()
        invariant
            r@ == it.seq().take(it.index() as int),
    {
        r.push(c);
    }
    r
}


/// `p` occurs in `t` starting at index `i`.
pub open spec fn occurs_at(t: Seq<char>, p: Seq<char>, i: int) -> bool {
    0 <= i && i + p.len() <= t.len() && t.subrange(i, i + p.len()) == p
}

/// `p` occurs somewhere in `t`.
pub open spec fn contains(t: Seq<char>, p: Seq<char>) -> bool {
    exists|i: int| occurs_at(t, p, i)
}

/// The first index at or after `i` where `p` occurs in `t`.
pub open spec fn first_from(t: Seq<char>, p: Seq<char>, i: int) -> Option<int>
    decreases t.len() + 1 - i,
{
    if i < 0 || i + p.len() > t.len() {
        None
    } else if occurs_at(t, p, i) {
        Some(i)
    } else {
        first_from(t, p, i + 1)
    }
}

/// The first index where `p` occurs in `t`.
pub open spec fn find(t: Seq<char>, p: Seq<char>) -> Option<int> {
    first_from(t, p, 0)
}

/// `s` without its leading white space.
pub open spec fn trim_start(s: Seq<char>) -> Seq<char>
    decreases s.len(),
{
    if s.len() > 0 && is_white_space(s[0]) {
        trim_start(s.drop_first())
    } else {
        s
    }
}

/// `s` without its trailing white space.
pub open spec fn trim_end(s: Seq<char>) -> Seq<char>
    decreases s.len(),
{
    if s.len() > 0 && is_white_space(s.last()) {
        trim_end(s.drop_last())
    } else {
        s
    }
}

/// `s` without leading and trailing white space, as `str::trim` gives it.
pub open spec fn trim(s: Seq<char>) -> Seq<char> {
    trim_end(trim_start(s))
}

/// The end of the line that starts at `a`: the index of the next newline, or the end of `t`.
pub open spec fn line_end(t: Seq<char>, a: int) -> int {
    match first_from(t, seq!['\n'], a) {
        Some(e) => e,
        None => t.len() as int,
    }
}

/// The value that follows the first occurrence of `label` in `t`, up to the end of
/// its line, trimmed; empty where `label` does not occur.
pub open spec fn extract(t: Seq<char>, label: Seq<char>) -> Seq<char> {
    match find(t, label) {
        None => Seq::empty(),
        Some(i) => trim(t.subrange(i + label.len(), line_end(t, i + label.len()))),
    }
}

/// A found index is an occurrence, at or after the start.
pub proof fn lemma_first_from_occurs(t: Seq<char>, p: Seq<char>, i: int)
    ensures
        first_from(t, p, i) matches Some(k) ==> i <= k && occurs_at(t, p, k),
    decreases t.len() + 1 - i,
{
    if !(i < 0 || i + p.len() > t.len()) && !occurs_at(t, p, i) {
        lemma_first_from_occurs(t, p, i + 1);
    }
}

/// Where no index is found, `p` does not occur at or after the start.
pub proof fn lemma_first_from_none(t: Seq<char>, p: Seq<char>, i: int)
    requires
        0 <= i,
        first_from(t, p, i) is None,
    ensures
        forall|j: int| i <= j ==> !occurs_at(t, p, j),
    decreases t.len() + 1 - i,
{
    if i + p.len() <= t.len() {
        lemma_first_from_none(t, p, i + 1);
    }
}

/// Whether `p` occurs anywhere in `t`.
pub fn contains_seq(t: &Vec<char>, p: &Vec<char>) -> (r: bool)
    ensures
        r == contains(t@, p@),
{
    let f = find_from(t, p, 0);
    proof {
        lemma_first_from_occurs(t@, p@, 0);
        if f is None {
            lemma_first_from_none(t@, p@, 0);
        }
    }
    f.is_some()
}

/// Whether `p` occurs in `t` at index `i`.
pub fn matches_at(t: &Vec<char>, p: &Vec<char>, i: usize) -> (r: bool)
    ensures
        r == occurs_at(t@, p@, i as int),
{
    if i > t.len() || p.len() > t.len() - i {
        return false;
    }
    let mut j: usize = 0;
    while j < p.len()
        invariant
            i + p.len() <= t.len(),
            j <= p.len(),
            forall|m: int| 0 <= m < j ==> t@[i + m] == p@[m],
        decreases p.len() - j,
    {
        if t[i + j] != p[j] {
            assert(t@.subrange(i as int, i + p.len())[j as int] != p@[j as int]);
            return false;
        }
        j = j + 1;
    }
    assert(t@.subrange(i as int, i + p.len()) =~= p@);
    true
}

/// The first index at or after `start` where `p` occurs in `t`.
pub fn find_from(t: &Vec<char>, p: &Vec<char>, start: usize) -> (r: Option<usize>)
    ensures
        r matches Some(k) ==> first_from(t@, p@, start as int) == Some(k as int),
        r is None ==> first_from(t@, p@, start as int) is None,
{
    let mut i: usize = start;
    loop
        invariant
            start <= i,
            first_from(t@, p@, start as int) == first_from(t@, p@, i as int),
        decreases t.len() + 1 - i,
    {
        if i > t.len() || p.len() > t.len() - i {
            return None;
        }
        proof {
            if p.len() == 0 {
                assert(t@.subrange(i as int, i as int) =~= p@);
            }
        }
        if matches_at(t, p, i) {
            return Some(i);
        }
        i = i + 1;
    }
}

/// The bounds of `t[a..b]` with its leading and trailing white space removed.
pub fn trim_bounds(t: &Vec<char>, a: usize, b: usize) -> (r: (usize, usize))
    requires
        a <= b <= t.len(),
    ensures
        a <= r.0 <= r.1 <= b,
        t@.subrange(r.0 as int, r.1 as int) == trim(t@.subrange(a as int, b as int)),
{
    let mut lo: usize = a;
    while lo < b && white_space(t[lo])
        invariant
            a <= lo <= b <= t.len(),
            trim_start(t@.subrange(a as int, b as int)) == trim_start(t@.subrange(lo as int, b as int)),
        decreases b - lo,
    {
        assert(t@.subrange(lo as int, b as int).drop_first() =~= t@.subrange(lo + 1, b as int));
        lo = lo + 1;
    }
    let mut hi: usize = b;
    while hi > lo && white_space(t[hi - 1])
        invariant
            a <= lo <= hi <= b <= t.len(),
            trim(t@.subrange(a as int, b as int)) == trim_end(t@.subrange(lo as int, hi as int)),
        decreases hi - lo,
    {
        assert(t@.subrange(lo as int, hi as int).drop_last() =~= t@.subrange(lo as int, hi - 1));
        hi = hi - 1;
    }
    (lo, hi)
}

/// A `String` holding `t[a..b]`.
pub fn string_of_range(t: &Vec<char>, a: usize, b: usize) -> (r: String)
    requires
        a <= b <= t.len(),
    ensures
        r@ == t@.subrange(a as int, b as int),
{
    let mut r = String::new();
    let mut i: usize = a;
    while i < b
        invariant
            a <= i <= b <= t.len(),
            r@ == t@.subrange(a as int, i as int),
        decreases b - i,
    {
        push_char(&mut r, t[i]);
        assert(t@.subrange(a as int, i + 1) =~= t@.subrange(a as int, i as int).push(t@[i as int]));
        i = i + 1;
    }
    r
}

/// `s` without leading and trailing white space.
pub fn trimmed(s: &str) -> (r: String)
    ensures
        r@ == trim(s@),
{
    let t = chars_of(s);
    let (lo, hi) = trim_bounds(&t, 0, t.len());
    assert(t@.subrange(0, t@.len() as int) =~= t@);
    string_of_range(&t, lo, hi)
}

/// The value that follows the first occurrence of `key` in `output`, up to the end
/// of its line, with surrounding white space removed. Returns an empty string when
/// `key` does not occur.
pub fn extract_value(output: &str, key: &str) -> (r: String)
    ensures
        r@ == extract(output@, key@),
        !contains(output@, key@) ==> r@ == Seq::<char>::empty(),
{
    let t = chars_of(output);
    let k = chars_of(key);
    proof {
        lemma_first_from_occurs(t@, k@, 0);
    }
    match find_from(&t, &k, 0) {
        None => String::new(),
        Some(i) => {
            assert(occurs_at(t@, k@, i as int));
            assert(i + k@.len() <= t@.len());
            let tl = t.len();
            let a: usize = i + k.len();
            let nl = vec!['\n'];
            assert(nl@ == seq!['\n']);
            let e = match find_from(&t, &nl, a) {
                Some(e) => e,
                None => tl,
            };
            proof {
                lemma_first_from_occurs(t@, nl@, a as int);
            }
            let (lo, hi) = trim_bounds(&t, a, e);
            string_of_range(&t, lo, hi)
        },
    }
}

} // verus!
