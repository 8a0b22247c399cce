//! Character-level helpers shared by the preprocessor, lexer and parser.
//!
//! Every string is reasoned about through its view, a `Seq<char>`; the
//! executable helpers work on character slices obtained with [`to_chars`].

use vstd::prelude::*;
use vstd::std_specs::iter::IteratorSpec;

verus! {

/// The characters of each string slice of `v`.
pub open spec fn slice_views(v: Seq<&str>) -> Seq<Seq<char>> {
    Seq::new(v.len(), |i: int| v[i]@)
}

/// The characters of each token of each line of `v`.
pub open spec fn line_views(v: Seq<Vec<&str>>) -> Seq<Seq<Seq<char>>> {
    Seq::new(v.len(), |i: int| slice_views(v[i]@))
}

/// Collects the characters of a string slice.
pub fn to_chars(s: &str) -> (out: Vec<char>)
    ensures
        out@ == s@,
{
    let mut out: Vec<char> = Vec::new();
    for c in it: s.chars()
        invariant
            it.seq() == s@,
            out@ == s@.take(it.index() as int),
    {
        out.push(c);
    }
    out
}

/// Whether two character slices hold the same characters.
pub fn chars_eq(a: &[char], b: &[char]) -> (same: bool)
    ensures
        same == (a@ == b@),
{
    if a.len() != b.len() {
        return false;
    }
    let mut i: usize = 0;
    while i < a.len()
        invariant
            i <= a@.len(),
            a@.len() == b@.len(),
            a@.take(i as int) == b@.take(i as int),
        decreases a@.len() - i,
    {
        if a[i] != b[i] {
            return false;
        }
        assert(a@.take(i + 1) == a@.take(i as int).push(a@[i as int]));
        assert(b@.take(i + 1) == b@.take(i as int).push(b@[i as int]));
        i += 1;
    }
    assert(a@ == a@.take(i as int));
    assert(b@ == b@.take(i as int));
    true
}

/// Whether two string slices hold the same characters.
pub fn str_eq(a: &str, b: &str) -> (same: bool)
    ensures
        same == (a@ == b@),
{
    let x = to_chars(a);
    let y = to_chars(b);
    chars_eq(x.as_slice(), y.as_slice())
}

/// Whether `s` holds `pat` at position `at`.
pub open spec fn has_at(s: Seq<char>, pat: Seq<char>, at: int) -> bool {
    0 <= at && at + pat.len() <= s.len() && s.subrange(at, at + pat.len()) == pat
}

/// The position of the first occurrence of `pat` in `s` at or after `from`.
pub open spec fn find_from(s: Seq<char>, pat: Seq<char>, from: int) -> Option<int>
    decreases s.len() + 1 - from,
{
    if from < 0 || from + pat.len() > s.len() {
        None
    } else if has_at(s, pat, from) {
        Some(from)
    } else {
        find_from(s, pat, from + 1)
    }
}

/// The position of the first occurrence of `pat` in `s`.
pub open spec fn find(s: Seq<char>, pat: Seq<char>) -> Option<int> {
    find_from(s, pat, 0)
}

/// What `find_from` returns: the least matching position, if there is one.
pub proof fn lemma_find_from(s: Seq<char>, pat: Seq<char>, from: int)
    requires
        0 <= from,
    ensures
        match find_from(s, pat, from) {
            Some(i) => from <= i && has_at(s, pat, i) && forall|j: int|
                from <= j < i ==> !has_at(s, pat, j),
            None => forall|j: int| from <= j ==> !has_at(s, pat, j),
        },
    decreases s.len() + 1 - from,
{
    if from + pat.len() > s.len() {
    } else if has_at(s, pat, from) {
    } else {
        lemma_find_from(s, pat, from + 1);
    }
}

/// The position of the first `c` in `s`, or the length of `s` if there is none.
pub open spec fn index_of(s: Seq<char>, c: char) -> int
    decreases s.len(),
{
    if s.len() == 0 {
        0
    } else if s[0] == c {
        0
    } else {
        1 + index_of(s.drop_first(), c)
    }
}

/// What `index_of` returns: the least position that holds `c`, or the length.
pub proof fn lemma_index_of(s: Seq<char>, c: char)
    ensures
        0 <= index_of(s, c) <= s.len(),
        index_of(s, c) < s.len() ==> s[index_of(s, c)] == c,
        forall|j: int| 0 <= j < index_of(s, c) ==> s[j] != c,
    decreases s.len(),
{
    if s.len() > 0 && s[0] != c {
        let t = s.drop_first();
        lemma_index_of(t, c);
        assert forall|j: int| 0 <= j < index_of(s, c) implies s[j] != c by {
            if j > 0 {
                assert(s[j] == t[j - 1]);
            }
        }
    }
}

/// A position that holds `c` with no `c` before it is `index_of`.
pub proof fn lemma_index_of_is(s: Seq<char>, c: char, i: int)
    requires
        0 <= i <= s.len(),
        i < s.len() ==> s[i] == c,
        forall|j: int| 0 <= j < i ==> s[j] != c,
    ensures
        index_of(s, c) == i,
{
    lemma_index_of(s, c);
    let k = index_of(s, c);
    if k < i {
        assert(s[k] != c);
    } else if i < k {
        assert(s[i] != c);
    }
}

/// The first `c` of a text that starts with `a` is the first `c` of `a`, if
/// `a` holds one, and else comes after `a`.
pub proof fn lemma_index_of_concat(a: Seq<char>, b: Seq<char>, c: char)
    ensures
        index_of(a, c) < a.len() ==> index_of(a + b, c) == index_of(a, c),
        index_of(a, c) == a.len() ==> index_of(a + b, c) == a.len() + index_of(b, c),
{
    lemma_index_of(a, c);
    lemma_index_of(b, c);
    let n = if index_of(a, c) < a.len() {
        index_of(a, c)
    } else {
        a.len() + index_of(b, c)
    };
    assert forall|j: int| 0 <= j < n implies (a + b)[j] != c by {
        if j >= a.len() {
            assert((a + b)[j] == b[j - a.len()]);
        }
    }
    if n < (a + b).len() {
        if index_of(a, c) < a.len() {
            assert((a + b)[n] == a[n]);
        } else {
            assert((a + b)[n] == b[n - a.len()]);
        }
    }
    lemma_index_of_is(a + b, c, n);
}

/// The position of the first `c` in `s[from..]`, or the length of `s`.
pub fn find_char(s: &[char], from: usize, c: char) -> (at: usize)
    requires
        from <= s@.len(),
    ensures
        at == from + index_of(s@.skip(from as int), c),
        from <= at <= s@.len(),
{
    let mut i: usize = from;
    while i < s.len() && s[i] != c
        invariant
            from <= i <= s@.len(),
            forall|j: int| from <= j < i ==> s@[j] != c,
        decreases s@.len() - i,
    {
        i += 1;
    }
    proof {
        lemma_index_of_is(s@.skip(from as int), c, i - from);
    }
    i
}

/// The position of the first occurrence of `pat` in `s`.
pub fn find_sub(s: &[char], pat: &[char]) -> (at: Option<usize>)
    ensures
        match at {
            Some(i) => find(s@, pat@) == Some(i as int),
            None => find(s@, pat@) is None,
        },
{
    if pat.len() > s.len() {
        return None;
    }
    let last: usize = s.len() - pat.len();
    let mut i: usize = 0;
    loop
        invariant
            last == s@.len() - pat@.len(),
            i <= last,
            find(s@, pat@) == find_from(s@, pat@, i as int),
        decreases last - i,
    {
        if matches_at(s, pat, i) {
            return Some(i);
        }
        if i == last {
            return None;
        }
        i += 1;
    }
}

/// Whether `s` holds `pat` at position `at`.
fn matches_at(s: &[char], pat: &[char], at: usize) -> (hit: bool)
    requires
        at + pat@.len() <= s@.len(),
    ensures
        hit == has_at(s@, pat@, at as int),
{
    let total: usize = s.len();
    let mut k: usize = 0;
    while k < pat.len()
        invariant
            k <= pat@.len(),
            at + pat@.len() <= s@.len() == total,
            forall|j: int| 0 <= j < k ==> s@[at + j] == pat@[j],
        decreases pat@.len() - k,
    {
        if s[at + k] != pat[k] {
            assert(s@.subrange(at as int, at + pat@.len())[k as int] != pat@[k as int]);
            return false;
        }
        k += 1;
    }
    assert(s@.subrange(at as int, at + pat@.len()) =~= pat@);
    true
}

/// Whether `s` ends with `pat`.
pub open spec fn ends_with(s: Seq<char>, pat: Seq<char>) -> bool {
    pat.len() <= s.len() && s.subrange(s.len() - pat.len(), s.len() as int) == pat
}

/// Whether `s` starts with `pat`.
pub open spec fn starts_with(s: Seq<char>, pat: Seq<char>) -> bool {
    pat.len() <= s.len() && s.subrange(0, pat.len() as int) == pat
}

/// The characters that `trim` removes: the code points with the Unicode
/// property `White_Space`.
pub open spec fn is_whitespace(c: char) -> bool {
    let n = c as u32;
    ||| 0x09 <= n <= 0x0d
    ||| n == 0x20
    ||| n == 0x85
    ||| n == 0xa0
    ||| n == 0x1680
    ||| 0x2000 <= n <= 0x200a
    ||| n == 0x2028
    ||| n == 0x2029
    ||| n == 0x202f
    ||| n == 0x205f
    ||| n == 0x3000
}

/// Executable form of [`is_whitespace`].
pub fn is_whitespace_char(c: char) -> (yes: bool)
    ensures
        yes == is_whitespace(c),
{
    let n: u32 = c as u32;
    (0x09 <= n && n <= 0x0d) || n == 0x20 || n == 0x85 || n == 0xa0 || n == 0x1680 || (0x2000 <= n
        && n <= 0x200a) || n == 0x2028 || n == 0x2029 || n == 0x202f || n == 0x205f || n == 0x3000
}

/// The number of whitespace characters at the start of `s`.
pub open spec fn leading_whitespace(s: Seq<char>) -> int
    decreases s.len(),
{
    if s.len() > 0 && is_whitespace(s[0]) {
        1 + leading_whitespace(s.drop_first())
    } else {
        0
    }
}

/// The number of whitespace characters at the end of `s`.
pub open spec fn trailing_whitespace(s: Seq<char>) -> int
    decreases s.len(),
{
    if s.len() > 0 && is_whitespace(s.last()) {
        1 + trailing_whitespace(s.drop_last())
    } else {
        0
    }
}

/// `s` without its leading whitespace.
pub open spec fn trim_start(s: Seq<char>) -> Seq<char> {
    s.skip(leading_whitespace(s))
}

/// `s` without its trailing whitespace.
pub open spec fn trim_end(s: Seq<char>) -> Seq<char> {
    s.take(s.len() - trailing_whitespace(s))
}

/// `s` without its leading and trailing whitespace.
pub open spec fn trim(s: Seq<char>) -> Seq<char> {
    trim_end(trim_start(s))
}

/// What `leading_whitespace` counts: the longest whitespace prefix.
pub proof fn lemma_leading_whitespace(s: Seq<char>)
    ensures
        0 <= leading_whitespace(s) <= s.len(),
        forall|j: int| 0 <= j < leading_whitespace(s) ==> is_whitespace(s[j]),
        leading_whitespace(s) < s.len() ==> !is_whitespace(s[leading_whitespace(s)]),
    decreases s.len(),
{
    if s.len() > 0 && is_whitespace(s[0]) {
        let t = s.drop_first();
        lemma_leading_whitespace(t);
        assert forall|j: int| 0 <= j < leading_whitespace(s) implies is_whitespace(s[j]) by {
            if j > 0 {
                assert(s[j] == t[j - 1]);
            }
        }
    }
}

/// What `trailing_whitespace` counts: the longest whitespace suffix.
pub proof fn lemma_trailing_whitespace(s: Seq<char>)
    ensures
        0 <= trailing_whitespace(s) <= s.len(),
        forall|j: int| s.len() - trailing_whitespace(s) <= j < s.len() ==> is_whitespace(s[j]),
        trailing_whitespace(s) < s.len() ==> !is_whitespace(
            s[s.len() - trailing_whitespace(s) - 1],
        ),
    decreases s.len(),
{
    if s.len() > 0 && is_whitespace(s.last()) {
        let t = s.drop_last();
        lemma_trailing_whitespace(t);
        assert forall|j: int| s.len() - trailing_whitespace(s) <= j < s.len() implies is_whitespace(
            s[j],
        ) by {
            if j < s.len() - 1 {
                assert(s[j] == t[j]);
            }
        }
    }
}

/// A whitespace prefix of length `n` that ends before a non-whitespace
/// character, or at the end, is the whole leading whitespace.
pub proof fn lemma_leading_whitespace_is(s: Seq<char>, n: int)
    requires
        0 <= n <= s.len(),
        forall|j: int| 0 <= j < n ==> is_whitespace(s[j]),
        n < s.len() ==> !is_whitespace(s[n]),
    ensures
        leading_whitespace(s) == n,
{
    lemma_leading_whitespace(s);
    let k = leading_whitespace(s);
    if k < n {
        assert(is_whitespace(s[k]));
    } else if n < k {
        assert(is_whitespace(s[n]));
    }
}

/// A whitespace suffix of length `n` that starts after a non-whitespace
/// character, or at the start, is the whole trailing whitespace.
pub proof fn lemma_trailing_whitespace_is(s: Seq<char>, n: int)
    requires
        0 <= n <= s.len(),
        forall|j: int| s.len() - n <= j < s.len() ==> is_whitespace(s[j]),
        n < s.len() ==> !is_whitespace(s[s.len() - n - 1]),
    ensures
        trailing_whitespace(s) == n,
{
    lemma_trailing_whitespace(s);
    let k = trailing_whitespace(s);
    if k < n {
        assert(is_whitespace(s[s.len() - k - 1]));
    } else if n < k {
        assert(is_whitespace(s[s.len() - n - 1]));
    }
}

/// The bounds of `trim(s[from..to])` within `s`.
pub fn trim_bounds(s: &[char], from: usize, to: usize) -> (bounds: (usize, usize))
    requires
        from <= to <= s@.len(),
    ensures
        from <= bounds.0 <= bounds.1 <= to,
        s@.subrange(bounds.0 as int, bounds.1 as int) == trim(s@.subrange(from as int, to as int)),
{
    let ghost whole = s@.subrange(from as int, to as int);
    let mut lo: usize = from;
    while lo < to && is_whitespace_char(s[lo])
        invariant
            from <= lo <= to <= s@.len(),
            forall|j: int| from <= j < lo ==> is_whitespace(s@[j]),
        decreases to - lo,
    {
        lo += 1;
    }
    let ghost rest = s@.subrange(lo as int, to as int);
    proof {
        lemma_leading_whitespace_is(whole, lo - from);
        assert(trim_start(whole) =~= rest);
    }
    let mut hi: usize = to;
    while lo < hi && is_whitespace_char(s[hi - 1])
        invariant
            lo <= hi <= to <= s@.len(),
            forall|j: int| hi <= j < to ==> is_whitespace(s@[j]),
        decreases hi - lo,
    {
        hi -= 1;
    }
    proof {
        lemma_trailing_whitespace_is(rest, to - hi);
        assert(trim_end(rest) =~= s@.subrange(lo as int, hi as int));
    }
    (lo, hi)
}

} // verus!
