//! Byte-level text utilities: substring search, whitespace trimming,
//! separator normalization and prefix stripping, each with an exact
//! mathematical description of its result.

use vstd::prelude::*;

verus! {

/// View of a sequence of byte vectors as a sequence of byte sequences.
pub open spec fn views_of(s: Seq<Vec<u8>>) -> Seq<Seq<u8>> {
    s.map_values(|v: Vec<u8>| v@)
}

/// The ASCII whitespace bytes: space, tab, line feed, vertical tab,
/// form feed, carriage return.
pub open spec fn is_ws(b: u8) -> bool {
    b == 32 || b == 9 || b == 10 || b == 11 || b == 12 || b == 13
}

pub fn ws_byte(b: u8) -> (r: bool)
    ensures
        r == is_ws(b),
{
    b == 32 || b == 9 || b == 10 || b == 11 || b == 12 || b == 13
}

/// `pat` occurs in `s` starting at position `i`.
pub open spec fn is_match_at(s: Seq<u8>, pat: Seq<u8>, i: int) -> bool {
    0 <= i && i + pat.len() <= s.len() && s.subrange(i, i + pat.len() as int) == pat
}

/// `pat` occurs somewhere in `s`.
pub open spec fn contains_pat(s: Seq<u8>, pat: Seq<u8>) -> bool {
    exists|i: int| is_match_at(s, pat, i)
}

/// Position of the first occurrence of `pat` in `s` at or after `j`;
/// `s.len()` if there is none.
pub open spec fn first_match_from(s: Seq<u8>, pat: Seq<u8>, j: int) -> int
    decreases s.len() - j + 1,
{
    if j < 0 || j + pat.len() > s.len() {
        s.len() as int
    } else if is_match_at(s, pat, j) {
        j
    } else {
        first_match_from(s, pat, j + 1)
    }
}

pub proof fn lemma_first_match_found(s: Seq<u8>, pat: Seq<u8>, j: int, i: int)
    requires
        0 <= j <= i,
        is_match_at(s, pat, i),
        forall|k: int| j <= k < i ==> !is_match_at(s, pat, k),
    ensures
        first_match_from(s, pat, j) == i,
    decreases i - j,
{
    if j < i {
        lemma_first_match_found(s, pat, j + 1, i);
    }
}

pub proof fn lemma_first_match_none(s: Seq<u8>, pat: Seq<u8>, j: int)
    requires
        forall|k: int| !is_match_at(s, pat, k),
    ensures
        first_match_from(s, pat, j) == s.len(),
    decreases s.len() - j + 1,
{
    if j >= 0 && j + pat.len() <= s.len() {
        lemma_first_match_none(s, pat, j + 1);
    }
}

/// Does `pat` occur in `s` at position `i`? (The caller guarantees that a
/// window of `pat`'s length fits at `i`.)
pub fn match_here(s: &Vec<u8>, pat: &Vec<u8>, i: usize) -> (r: bool)
    requires
        i + pat@.len() <= s@.len(),
    ensures
        r == is_match_at(s@, pat@, i as int),
{
    let n = pat.len();
    let m = s.len();
    let mut k: usize = 0;
    while k < n
        invariant
            n == pat@.len(),
            m == s@.len(),
            i + n <= m,
            k <= n,
            forall|t: int| 0 <= t < k ==> s@[i + t] == pat@[t],
        decreases n - k,
    {
        if s[i + k] != pat[k] {
            assert(!is_match_at(s@, pat@, i as int)) by {
                assert(s@.subrange(i as int, i + pat@.len() as int).len() == pat@.len());
                assert(s@.subrange(i as int, i + pat@.len() as int)[k as int] == s@[i + k]);
            }
            return false;
        }
        k += 1;
    }
    assert(s@.subrange(i as int, i + pat@.len() as int) =~= pat@);
    true
}

/// Position of the first occurrence of `pat` in `s`, if any.
pub fn find_subslice(s: &Vec<u8>, pat: &Vec<u8>) -> (r: Option<usize>)
    ensures
        match r {
            Some(i) => is_match_at(s@, pat@, i as int) && (forall|j: int|
                0 <= j < i ==> !is_match_at(s@, pat@, j)),
            None => forall|j: int| !is_match_at(s@, pat@, j),
        },
{
    if pat.len() > s.len() {
        return None;
    }
    if pat.len() == 0 {
        assert(s@.subrange(0, 0) =~= pat@);
        return Some(0);
    }
    let sn = s.len();
    let end = sn - pat.len();
    let mut i: usize = 0;
    while i <= end
        invariant
            0 < pat@.len() <= s@.len(),
            sn == s@.len(),
            end == s@.len() - pat@.len(),
            end < sn,
            i <= end + 1,
            forall|j: int| 0 <= j < i ==> !is_match_at(s@, pat@, j),
        decreases end + 1 - i,
    {
        if match_here(s, pat, i) {
            return Some(i);
        }
        i += 1;
    }
    assert(forall|j: int| is_match_at(s@, pat@, j) ==> 0 <= j <= end);
    None
}

/// Position of the first occurrence of byte `b` in `s` at or after `j`;
/// `s.len()` if there is none.
pub open spec fn first_byte_from(s: Seq<u8>, b: u8, j: int) -> int
    decreases s.len() - j,
{
    if j < 0 || j >= s.len() {
        s.len() as int
    } else if s[j] == b {
        j
    } else {
        first_byte_from(s, b, j + 1)
    }
}

pub proof fn lemma_first_byte_found(s: Seq<u8>, b: u8, j: int, i: int)
    requires
        0 <= j <= i < s.len(),
        s[i] == b,
        forall|k: int| j <= k < i ==> s[k] != b,
    ensures
        first_byte_from(s, b, j) == i,
    decreases i - j,
{
    if j < i {
        lemma_first_byte_found(s, b, j + 1, i);
    }
}

pub proof fn lemma_first_byte_none(s: Seq<u8>, b: u8, j: int)
    requires
        0 <= j,
        forall|k: int| j <= k < s.len() ==> s[k] != b,
    ensures
        first_byte_from(s, b, j) == s.len(),
    decreases s.len() - j + 1,
{
    if j < s.len() {
        lemma_first_byte_none(s, b, j + 1);
    }
}

/// First position of byte `b` in `s` at or after `from` (`s.len()` if none).
pub fn find_byte_from(s: &Vec<u8>, b: u8, from: usize) -> (r: usize)
    requires
        from <= s@.len(),
    ensures
        r == first_byte_from(s@, b, from as int),
        from <= r <= s@.len(),
        r < s@.len() ==> s@[r as int] == b,
        forall|k: int| from <= k < r ==> s@[k] != b,
{
    let n = s.len();
    let mut i: usize = from;
    while i < n && s[i] != b
        invariant
            n == s@.len(),
            from <= i <= n,
            forall|k: int| from <= k < i ==> s@[k] != b,
        decreases n - i,
    {
        i += 1;
    }
    proof {
        if i < s@.len() {
            lemma_first_byte_found(s@, b, from as int, i as int);
        } else {
            lemma_first_byte_none(s@, b, from as int);
        }
    }
    i
}

/// A fresh vector holding `v[a..b]`.
pub fn copy_range(v: &Vec<u8>, a: usize, b: usize) -> (r: Vec<u8>)
    requires
        a <= b <= v@.len(),
    ensures
        r@ == v@.subrange(a as int, b as int),
{
    let mut r: Vec<u8> = Vec::new();
    let mut i: usize = a;
    assert(r@ =~= v@.subrange(a as int, a as int));
    while i < b
        invariant
            a <= i <= b <= v@.len(),
            r@ == v@.subrange(a as int, i as int),
        decreases b - i,
    {
        r.push(v[i]);
        assert(r@ =~= v@.subrange(a as int, i + 1));
        i += 1;
    }
    r
}

/// Do two byte vectors hold the same bytes?
pub fn bytes_eq(a: &Vec<u8>, b: &Vec<u8>) -> (r: bool)
    ensures
        r == (a@ == b@),
{
    if a.len() != b.len() {
        return false;
    }
    let n = a.len();
    let mut i: usize = 0;
    while i < n
        invariant
            n == a@.len(),
            a@.len() == b@.len(),
            i <= n,
            forall|k: int| 0 <= k < i ==> a@[k] == b@[k],
        decreases n - i,
    {
        if a[i] != b[i] {
            return false;
        }
        i += 1;
    }
    assert(a@ =~= b@);
    true
}

/// `t` without the prefix `pre`, when `t` starts with `pre`; `t` unchanged
/// otherwise. Strips at most one copy of the prefix.
pub open spec fn strip_prefix_spec(t: Seq<u8>, pre: Seq<u8>) -> Seq<u8> {
    if is_match_at(t, pre, 0) {
        t.skip(pre.len() as int)
    } else {
        t
    }
}

pub fn strip_prefix_once(t: &Vec<u8>, pre: &Vec<u8>) -> (r: Vec<u8>)
    ensures
        r@ == strip_prefix_spec(t@, pre@),
{
    if pre.len() <= t.len() && match_here(t, pre, 0) {
        copy_range(t, pre.len(), t.len())
    } else {
        assert(t@.subrange(0, t@.len() as int) =~= t@);
        copy_range(t, 0, t.len())
    }
}

/// Platform path separators collapsed to the canonical one: every backslash
/// becomes a forward slash.
pub open spec fn sep_byte(b: u8) -> u8 {
    if b == 92 {
        47
    } else {
        b
    }
}

pub open spec fn norm_sep(p: Seq<u8>) -> Seq<u8> {
    p.map_values(|b: u8| sep_byte(b))
}

pub fn normalize_separators(p: &Vec<u8>) -> (r: Vec<u8>)
    ensures
        r@ == norm_sep(p@),
{
    let n = p.len();
    let mut r: Vec<u8> = Vec::new();
    let mut i: usize = 0;
    while i < n
        invariant
            n == p@.len(),
            i <= n,
            r@.len() == i,
            forall|k: int| 0 <= k < i ==> r@[k] == sep_byte(p@[k]),
        decreases n - i,
    {
        let b = p[i];
        if b == 92 {
            r.push(47);
        } else {
            r.push(b);
        }
        i += 1;
    }
    assert(r@ =~= norm_sep(p@));
    r
}

/// `s` without its leading whitespace bytes.
pub open spec fn trim_left_spec(s: Seq<u8>) -> Seq<u8>
    decreases s.len(),
{
    if s.len() > 0 && is_ws(s[0]) {
        trim_left_spec(s.drop_first())
    } else {
        s
    }
}

/// `s` without its trailing whitespace bytes.
pub open spec fn trim_right_spec(s: Seq<u8>) -> Seq<u8>
    decreases s.len(),
{
    if s.len() > 0 && is_ws(s.last()) {
        trim_right_spec(s.drop_last())
    } else {
        s
    }
}

/// `s` without leading and trailing whitespace.
pub open spec fn trim_spec(s: Seq<u8>) -> Seq<u8> {
    trim_right_spec(trim_left_spec(s))
}

pub proof fn lemma_trim_left(s: Seq<u8>, a: int)
    requires
        0 <= a <= s.len(),
        forall|k: int| 0 <= k < a ==> is_ws(s[k]),
        a < s.len() ==> !is_ws(s[a]),
    ensures
        trim_left_spec(s) == s.skip(a),
    decreases a,
{
    if a == 0 {
        assert(s.skip(0) =~= s);
    } else {
        lemma_trim_left(s.drop_first(), a - 1);
        assert(s.drop_first().skip(a - 1) =~= s.skip(a));
    }
}

pub proof fn lemma_trim_right(s: Seq<u8>, b: int)
    requires
        0 <= b <= s.len(),
        forall|k: int| b <= k < s.len() ==> is_ws(s[k]),
        b > 0 ==> !is_ws(s[b - 1]),
    ensures
        trim_right_spec(s) == s.take(b),
    decreases s.len() - b,
{
    if b == s.len() {
        assert(s.take(b) =~= s);
    } else {
        lemma_trim_right(s.drop_last(), b);
        assert(s.drop_last().take(b) =~= s.take(b));
    }
}

/// A fresh vector holding `v` without leading and trailing ASCII whitespace.
pub fn trim_bytes(v: &Vec<u8>) -> (r: Vec<u8>)
    ensures
        r@ == trim_spec(v@),
{
    let n = v.len();
    let mut a: usize = 0;
    while a < n && ws_byte(v[a])
        invariant
            n == v@.len(),
            a <= n,
            forall|k: int| 0 <= k < a ==> is_ws(v@[k]),
        decreases n - a,
    {
        a += 1;
    }
    proof {
        lemma_trim_left(v@, a as int);
    }
    let mut b: usize = n;
    while b > a && ws_byte(v[b - 1])
        invariant
            n == v@.len(),
            a <= b <= n,
            forall|k: int| b <= k < v@.len() ==> is_ws(v@[k]),
        decreases b,
    {
        b -= 1;
    }
    proof {
        let u = v@.skip(a as int);
        assert(forall|k: int| b - a <= k < u.len() ==> is_ws(u[k]));
        lemma_trim_right(u, b - a);
        assert(u.take(b - a) =~= v@.subrange(a as int, b as int));
    }
    copy_range(v, a, b)
}

} // verus!
