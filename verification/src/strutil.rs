//! Verified string predicates used across the engine: substring search,
//! prefix/suffix tests, and ASCII-case-insensitive variants.
//!
//! Case folding is done at the code-point level for ASCII letters only; the
//! places that need it (URL extensions, HTTP header values) are ASCII in
//! practice, and no non-ASCII letter folds onto an ASCII one.

use vstd::prelude::*;

verus! {

/// Code point of `c` with ASCII upper-case letters folded to lower case.
pub open spec fn lower_code(c: char) -> u32 {
    if 65 <= c as u32 && c as u32 <= 90 {
        (c as u32 + 32) as u32
    } else {
        c as u32
    }
}

/// ASCII-case-insensitive character equality.
pub open spec fn chars_ieq(a: char, b: char) -> bool {
    lower_code(a) == lower_code(b)
}

/// `p` occurs in `s` at offset `k`.
pub open spec fn occurs_at(s: Seq<char>, p: Seq<char>, k: int) -> bool {
    &&& 0 <= k
    &&& k + p.len() <= s.len()
    &&& forall|i: int| 0 <= i < p.len() ==> s[k + i] == p[i]
}

/// `s` starts with `p`.
pub open spec fn starts_with_seq(s: Seq<char>, p: Seq<char>) -> bool {
    occurs_at(s, p, 0)
}

/// `s` contains `p` as a contiguous subsequence.
pub open spec fn contains_seq(s: Seq<char>, p: Seq<char>) -> bool {
    exists|k: int| occurs_at(s, p, k)
}

/// `p` occurs in `s` at offset `k`, up to ASCII case.
pub open spec fn ioccurs_at(s: Seq<char>, p: Seq<char>, k: int) -> bool {
    &&& 0 <= k
    &&& k + p.len() <= s.len()
    &&& forall|i: int| 0 <= i < p.len() ==> chars_ieq(s[k + i], p[i])
}

/// `s` contains `p`, up to ASCII case.
pub open spec fn icontains_seq(s: Seq<char>, p: Seq<char>) -> bool {
    exists|k: int| ioccurs_at(s, p, k)
}

/// `s` ends with `p`, up to ASCII case.
pub open spec fn iends_with_seq(s: Seq<char>, p: Seq<char>) -> bool {
    p.len() <= s.len() && ioccurs_at(s, p, s.len() - p.len())
}

/// A prefix occurrence is in particular a contained occurrence.
pub proof fn lemma_starts_with_implies_contains(s: Seq<char>, p: Seq<char>)
    requires
        starts_with_seq(s, p),
    ensures
        contains_seq(s, p),
{
    assert(occurs_at(s, p, 0));
}

/// Whitespace characters that trimming removes.
pub open spec fn is_ws_char(c: char) -> bool {
    c == ' ' || c == '\t' || c == '\n' || c == '\r'
}

/// Index of the first non-whitespace character at or after `i` (or the end).
pub open spec fn first_nonws(s: Seq<char>, i: int) -> int
    decreases s.len() - i,
{
    if 0 <= i < s.len() && is_ws_char(s[i]) {
        first_nonws(s, i + 1)
    } else {
        i
    }
}

/// End index (exclusive) of the last non-whitespace character before `j`.
pub open spec fn last_nonws(s: Seq<char>, j: int) -> int
    decreases j,
{
    if 0 < j <= s.len() && is_ws_char(s[j - 1]) {
        last_nonws(s, j - 1)
    } else {
        j
    }
}

/// `s` with leading and trailing whitespace removed.
pub open spec fn trim_spec(s: Seq<char>) -> Seq<char> {
    let a = first_nonws(s, 0);
    let b = last_nonws(s, s.len() as int);
    if a <= b {
        s.subrange(a, b)
    } else {
        Seq::empty()
    }
}

proof fn lemma_last_nonws_bounds(s: Seq<char>, j: int)
    requires
        0 <= j <= s.len(),
    ensures
        0 <= last_nonws(s, j) <= j,
    decreases j,
{
    if 0 < j && is_ws_char(s[j - 1]) {
        lemma_last_nonws_bounds(s, j - 1);
    }
}

fn ws_at(s: &str, n: usize, i: usize) -> (r: bool)
    requires
        n == s@.len(),
        i < n,
    ensures
        r == is_ws_char(s@[i as int]),
{
    let c = s.get_char(i);
    c == ' ' || c == '\t' || c == '\n' || c == '\r'
}

/// `s` with leading and trailing whitespace removed.
pub fn trim_str<'a>(s: &'a str) -> (t: &'a str)
    ensures
        t@ == trim_spec(s@),
{
    let n = str_chars_len(s);
    let mut a: usize = 0;
    while a < n && ws_at(s, n, a)
        invariant
            n == s@.len(),
            a <= n,
            first_nonws(s@, 0) == first_nonws(s@, a as int),
        decreases n - a,
    {
        a = a + 1;
    }
    if a == n {
        let t = s.substring_char(n, n);
        proof {
            lemma_last_nonws_bounds(s@, n as int);
            assert(t@ =~= trim_spec(s@));
        }
        return t;
    }
    let mut b: usize = n;
    while b > a && ws_at(s, n, b - 1)
        invariant
            n == s@.len(),
            a < n,
            a < b <= n,
            first_nonws(s@, 0) == a,
            !is_ws_char(s@[a as int]),
            last_nonws(s@, n as int) == last_nonws(s@, b as int),
        decreases b,
    {
        b = b - 1;
    }
    let t = s.substring_char(a, b);
    proof {
        assert(t@ =~= trim_spec(s@));
    }
    t
}

/// Number of characters in `s`.
pub fn str_chars_len(s: &str) -> (n: usize)
    ensures
        n == s@.len(),
{
    s.unicode_len()
}

/// Relies on `String::push`: appends exactly the given character to the end
/// of the string.
#[verifier::external_body]
pub fn push_char(out: &mut String, c: char)
    ensures
        final(out)@ == old(out)@.push(c),
{
    out.push(c);
}

/// ASCII-case-insensitive character comparison.
pub fn char_ieq(a: char, b: char) -> (r: bool)
    ensures
        r == chars_ieq(a, b),
{
    let ac: u32 = a as u32;
    let bc: u32 = b as u32;
    let af: u32 = if 65 <= ac && ac <= 90 { ac + 32 } else { ac };
    let bf: u32 = if 65 <= bc && bc <= 90 { bc + 32 } else { bc };
    af == bf
}

fn match_at(s: &str, sn: usize, p: &str, pn: usize, k: usize) -> (r: bool)
    requires
        sn == s@.len(),
        pn == p@.len(),
        k + pn <= sn,
    ensures
        r == occurs_at(s@, p@, k as int),
{
    let mut i: usize = 0;
    while i < pn
        invariant
            sn == s@.len(),
            pn == p@.len(),
            k + pn <= sn,
            i <= pn,
            forall|t: int| 0 <= t < i ==> s@[k + t] == p@[t],
        decreases pn - i,
    {
        let sc = s.get_char(k + i);
        let pc = p.get_char(i);
        if sc != pc {
            assert(s@[k + i] != p@[i as int]);
            return false;
        }
        i = i + 1;
    }
    true
}

fn imatch_at(s: &str, sn: usize, p: &str, pn: usize, k: usize) -> (r: bool)
    requires
        sn == s@.len(),
        pn == p@.len(),
        k + pn <= sn,
    ensures
        r == ioccurs_at(s@, p@, k as int),
{
    let mut i: usize = 0;
    while i < pn
        invariant
            sn == s@.len(),
            pn == p@.len(),
            k + pn <= sn,
            i <= pn,
            forall|t: int| 0 <= t < i ==> chars_ieq(s@[k + t], p@[t]),
        decreases pn - i,
    {
        let sc = s.get_char(k + i);
        let pc = p.get_char(i);
        if !char_ieq(sc, pc) {
            assert(!chars_ieq(s@[k + i], p@[i as int]));
            return false;
        }
        i = i + 1;
    }
    true
}

/// Exact character-wise string equality.
pub fn str_eq_str(a: &str, b: &str) -> (r: bool)
    ensures
        r == (a@ == b@),
{
    let an = str_chars_len(a);
    let bn = str_chars_len(b);
    if an != bn {
        return false;
    }
    if match_at(a, an, b, bn, 0) {
        assert(a@ =~= b@);
        true
    } else {
        false
    }
}

/// Does `s` start with `p`?
pub fn str_starts_with(s: &str, p: &str) -> (r: bool)
    ensures
        r == starts_with_seq(s@, p@),
{
    let sn = str_chars_len(s);
    let pn = str_chars_len(p);
    if pn > sn {
        return false;
    }
    match_at(s, sn, p, pn, 0)
}

/// Does `s` contain `p`?
pub fn str_contains_str(s: &str, p: &str) -> (r: bool)
    ensures
        r == contains_seq(s@, p@),
{
    let sn = str_chars_len(s);
    let pn = str_chars_len(p);
    if pn > sn {
        assert(forall|k: int| !occurs_at(s@, p@, k));
        return false;
    }
    let mut k: usize = 0;
    while k <= sn - pn
        invariant
            sn == s@.len(),
            pn == p@.len(),
            pn <= sn,
            forall|t: int| 0 <= t < k ==> !occurs_at(s@, p@, t),
        decreases sn + 1 - pn - k,
    {
        if match_at(s, sn, p, pn, k) {
            return true;
        }
        k = k + 1;
    }
    assert forall|t: int| !occurs_at(s@, p@, t) by {
        if 0 <= t <= sn - pn {
            assert(!occurs_at(s@, p@, t));
        }
    }
    false
}

/// Does `s` contain `p`, ignoring ASCII case?
pub fn str_icontains(s: &str, p: &str) -> (r: bool)
    ensures
        r == icontains_seq(s@, p@),
{
    let sn = str_chars_len(s);
    let pn = str_chars_len(p);
    if pn > sn {
        assert(forall|k: int| !ioccurs_at(s@, p@, k));
        return false;
    }
    let mut k: usize = 0;
    while k <= sn - pn
        invariant
            sn == s@.len(),
            pn == p@.len(),
            pn <= sn,
            forall|t: int| 0 <= t < k ==> !ioccurs_at(s@, p@, t),
        decreases sn + 1 - pn - k,
    {
        if imatch_at(s, sn, p, pn, k) {
            return true;
        }
        k = k + 1;
    }
    assert forall|t: int| !ioccurs_at(s@, p@, t) by {
        if 0 <= t <= sn - pn {
            assert(!ioccurs_at(s@, p@, t));
        }
    }
    false
}

/// Does `s` end with `p`, ignoring ASCII case?
pub fn str_iends_with(s: &str, p: &str) -> (r: bool)
    ensures
        r == iends_with_seq(s@, p@),
{
    let sn = str_chars_len(s);
    let pn = str_chars_len(p);
    if pn > sn {
        return false;
    }
    imatch_at(s, sn, p, pn, sn - pn)
}

} // verus!
