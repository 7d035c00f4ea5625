//! Relative-path handling: splitting archive entry names and manifest target
//! paths into segments, refusing anything that could climb out of its root,
//! and joining segments back into a canonical `/`-separated path.
//!
//! Policy: `/` and `\` both separate segments; empty and `.` segments are
//! dropped; a `..` segment, a `:` or a NUL character rejects the whole path.
//! A path that sanitizes to no segments at all is rejected too.  This is the
//! archive-extraction security invariant: every accepted path resolves to a
//! point strictly inside the directory it is joined under.

use vstd::prelude::*;

verus! {

/// Characters that separate path segments.
pub open spec fn is_sep_char(c: char) -> bool {
    c == '/' || c == '\\'
}

/// Characters never allowed inside a segment (drive-letter colons, NUL).
pub open spec fn bad_seg_char(c: char) -> bool {
    c == ':' || c == '\u{0}'
}

/// A segment that is safe to join under a root directory: non-empty, not a
/// current- or parent-directory reference, and free of separators and bad
/// characters.
pub open spec fn safe_segment(s: Seq<char>) -> bool {
    &&& s.len() > 0
    &&& s != seq!['.']
    &&& s != seq!['.', '.']
    &&& forall|i: int| 0 <= i < s.len() ==> !is_sep_char(#[trigger] s[i]) && !bad_seg_char(s[i])
}

/// Closes the segment `cur` accumulated so far: empty and `.` segments are
/// dropped, `..` rejects the path, anything else is kept.
pub open spec fn close_seg(cur: Seq<char>, acc: Seq<Seq<char>>) -> Option<Seq<Seq<char>>> {
    if cur.len() == 0 || cur == seq!['.'] {
        Some(acc)
    } else if cur == seq!['.', '.'] {
        None
    } else {
        Some(acc.push(cur))
    }
}

/// One pass over `s` from position `i`, with the current segment `cur` and
/// the segments `acc` already closed.
pub open spec fn sanitize_rec(s: Seq<char>, i: int, cur: Seq<char>, acc: Seq<Seq<char>>) -> Option<
    Seq<Seq<char>>,
>
    decreases s.len() - i,
{
    if i < 0 || i >= s.len() {
        close_seg(cur, acc)
    } else if is_sep_char(s[i]) {
        match close_seg(cur, acc) {
            Some(a) => sanitize_rec(s, i + 1, Seq::empty(), a),
            None => None,
        }
    } else if bad_seg_char(s[i]) {
        None
    } else {
        sanitize_rec(s, i + 1, cur.push(s[i]), acc)
    }
}

/// The sanitized segments of `s`, or `None` when `s` must be rejected
/// (a `..` segment, a bad character, or no usable segment at all).
pub open spec fn sanitize_path_spec(s: Seq<char>) -> Option<Seq<Seq<char>>> {
    match sanitize_rec(s, 0, Seq::empty(), Seq::empty()) {
        Some(a) => if a.len() > 0 {
            Some(a)
        } else {
            None
        },
        None => None,
    }
}

/// Splits `s` into sanitized segments; `None` means the path is rejected.
pub fn sanitize_rel_path(s: &str) -> (r: Option<Vec<String>>)
    ensures
        r is Some <==> sanitize_path_spec(s@) is Some,
        r matches Some(v) ==> sanitize_path_spec(s@) == Some(v.deep_view()),
{
    let n = crate::strutil::str_chars_len(s);
    let mut acc: Vec<String> = Vec::new();
    let mut seg_start: usize = 0;
    let mut i: usize = 0;
    proof {
        assert(s@.subrange(0, 0) =~= Seq::<char>::empty());
        assert(acc.deep_view() =~= Seq::<Seq<char>>::empty());
    }
    while i < n
        invariant
            n == s@.len(),
            seg_start <= i <= n,
            sanitize_rec(s@, 0, Seq::empty(), Seq::empty()) == sanitize_rec(
                s@,
                i as int,
                s@.subrange(seg_start as int, i as int),
                acc.deep_view(),
            ),
        decreases n - i,
    {
        let c = s.get_char(i);
        let cu: u32 = c as u32;
        if c == '/' || c == '\\' {
            let cur = s.substring_char(seg_start, i);
            if !close_segment_into(cur, &mut acc) {
                proof {
                    assert(sanitize_rec(s@, 0, Seq::empty(), Seq::empty()) is None);
                }
                return None;
            }
            seg_start = i + 1;
            i = i + 1;
            proof {
                assert(s@.subrange(seg_start as int, i as int) =~= Seq::<char>::empty());
            }
        } else if cu == 58 || cu == 0 {
            proof {
                assert(bad_seg_char(s@[i as int]));
                assert(sanitize_rec(s@, 0, Seq::empty(), Seq::empty()) is None);
            }
            return None;
        } else {
            i = i + 1;
            proof {
                assert(s@.subrange(seg_start as int, i as int) =~= s@.subrange(
                    seg_start as int,
                    i - 1,
                ).push(s@[i - 1]));
            }
        }
    }
    let cur = s.substring_char(seg_start, n);
    if !close_segment_into(cur, &mut acc) {
        return None;
    }
    if acc.len() == 0 {
        None
    } else {
        Some(acc)
    }
}

/// Applies `close_seg` to the vector accumulator; `false` means rejection.
fn close_segment_into(cur: &str, acc: &mut Vec<String>) -> (r: bool)
    ensures
        r <==> close_seg(cur@, old(acc).deep_view()) is Some,
        r ==> close_seg(cur@, old(acc).deep_view()) == Some(final(acc).deep_view()),
        !r ==> *final(acc) == *old(acc),
{
    if cur.is_empty() {
        return true;
    }
    if crate::strutil::str_eq_str(cur, ".") {
        proof {
            reveal_strlit(".");
            assert(cur@ =~= seq!['.']);
        }
        return true;
    }
    if crate::strutil::str_eq_str(cur, "..") {
        proof {
            reveal_strlit("..");
            assert(cur@ =~= seq!['.', '.']);
        }
        return false;
    }
    proof {
        reveal_strlit(".");
        reveal_strlit("..");
        if cur@ == seq!['.'] {
            assert(cur@ =~= "."@);
        }
        if cur@ == seq!['.', '.'] {
            assert(cur@ =~= ".."@);
        }
    }
    let owned = String::from_str(cur);
    acc.push(owned);
    proof {
        assert(acc.deep_view() =~= old(acc).deep_view().push(cur@));
    }
    true
}

/// Every sanitized segment is safe to join under a root.
pub proof fn lemma_sanitize_segments_safe(s: Seq<char>)
    ensures
        sanitize_path_spec(s) matches Some(v) ==> v.len() > 0 && (forall|j: int|
            0 <= j < v.len() ==> safe_segment(#[trigger] v[j])),
{
    if sanitize_path_spec(s) is Some {
        lemma_sanitize_rec_safe(s, 0, Seq::empty(), Seq::empty());
    }
}

proof fn lemma_sanitize_rec_safe(s: Seq<char>, i: int, cur: Seq<char>, acc: Seq<Seq<char>>)
    requires
        forall|j: int| 0 <= j < acc.len() ==> safe_segment(#[trigger] acc[j]),
        forall|j: int| 0 <= j < cur.len() ==> !is_sep_char(#[trigger] cur[j]) && !bad_seg_char(
            cur[j],
        ),
    ensures
        sanitize_rec(s, i, cur, acc) matches Some(v) ==> forall|j: int|
            0 <= j < v.len() ==> safe_segment(#[trigger] v[j]),
    decreases s.len() - i,
{
    if i < 0 || i >= s.len() {
        lemma_close_seg_safe(cur, acc);
    } else if is_sep_char(s[i]) {
        lemma_close_seg_safe(cur, acc);
        match close_seg(cur, acc) {
            Some(a) => {
                lemma_sanitize_rec_safe(s, i + 1, Seq::empty(), a);
            },
            None => {},
        }
    } else if bad_seg_char(s[i]) {
    } else {
        lemma_sanitize_rec_safe(s, i + 1, cur.push(s[i]), acc);
    }
}

proof fn lemma_close_seg_safe(cur: Seq<char>, acc: Seq<Seq<char>>)
    requires
        forall|j: int| 0 <= j < acc.len() ==> safe_segment(#[trigger] acc[j]),
        forall|j: int| 0 <= j < cur.len() ==> !is_sep_char(#[trigger] cur[j]) && !bad_seg_char(
            cur[j],
        ),
    ensures
        close_seg(cur, acc) matches Some(v) ==> forall|j: int|
            0 <= j < v.len() ==> safe_segment(#[trigger] v[j]),
{
}

/// Is `s` a single safe path segment?
pub fn is_safe_segment_str(s: &str) -> (r: bool)
    ensures
        r == safe_segment(s@),
{
    let n = crate::strutil::str_chars_len(s);
    if n == 0 {
        return false;
    }
    if crate::strutil::str_eq_str(s, ".") {
        proof {
            reveal_strlit(".");
            assert(s@ =~= seq!['.']);
        }
        return false;
    }
    if crate::strutil::str_eq_str(s, "..") {
        proof {
            reveal_strlit("..");
            assert(s@ =~= seq!['.', '.']);
        }
        return false;
    }
    proof {
        reveal_strlit(".");
        reveal_strlit("..");
        if s@ == seq!['.'] {
            assert(s@ =~= "."@);
        }
        if s@ == seq!['.', '.'] {
            assert(s@ =~= ".."@);
        }
    }
    let mut i: usize = 0;
    while i < n
        invariant
            n == s@.len(),
            i <= n,
            forall|t: int| 0 <= t < i ==> !is_sep_char(#[trigger] s@[t]) && !bad_seg_char(s@[t]),
        decreases n - i,
    {
        let c = s.get_char(i);
        let cu: u32 = c as u32;
        if c == '/' || c == '\\' || cu == 58 || cu == 0 {
            return false;
        }
        i = i + 1;
    }
    true
}

/// Change in directory depth that resolving one segment causes.
pub open spec fn seg_delta(s: Seq<char>) -> int {
    if s == seq!['.', '.'] {
        -1
    } else if s == seq!['.'] || s.len() == 0 {
        0
    } else {
        1
    }
}

/// Directory depth, relative to the root, after resolving the first `k`
/// segments.
pub open spec fn depth_after(segs: Seq<Seq<char>>, k: int) -> int
    decreases k,
{
    if k <= 0 {
        0
    } else {
        depth_after(segs, k - 1) + seg_delta(segs[k - 1])
    }
}

/// A segment list escapes its root when some prefix of it resolves above the
/// root directory.
pub open spec fn escapes_root(segs: Seq<Seq<char>>) -> bool {
    exists|k: int| 0 <= k <= segs.len() && depth_after(segs, k) < 0
}

/// Path-traversal safety: whatever entry name an archive carries, the
/// sanitized segments never resolve outside the directory they are joined
/// under — every prefix of them sits at depth `>= 0`, so no write can land
/// above the extraction root.
pub proof fn lemma_sanitized_path_stays_within(s: Seq<char>)
    ensures
        sanitize_path_spec(s) matches Some(v) ==> !escapes_root(v),
{
    if sanitize_path_spec(s) is Some {
        let v = sanitize_path_spec(s)->Some_0;
        lemma_sanitize_segments_safe(s);
        lemma_safe_segments_never_escape(v);
    }
}

/// Safe segments alone cannot climb: a path made only of them never
/// resolves above its root.
pub proof fn lemma_safe_segments_never_escape(segs: Seq<Seq<char>>)
    requires
        forall|j: int| 0 <= j < segs.len() ==> safe_segment(#[trigger] segs[j]),
    ensures
        !escapes_root(segs),
{
    assert forall|k: int| 0 <= k <= segs.len() implies depth_after(segs, k) >= 0 by {
        lemma_safe_depth(segs, k);
    }
}

proof fn lemma_safe_depth(segs: Seq<Seq<char>>, k: int)
    requires
        forall|j: int| 0 <= j < segs.len() ==> safe_segment(#[trigger] segs[j]),
        k <= segs.len(),
    ensures
        depth_after(segs, k) >= 0,
    decreases k,
{
    if k > 0 {
        lemma_safe_depth(segs, k - 1);
        assert(safe_segment(segs[k - 1]));
        assert(seg_delta(segs[k - 1]) == 1);
    }
}

/// The canonical `/`-joined form of `segs`, folded left to right.
pub open spec fn join_rec(segs: Seq<Seq<char>>, i: int, acc: Seq<char>) -> Seq<char>
    decreases segs.len() - i,
{
    if i < 0 || i >= segs.len() {
        acc
    } else if i == 0 {
        join_rec(segs, 1, acc + segs[0])
    } else {
        join_rec(segs, i + 1, acc + seq!['/'] + segs[i])
    }
}

/// Segments joined with `/`.
pub open spec fn join_segs(segs: Seq<Seq<char>>) -> Seq<char> {
    join_rec(segs, 0, Seq::empty())
}

/// `join_segs` written as one flat concatenation from segment `i` on.
pub open spec fn flat_from(segs: Seq<Seq<char>>, i: int) -> Seq<char>
    decreases segs.len() - i,
{
    if i < 0 || i >= segs.len() {
        Seq::empty()
    } else if i == 0 {
        segs[0] + flat_from(segs, 1)
    } else {
        seq!['/'] + segs[i] + flat_from(segs, i + 1)
    }
}

proof fn lemma_join_rec_flat(segs: Seq<Seq<char>>, i: int, acc: Seq<char>)
    requires
        0 <= i,
    ensures
        join_rec(segs, i, acc) == acc + flat_from(segs, i),
    decreases segs.len() - i,
{
    if i >= segs.len() {
        assert(join_rec(segs, i, acc) =~= acc + flat_from(segs, i));
    } else if i == 0 {
        lemma_join_rec_flat(segs, 1, acc + segs[0]);
        assert(acc + segs[0] + flat_from(segs, 1) =~= acc + (segs[0] + flat_from(segs, 1)));
    } else {
        lemma_join_rec_flat(segs, i + 1, acc + seq!['/'] + segs[i]);
        assert(acc + seq!['/'] + segs[i] + flat_from(segs, i + 1) =~= acc + (seq!['/'] + segs[i]
            + flat_from(segs, i + 1)));
    }
}

/// The sanitizer only reads the suffix it has not yet consumed.
proof fn lemma_sanitize_shift(
    s1: Seq<char>,
    i1: int,
    s2: Seq<char>,
    i2: int,
    cur: Seq<char>,
    acc: Seq<Seq<char>>,
)
    requires
        0 <= i1 <= s1.len(),
        0 <= i2 <= s2.len(),
        s1.subrange(i1, s1.len() as int) == s2.subrange(i2, s2.len() as int),
    ensures
        sanitize_rec(s1, i1, cur, acc) == sanitize_rec(s2, i2, cur, acc),
    decreases s1.len() - i1,
{
    let t1 = s1.subrange(i1, s1.len() as int);
    let t2 = s2.subrange(i2, s2.len() as int);
    assert(t1.len() == s1.len() - i1);
    assert(t2.len() == s2.len() - i2);
    assert(t1.len() == t2.len());
    if i1 >= s1.len() {
        assert(i2 >= s2.len());
    } else {
        assert(i2 < s2.len());
        assert(t1[0] == s1[i1 + 0]);
        assert(t2[0] == s2[i2 + 0]);
        assert(t1[0] == t2[0]);
        assert(s1[i1] == s2[i2]);
        assert(s1.subrange(i1 + 1, s1.len() as int) =~= s2.subrange(i2 + 1, s2.len() as int)) by {
            assert forall|t: int|
                0 <= t < s1.len() - i1 - 1 implies #[trigger] s1.subrange(i1 + 1, s1.len() as int)[t]
                == s2.subrange(i2 + 1, s2.len() as int)[t] by {
                assert(t1[t + 1] == t2[t + 1]);
            }
        }
        if is_sep_char(s1[i1]) {
            match close_seg(cur, acc) {
                Some(a) => {
                    lemma_sanitize_shift(s1, i1 + 1, s2, i2 + 1, Seq::empty(), a);
                },
                None => {},
            }
        } else if bad_seg_char(s1[i1]) {
        } else {
            lemma_sanitize_shift(s1, i1 + 1, s2, i2 + 1, cur.push(s1[i1]), acc);
        }
    }
}

proof fn lemma_sanitize_flat(segs: Seq<Seq<char>>, k: int, t: int)
    requires
        forall|j: int| 0 <= j < segs.len() ==> safe_segment(#[trigger] segs[j]),
        0 <= k < segs.len(),
        0 <= t <= segs[k].len(),
    ensures
        sanitize_rec(segs[k].skip(t) + flat_from(segs, k + 1), 0, segs[k].take(t), segs.take(k))
            == Some(segs),
    decreases segs.len() - k, segs[k].len() - t,
{
    let seg = segs[k];
    let rest = flat_from(segs, k + 1);
    let s = seg.skip(t) + rest;
    assert(safe_segment(seg));
    if t < seg.len() {
        assert(s[0] == seg[t]);
        assert(!is_sep_char(seg[t]) && !bad_seg_char(seg[t]));
        assert(sanitize_rec(s, 0, seg.take(t), segs.take(k)) == sanitize_rec(
            s,
            1,
            seg.take(t).push(seg[t]),
            segs.take(k),
        ));
        assert(seg.take(t).push(seg[t]) =~= seg.take(t + 1));
        let s_next = seg.skip(t + 1) + rest;
        assert(s.subrange(1, s.len() as int) =~= s_next.subrange(0, s_next.len() as int));
        lemma_sanitize_shift(s, 1, s_next, 0, seg.take(t + 1), segs.take(k));
        lemma_sanitize_flat(segs, k, t + 1);
        assert(sanitize_rec(s_next, 0, seg.take(t + 1), segs.take(k)) == Some(segs));
        assert(sanitize_rec(s, 0, seg.take(t), segs.take(k)) == Some(segs));
    } else {
        assert(seg.skip(t) =~= Seq::<char>::empty());
        assert(s =~= rest);
        assert(seg.take(t) =~= seg);
        if k == segs.len() - 1 {
            assert(rest =~= Seq::<char>::empty());
            assert(sanitize_rec(s, 0, seg, segs.take(k)) == close_seg(seg, segs.take(k)));
            assert(seg.len() > 0 && seg != seq!['.'] && seg != seq!['.', '.']);
            assert(close_seg(seg, segs.take(k)) == Some(segs.take(k).push(seg)));
            assert(segs.take(k).push(seg) =~= segs);
            assert(sanitize_rec(s, 0, seg.take(t), segs.take(k)) == Some(segs));
        } else {
            assert(rest == seq!['/'] + segs[k + 1] + flat_from(segs, k + 2));
            assert(s[0] == '/');
            assert(is_sep_char(s[0]));
            assert(seg.len() > 0 && seg != seq!['.'] && seg != seq!['.', '.']);
            assert(close_seg(seg, segs.take(k)) == Some(segs.take(k).push(seg)));
            assert(segs.take(k).push(seg) =~= segs.take(k + 1));
            assert(sanitize_rec(s, 0, seg, segs.take(k)) == sanitize_rec(
                s,
                1,
                Seq::empty(),
                segs.take(k + 1),
            ));
            let s_next = segs[k + 1].skip(0) + flat_from(segs, k + 2);
            assert(s.subrange(1, s.len() as int) =~= s_next.subrange(0, s_next.len() as int)) by {
                assert(segs[k + 1].skip(0) =~= segs[k + 1]);
                assert(s =~= seq!['/'] + s_next);
                assert forall|u: int|
                    0 <= u < s.len() - 1 implies s.subrange(1, s.len() as int)[u] == s_next[u] by {
                    assert(s[u + 1] == (seq!['/'] + s_next)[u + 1]);
                }
            }
            lemma_sanitize_shift(s, 1, s_next, 0, Seq::empty(), segs.take(k + 1));
            lemma_sanitize_flat(segs, k + 1, 0);
            assert(segs[k + 1].take(0) =~= Seq::<char>::empty());
            assert(sanitize_rec(s_next, 0, Seq::empty(), segs.take(k + 1)) == Some(segs));
            assert(sanitize_rec(s, 0, seg.take(t), segs.take(k)) == Some(segs));
        }
    }
}

/// Normalization is idempotent: a path already in the canonical joined form
/// splits back into exactly its own segments, so re-validating a normalized
/// target path always succeeds and changes nothing.
pub proof fn lemma_join_then_sanitize(segs: Seq<Seq<char>>)
    requires
        segs.len() > 0,
        forall|j: int| 0 <= j < segs.len() ==> safe_segment(#[trigger] segs[j]),
    ensures
        sanitize_path_spec(join_segs(segs)) == Some(segs),
{
    lemma_join_rec_flat(segs, 0, Seq::empty());
    assert(join_segs(segs) =~= flat_from(segs, 0));
    assert(flat_from(segs, 0) == segs[0] + flat_from(segs, 1));
    assert(segs[0].skip(0) =~= segs[0]);
    assert(segs[0].skip(0) + flat_from(segs, 1) =~= join_segs(segs));
    assert(segs[0].take(0) =~= Seq::<char>::empty());
    assert(segs.take(0) =~= Seq::<Seq<char>>::empty());
    lemma_sanitize_flat(segs, 0, 0);
    assert(sanitize_rec(join_segs(segs), 0, Seq::empty(), Seq::empty()) == Some(segs));
}

/// Joins segments with `/` into one owned path.
pub fn join_path_segs(segs: &Vec<String>) -> (r: String)
    ensures
        r@ == join_segs(segs.deep_view()),
{
    let mut out = String::new();
    let mut i: usize = 0;
    proof {
        assert(out@ =~= Seq::<char>::empty());
    }
    while i < segs.len()
        invariant
            i <= segs.len(),
            join_segs(segs.deep_view()) == join_rec(segs.deep_view(), i as int, out@),
        decreases segs.len() - i,
    {
        if i > 0 {
            out.append("/");
            proof {
                reveal_strlit("/");
                assert("/"@ =~= seq!['/']);
            }
        }
        out.append(segs[i].as_str());
        i = i + 1;
    }
    out
}

} // verus!
