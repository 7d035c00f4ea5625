//! The manifest loader's parsing and validation logic.
//!
//! Canonical manifest shape (one shape, applied strictly): a JSON object
//! whose `addons` member maps each add-on name to an object with string
//! members `link`, `description` and `target_path`.  Unknown members are
//! skipped wherever they appear; a missing or duplicated required member, a
//! duplicated add-on name, or trailing text after the document rejects the
//! whole load — a broken manifest must not produce a partially-functional
//! add-on list.  Validation then requires a safe add-on name and a non-empty
//! link, and normalizes `target_path` (trimming it, canonicalizing its
//! separators to `/` and rejecting `..` segments).
//!
//! Fetching the manifest over the network is the process layer's job; this
//! module turns the fetched text into descriptors.

use vstd::prelude::*;

use crate::addon::Addon;
use crate::json::{parse_string, skip_value, skip_ws, sp_skip_value, sp_string, ws_end};
use crate::paths::{
    is_safe_segment_str, join_path_segs, join_segs, lemma_sanitize_segments_safe, safe_segment,
    sanitize_path_spec, sanitize_rel_path,
};
use crate::strutil::{iends_with_seq, str_chars_len, str_eq_str, str_iends_with, trim_spec, trim_str};

verus! {

/// Why a manifest load failed.
#[derive(Clone, Copy, Debug, PartialEq, Eq, Structural)]
pub enum ManifestError {
    /// The manifest could not be fetched at the transport level.
    NetworkError,
    /// The manifest endpoint answered with a non-success status.
    HttpError {
        /// The HTTP status code received.
        status: u16,
    },
    /// The manifest text is not a well-formed manifest document.
    ParseError,
    /// The manifest parsed but an entry violates a validity rule.
    ValidationError,
}

/// One raw manifest entry, as the document states it, before validation.
pub struct RawEntry {
    /// The add-on name (the member key).
    pub name: Seq<char>,
    /// The `link` member.
    pub link: Seq<char>,
    /// The `description` member.
    pub description: Seq<char>,
    /// The `target_path` member, not yet normalized.
    pub target_path: Seq<char>,
}

/// The string members of one add-on object collected so far.
pub struct RawFields {
    /// The `link` member, once seen.
    pub link: Option<Seq<char>>,
    /// The `description` member, once seen.
    pub description: Option<Seq<char>>,
    /// The `target_path` member, once seen.
    pub target_path: Option<Seq<char>>,
}

/// Rest of one add-on's object from just after its `{`.
pub open spec fn sp_addon_body(s: Seq<char>, i: int) -> Option<(RawFields, int)>
    decreases s.len() - i, 1int,
{
    if i < 0 || i > s.len() {
        None
    } else {
        let j = ws_end(s, i);
        if j >= s.len() {
            None
        } else if s[j] == '}' {
            Some((RawFields { link: None, description: None, target_path: None }, j + 1))
        } else {
            sp_addon_members(s, j, RawFields { link: None, description: None, target_path: None })
        }
    }
}

/// Members of one add-on's object from a key, accumulating the known string
/// members; a known member that repeats, or whose value is not a string,
/// rejects the document.
pub open spec fn sp_addon_members(s: Seq<char>, i: int, cur: RawFields) -> Option<(RawFields, int)>
    decreases s.len() - i, 0int,
{
    match sp_string(s, i) {
        None => None,
        Some(kv) => {
            let key = kv.0;
            let j = kv.1;
            if j <= i || j > s.len() {
                None
            } else {
                let k = ws_end(s, j);
                if k >= s.len() || s[k] != ':' {
                    None
                } else {
                    let m = ws_end(s, k + 1);
                    let step: Option<(RawFields, int)> = if key == "link"@ {
                        if cur.link is Some {
                            None
                        } else {
                            match sp_string(s, m) {
                                None => None,
                                Some(vv) => Some(
                                    (
                                        RawFields {
                                            link: Some(vv.0),
                                            description: cur.description,
                                            target_path: cur.target_path,
                                        },
                                        vv.1,
                                    ),
                                ),
                            }
                        }
                    } else if key == "description"@ {
                        if cur.description is Some {
                            None
                        } else {
                            match sp_string(s, m) {
                                None => None,
                                Some(vv) => Some(
                                    (
                                        RawFields {
                                            link: cur.link,
                                            description: Some(vv.0),
                                            target_path: cur.target_path,
                                        },
                                        vv.1,
                                    ),
                                ),
                            }
                        }
                    } else if key == "target_path"@ {
                        if cur.target_path is Some {
                            None
                        } else {
                            match sp_string(s, m) {
                                None => None,
                                Some(vv) => Some(
                                    (
                                        RawFields {
                                            link: cur.link,
                                            description: cur.description,
                                            target_path: Some(vv.0),
                                        },
                                        vv.1,
                                    ),
                                ),
                            }
                        }
                    } else {
                        match sp_skip_value(s, m) {
                            None => None,
                            Some(p) => Some((cur, p)),
                        }
                    };
                    match step {
                        None => None,
                        Some(sv) => {
                            let cur2 = sv.0;
                            let p = sv.1;
                            if p <= m || p > s.len() {
                                None
                            } else {
                                let q = ws_end(s, p);
                                if q >= s.len() {
                                    None
                                } else if s[q] == ',' {
                                    sp_addon_members(s, ws_end(s, q + 1), cur2)
                                } else if s[q] == '}' {
                                    Some((cur2, q + 1))
                                } else {
                                    None
                                }
                            }
                        },
                    }
                }
            }
        },
    }
}

/// Is `name` already among the collected entries?  A manifest listing the
/// same add-on twice is rejected, which keeps names unique.
pub open spec fn names_contain(acc: Seq<RawEntry>, name: Seq<char>) -> bool {
    exists|t: int| 0 <= t < acc.len() && (#[trigger] acc[t]).name == name
}

/// Members of the `addons` object from a key: each add-on name maps to an
/// object that must carry all three required members.
pub open spec fn sp_addons_members(s: Seq<char>, i: int, acc: Seq<RawEntry>) -> Option<
    (Seq<RawEntry>, int),
>
    decreases s.len() - i, 0int,
{
    match sp_string(s, i) {
        None => None,
        Some(kv) => {
            let name = kv.0;
            let j = kv.1;
            if j <= i || j > s.len() {
                None
            } else if names_contain(acc, name) {
                None
            } else {
                let k = ws_end(s, j);
                if k >= s.len() || s[k] != ':' {
                    None
                } else {
                    let m = ws_end(s, k + 1);
                    if m >= s.len() || s[m] != '{' {
                        None
                    } else {
                        match sp_addon_body(s, m + 1) {
                            None => None,
                            Some(bv) => {
                                let fields = bv.0;
                                let p = bv.1;
                                if p <= m || p > s.len() {
                                    None
                                } else if fields.link is None || fields.description is None
                                    || fields.target_path is None {
                                    None
                                } else {
                                    let acc2 = acc.push(
                                        RawEntry {
                                            name,
                                            link: fields.link->Some_0,
                                            description: fields.description->Some_0,
                                            target_path: fields.target_path->Some_0,
                                        },
                                    );
                                    let q = ws_end(s, p);
                                    if q >= s.len() {
                                        None
                                    } else if s[q] == ',' {
                                        sp_addons_members(s, ws_end(s, q + 1), acc2)
                                    } else if s[q] == '}' {
                                        Some((acc2, q + 1))
                                    } else {
                                        None
                                    }
                                }
                            },
                        }
                    }
                }
            }
        },
    }
}

/// Rest of the `addons` object from just after its `{`.
pub open spec fn sp_addons_body(s: Seq<char>, i: int) -> Option<(Seq<RawEntry>, int)>
    decreases s.len() - i, 1int,
{
    if i < 0 || i > s.len() {
        None
    } else {
        let j = ws_end(s, i);
        if j >= s.len() {
            None
        } else if s[j] == '}' {
            Some((Seq::empty(), j + 1))
        } else {
            sp_addons_members(s, j, Seq::empty())
        }
    }
}

/// Members of the top-level object from a key; exactly one `addons` member
/// must appear, and its value must be an object.
pub open spec fn sp_top_members(s: Seq<char>, i: int, found: Option<Seq<RawEntry>>) -> Option<
    (Seq<RawEntry>, int),
>
    decreases s.len() - i,
{
    match sp_string(s, i) {
        None => None,
        Some(kv) => {
            let key = kv.0;
            let j = kv.1;
            if j <= i || j > s.len() {
                None
            } else {
                let k = ws_end(s, j);
                if k >= s.len() || s[k] != ':' {
                    None
                } else {
                    let m = ws_end(s, k + 1);
                    let step: Option<(Option<Seq<RawEntry>>, int)> = if key == "addons"@ {
                        if found is Some {
                            None
                        } else if m >= s.len() || s[m] != '{' {
                            None
                        } else {
                            match sp_addons_body(s, m + 1) {
                                None => None,
                                Some(av) => Some((Some(av.0), av.1)),
                            }
                        }
                    } else {
                        match sp_skip_value(s, m) {
                            None => None,
                            Some(p) => Some((found, p)),
                        }
                    };
                    match step {
                        None => None,
                        Some(sv) => {
                            let found2 = sv.0;
                            let p = sv.1;
                            if p <= m || p > s.len() {
                                None
                            } else {
                                let q = ws_end(s, p);
                                if q >= s.len() {
                                    None
                                } else if s[q] == ',' {
                                    sp_top_members(s, ws_end(s, q + 1), found2)
                                } else if s[q] == '}' {
                                    match found2 {
                                        Some(e) => Some((e, q + 1)),
                                        None => None,
                                    }
                                } else {
                                    None
                                }
                            }
                        },
                    }
                }
            }
        },
    }
}

/// The raw entries the manifest document lists, or `None` when the document
/// is rejected.
pub open spec fn sp_manifest(s: Seq<char>) -> Option<Seq<RawEntry>> {
    let i = ws_end(s, 0);
    if i >= s.len() || s[i] != '{' {
        None
    } else {
        let j = ws_end(s, i + 1);
        if j >= s.len() || s[j] == '}' {
            None
        } else {
            match sp_top_members(s, j, None) {
                None => None,
                Some(ev) => {
                    let end = ws_end(s, ev.1);
                    if end == s.len() {
                        Some(ev.0)
                    } else {
                        None
                    }
                },
            }
        }
    }
}

/// No two entries share a name.
pub open spec fn entry_names_unique(es: Seq<RawEntry>) -> bool {
    forall|a: int, b: int|
        0 <= a < b < es.len() ==> (#[trigger] es[a]).name != (#[trigger] es[b]).name
}

proof fn lemma_addons_members_unique(s: Seq<char>, i: int, acc: Seq<RawEntry>)
    requires
        entry_names_unique(acc),
    ensures
        sp_addons_members(s, i, acc) matches Some(p) ==> entry_names_unique(p.0),
    decreases s.len() - i, 0int,
{
    match sp_string(s, i) {
        None => {},
        Some(kv) => {
            let name = kv.0;
            let j = kv.1;
            if j <= i || j > s.len() || names_contain(acc, name) {
            } else {
                let k = ws_end(s, j);
                if k >= s.len() || s[k] != ':' {
                } else {
                    let m = ws_end(s, k + 1);
                    if m >= s.len() || s[m] != '{' {
                    } else {
                        match sp_addon_body(s, m + 1) {
                            None => {},
                            Some(bv) => {
                                let fields = bv.0;
                                let p = bv.1;
                                if p <= m || p > s.len() || fields.link is None
                                    || fields.description is None || fields.target_path is None {
                                } else {
                                    let acc2 = acc.push(
                                        RawEntry {
                                            name,
                                            link: fields.link->Some_0,
                                            description: fields.description->Some_0,
                                            target_path: fields.target_path->Some_0,
                                        },
                                    );
                                    assert(entry_names_unique(acc2)) by {
                                        assert forall|a: int, b: int|
                                            0 <= a < b < acc2.len() implies (
                                        #[trigger] acc2[a]).name != (#[trigger] acc2[b]).name by {
                                            if b < acc.len() {
                                            } else {
                                                assert(acc2[a] == acc[a]);
                                                assert(!names_contain(acc, name));
                                            }
                                        }
                                    }
                                    let q = ws_end(s, p);
                                    if q < s.len() && s[q] == ',' {
                                        lemma_addons_members_unique(s, ws_end(s, q + 1), acc2);
                                    }
                                }
                            },
                        }
                    }
                }
            }
        },
    }
}

proof fn lemma_addons_body_unique(s: Seq<char>, i: int)
    ensures
        sp_addons_body(s, i) matches Some(p) ==> entry_names_unique(p.0),
{
    if 0 <= i <= s.len() {
        let j = ws_end(s, i);
        if j < s.len() && s[j] != '}' {
            lemma_addons_members_unique(s, j, Seq::empty());
        }
    }
}

proof fn lemma_top_members_unique(s: Seq<char>, i: int, found: Option<Seq<RawEntry>>)
    requires
        found matches Some(e) ==> entry_names_unique(e),
    ensures
        sp_top_members(s, i, found) matches Some(p) ==> entry_names_unique(p.0),
    decreases s.len() - i,
{
    match sp_string(s, i) {
        None => {},
        Some(kv) => {
            let key = kv.0;
            let j = kv.1;
            if j <= i || j > s.len() {
            } else {
                let k = ws_end(s, j);
                if k >= s.len() || s[k] != ':' {
                } else {
                    let m = ws_end(s, k + 1);
                    if key == "addons"@ {
                        if found is None && m < s.len() && s[m] == '{' {
                            lemma_addons_body_unique(s, m + 1);
                            match sp_addons_body(s, m + 1) {
                                None => {},
                                Some(av) => {
                                    let p = av.1;
                                    if m < p <= s.len() {
                                        let q = ws_end(s, p);
                                        if q < s.len() && s[q] == ',' {
                                            lemma_top_members_unique(
                                                s,
                                                ws_end(s, q + 1),
                                                Some(av.0),
                                            );
                                        }
                                    }
                                },
                            }
                        }
                    } else {
                        match sp_skip_value(s, m) {
                            None => {},
                            Some(p) => {
                                if m < p <= s.len() {
                                    let q = ws_end(s, p);
                                    if q < s.len() && s[q] == ',' {
                                        lemma_top_members_unique(s, ws_end(s, q + 1), found);
                                    }
                                }
                            },
                        }
                    }
                }
            }
        },
    }
}

/// The name is a unique key: a manifest the loader accepts never lists the
/// same add-on name twice.
pub proof fn lemma_manifest_names_unique(s: Seq<char>)
    ensures
        sp_manifest(s) matches Some(es) ==> entry_names_unique(es),
{
    let i = ws_end(s, 0);
    if i < s.len() && s[i] == '{' {
        let j = ws_end(s, i + 1);
        if j < s.len() && s[j] != '}' {
            lemma_top_members_unique(s, j, None);
        }
    }
}

/// One validated, normalized descriptor, field by field.
pub struct AddonFields {
    /// The add-on name.
    pub name: Seq<char>,
    /// The content URL.
    pub link: Seq<char>,
    /// The description text.
    pub description: Seq<char>,
    /// The normalized target path.
    pub target_path: Seq<char>,
    /// Whether the link names an archive.
    pub is_zip: bool,
}

/// Validation and normalization of one raw entry: the name must be a safe
/// path segment, the link non-empty; the target path is trimmed, split into
/// sanitized segments (rejecting `..` and friends) and joined back with `/`;
/// the archive kind is derived from the link's extension.
pub open spec fn validate_entry_spec(e: RawEntry) -> Option<AddonFields> {
    if !safe_segment(e.name) {
        None
    } else if e.link.len() == 0 {
        None
    } else {
        match sanitize_path_spec(trim_spec(e.target_path)) {
            None => None,
            Some(segs) => Some(
                AddonFields {
                    name: e.name,
                    link: e.link,
                    description: e.description,
                    target_path: join_segs(segs),
                    is_zip: iends_with_seq(e.link, ".zip"@),
                },
            ),
        }
    }
}

/// All entries validated, in manifest order; the first invalid entry rejects
/// the whole load.
pub open spec fn validate_all_spec(es: Seq<RawEntry>) -> Option<Seq<AddonFields>>
    decreases es.len(),
{
    if es.len() == 0 {
        Some(Seq::empty())
    } else {
        match validate_all_spec(es.drop_last()) {
            None => None,
            Some(rest) => match validate_entry_spec(es.last()) {
                None => None,
                Some(f) => Some(rest.push(f)),
            },
        }
    }
}

/// `a` carries exactly the validated fields `f`.
pub open spec fn addon_matches_fields(a: Addon, f: AddonFields) -> bool {
    &&& a.name@ == f.name
    &&& a.link@ == f.link
    &&& a.description@ == f.description
    &&& a.target_path@ == f.target_path
    &&& a.is_zip == f.is_zip
}

struct RawFieldsE {
    link: Option<String>,
    description: Option<String>,
    target_path: Option<String>,
}

spec fn opt_view(o: Option<String>) -> Option<Seq<char>> {
    match o {
        Some(s) => Some(s@),
        None => None,
    }
}

spec fn rfv(r: RawFieldsE) -> RawFields {
    RawFields {
        link: opt_view(r.link),
        description: opt_view(r.description),
        target_path: opt_view(r.target_path),
    }
}

struct RawEntryE {
    name: String,
    link: String,
    description: String,
    target_path: String,
}

spec fn rev_entry(e: RawEntryE) -> RawEntry {
    RawEntry {
        name: e.name@,
        link: e.link@,
        description: e.description@,
        target_path: e.target_path@,
    }
}

spec fn revs(v: Seq<RawEntryE>) -> Seq<RawEntry> {
    v.map(|i: int, e: RawEntryE| rev_entry(e))
}

spec fn fv(found: Option<Vec<RawEntryE>>) -> Option<Seq<RawEntry>> {
    match found {
        Some(v) => Some(revs(v@)),
        None => None,
    }
}

fn parse_addon_body(s: &str, n: usize, i: usize) -> (r: Option<(RawFieldsE, usize)>)
    requires
        n == s@.len(),
        i <= n,
    ensures
        r is Some <==> sp_addon_body(s@, i as int) is Some,
        r matches Some(p) ==> sp_addon_body(s@, i as int) == Some((rfv(p.0), p.1 as int)) && i
            < p.1 <= n,
    decreases n - i, 1int,
{
    let j = skip_ws(s, n, i);
    if j >= n {
        return None;
    }
    if s.get_char(j) == '}' {
        let f = RawFieldsE { link: None, description: None, target_path: None };
        return Some((f, j + 1));
    }
    parse_addon_members(s, n, j, RawFieldsE { link: None, description: None, target_path: None })
}

fn parse_addon_members(s: &str, n: usize, i: usize, cur: RawFieldsE) -> (r: Option<
    (RawFieldsE, usize),
>)
    requires
        n == s@.len(),
        i <= n,
    ensures
        r is Some <==> sp_addon_members(s@, i as int, rfv(cur)) is Some,
        r matches Some(p) ==> sp_addon_members(s@, i as int, rfv(cur)) == Some(
            (rfv(p.0), p.1 as int),
        ) && i < p.1 <= n,
    decreases n - i, 0int,
{
    let ghost curv = rfv(cur);
    match parse_string(s, n, i) {
        None => None,
        Some(kv) => {
            let (key, j) = kv;
            let k = skip_ws(s, n, j);
            if k >= n || s.get_char(k) != ':' {
                return None;
            }
            let m = skip_ws(s, n, k + 1);
            let step: Option<(RawFieldsE, usize)> = if str_eq_str(key.as_str(), "link") {
                if cur.link.is_some() {
                    None
                } else {
                    match parse_string(s, n, m) {
                        None => None,
                        Some(vv) => Some(
                            (
                                RawFieldsE {
                                    link: Some(vv.0),
                                    description: cur.description,
                                    target_path: cur.target_path,
                                },
                                vv.1,
                            ),
                        ),
                    }
                }
            } else if str_eq_str(key.as_str(), "description") {
                if cur.description.is_some() {
                    None
                } else {
                    match parse_string(s, n, m) {
                        None => None,
                        Some(vv) => Some(
                            (
                                RawFieldsE {
                                    link: cur.link,
                                    description: Some(vv.0),
                                    target_path: cur.target_path,
                                },
                                vv.1,
                            ),
                        ),
                    }
                }
            } else if str_eq_str(key.as_str(), "target_path") {
                if cur.target_path.is_some() {
                    None
                } else {
                    match parse_string(s, n, m) {
                        None => None,
                        Some(vv) => Some(
                            (
                                RawFieldsE {
                                    link: cur.link,
                                    description: cur.description,
                                    target_path: Some(vv.0),
                                },
                                vv.1,
                            ),
                        ),
                    }
                }
            } else {
                match skip_value(s, n, m) {
                    None => None,
                    Some(p) => Some((cur, p)),
                }
            };
            match step {
                None => None,
                Some(sv) => {
                    let (cur2, p) = sv;
                    let q = skip_ws(s, n, p);
                    if q >= n {
                        return None;
                    }
                    if s.get_char(q) == ',' {
                        let next = skip_ws(s, n, q + 1);
                        parse_addon_members(s, n, next, cur2)
                    } else if s.get_char(q) == '}' {
                        Some((cur2, q + 1))
                    } else {
                        None
                    }
                },
            }
        },
    }
}

fn contains_name(acc: &Vec<RawEntryE>, name: &str) -> (r: bool)
    ensures
        r == names_contain(revs(acc@), name@),
{
    let mut i: usize = 0;
    while i < acc.len()
        invariant
            i <= acc.len(),
            forall|t: int| 0 <= t < i ==> (#[trigger] revs(acc@)[t]).name != name@,
        decreases acc.len() - i,
    {
        if str_eq_str(acc[i].name.as_str(), name) {
            assert(revs(acc@)[i as int].name == name@);
            return true;
        }
        i = i + 1;
    }
    false
}

fn parse_addons_members(s: &str, n: usize, i: usize, acc: Vec<RawEntryE>) -> (r: Option<
    (Vec<RawEntryE>, usize),
>)
    requires
        n == s@.len(),
        i <= n,
    ensures
        r is Some <==> sp_addons_members(s@, i as int, revs(acc@)) is Some,
        r matches Some(p) ==> sp_addons_members(s@, i as int, revs(acc@)) == Some(
            (revs(p.0@), p.1 as int),
        ) && i < p.1 <= n,
    decreases n - i, 0int,
{
    let ghost acc0 = revs(acc@);
    match parse_string(s, n, i) {
        None => None,
        Some(kv) => {
            let (name, j) = kv;
            if contains_name(&acc, name.as_str()) {
                return None;
            }
            let k = skip_ws(s, n, j);
            if k >= n || s.get_char(k) != ':' {
                return None;
            }
            let m = skip_ws(s, n, k + 1);
            if m >= n || s.get_char(m) != '{' {
                return None;
            }
            match parse_addon_body(s, n, m + 1) {
                None => None,
                Some(bv) => {
                    let (fields, p) = bv;
                    match (fields.link, fields.description, fields.target_path) {
                        (Some(link), Some(description), Some(target_path)) => {
                            let ghost namev = name@;
                            let mut acc2 = acc;
                            acc2.push(RawEntryE { name, link, description, target_path });
                            proof {
                                assert(revs(acc2@) =~= acc0.push(rev_entry(acc2@.last())));
                            }
                            let q = skip_ws(s, n, p);
                            if q >= n {
                                return None;
                            }
                            if s.get_char(q) == ',' {
                                let next = skip_ws(s, n, q + 1);
                                parse_addons_members(s, n, next, acc2)
                            } else if s.get_char(q) == '}' {
                                Some((acc2, q + 1))
                            } else {
                                None
                            }
                        },
                        _ => None,
                    }
                },
            }
        },
    }
}

fn parse_addons_body(s: &str, n: usize, i: usize) -> (r: Option<(Vec<RawEntryE>, usize)>)
    requires
        n == s@.len(),
        i <= n,
    ensures
        r is Some <==> sp_addons_body(s@, i as int) is Some,
        r matches Some(p) ==> sp_addons_body(s@, i as int) == Some((revs(p.0@), p.1 as int)) && i
            < p.1 <= n,
    decreases n - i, 1int,
{
    let j = skip_ws(s, n, i);
    if j >= n {
        return None;
    }
    if s.get_char(j) == '}' {
        let v: Vec<RawEntryE> = Vec::new();
        proof {
            assert(revs(v@) =~= Seq::<RawEntry>::empty());
        }
        return Some((v, j + 1));
    }
    let v: Vec<RawEntryE> = Vec::new();
    proof {
        assert(revs(v@) =~= Seq::<RawEntry>::empty());
    }
    parse_addons_members(s, n, j, v)
}

fn parse_top_members(s: &str, n: usize, i: usize, found: Option<Vec<RawEntryE>>) -> (r: Option<
    (Vec<RawEntryE>, usize),
>)
    requires
        n == s@.len(),
        i <= n,
    ensures
        r is Some <==> sp_top_members(s@, i as int, fv(found)) is Some,
        r matches Some(p) ==> sp_top_members(s@, i as int, fv(found)) == Some(
            (revs(p.0@), p.1 as int),
        ) && i < p.1 <= n,
    decreases n - i,
{
    let ghost f0 = fv(found);
    match parse_string(s, n, i) {
        None => None,
        Some(kv) => {
            let (key, j) = kv;
            let k = skip_ws(s, n, j);
            if k >= n || s.get_char(k) != ':' {
                return None;
            }
            let m = skip_ws(s, n, k + 1);
            let step: Option<(Option<Vec<RawEntryE>>, usize)> = if str_eq_str(
                key.as_str(),
                "addons",
            ) {
                if found.is_some() {
                    None
                } else if m >= n {
                    None
                } else if s.get_char(m) != '{' {
                    None
                } else {
                    match parse_addons_body(s, n, m + 1) {
                        None => None,
                        Some(av) => Some((Some(av.0), av.1)),
                    }
                }
            } else {
                match skip_value(s, n, m) {
                    None => None,
                    Some(p) => Some((found, p)),
                }
            };
            match step {
                None => None,
                Some(sv) => {
                    let (found2, p) = sv;
                    let q = skip_ws(s, n, p);
                    if q >= n {
                        return None;
                    }
                    if s.get_char(q) == ',' {
                        let next = skip_ws(s, n, q + 1);
                        parse_top_members(s, n, next, found2)
                    } else if s.get_char(q) == '}' {
                        match found2 {
                            Some(e) => Some((e, q + 1)),
                            None => None,
                        }
                    } else {
                        None
                    }
                },
            }
        },
    }
}

fn validate_entry(e: &RawEntryE) -> (r: Option<Addon>)
    ensures
        r is Some <==> validate_entry_spec(rev_entry(*e)) is Some,
        r matches Some(a) ==> addon_matches_fields(a, validate_entry_spec(rev_entry(*e))->Some_0)
            && a.wf(),
{
    if !is_safe_segment_str(e.name.as_str()) {
        return None;
    }
    if e.link.as_str().is_empty() {
        return None;
    }
    let trimmed = trim_str(e.target_path.as_str());
    match sanitize_rel_path(trimmed) {
        None => None,
        Some(segs) => {
            let joined = join_path_segs(&segs);
            let is_zip = str_iends_with(e.link.as_str(), ".zip");
            let a = Addon {
                name: e.name.clone(),
                link: e.link.clone(),
                description: e.description.clone(),
                target_path: joined,
                is_zip,
            };
            proof {
                lemma_sanitize_segments_safe(trim_spec(e.target_path@));
                let w = segs.deep_view();
                assert(a.target_path@ == join_segs(w) && w.len() > 0 && (forall|t: int|
                    0 <= t < w.len() ==> safe_segment(#[trigger] w[t])));
            }
            Some(a)
        },
    }
}

/// A list of entries validates exactly when each one does, and the result
/// pairs entries with their validated fields position by position.
proof fn lemma_validate_all(es: Seq<RawEntry>)
    ensures
        validate_all_spec(es) is Some <==> (forall|t: int|
            0 <= t < es.len() ==> validate_entry_spec(#[trigger] es[t]) is Some),
        validate_all_spec(es) matches Some(fs) ==> fs.len() == es.len() && (forall|t: int|
            0 <= t < es.len() ==> fs[t] == validate_entry_spec(#[trigger] es[t])->Some_0),
    decreases es.len(),
{
    if es.len() > 0 {
        lemma_validate_all(es.drop_last());
        if forall|t: int| 0 <= t < es.len() ==> validate_entry_spec(#[trigger] es[t]) is Some {
            assert(forall|t: int|
                0 <= t < es.drop_last().len() ==> validate_entry_spec(
                    #[trigger] es.drop_last()[t],
                ) is Some);
        }
        if validate_all_spec(es) is Some {
            assert forall|t: int|
                0 <= t < es.len() implies validate_entry_spec(#[trigger] es[t]) is Some by {
                if t < es.len() - 1 {
                    assert(es.drop_last()[t] == es[t]);
                }
            }
            let fs = validate_all_spec(es)->Some_0;
            assert forall|t: int|
                0 <= t < es.len() implies fs[t] == validate_entry_spec(#[trigger] es[t])->Some_0 by {
                if t < es.len() - 1 {
                    assert(es.drop_last()[t] == es[t]);
                }
            }
        }
    }
}

fn validate_entries(entries: &Vec<RawEntryE>) -> (r: Option<Vec<Addon>>)
    ensures
        r is Some <==> validate_all_spec(revs(entries@)) is Some,
        r matches Some(v) ==> ({
            let fs = validate_all_spec(revs(entries@))->Some_0;
            &&& v@.len() == fs.len()
            &&& forall|t: int|
                0 <= t < fs.len() ==> addon_matches_fields(#[trigger] v@[t], fs[t]) && v@[t].wf()
        }),
{
    let ghost allv = revs(entries@);
    let mut out: Vec<Addon> = Vec::new();
    let mut i: usize = 0;
    while i < entries.len()
        invariant
            i <= entries.len(),
            allv == revs(entries@),
            out@.len() == i,
            forall|t: int|
                0 <= t < i ==> validate_entry_spec(#[trigger] allv[t]) is Some
                    && addon_matches_fields(out@[t], validate_entry_spec(allv[t])->Some_0)
                    && out@[t].wf(),
        decreases entries.len() - i,
    {
        match validate_entry(&entries[i]) {
            None => {
                proof {
                    lemma_validate_all(allv);
                    assert(validate_entry_spec(allv[i as int]) is None);
                }
                return None;
            },
            Some(a) => {
                out.push(a);
            },
        }
        i = i + 1;
    }
    proof {
        lemma_validate_all(allv);
        let fs = validate_all_spec(allv)->Some_0;
        assert forall|t: int|
            0 <= t < fs.len() implies addon_matches_fields(#[trigger] out@[t], fs[t])
            && out@[t].wf() by {
            assert(validate_entry_spec(allv[t]) is Some);
            assert(fs[t] == validate_entry_spec(allv[t])->Some_0);
        }
    }
    Some(out)
}

/// Parses and validates the fetched manifest text into the add-on list, in
/// manifest order.  Success is owed exactly to texts that follow the
/// canonical shape and whose entries all validate; otherwise the error says
/// which stage refused the document.
pub fn parse_addons_config(text: &str) -> (r: Result<Vec<Addon>, ManifestError>)
    ensures
        r is Ok <==> (sp_manifest(text@) is Some && validate_all_spec(sp_manifest(text@)->Some_0)
            is Some),
        r matches Ok(v) ==> ({
            let fs = validate_all_spec(sp_manifest(text@)->Some_0)->Some_0;
            &&& v@.len() == fs.len()
            &&& forall|t: int|
                0 <= t < fs.len() ==> addon_matches_fields(#[trigger] v@[t], fs[t]) && v@[t].wf()
        }),
        r matches Err(e) ==> ((e == ManifestError::ParseError <==> sp_manifest(text@) is None) && (
        e == ManifestError::ValidationError <==> sp_manifest(text@) is Some && validate_all_spec(
            sp_manifest(text@)->Some_0,
        ) is None)),
        r matches Ok(v) ==> forall|a: int, b: int|
            0 <= a < b < v@.len() ==> (#[trigger] v@[a]).name@ != (#[trigger] v@[b]).name@,
{
    let n = str_chars_len(text);
    let i = skip_ws(text, n, 0);
    if i >= n {
        return Err(ManifestError::ParseError);
    }
    if text.get_char(i) != '{' {
        return Err(ManifestError::ParseError);
    }
    let j = skip_ws(text, n, i + 1);
    if j >= n {
        return Err(ManifestError::ParseError);
    }
    if text.get_char(j) == '}' {
        return Err(ManifestError::ParseError);
    }
    match parse_top_members(text, n, j, None) {
        None => Err(ManifestError::ParseError),
        Some(ep) => {
            let (entries, p) = ep;
            let end = skip_ws(text, n, p);
            if end != n {
                return Err(ManifestError::ParseError);
            }
            match validate_entries(&entries) {
                None => Err(ManifestError::ValidationError),
                Some(v) => {
                    proof {
                        lemma_manifest_names_unique(text@);
                        let es = sp_manifest(text@)->Some_0;
                        lemma_validate_all(es);
                        let fs = validate_all_spec(es)->Some_0;
                        assert forall|a: int, b: int|
                            0 <= a < b < v@.len() implies (#[trigger] v@[a]).name@ != (
                        #[trigger] v@[b]).name@ by {
                            assert(addon_matches_fields(v@[a], fs[a]));
                            assert(addon_matches_fields(v@[b], fs[b]));
                            assert(validate_entry_spec(es[a]) is Some);
                            assert(validate_entry_spec(es[b]) is Some);
                            assert(fs[a].name == es[a].name);
                            assert(fs[b].name == es[b].name);
                        }
                    }
                    Ok(v)
                },
            }
        },
    }
}

} // verus!
