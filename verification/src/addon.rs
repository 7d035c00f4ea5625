//! The add-on descriptor: identity and placement information for one
//! installable unit, fixed at manifest-load time and immutable afterwards.

use vstd::prelude::*;

use crate::paths::{escapes_root, join_segs, lemma_safe_segments_never_escape, safe_segment};
use crate::strutil::iends_with_seq;

verus! {

/// One installable unit as described by the manifest.
///
/// `name` doubles as the on-disk directory (or file) name under
/// `target_path`, so it must be a safe path segment.  `is_zip` records
/// whether `link` points at an archive (install unpacks it) or at a single
/// file (install copies it as-is).
#[derive(Clone, Debug, PartialEq, Eq)]
pub struct Addon {
    /// Unique key, stable across reinstalls; also the install directory name.
    pub name: String,
    /// Where the content is fetched from.
    pub link: String,
    /// Human-readable text with no semantic role.
    pub description: String,
    /// Directory under the game root in which the add-on lives,
    /// in canonical `/`-separated form.
    pub target_path: String,
    /// Derived from the URL extension: archive when the link ends in
    /// `.zip` (ASCII-case-insensitively), single file otherwise.
    pub is_zip: bool,
}

impl Addon {
    /// Well-formedness: what every descriptor the manifest loader hands out
    /// satisfies.
    pub open spec fn wf(&self) -> bool {
        &&& safe_segment(self.name@)
        &&& self.link@.len() > 0
        &&& self.is_zip == iends_with_seq(self.link@, ".zip"@)
        &&& exists|segs: Seq<Seq<char>>|
            self.target_path@ == #[trigger] join_segs(segs) && segs.len() > 0 && (forall|i: int|
                0 <= i < segs.len() ==> safe_segment(#[trigger] segs[i]))
    }
}

/// A well-formed descriptor's target path is a join of safe segments, so it
/// always resolves to a directory inside the installation root, never above
/// it.
pub proof fn lemma_wf_target_stays_within(a: &Addon)
    requires
        a.wf(),
    ensures
        exists|segs: Seq<Seq<char>>|
            a.target_path@ == #[trigger] join_segs(segs) && segs.len() > 0 && !escapes_root(segs),
{
    let segs = choose|segs: Seq<Seq<char>>|
        a.target_path@ == #[trigger] join_segs(segs) && segs.len() > 0 && (forall|i: int|
            0 <= i < segs.len() ==> safe_segment(#[trigger] segs[i]));
    lemma_safe_segments_never_escape(segs);
}

} // verus!
