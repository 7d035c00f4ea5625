//! Directory listings as the engine sees them: one entry per immediate
//! child, with its name and whether it is a directory.  The process layer
//! reads a directory and hands the listing in; a missing or unreadable
//! directory becomes an empty listing.

use vstd::prelude::*;

verus! {

/// One immediate child of a directory.
pub struct DirEntry {
    /// The child's file name.
    pub name: String,
    /// Whether the child is a directory.
    pub is_dir: bool,
}

/// The names of the listed entries, in listing order.
pub open spec fn names_of(entries: Seq<DirEntry>) -> Seq<Seq<char>> {
    entries.map(|i: int, e: DirEntry| e.name@)
}

} // verus!
