//! Installed-state detection and uninstall planning.
//!
//! Installed-state is always re-derived from a directory listing, never
//! cached.  The detection deliberately combines an exact check with a loose
//! name heuristic (any sibling whose name merely contains the add-on's name
//! counts), so that archives whose top level was not nested under the
//! add-on's name are still recognized; uninstall mirrors the same heuristic
//! when sweeping up stray siblings.  The two checks are exposed separately so
//! that each can be exercised on its own.

use vstd::prelude::*;

use crate::addon::Addon;
use crate::listing::DirEntry;
use crate::strutil::{
    contains_seq, lemma_starts_with_implies_contains, starts_with_seq, str_contains_str,
    str_eq_str, str_starts_with,
};

verus! {

/// The loose heuristic: `entry` looks like it belongs to the add-on named
/// `name` when it starts with or contains that name.
pub open spec fn entry_matches_spec(entry: Seq<char>, name: Seq<char>) -> bool {
    starts_with_seq(entry, name) || contains_seq(entry, name)
}

/// Some entry of the listing matches the name heuristically.
pub open spec fn installed_in_entries(entries: Seq<Seq<char>>, name: Seq<char>) -> bool {
    exists|i: int| 0 <= i < entries.len() && entry_matches_spec(#[trigger] entries[i], name)
}

/// The exact check: the listing has an entry named precisely `name`.
pub open spec fn exactly_installed_in_entries(entries: Seq<Seq<char>>, name: Seq<char>) -> bool {
    exists|i: int| 0 <= i < entries.len() && #[trigger] entries[i] == name
}

/// The heuristic match for one directory entry.
pub fn entry_matches(entry: &str, name: &str) -> (r: bool)
    ensures
        r == entry_matches_spec(entry@, name@),
{
    if str_starts_with(entry, name) {
        true
    } else {
        str_contains_str(entry, name)
    }
}

/// The exact match for one directory entry.
pub fn entry_is_exactly(entry: &str, name: &str) -> (r: bool)
    ensures
        r == (entry@ == name@),
{
    str_eq_str(entry, name)
}

/// Decides from the listing of the add-on's target directory whether the
/// add-on counts as installed.  A missing or unreadable target directory is
/// passed in as an empty listing and therefore reads as "not installed";
/// detection never fails.
pub fn check_addon_installed(addon: &Addon, entries: &Vec<String>) -> (r: bool)
    ensures
        r == installed_in_entries(entries.deep_view(), addon.name@),
{
    let mut i: usize = 0;
    while i < entries.len()
        invariant
            i <= entries.len(),
            forall|t: int| 0 <= t < i ==> !entry_matches_spec(
                #[trigger] entries.deep_view()[t],
                addon.name@,
            ),
        decreases entries.len() - i,
    {
        if entry_matches(entries[i].as_str(), addon.name.as_str()) {
            assert(entry_matches_spec(entries.deep_view()[i as int], addon.name@));
            return true;
        }
        i = i + 1;
    }
    false
}

/// The exact variant: is `target_path/name` itself present?
pub fn check_addon_installed_exact(addon: &Addon, entries: &Vec<String>) -> (r: bool)
    ensures
        r == exactly_installed_in_entries(entries.deep_view(), addon.name@),
{
    let mut i: usize = 0;
    while i < entries.len()
        invariant
            i <= entries.len(),
            forall|t: int| 0 <= t < i ==> #[trigger] entries.deep_view()[t] != addon.name@,
        decreases entries.len() - i,
    {
        if entry_is_exactly(entries[i].as_str(), addon.name.as_str()) {
            assert(entries.deep_view()[i as int] == addon.name@);
            return true;
        }
        i = i + 1;
    }
    false
}

/// The full installed-state decision, typed: the primary check asks for an
/// entry named exactly `name` of the kind the descriptor implies (a
/// directory for an archive add-on, a file for a single-file one); for
/// archive add-ons alone, the loose heuristic serves as a fallback for
/// archives whose top level was not nested under the name.
pub open spec fn is_installed_spec(entries: Seq<DirEntry>, name: Seq<char>, is_zip: bool) -> bool {
    if is_zip {
        (exists|i: int|
            0 <= i < entries.len() && (#[trigger] entries[i]).name@ == name && entries[i].is_dir)
            || installed_in_entries(crate::listing::names_of(entries), name)
    } else {
        exists|i: int|
            0 <= i < entries.len() && (#[trigger] entries[i]).name@ == name && !entries[i].is_dir
    }
}

/// Decides from the typed listing of the add-on's target directory whether
/// the add-on is installed, per `is_installed_spec`.
pub fn is_installed(addon: &Addon, entries: &Vec<DirEntry>) -> (r: bool)
    ensures
        r == is_installed_spec(entries@, addon.name@, addon.is_zip),
{
    let mut i: usize = 0;
    while i < entries.len()
        invariant
            i <= entries.len(),
            forall|t: int|
                0 <= t < i ==> !((#[trigger] entries@[t]).name@ == addon.name@ && entries@[t].is_dir
                    == addon.is_zip),
        decreases entries.len() - i,
    {
        let e: &DirEntry = &entries[i];
        if e.is_dir == addon.is_zip && entry_is_exactly(e.name.as_str(), addon.name.as_str()) {
            proof {
                assert(entries@[i as int].name@ == addon.name@ && entries@[i as int].is_dir
                    == addon.is_zip);
                if addon.is_zip {
                    assert(exists|t: int|
                        0 <= t < entries@.len() && (#[trigger] entries@[t]).name@ == addon.name@
                            && entries@[t].is_dir);
                } else {
                    assert(exists|t: int|
                        0 <= t < entries@.len() && (#[trigger] entries@[t]).name@ == addon.name@
                            && !entries@[t].is_dir);
                }
            }
            return true;
        }
        i = i + 1;
    }
    if !addon.is_zip {
        return false;
    }
    let mut j: usize = 0;
    while j < entries.len()
        invariant
            addon.is_zip,
            j <= entries.len(),
            forall|t: int|
                0 <= t < j ==> !entry_matches_spec(
                    #[trigger] crate::listing::names_of(entries@)[t],
                    addon.name@,
                ),
        decreases entries.len() - j,
    {
        if entry_matches(entries[j].name.as_str(), addon.name.as_str()) {
            proof {
                assert(crate::listing::names_of(entries@).len() == entries@.len());
                assert(entry_matches_spec(
                    crate::listing::names_of(entries@)[j as int],
                    addon.name@,
                ));
                assert(installed_in_entries(crate::listing::names_of(entries@), addon.name@));
            }
            return true;
        }
        j = j + 1;
    }
    proof {
        assert(crate::listing::names_of(entries@).len() == entries@.len());
    }
    false
}

/// The typed uninstall round trip: once every entry whose name contains the
/// add-on's name is gone, neither the exact check nor the heuristic sees the
/// add-on any more, whatever its kind.
pub proof fn lemma_uninstall_clears_is_installed(
    entries: Seq<DirEntry>,
    name: Seq<char>,
    is_zip: bool,
)
    requires
        forall|i: int| 0 <= i < entries.len() ==> !contains_seq((#[trigger] entries[i]).name@, name),
    ensures
        !is_installed_spec(entries, name, is_zip),
{
    assert forall|i: int|
        0 <= i < entries.len() implies !((#[trigger] entries[i]).name@ == name) by {
        if entries[i].name@ == name {
            assert(starts_with_seq(entries[i].name@, name));
            lemma_starts_with_implies_contains(entries[i].name@, name);
        }
    }
    assert forall|i: int|
        0 <= i < entries.len() implies !entry_matches_spec(
        #[trigger] crate::listing::names_of(entries)[i],
        name,
    ) by {
        assert(crate::listing::names_of(entries)[i] == entries[i].name@);
        if starts_with_seq(entries[i].name@, name) {
            lemma_starts_with_implies_contains(entries[i].name@, name);
        }
    }
}

/// The typed install round trip: placement leaves an entry named after the
/// add-on and of the kind the descriptor implies, and such an entry is seen
/// as installed.
pub proof fn lemma_install_makes_is_installed(
    entries: Seq<DirEntry>,
    name: Seq<char>,
    is_zip: bool,
)
    requires
        exists|i: int|
            0 <= i < entries.len() && (#[trigger] entries[i]).name@ == name && entries[i].is_dir
                == is_zip,
    ensures
        is_installed_spec(entries, name, is_zip),
{
}

/// The entries of `entries` whose name contains `name`, in listing order.
pub open spec fn matching_entries(entries: Seq<Seq<char>>, name: Seq<char>) -> Seq<Seq<char>>
    decreases entries.len(),
{
    if entries.len() == 0 {
        Seq::empty()
    } else {
        let rest = matching_entries(entries.drop_last(), name);
        if contains_seq(entries.last(), name) {
            rest.push(entries.last())
        } else {
            rest
        }
    }
}

/// The entries that uninstall leaves behind: those that do not contain the
/// name.
pub open spec fn remaining_entries(entries: Seq<Seq<char>>, name: Seq<char>) -> Seq<Seq<char>>
    decreases entries.len(),
{
    if entries.len() == 0 {
        Seq::empty()
    } else {
        let rest = remaining_entries(entries.drop_last(), name);
        if contains_seq(entries.last(), name) {
            rest
        } else {
            rest.push(entries.last())
        }
    }
}

/// Plans an uninstall: from the listing of the add-on's target directory,
/// the entries to delete — the main `name` entry and every stray sibling the
/// heuristic attributes to this add-on.
pub fn uninstall_addon(addon: &Addon, entries: &Vec<String>) -> (r: Vec<String>)
    ensures
        r.deep_view() == matching_entries(entries.deep_view(), addon.name@),
{
    let mut out: Vec<String> = Vec::new();
    let mut i: usize = 0;
    proof {
        assert(entries.deep_view().take(0) =~= Seq::<Seq<char>>::empty());
        assert(out.deep_view() =~= matching_entries(entries.deep_view().take(0), addon.name@));
    }
    let ghost all = entries.deep_view();
    while i < entries.len()
        invariant
            i <= entries.len(),
            all == entries.deep_view(),
            out.deep_view() == matching_entries(all.take(i as int), addon.name@),
        decreases entries.len() - i,
    {
        let e: &String = &entries[i];
        proof {
            assert(all.take(i + 1).drop_last() =~= all.take(i as int));
            assert(all.take(i + 1).last() == e@);
        }
        if str_contains_str(e.as_str(), addon.name.as_str()) {
            out.push(e.clone());
            proof {
                assert(out.deep_view() =~= matching_entries(all.take(i as int), addon.name@).push(
                    e@,
                ));
            }
        }
        i = i + 1;
    }
    proof {
        assert(all.take(entries.len() as int) =~= all);
    }
    out
}

/// Combines the two facts uninstall ends with — whether every planned
/// deletion succeeded and whether the inspector still sees the add-on — into
/// the confirmed-absent result.
pub fn uninstall_outcome(all_deletions_succeeded: bool, still_installed: bool) -> (r: bool)
    ensures
        r == (all_deletions_succeeded && !still_installed),
{
    all_deletions_succeeded && !still_installed
}

/// After a completed uninstall the inspector reports "not installed":
/// deleting every entry that contains the name leaves a listing in which
/// nothing matches, exactly or heuristically.
pub proof fn lemma_uninstall_round_trip(entries: Seq<Seq<char>>, name: Seq<char>)
    ensures
        !installed_in_entries(remaining_entries(entries, name), name),
        !exactly_installed_in_entries(remaining_entries(entries, name), name),
{
    lemma_remaining_entries_clean(entries, name);
    let rem = remaining_entries(entries, name);
    assert forall|i: int| 0 <= i < rem.len() implies !entry_matches_spec(
        #[trigger] rem[i],
        name,
    ) && rem[i] != name by {
        assert(!contains_seq(rem[i], name));
        if starts_with_seq(rem[i], name) {
            lemma_starts_with_implies_contains(rem[i], name);
        }
        if rem[i] == name {
            assert(starts_with_seq(rem[i], name));
            lemma_starts_with_implies_contains(rem[i], name);
        }
    }
}

proof fn lemma_remaining_entries_clean(entries: Seq<Seq<char>>, name: Seq<char>)
    ensures
        forall|i: int| 0 <= i < remaining_entries(entries, name).len() ==> !contains_seq(
            #[trigger] remaining_entries(entries, name)[i],
            name,
        ),
    decreases entries.len(),
{
    if entries.len() > 0 {
        lemma_remaining_entries_clean(entries.drop_last(), name);
        let rest = remaining_entries(entries.drop_last(), name);
        let rem = remaining_entries(entries, name);
        assert forall|i: int| 0 <= i < rem.len() implies !contains_seq(#[trigger] rem[i], name) by {
            if i < rest.len() {
                assert(rem[i] == rest[i]);
            } else {
                assert(rem[i] == entries.last());
            }
        }
    }
}

/// After a completed install the inspector reports "installed": placement
/// creates the `name` entry itself, and an entry equal to the name trivially
/// matches.
pub proof fn lemma_install_round_trip(entries: Seq<Seq<char>>, name: Seq<char>)
    requires
        exists|i: int| 0 <= i < entries.len() && #[trigger] entries[i] == name,
    ensures
        installed_in_entries(entries, name),
        exactly_installed_in_entries(entries, name),
{
    let i = choose|i: int| 0 <= i < entries.len() && #[trigger] entries[i] == name;
    assert(starts_with_seq(entries[i], name));
    assert(entry_matches_spec(entries[i], name));
}

} // verus!
