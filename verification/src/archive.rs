//! Archive handling: validating a downloaded archive, resolving entry paths
//! safely, classifying the extracted scratch directory, and planning how its
//! content is placed under the install base.
//!
//! Placement semantics: one `PlaceStep` replaces `install_base/dest_name`
//! wholesale with a copy of the scratch entry `src_name` (a directory's
//! contents, or a file's bytes).  Replacing rather than merging is what makes
//! installation idempotent.

use vstd::prelude::*;

use crate::addon::Addon;
use crate::listing::DirEntry;
use crate::paths::sanitize_path_spec;

verus! {

/// Errors while opening or unpacking an archive.
#[derive(Clone, Copy, Debug, PartialEq, Eq, Structural)]
pub enum ExtractError {
    /// The payload is not a usable archive (wrong signature, empty file,
    /// corrupt structure).
    InvalidArchive,
    /// An entry's path would resolve outside the extraction root.
    PathTraversal,
}

/// Errors while planning content placement.
#[derive(Clone, Copy, Debug, PartialEq, Eq, Structural)]
pub enum PlaceError {
    /// The archive produced no usable content; installing nothing is an
    /// error, never a silent no-op.
    EmptyArchive,
}

/// The four magic bytes every usable archive must start with.
pub open spec fn zip_signature(b: Seq<u8>) -> bool {
    b.len() >= 4 && b[0] == 0x50u8 && b[1] == 0x4bu8 && b[2] == 0x03u8 && b[3] == 0x04u8
}

/// Validates the downloaded file before it is trusted as an archive: it must
/// be non-empty and carry the archive signature in its first four bytes.
pub fn validate_archive_header(file_size: u64, header: &Vec<u8>) -> (r: Result<(), ExtractError>)
    ensures
        r is Ok <==> file_size > 0 && zip_signature(header@),
        r is Err ==> r == Result::<(), ExtractError>::Err(ExtractError::InvalidArchive),
{
    if file_size == 0 {
        return Err(ExtractError::InvalidArchive);
    }
    if header.len() < 4 {
        return Err(ExtractError::InvalidArchive);
    }
    if header[0] == 0x50u8 && header[1] == 0x4bu8 && header[2] == 0x03u8 && header[3] == 0x04u8 {
        Ok(())
    } else {
        Err(ExtractError::InvalidArchive)
    }
}

/// Resolves an archive entry's internal name to the segments it may be
/// written under inside the extraction root.  Any entry that does not
/// sanitize to a usable relative path — a `..` segment, an absolute or
/// drive-qualified path, or no usable segment at all — is rejected and
/// nothing may be written for it.
pub fn resolve_entry_path(entry_name: &str) -> (r: Result<Vec<String>, ExtractError>)
    ensures
        r is Ok <==> sanitize_path_spec(entry_name@) is Some,
        r matches Ok(v) ==> sanitize_path_spec(entry_name@) == Some(v.deep_view()),
        r is Err ==> r == Result::<Vec<String>, ExtractError>::Err(ExtractError::PathTraversal),
{
    match crate::paths::sanitize_rel_path(entry_name) {
        Some(v) => Ok(v),
        None => Err(ExtractError::PathTraversal),
    }
}

/// Packaging artifacts that extraction ignores when classifying the scratch
/// directory: empty names, hidden entries, and platform metadata folders.
pub open spec fn artifact_name(s: Seq<char>) -> bool {
    s.len() == 0 || s[0] == '.' || s == "__MACOSX"@
}

/// The scratch entries that remain once packaging artifacts are dropped,
/// in listing order.
pub open spec fn kept_entries(entries: Seq<DirEntry>) -> Seq<DirEntry>
    decreases entries.len(),
{
    if entries.len() == 0 {
        Seq::empty()
    } else {
        let rest = kept_entries(entries.drop_last());
        if artifact_name(entries.last().name@) {
            rest
        } else {
            rest.push(entries.last())
        }
    }
}

fn is_artifact(name: &str) -> (r: bool)
    ensures
        r == artifact_name(name@),
{
    let n = crate::strutil::str_chars_len(name);
    if n == 0 {
        return true;
    }
    if name.get_char(0) == '.' {
        return true;
    }
    crate::strutil::str_eq_str(name, "__MACOSX")
}

/// How the scratch directory's usable top level is shaped, which decides how
/// content is relocated.
pub enum ScratchLayout {
    /// Nothing usable was extracted.
    Empty,
    /// Exactly one top-level directory: it is a wrapping folder, and its
    /// contents become the add-on's contents.
    SingleRoot {
        /// Name of the single wrapping directory.
        root: String,
    },
    /// Several top-level entries (or one lone file): each keeps its own name
    /// under the install base.
    MultiRoot {
        /// The usable top-level entry names, in listing order.
        names: Vec<String>,
    },
}

/// Classifies the scratch directory's immediate children, ignoring packaging
/// artifacts.
pub fn classify_scratch(entries: &Vec<DirEntry>) -> (r: ScratchLayout)
    ensures
        ({
            let kept = kept_entries(entries@);
            match r {
                ScratchLayout::Empty => kept.len() == 0,
                ScratchLayout::SingleRoot { root } => kept.len() == 1 && kept[0].is_dir && root@
                    == kept[0].name@,
                ScratchLayout::MultiRoot { names } => (kept.len() > 1 || (kept.len() == 1
                    && !kept[0].is_dir)) && names.deep_view() == crate::listing::names_of(kept),
            }
        }),
{
    let mut kept: Vec<DirEntry> = Vec::new();
    let mut i: usize = 0;
    let ghost all = entries@;
    proof {
        assert(all.take(0) =~= Seq::<DirEntry>::empty());
        assert(kept@ =~= kept_entries(all.take(0)));
    }
    while i < entries.len()
        invariant
            i <= entries.len(),
            all == entries@,
            kept@ == kept_entries(all.take(i as int)),
        decreases entries.len() - i,
    {
        let e: &DirEntry = &entries[i];
        proof {
            assert(all.take(i + 1).drop_last() =~= all.take(i as int));
            assert(all.take(i + 1).last() == all[i as int]);
        }
        if !is_artifact(e.name.as_str()) {
            let copy = DirEntry { name: e.name.clone(), is_dir: e.is_dir };
            assert(copy == all[i as int]);
            kept.push(copy);
        }
        i = i + 1;
    }
    proof {
        assert(all.take(entries.len() as int) =~= all);
    }
    if kept.len() == 0 {
        ScratchLayout::Empty
    } else if kept.len() == 1 {
        let only = kept.pop().unwrap();
        if only.is_dir {
            ScratchLayout::SingleRoot { root: only.name }
        } else {
            let mut names: Vec<String> = Vec::new();
            names.push(only.name);
            proof {
                assert(names.deep_view() =~= crate::listing::names_of(kept_entries(all)));
            }
            ScratchLayout::MultiRoot { names }
        }
    } else {
        let mut names: Vec<String> = Vec::new();
        let mut j: usize = 0;
        let ghost keptseq = kept@;
        while j < kept.len()
            invariant
                j <= kept.len(),
                keptseq == kept@,
                names.deep_view() =~= crate::listing::names_of(keptseq.take(j as int)),
            decreases kept.len() - j,
        {
            names.push(kept[j].name.clone());
            proof {
                assert(crate::listing::names_of(keptseq.take(j + 1)) =~= crate::listing::names_of(
                    keptseq.take(j as int),
                ).push(keptseq[j as int].name@));
                assert(names.deep_view() =~= crate::listing::names_of(keptseq.take(j + 1)));
            }
            j = j + 1;
        }
        proof {
            assert(keptseq.take(kept@.len() as int) =~= keptseq);
        }
        ScratchLayout::MultiRoot { names }
    }
}

/// One placement action: `install_base/dest_name` is removed if present and
/// then becomes a copy of the scratch entry `src_name`.
pub struct PlaceStep {
    /// The scratch entry the content comes from.
    pub src_name: String,
    /// The name the content gets under the install base.
    pub dest_name: String,
}

/// Plans how classified scratch content reaches the install base:
/// a single wrapping folder is discarded and its contents become
/// `install_base/name`; several top-level entries each keep their own name;
/// an empty extraction is an error.
pub fn plan_placement(layout: &ScratchLayout, addon: &Addon) -> (r: Result<
    Vec<PlaceStep>,
    PlaceError,
>)
    ensures
        match layout {
            ScratchLayout::Empty => r == Result::<Vec<PlaceStep>, PlaceError>::Err(
                PlaceError::EmptyArchive,
            ),
            ScratchLayout::SingleRoot { root } => r matches Ok(v) && v@.len() == 1
                && v@[0].src_name@ == root@ && v@[0].dest_name@ == addon.name@,
            ScratchLayout::MultiRoot { names } => r matches Ok(v) && v@.len() == names@.len()
                && forall|i: int|
                0 <= i < v@.len() ==> (#[trigger] v@[i]).src_name@ == names.deep_view()[i]
                    && v@[i].dest_name@ == names.deep_view()[i],
        },
{
    match layout {
        ScratchLayout::Empty => Err(PlaceError::EmptyArchive),
        ScratchLayout::SingleRoot { root } => {
            let mut v: Vec<PlaceStep> = Vec::new();
            v.push(PlaceStep { src_name: root.clone(), dest_name: addon.name.clone() });
            Ok(v)
        },
        ScratchLayout::MultiRoot { names } => {
            let mut v: Vec<PlaceStep> = Vec::new();
            let mut i: usize = 0;
            while i < names.len()
                invariant
                    i <= names.len(),
                    v@.len() == i,
                    forall|t: int|
                        0 <= t < i ==> (#[trigger] v@[t]).src_name@ == names.deep_view()[t]
                            && v@[t].dest_name@ == names.deep_view()[t],
                decreases names.len() - i,
            {
                v.push(PlaceStep { src_name: names[i].clone(), dest_name: names[i].clone() });
                i = i + 1;
            }
            Ok(v)
        },
    }
}

/// The install base modelled as a map from top-level entry name to that
/// entry's content, applying one placement after another: each step replaces
/// the destination with the step's content.
pub open spec fn apply_steps<A>(m: Map<Seq<char>, A>, steps: Seq<(Seq<char>, A)>) -> Map<
    Seq<char>,
    A,
>
    decreases steps.len(),
{
    if steps.len() == 0 {
        m
    } else {
        apply_steps(m.insert(steps[0].0, steps[0].1), steps.drop_first())
    }
}

/// The destination names a list of steps writes.
pub open spec fn steps_keys<A>(steps: Seq<(Seq<char>, A)>) -> Set<Seq<char>>
    decreases steps.len(),
{
    if steps.len() == 0 {
        Set::empty()
    } else {
        steps_keys(steps.drop_first()).insert(steps[0].0)
    }
}

/// The content the steps leave at `k` (the last step writing `k` wins).
pub open spec fn steps_value<A>(steps: Seq<(Seq<char>, A)>, k: Seq<char>) -> Option<A>
    decreases steps.len(),
{
    if steps.len() == 0 {
        None
    } else {
        let rest = steps_value(steps.drop_first(), k);
        if rest is Some {
            rest
        } else if steps[0].0 == k {
            Some(steps[0].1)
        } else {
            None
        }
    }
}

/// Pointwise effect of a placement: destinations hold the placed content,
/// everything else is untouched.
pub proof fn lemma_apply_steps_pointwise<A>(m: Map<Seq<char>, A>, steps: Seq<(Seq<char>, A)>)
    ensures
        apply_steps(m, steps).dom() =~= m.dom() + steps_keys(steps),
        forall|k: Seq<char>|
            #[trigger] apply_steps(m, steps).dom().contains(k) ==> match steps_value(steps, k) {
                Some(v) => apply_steps(m, steps)[k] == v,
                None => m.dom().contains(k) && apply_steps(m, steps)[k] == m[k],
            },
    decreases steps.len(),
{
    if steps.len() > 0 {
        let m1 = m.insert(steps[0].0, steps[0].1);
        lemma_apply_steps_pointwise(m1, steps.drop_first());
    }
}

/// Idempotence of installation: because every step fully replaces its
/// destination with content that does not depend on what was there before,
/// placing the same plan twice leaves exactly the state placing it once
/// leaves — no duplicates, no stale leftovers.
pub proof fn lemma_place_idempotent<A>(m: Map<Seq<char>, A>, steps: Seq<(Seq<char>, A)>)
    ensures
        apply_steps(apply_steps(m, steps), steps) == apply_steps(m, steps),
{
    let m1 = apply_steps(m, steps);
    let m2 = apply_steps(m1, steps);
    lemma_apply_steps_pointwise(m, steps);
    lemma_apply_steps_pointwise(m1, steps);
    assert(m2.dom() =~= m1.dom());
    assert forall|k: Seq<char>| #[trigger] m2.dom().contains(k) implies m2[k] == m1[k] by {
        match steps_value(steps, k) {
            Some(v) => {},
            None => {},
        }
    }
    assert(m2 =~= m1);
}

/// Every destination a plan names exists after the plan is applied; with a
/// single-root or single-file plan the destination is the add-on's own name,
/// so the inspector sees the add-on as installed afterwards.
pub proof fn lemma_place_creates_dests<A>(m: Map<Seq<char>, A>, steps: Seq<(Seq<char>, A)>)
    ensures
        forall|k: Seq<char>|
            steps_keys(steps).contains(k) ==> apply_steps(m, steps).dom().contains(k),
{
    lemma_apply_steps_pointwise(m, steps);
}

/// The install round trip, placement side: a plan with a step whose
/// destination is the add-on's own name (every single-root and single-file
/// plan has one) leaves the install base with an entry of that name, which
/// the inspector counts as installed.
pub proof fn lemma_install_creates_name<A>(
    m: Map<Seq<char>, A>,
    steps: Seq<(Seq<char>, A)>,
    name: Seq<char>,
)
    requires
        exists|i: int| 0 <= i < steps.len() && (#[trigger] steps[i]).0 == name,
    ensures
        apply_steps(m, steps).dom().contains(name),
{
    lemma_steps_keys_iff(steps, name);
    lemma_apply_steps_pointwise(m, steps);
}

/// A name is a destination of the steps exactly when some step writes it.
pub proof fn lemma_steps_keys_iff<A>(steps: Seq<(Seq<char>, A)>, k: Seq<char>)
    ensures
        steps_keys(steps).contains(k) <==> exists|i: int|
            0 <= i < steps.len() && (#[trigger] steps[i]).0 == k,
    decreases steps.len(),
{
    if steps.len() > 0 {
        lemma_steps_keys_iff(steps.drop_first(), k);
        if steps_keys(steps).contains(k) {
            if steps[0].0 == k {
                assert(steps[0].0 == k);
            } else {
                let i = choose|i: int|
                    0 <= i < steps.drop_first().len() && (#[trigger] steps.drop_first()[i]).0 == k;
                assert(steps[i + 1].0 == k);
            }
        }
        if exists|i: int| 0 <= i < steps.len() && (#[trigger] steps[i]).0 == k {
            let i = choose|i: int| 0 <= i < steps.len() && (#[trigger] steps[i]).0 == k;
            if i > 0 {
                assert(steps.drop_first()[i - 1].0 == k);
            }
        }
    }
}

} // verus!
