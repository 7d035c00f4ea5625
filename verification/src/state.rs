//! The per-add-on worker state machine.
//!
//! Each add-on owns one `AddonState`, guarded by a mutex in the process
//! layer.  A worker that wants to operate on the add-on must go through
//! `try_begin` while holding the lock: it starts only when no other worker
//! owns the add-on, and owning it is recorded before any blocking work
//! begins.  `finish` always returns the add-on to idle and always records the
//! freshly re-derived installed state, never the operation's own claim, so
//! the displayed state reflects filesystem truth even after a partial
//! failure.

use vstd::prelude::*;

verus! {

/// Shared, lock-protected state of one add-on, read by the presentation
/// layer and written by the worker that currently owns the add-on.
pub struct AddonState {
    /// What the display should show as checked: `Some(installed)` once
    /// known, re-derived from the filesystem after every operation.
    pub target_state: Option<bool>,
    /// True while a worker owns this add-on.
    pub installing: bool,
    /// Download progress in thousandths, meaningful only while installing.
    pub progress_permille: u16,
    /// Whether a newer version of the add-on is available.
    pub needs_update: bool,
}

/// The `Idle -> Busy` transition as a function: from a state and the
/// installed-state snapshot, the decision whether a worker starts and the
/// state after the attempt.  A busy add-on refuses the toggle and is left
/// untouched; an idle one becomes busy, aims at the opposite of the current
/// installed state, and resets its progress.
pub open spec fn begin_transition(s: AddonState, currently_installed: bool) -> (bool, AddonState) {
    if s.installing {
        (false, s)
    } else {
        (
            true,
            AddonState {
                target_state: Some(!currently_installed),
                installing: true,
                progress_permille: 0,
                needs_update: s.needs_update,
            },
        )
    }
}

impl AddonState {
    /// The startup snapshot: idle, showing the installed state found on
    /// disk.
    pub fn initial(installed: bool, needs_update: bool) -> (r: AddonState)
        ensures
            r.target_state == Some(installed),
            !r.installing,
            r.progress_permille == 0,
            r.needs_update == needs_update,
    {
        AddonState { target_state: Some(installed), installing: false, progress_permille: 0, needs_update }
    }

    /// Claims the add-on for a worker, while the caller holds the state's
    /// lock.  Returns whether the worker may proceed; when it may not, the
    /// state is untouched.
    pub fn try_begin(&mut self, currently_installed: bool) -> (started: bool)
        ensures
            (started, *final(self)) == begin_transition(*old(self), currently_installed),
            started == !old(self).installing,
            final(self).installing,
    {
        if self.installing {
            false
        } else {
            self.target_state = Some(!currently_installed);
            self.installing = true;
            self.progress_permille = 0;
            true
        }
    }

    /// Releases the add-on unconditionally once its worker is done,
    /// recording the re-derived installed state.
    pub fn finish(&mut self, installed_now: bool)
        ensures
            !final(self).installing,
            final(self).target_state == Some(installed_now),
            final(self).progress_permille == old(self).progress_permille,
            final(self).needs_update == old(self).needs_update,
    {
        self.installing = false;
        self.target_state = Some(installed_now);
    }

    /// Publishes download progress, while the caller holds the lock.
    pub fn set_progress(&mut self, permille: u16)
        ensures
            final(self).progress_permille == permille,
            final(self).target_state == old(self).target_state,
            final(self).installing == old(self).installing,
            final(self).needs_update == old(self).needs_update,
    {
        self.progress_permille = permille;
    }

    /// Publishes the result of an update-availability check.
    pub fn set_needs_update(&mut self, needs_update: bool)
        ensures
            final(self).needs_update == needs_update,
            final(self).target_state == old(self).target_state,
            final(self).installing == old(self).installing,
            final(self).progress_permille == old(self).progress_permille,
    {
        self.needs_update = needs_update;
    }
}

/// Mutual exclusion of workers: of two toggle attempts serialized on the
/// same add-on's lock, at most one starts a worker — whenever the first
/// starts, the second observes the busy flag and bails out without touching
/// the state.
pub proof fn lemma_second_toggle_bails(s: AddonState, first_snapshot: bool, second_snapshot: bool)
    ensures
        begin_transition(s, first_snapshot).0 ==> {
            let after_first = begin_transition(s, first_snapshot).1;
            let second = begin_transition(after_first, second_snapshot);
            !second.0 && second.1 == after_first
        },
{
}

/// The scheduled re-check for update availability fires once the configured
/// interval has elapsed.
pub fn should_check_updates(elapsed_ms: u64, interval_ms: u64) -> (r: bool)
    ensures
        r == (elapsed_ms >= interval_ms),
{
    elapsed_ms >= interval_ms
}

} // verus!
