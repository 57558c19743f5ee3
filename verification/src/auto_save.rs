//! Debounced auto-save: rapid layout changes are coalesced into one save after a
//! quiet period.
use vstd::prelude::*;
use std::time::{Duration, Instant};
use crate::clock::{at_least, duration_nanos, elapsed, now, secs};

verus! {

/// Debounced auto-saver that coalesces rapid layout changes into a single
/// save operation after a configurable quiet period (default: 60 seconds).
///
/// Usage:
/// 1. Call [`AutoSaver::notify_change`] whenever a layout-affecting event
///    occurs (pane split, close, tab create/close).
/// 2. Call [`AutoSaver::poll_save`] in the render/event loop. When it returns
///    `true`, the caller should perform the actual save.
pub struct AutoSaver {
    pub debounce: Duration,
    dirty: bool,
    last_change: Option<Instant>,
    forced: bool,
}

impl AutoSaver {
    /// Whether a change has not been saved yet.
    pub closed spec fn is_dirty(&self) -> bool {
        self.dirty
    }

    /// When the quiet period started, if it has.
    pub closed spec fn last_change_of(&self) -> Option<Instant> {
        self.last_change
    }

    /// Whether the next poll saves without waiting for the quiet period.
    pub closed spec fn is_forced(&self) -> bool {
        self.forced
    }

    /// The quiet period.
    pub closed spec fn debounce_of(&self) -> Duration {
        self.debounce
    }

    /// Create an `AutoSaver` with the given debounce duration.
    pub fn new(debounce: Duration) -> (s: Self)
        ensures
            !s.is_dirty(),
            !s.is_forced(),
            s.last_change_of() is None,
            s.debounce_of() == debounce,
    {
        AutoSaver { debounce, dirty: false, last_change: None, forced: false }
    }

    /// Create an `AutoSaver` with the default 60-second debounce.
    pub fn default_debounce() -> (s: Self)
        ensures
            !s.is_dirty(),
            !s.is_forced(),
            s.last_change_of() is None,
            duration_nanos(s.debounce_of()) == 60_000_000_000,
    {
        Self::new(secs(60))
    }

    /// Signal that a layout change has occurred; the quiet period starts again,
    /// and an earlier `force_save` no longer applies.
    pub fn notify_change(&mut self)
        ensures
            final(self).is_dirty(),
            !final(self).is_forced(),
            final(self).last_change_of() is Some,
            final(self).debounce_of() == old(self).debounce_of(),
    {
        self.dirty = true;
        self.forced = false;
        self.last_change = Some(now());
    }

    /// Report a save when there is an unsaved change and either a save was
    /// forced, or its quiet period has started and `elapsed` says that it is
    /// over; the saver is then clean.
    pub fn poll_save_when(&mut self, elapsed: bool) -> (save: bool)
        ensures
            save == (old(self).is_dirty() && (old(self).is_forced() || (old(self).last_change_of() is Some
                && elapsed))),
            save ==> !final(self).is_dirty() && !final(self).is_forced() && final(self).last_change_of() is None
                && final(self).debounce_of() == old(self).debounce_of(),
            !save ==> *final(self) == *old(self),
    {
        if !self.dirty {
            return false;
        }
        if self.forced || (self.last_change.is_some() && elapsed) {
            self.dirty = false;
            self.forced = false;
            self.last_change = None;
            return true;
        }
        false
    }

    /// Check whether enough time has passed since the last change to trigger
    /// a save. Returns `true` exactly once per debounce window, then resets.
    /// The answer is whether the time the clock reports since the last change
    /// is at least the debounce; what the clock reports is not stated. After
    /// `force_save`, and with a zero debounce, an unsaved change is saved at the
    /// first poll.
    pub fn poll_save(&mut self) -> (save: bool)
        ensures
            old(self).is_forced() ==> save == old(self).is_dirty(),
            duration_nanos(old(self).debounce_of()) == 0 ==> save == (old(self).is_dirty() && (
            old(self).is_forced() || old(self).last_change_of() is Some)),
            save ==> old(self).is_dirty(),
            save ==> !final(self).is_dirty() && !final(self).is_forced() && final(self).last_change_of() is None
                && final(self).debounce_of() == old(self).debounce_of(),
            !save ==> *final(self) == *old(self),
            exists|waited: Duration|
                save == (old(self).is_dirty() && (old(self).is_forced() || (old(self).last_change_of() is Some
                    && #[trigger] duration_nanos(waited) >= duration_nanos(old(self).debounce_of())))),
    {
        let ghost w0 = self.debounce;
        assert(duration_nanos(w0) >= duration_nanos(old(self).debounce_of()));
        if !self.dirty {
            return false;
        }
        match &self.last_change {
            Some(last) => {
                let waited = elapsed(last);
                let over = at_least(&waited, &self.debounce);
                let save = self.poll_save_when(over);
                proof {
                    assert(save == (old(self).is_dirty() && (old(self).is_forced() || (old(self).last_change_of() is Some
                        && duration_nanos(waited) >= duration_nanos(old(self).debounce_of())))));
                }
                save
            },
            None => self.poll_save_when(false),
        }
    }

    /// Force a save on the next `poll_save` call (e.g., before shutdown): an
    /// unsaved change is then saved without waiting for its quiet period.
    pub fn force_save(&mut self)
        ensures
            final(self).is_dirty() == old(self).is_dirty(),
            old(self).is_dirty() ==> final(self).is_forced(),
            final(self).last_change_of() == old(self).last_change_of(),
            final(self).debounce_of() == old(self).debounce_of(),
            !old(self).is_dirty() ==> *final(self) == *old(self),
    {
        if self.dirty {
            self.forced = true;
        }
    }
}

} // verus!
