//! Debounced resizes: a resize is handed on only once the size has stopped
//! changing for a threshold period.
use vstd::prelude::*;
use std::time::{Duration, Instant};
use crate::clock::{at_least, duration_nanos, elapsed, millis, now};

verus! {

/// Manages debounced resize operations for the pseudo console.
///
/// Its resize is asynchronous and can produce garbled output during
/// transitions. This debouncer ensures we only send a resize after the user
/// has stopped resizing for a threshold period.
pub struct ResizeDebouncer {
    threshold: Duration,
    pending: Option<PendingResize>,
}

struct PendingResize {
    cols: u16,
    rows: u16,
    requested_at: Instant,
}

impl ResizeDebouncer {
    /// The size waiting to be handed on, if any.
    pub closed spec fn pending_size(&self) -> Option<(u16, u16)> {
        match self.pending {
            Some(p) => Some((p.cols, p.rows)),
            None => None,
        }
    }

    /// How long a size must stay unchanged before it is handed on.
    pub closed spec fn threshold_of(&self) -> Duration {
        self.threshold
    }

    /// When the pending size was requested, if a size is pending.
    pub closed spec fn requested_at_of(&self) -> Option<Instant> {
        match self.pending {
            Some(p) => Some(p.requested_at),
            None => None,
        }
    }

    /// The debouncer after a request for `cols` x `rows` made at `at`: that size
    /// is pending, and its quiet period starts at `at`, whatever was pending.
    pub closed spec fn after_request(self, cols: u16, rows: u16, at: Instant) -> Self {
        ResizeDebouncer { pending: Some(PendingResize { cols, rows, requested_at: at }), ..self }
    }

    pub fn new(threshold_ms: u64) -> (d: Self)
        ensures
            d.pending_size() is None,
            duration_nanos(d.threshold_of()) == threshold_ms * 1_000_000,
    {
        ResizeDebouncer { threshold: millis(threshold_ms), pending: None }
    }

    /// Request a resize; call `poll` to check whether the debounce period has
    /// elapsed. A later request replaces an earlier one.
    pub fn request(&mut self, cols: u16, rows: u16)
        ensures
            final(self).pending_size() == Some((cols, rows)),
            final(self).threshold_of() == old(self).threshold_of(),
            final(self).requested_at_of() is Some,
            exists|at: Instant| *final(self) == old(self).after_request(cols, rows, at),
    {
        let at = now();
        self.request_at(cols, rows, at);
    }

    /// Request a resize made at `at`, the time the clock read for it: the quiet
    /// period starts again at `at`, whatever was pending.
    pub fn request_at(&mut self, cols: u16, rows: u16, at: Instant)
        ensures
            *final(self) == old(self).after_request(cols, rows, at),
            final(self).pending_size() == Some((cols, rows)),
            final(self).requested_at_of() == Some(at),
            final(self).threshold_of() == old(self).threshold_of(),
    {
        self.pending = Some(PendingResize { cols, rows, requested_at: at });
    }

    /// Hand on the pending size when `ready` says that the debounce period has
    /// elapsed since it was requested; it is then no longer pending.
    pub fn poll_when(&mut self, ready: bool) -> (r: Option<(u16, u16)>)
        ensures
            r == if ready { old(self).pending_size() } else { None },
            r is Some ==> final(self).pending_size() is None && final(self).threshold_of() == old(self).threshold_of(),
            r is None ==> *final(self) == *old(self),
    {
        if ready {
            if let Some(pending) = &self.pending {
                let result = (pending.cols, pending.rows);
                self.pending = None;
                return Some(result);
            }
        }
        None
    }

    /// Check if a pending resize is ready to be applied.
    /// Returns Some((cols, rows)) if the debounce period has elapsed: when the
    /// time the clock reports since the request is at least the threshold;
    /// what the clock reports is not stated. With a zero threshold the pending
    /// size is handed on at the first poll.
    pub fn poll(&mut self) -> (r: Option<(u16, u16)>)
        ensures
            duration_nanos(old(self).threshold_of()) == 0 ==> r == old(self).pending_size(),
            r is Some ==> r == old(self).pending_size() && final(self).pending_size() is None
                && final(self).threshold_of() == old(self).threshold_of(),
            r is None ==> *final(self) == *old(self),
            old(self).pending_size() is None ==> r is None,
            exists|waited: Duration|
                r == if #[trigger] duration_nanos(waited) >= duration_nanos(old(self).threshold_of()) {
                    old(self).pending_size()
                } else {
                    None
                },
    {
        match &self.pending {
            Some(pending) => {
                let waited = elapsed(&pending.requested_at);
                let ready = at_least(&waited, &self.threshold);
                let r = self.poll_when(ready);
                proof {
                    assert(r == if duration_nanos(waited) >= duration_nanos(old(self).threshold_of()) { old(self).pending_size() } else { None });
                }
                r
            },
            None => {
                let r = self.poll_when(false);
                proof {
                    let w = self.threshold;
                    assert(r == if duration_nanos(w) >= duration_nanos(old(self).threshold_of()) { old(self).pending_size() } else { None });
                }
                r
            },
        }
    }

    /// Check if there is a pending resize.
    pub fn has_pending(&self) -> (b: bool)
        ensures
            b == self.pending_size() is Some,
    {
        self.pending.is_some()
    }
}


/// Every request restarts the quiet period: after a request made at `at`, the
/// pending size is the one asked for and it is counted from `at`, whatever was
/// pending before; the threshold is unchanged.
pub proof fn lemma_request_restarts_quiet_period(d: ResizeDebouncer, cols: u16, rows: u16, at: Instant)
    ensures
        d.after_request(cols, rows, at).requested_at_of() == Some(at),
        d.after_request(cols, rows, at).pending_size() == Some((cols, rows)),
        d.after_request(cols, rows, at).threshold_of() == d.threshold_of(),
{
}

} // verus!
