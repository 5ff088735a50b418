//! The orchestrator's terminal-event aggregation: counters for batched
//! alerting and the quiet-period timer that decides when a batch is
//! flushed. The channels, tasks and the shutdown broadcast live outside
//! this crate; the bookkeeping they rely on is verified here.

use vstd::prelude::*;
use crate::event::FileEvent;

verus! {

/// One more than `x`, stopping at the top instead of wrapping.
pub open spec fn spec_bump(x: u64) -> u64 {
    if x == u64::MAX {
        x
    } else {
        (x + 1) as u64
    }
}

/// Counts of terminal events since the last flushed batch, and when
/// the last event arrived (on the caller's monotonic clock).
pub struct BatchState {
    pub organized: u64,
    pub unsorted: u64,
    pub failed: u64,
    pub last_event_ms: Option<u64>,
}

impl BatchState {
    pub fn new() -> (r: BatchState)
        ensures
            r.organized == 0 && r.unsorted == 0 && r.failed == 0,
            r.last_event_ms is None,
    {
        BatchState { organized: 0, unsorted: 0, failed: 0, last_event_ms: None }
    }

    /// Note one event arriving at the sink at time `now_ms`: the
    /// matching counter grows (`Organized`, `Unsorted` and `Failed` are
    /// counted; other events are only logged), and the quiet-period
    /// clock restarts.
    pub fn record(&mut self, event: &FileEvent, now_ms: u64)
        ensures
            final(self).last_event_ms == Some(now_ms),
            final(self).organized == (if event matches FileEvent::Organized { .. } {
                spec_bump(old(self).organized)
            } else {
                old(self).organized
            }),
            final(self).unsorted == (if event matches FileEvent::Unsorted { .. } {
                spec_bump(old(self).unsorted)
            } else {
                old(self).unsorted
            }),
            final(self).failed == (if event matches FileEvent::Failed { .. } {
                spec_bump(old(self).failed)
            } else {
                old(self).failed
            }),
    {
        match event {
            FileEvent::Organized { .. } => {
                if self.organized < u64::MAX {
                    self.organized = self.organized + 1;
                }
            },
            FileEvent::Unsorted { .. } => {
                if self.unsorted < u64::MAX {
                    self.unsorted = self.unsorted + 1;
                }
            },
            FileEvent::Failed { .. } => {
                if self.failed < u64::MAX {
                    self.failed = self.failed + 1;
                }
            },
            _ => {},
        }
        self.last_event_ms = Some(now_ms);
    }

    /// Whether the batch is due at `now_ms`: some event has arrived and
    /// the quiet period has fully elapsed since the last one.
    pub fn flush_due(&self, now_ms: u64, quiet_ms: u64) -> (r: bool)
        ensures
            r == (self.last_event_ms matches Some(t) && t + quiet_ms <= now_ms),
    {
        match self.last_event_ms {
            Some(t) => quiet_ms <= now_ms && t <= now_ms - quiet_ms,
            None => false,
        }
    }

    /// Whether anything has been counted since the last flush.
    pub fn has_pending(&self) -> (r: bool)
        ensures
            r == (self.organized > 0 || self.unsorted > 0 || self.failed > 0),
    {
        self.organized > 0 || self.unsorted > 0 || self.failed > 0
    }

    /// Hand out the counted totals and reset for the next batch.
    pub fn take(&mut self) -> (r: (u64, u64, u64))
        ensures
            r == (old(self).organized, old(self).unsorted, old(self).failed),
            final(self).organized == 0 && final(self).unsorted == 0 && final(self).failed == 0,
            final(self).last_event_ms is None,
    {
        let r = (self.organized, self.unsorted, self.failed);
        self.organized = 0;
        self.unsorted = 0;
        self.failed = 0;
        self.last_event_ms = None;
        r
    }
}

} // verus!
