//! The decisions of a decode worker: which unit to take, and what to record
//! once the decode has come back. The worker itself only locks, decodes and
//! notifies around these.

use crate::laws::lemma_finish_keeps_exclusive;
use crate::loader::{CacheState, DecodedImage, UserEvent, WorkKind};
use vstd::prelude::*;

verus! {

/// Fewest workers the pool runs.
pub const MIN_WORKERS: usize = 4;

/// Most workers the pool runs.
pub const MAX_WORKERS: usize = 16;

/// Side of the square a thumbnail is decoded into.
pub const THUMBNAIL_SIZE: u32 = 200;

/// Size of the pool for the given hardware parallelism: that number, held
/// between `MIN_WORKERS` and `MAX_WORKERS`; `MIN_WORKERS` where it is unknown.
pub open spec fn pool_size(parallelism: Option<usize>) -> usize {
    match parallelism {
        Some(n) => if n < MIN_WORKERS {
            MIN_WORKERS
        } else if n > MAX_WORKERS {
            MAX_WORKERS
        } else {
            n
        },
        None => MIN_WORKERS,
    }
}

/// Number of workers to start.
pub fn worker_count(parallelism: Option<usize>) -> (n: usize)
    ensures
        n == pool_size(parallelism),
        MIN_WORKERS <= n <= MAX_WORKERS,
{
    match parallelism {
        Some(n) => if n < MIN_WORKERS {
            MIN_WORKERS
        } else if n > MAX_WORKERS {
            MAX_WORKERS
        } else {
            n
        },
        None => MIN_WORKERS,
    }
}

impl WorkKind {
    /// The size to ask the decoder for: none for the native resolution.
    pub open spec fn spec_target_size(self) -> Option<(u32, u32)> {
        match self {
            WorkKind::Full => None,
            WorkKind::Thumbnail => Some((THUMBNAIL_SIZE, THUMBNAIL_SIZE)),
        }
    }

    /// The size to ask the decoder for: none for the native resolution.
    #[verifier::when_used_as_spec(spec_target_size)]
    pub fn target_size(self) -> (r: Option<(u32, u32)>)
        ensures
            r == self.spec_target_size(),
    {
        match self {
            WorkKind::Full => None,
            WorkKind::Thumbnail => Some((THUMBNAIL_SIZE, THUMBNAIL_SIZE)),
        }
    }

    /// The event that tells the consumer a decode of this kind has come back.
    pub open spec fn spec_ready_event(self, idx: usize) -> UserEvent {
        match self {
            WorkKind::Full => UserEvent::ImageReady(idx),
            WorkKind::Thumbnail => UserEvent::ThumbnailReady(idx),
        }
    }

    /// The event that tells the consumer a decode of this kind has come back.
    #[verifier::when_used_as_spec(spec_ready_event)]
    pub fn ready_event(self, idx: usize) -> (r: UserEvent)
        ensures
            r == self.spec_ready_event(idx),
    {
        match self {
            WorkKind::Full => UserEvent::ImageReady(idx),
            WorkKind::Thumbnail => UserEvent::ThumbnailReady(idx),
        }
    }
}

impl CacheState {
    /// Picks the next unit of work and marks it in flight, in one step under
    /// the lock, so that no two workers get the same unit. `None` means the
    /// worker has to wait.
    pub fn claim_work(&mut self) -> (r: Option<(usize, WorkKind)>)
        ensures
            old(self)@.schedules(r),
            match r {
                Some((idx, kind)) => {
                    &&& old(self)@.is_available(idx, kind)
                    &&& final(self)@ == old(self)@.with_pending(idx, kind)
                },
                None => final(self)@ == old(self)@,
            },
            old(self).inv() ==> final(self).inv(),
            old(self)@.exclusive() ==> final(self)@.exclusive(),
    {
        let work = self.find_work();
        match work {
            Some((idx, kind)) => {
                self.mark_in_progress(idx, kind);
            },
            None => {},
        }
        work
    }

    /// Records what the decode of `(idx, kind)` came back with: the in-flight
    /// mark goes, then the image is stored or the failure recorded for good.
    /// Returns the event to send to the consumer.
    pub fn finish_work(
        &mut self,
        idx: usize,
        kind: WorkKind,
        outcome: Result<DecodedImage, String>,
    ) -> (event: UserEvent)
        requires
            old(self).inv(),
        ensures
            final(self).inv(),
            old(self)@.finishes_to(idx, kind, outcome, final(self)@),
            event == kind.ready_event(idx),
            old(self)@.exclusive() && old(self)@.pending(kind).contains(idx)
                ==> final(self)@.exclusive(),
    {
        let ghost pre = self@;
        self.clear_in_progress(idx, kind);
        match outcome {
            Ok(img) => {
                self.insert(idx, img, kind);
            },
            Err(message) => {
                self.record_error(idx, kind, message);
            },
        }
        proof {
            if pre.exclusive() && pre.pending(kind).contains(idx) {
                lemma_finish_keeps_exclusive(pre, idx, kind, outcome, self@);
            }
        }
        kind.ready_event(idx)
    }

    /// Gives up a unit whose file is no longer there: the in-flight mark goes
    /// and no failure is recorded.
    pub fn abandon_work(&mut self, idx: usize, kind: WorkKind)
        ensures
            final(self)@ == old(self)@.without_pending(idx, kind),
            old(self).inv() ==> final(self).inv(),
            old(self)@.exclusive() ==> final(self)@.exclusive(),
    {
        self.clear_in_progress(idx, kind);
    }
}

} // verus!
