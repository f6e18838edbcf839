//! Which decode to start next.
//!
//! In single view the current image comes first, whatever the budget. After
//! that the scan walks outward from the current index: distance 1 forward,
//! distance 1 backward, then rounds of two steps forward and one step
//! backward, so that round `k` looks at forward distances `2k` and `2k + 1`
//! and at backward distance `k + 1`. A direction ends at the first index that
//! lies outside the file list, is saturated, or is available; only an
//! available index that the budget affords is taken. A round starts as long
//! as some direction has neither ended nor come to `MAX_SCAN`.
//!
//! In grid view the nearest index without a thumbnail is taken, the lower
//! index first where two are equally near.

use crate::loader::{CacheState, ViewMode, WorkKind};
use crate::model::{distance, CacheView, MAX_SCAN};
use vstd::prelude::*;

verus! {

impl CacheView {
    /// Whether the forward scan comes to an end at distance `d`.
    pub open spec fn forward_ends_at(self, d: nat) -> bool {
        let i = self.current_idx + d;
        i >= self.file_count || self.saturated.contains(i as usize) || self.is_available(
            i as usize,
            WorkKind::Full,
        )
    }

    /// Whether the backward scan comes to an end at distance `d`.
    pub open spec fn backward_ends_at(self, d: nat) -> bool {
        let i = self.current_idx - d;
        i < 0 || self.saturated.contains(i as usize) || self.is_available(
            i as usize,
            WorkKind::Full,
        )
    }

    /// First distance from `d` on at which the forward scan ends.
    pub open spec fn forward_end_from(self, d: nat) -> nat
        decreases self.file_count - self.current_idx - d,
    {
        if self.forward_ends_at(d) {
            d
        } else {
            self.forward_end_from(d + 1)
        }
    }

    /// First distance from `d` on at which the backward scan ends.
    pub open spec fn backward_end_from(self, d: nat) -> nat
        decreases self.current_idx + 1 - d,
    {
        if self.backward_ends_at(d) {
            d
        } else {
            self.backward_end_from(d + 1)
        }
    }

    /// Distance at which the forward scan ends.
    pub open spec fn forward_end(self) -> nat {
        self.forward_end_from(1)
    }

    /// Distance at which the backward scan ends.
    pub open spec fn backward_end(self) -> nat {
        self.backward_end_from(1)
    }

    /// The forward scan ends on an index that can be scheduled.
    pub open spec fn forward_hit(self) -> bool {
        let i = self.current_idx + self.forward_end();
        &&& i < self.file_count
        &&& self.is_available(i as usize, WorkKind::Full)
        &&& self.affordable(i as usize)
    }

    /// The backward scan ends on an index that can be scheduled.
    pub open spec fn backward_hit(self) -> bool {
        let i = self.current_idx - self.backward_end();
        &&& i >= 0
        &&& self.is_available(i as usize, WorkKind::Full)
        &&& self.affordable(i as usize)
    }

    /// The scan gets as far as the end of the forward direction: that end
    /// lies within `MAX_SCAN`, or the backward direction keeps the rounds
    /// going until it is looked at.
    pub open spec fn forward_reached(self) -> bool {
        let round = self.forward_end() / 2;
        self.forward_end() < MAX_SCAN || (round < self.backward_end() && round + 1 < MAX_SCAN)
    }

    /// The scan gets as far as the end of the backward direction.
    pub open spec fn backward_reached(self) -> bool {
        self.backward_end() < MAX_SCAN
    }

    /// The end of the forward direction is looked at before the end of the
    /// backward direction.
    pub open spec fn forward_first(self) -> bool {
        self.forward_end() < 2 * self.backward_end()
    }

    /// Index of the full decode to start next in single view.
    pub open spec fn next_full(self) -> Option<usize> {
        if self.is_available(self.current_idx, WorkKind::Full) {
            Some(self.current_idx)
        } else if self.forward_hit() && self.forward_reached() && (self.forward_first() || !(
        self.backward_hit() && self.backward_reached())) {
            Some((self.current_idx + self.forward_end()) as usize)
        } else if self.backward_hit() && self.backward_reached() {
            Some((self.current_idx - self.backward_end()) as usize)
        } else {
            None
        }
    }

    /// `i` has no thumbnail yet and no index without one is nearer to the
    /// current index; of two equally near, `i` is the lower.
    pub open spec fn is_nearest_missing_thumbnail(self, i: usize) -> bool {
        &&& self.is_available(i, WorkKind::Thumbnail)
        &&& forall|j: usize| #[trigger]
            self.is_available(j, WorkKind::Thumbnail) ==> self.dist(i) < self.dist(j) || (
            self.dist(i) == self.dist(j) && i <= j)
    }

    /// `r` is the unit of work the active policy picks, or `None` where it
    /// finds nothing to do.
    pub open spec fn schedules(self, r: Option<(usize, WorkKind)>) -> bool {
        match self.view_mode {
            ViewMode::Single => r == match self.next_full() {
                Some(i) => Some((i, WorkKind::Full)),
                None => None,
            },
            ViewMode::Grid => match r {
                Some((i, kind)) => kind == WorkKind::Thumbnail
                    && self.is_nearest_missing_thumbnail(i),
                None => forall|j: usize| !self.is_available(j, WorkKind::Thumbnail),
            },
        }
    }

    /// `d` is the distance of the farthest cached full image, the current one
    /// left aside, or 0 where there is none.
    pub open spec fn is_farthest_distance(self, d: nat) -> bool {
        &&& forall|k: usize|
            self.images.contains_key(k) && k != self.current_idx ==> self.dist(k) <= d
        &&& d == 0 || exists|k: usize|
            #![trigger self.images.contains_key(k)]
            self.images.contains_key(k) && k != self.current_idx && self.dist(k) == d
    }
}

/// A direction's end is never before the distance the search for it starts at.
pub proof fn lemma_forward_end_from_ge(s: CacheView, d: nat)
    ensures
        s.forward_end_from(d) >= d,
        s.forward_ends_at(s.forward_end_from(d)),
    decreases s.file_count - s.current_idx - d,
{
    if !s.forward_ends_at(d) {
        lemma_forward_end_from_ge(s, d + 1);
    }
}

/// A direction's end is never before the distance the search for it starts at.
pub proof fn lemma_backward_end_from_ge(s: CacheView, d: nat)
    ensures
        s.backward_end_from(d) >= d,
        s.backward_ends_at(s.backward_end_from(d)),
    decreases s.current_idx + 1 - d,
{
    if !s.backward_ends_at(d) {
        lemma_backward_end_from_ge(s, d + 1);
    }
}

/// What looking at one index told the scan.
enum Probe {
    /// Cached, in flight or failed: look further.
    Skip,
    /// The direction ends here with nothing to schedule.
    Stop,
    /// Schedule this index.
    Take(usize),
}

impl CacheState {
    /// Looks at `idx` for the single-view scan. `farthest` is the distance
    /// below which an index is affordable while over budget.
    fn probe(&self, idx: usize, over: bool, farthest: usize) -> (p: Probe)
        requires
            over == self@.over_budget(),
            over ==> self@.is_farthest_distance(farthest as nat),
        ensures
            match p {
                Probe::Skip => !self@.saturated.contains(idx) && !self@.is_available(
                    idx,
                    WorkKind::Full,
                ),
                Probe::Stop => self@.saturated.contains(idx) || (self@.is_available(
                    idx,
                    WorkKind::Full,
                ) && !self@.affordable(idx)),
                Probe::Take(i) => i == idx && self@.is_available(idx, WorkKind::Full)
                    && self@.affordable(idx),
            },
    {
        if self.is_saturated(idx) {
            Probe::Stop
        } else if self.is_available(idx, WorkKind::Full) {
            let cur = self.current_idx();
            let dist = if idx >= cur {
                idx - cur
            } else {
                cur - idx
            };
            if !over || dist < farthest {
                proof {
                    if over {
                        let k = choose|k: usize|
                            #![trigger self@.images.contains_key(k)]
                            self@.images.contains_key(k) && k != self@.current_idx && self@.dist(k)
                                == farthest;
                        assert(self@.is_farther_cached(k, idx));
                    }
                }
                Probe::Take(idx)
            } else {
                proof {
                    assert forall|k: usize| !self@.is_farther_cached(k, idx) by {}
                }
                Probe::Stop
            }
        } else {
            Probe::Skip
        }
    }

    /// Looks at the index `d` steps after the current one.
    fn probe_forward(&self, d: usize, over: bool, farthest: usize) -> (p: Probe)
        requires
            over == self@.over_budget(),
            over ==> self@.is_farthest_distance(farthest as nat),
        ensures
            p is Skip <==> !self@.forward_ends_at(d as nat),
            p matches Probe::Take(i) ==> {
                &&& i == self@.current_idx + d
                &&& self@.is_available(i, WorkKind::Full)
                &&& self@.affordable(i)
            },
            p is Stop ==> {
                ||| self@.current_idx + d >= self@.file_count
                ||| !self@.is_available((self@.current_idx + d) as usize, WorkKind::Full)
                ||| !self@.affordable((self@.current_idx + d) as usize)
            },
    {
        match self.current_idx().checked_add(d) {
            Some(idx) => {
                if idx < self.file_count() {
                    self.probe(idx, over, farthest)
                } else {
                    Probe::Stop
                }
            },
            None => Probe::Stop,
        }
    }

    /// Looks at the index `d` steps before the current one.
    fn probe_backward(&self, d: usize, over: bool, farthest: usize) -> (p: Probe)
        requires
            over == self@.over_budget(),
            over ==> self@.is_farthest_distance(farthest as nat),
        ensures
            p is Skip <==> !self@.backward_ends_at(d as nat),
            p matches Probe::Take(i) ==> {
                &&& i == self@.current_idx - d
                &&& self@.is_available(i, WorkKind::Full)
                &&& self@.affordable(i)
            },
            p is Stop ==> {
                ||| self@.current_idx - d < 0
                ||| !self@.is_available((self@.current_idx - d) as usize, WorkKind::Full)
                ||| !self@.affordable((self@.current_idx - d) as usize)
            },
    {
        let cur = self.current_idx();
        if d > cur {
            Probe::Stop
        } else {
            self.probe(cur - d, over, farthest)
        }
    }

    /// The single-view policy.
    fn find_full_work(&self) -> (r: Option<usize>)
        ensures
            r == self@.next_full(),
            r matches Some(i) ==> self@.is_available(i, WorkKind::Full),
    {
        let cur = self.current_idx();
        if self.is_available(cur, WorkKind::Full) {
            return Some(cur);
        }
        let over = self.over_budget();
        let farthest = if over {
            match self.get_farthest_cached() {
                Some((_, d)) => d,
                None => 0,
            }
        } else {
            usize::MAX
        };
        let mut fwd: usize = 1;
        let mut bwd: usize = 1;
        let mut stop_fwd = false;
        let mut stop_bwd = false;
        proof {
            lemma_forward_end_from_ge(self@, 1);
            lemma_backward_end_from_ge(self@, 1);
        }

        match self.probe_forward(fwd, over, farthest) {
            Probe::Take(i) => {
                return Some(i);
            },
            Probe::Stop => {
                stop_fwd = true;
            },
            Probe::Skip => {
                fwd = fwd + 1;
                proof {
                    lemma_forward_end_from_ge(self@, fwd as nat);
                }
            },
        }
        match self.probe_backward(bwd, over, farthest) {
            Probe::Take(i) => {
                return Some(i);
            },
            Probe::Stop => {
                stop_bwd = true;
            },
            Probe::Skip => {
                bwd = bwd + 1;
                proof {
                    lemma_backward_end_from_ge(self@, bwd as nat);
                }
            },
        }

        let mut round: usize = 1;
        while (!stop_fwd && fwd < MAX_SCAN) || (!stop_bwd && bwd < MAX_SCAN)
            invariant
                over == self@.over_budget(),
                over ==> self@.is_farthest_distance(farthest as nat),
                !self@.is_available(self@.current_idx, WorkKind::Full),
                1 <= round < MAX_SCAN,
                !stop_fwd ==> fwd == 2 * round && self@.forward_end_from(fwd as nat)
                    == self@.forward_end() && self@.forward_end() >= fwd,
                stop_fwd ==> !self@.forward_hit() && self@.forward_end() < 2 * round,
                !stop_bwd ==> bwd == round + 1 && self@.backward_end_from(bwd as nat)
                    == self@.backward_end() && self@.backward_end() >= bwd,
                stop_bwd ==> !self@.backward_hit() && self@.backward_end() <= round,
            decreases MAX_SCAN - round,
        {
            if !stop_fwd {
                match self.probe_forward(fwd, over, farthest) {
                    Probe::Take(i) => {
                        return Some(i);
                    },
                    Probe::Stop => {
                        stop_fwd = true;
                    },
                    Probe::Skip => {
                        fwd = fwd + 1;
                        proof {
                            lemma_forward_end_from_ge(self@, fwd as nat);
                        }
                    },
                }
            }
            if !stop_fwd {
                match self.probe_forward(fwd, over, farthest) {
                    Probe::Take(i) => {
                        return Some(i);
                    },
                    Probe::Stop => {
                        stop_fwd = true;
                    },
                    Probe::Skip => {
                        fwd = fwd + 1;
                        proof {
                            lemma_forward_end_from_ge(self@, fwd as nat);
                        }
                    },
                }
            }
            if !stop_bwd {
                match self.probe_backward(bwd, over, farthest) {
                    Probe::Take(i) => {
                        return Some(i);
                    },
                    Probe::Stop => {
                        stop_bwd = true;
                    },
                    Probe::Skip => {
                        bwd = bwd + 1;
                        proof {
                            lemma_backward_end_from_ge(self@, bwd as nat);
                        }
                    },
                }
            }
            round = round + 1;
        }
        None
    }

    /// The grid-view policy.
    fn find_thumbnail_work(&self) -> (r: Option<usize>)
        ensures
            match r {
                Some(i) => self@.is_nearest_missing_thumbnail(i),
                None => forall|j: usize| !self@.is_available(j, WorkKind::Thumbnail),
            },
    {
        let cur = self.current_idx();
        let count = self.file_count();
        if count == 0 {
            return None;
        }
        let first = if cur >= count {
            cur - (count - 1)
        } else {
            0
        };
        let last = if cur < count && count - 1 - cur > cur {
            count - 1 - cur
        } else {
            cur
        };
        let mut d = first;
        loop
            invariant
                cur == self@.current_idx,
                count == self@.file_count,
                d <= last,
                forall|j: usize| j < count ==> distance(j, cur) <= last,
                forall|j: usize| #[trigger]
                    self@.is_available(j, WorkKind::Thumbnail) ==> distance(j, cur) >= d,
            ensures
                forall|j: usize| !self@.is_available(j, WorkKind::Thumbnail),
            decreases last - d,
        {
            if d <= cur {
                let i = cur - d;
                if self.is_available(i, WorkKind::Thumbnail) {
                    return Some(i);
                }
            }
            match cur.checked_add(d) {
                Some(i) => {
                    if self.is_available(i, WorkKind::Thumbnail) {
                        return Some(i);
                    }
                },
                None => {},
            }
            if d == last {
                break ;
            }
            d = d + 1;
        }
        None
    }

    /// The decode to start next under the active policy, or `None` where
    /// nothing is eligible and the caller has to wait.
    pub fn find_work(&self) -> (r: Option<(usize, WorkKind)>)
        ensures
            self@.schedules(r),
            r matches Some((i, kind)) ==> self@.is_available(i, kind),
            self@.file_count == 0 ==> r is None,
    {
        match self.view_mode() {
            ViewMode::Single => match self.find_full_work() {
                Some(i) => Some((i, WorkKind::Full)),
                None => None,
            },
            ViewMode::Grid => match self.find_thumbnail_work() {
                Some(i) => Some((i, WorkKind::Thumbnail)),
                None => None,
            },
        }
    }
}

} // verus!
