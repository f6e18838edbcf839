//! The mathematical model of the cache: what is cached, what is in flight,
//! what failed, and how many bytes are accounted against the budget.

use crate::loader::{DecodedImage, ViewMode, WorkKind};
use std::sync::Arc;
use vstd::prelude::*;

verus! {

/// How far the single-view scan looks in one direction before it gives up.
pub const MAX_SCAN: usize = 2000;

/// Assumed size of a decoded image while nothing is cached yet (8 MiB).
pub const DEFAULT_IMAGE_BYTES: u64 = 8388608;

/// Absolute difference between two indices.
pub open spec fn distance(a: usize, b: usize) -> nat {
    if a >= b {
        (a - b) as nat
    } else {
        (b - a) as nat
    }
}

/// Bytes held by the entries of `images` whose index is below `n`.
pub open spec fn bytes_below(images: Map<usize, Arc<DecodedImage>>, n: nat) -> nat
    decreases n,
{
    if n == 0 {
        0
    } else {
        let i = (n - 1) as usize;
        bytes_below(images, (n - 1) as nat) + if images.contains_key(i) {
            images[i].footprint()
        } else {
            0
        }
    }
}

/// Sum of the footprints of all entries of `images`.
pub open spec fn cached_bytes(images: Map<usize, Arc<DecodedImage>>) -> nat {
    bytes_below(images, usize::MAX as nat + 1)
}

/// What a `CacheState` stands for.
pub struct CacheView {
    pub current_idx: usize,
    pub view_mode: ViewMode,
    pub images: Map<usize, Arc<DecodedImage>>,
    pub thumbnails: Map<usize, Arc<DecodedImage>>,
    pub in_progress: Set<usize>,
    pub thumbnails_in_progress: Set<usize>,
    pub errors: Map<usize, String>,
    pub thumbnail_errors: Map<usize, String>,
    pub used_bytes: nat,
    pub budget: nat,
    pub file_count: usize,
    pub saturated: Set<usize>,
}

impl CacheView {
    /// The state right after construction: nothing cached, nothing in flight.
    pub open spec fn empty(budget: u64, file_count: usize) -> CacheView {
        CacheView {
            current_idx: 0,
            view_mode: ViewMode::Single,
            images: Map::empty(),
            thumbnails: Map::empty(),
            in_progress: Set::empty(),
            thumbnails_in_progress: Set::empty(),
            errors: Map::empty(),
            thumbnail_errors: Map::empty(),
            used_bytes: 0,
            budget: budget as nat,
            file_count,
            saturated: Set::empty(),
        }
    }

    /// The byte accounting matches the full-image cache, and the current
    /// index is not marked saturated.
    pub open spec fn accounted(self) -> bool {
        &&& self.images.dom().finite()
        &&& self.in_progress.finite()
        &&& self.used_bytes == cached_bytes(self.images)
        &&& !self.saturated.contains(self.current_idx)
    }

    /// The full-image cache is within budget, or down to a single entry that
    /// is kept whatever its size.
    pub open spec fn within_budget(self) -> bool {
        self.used_bytes <= self.budget || self.images.dom().len() <= 1
    }

    /// What holds of every state between two operations.
    pub open spec fn inv(self) -> bool {
        self.accounted() && self.within_budget()
    }

    /// Entries cached for `kind`.
    pub open spec fn cached(self, kind: WorkKind) -> Map<usize, Arc<DecodedImage>> {
        match kind {
            WorkKind::Full => self.images,
            WorkKind::Thumbnail => self.thumbnails,
        }
    }

    /// Indices some worker is decoding for `kind`.
    pub open spec fn pending(self, kind: WorkKind) -> Set<usize> {
        match kind {
            WorkKind::Full => self.in_progress,
            WorkKind::Thumbnail => self.thumbnails_in_progress,
        }
    }

    /// Indices whose decode for `kind` failed, with the reason.
    pub open spec fn failed(self, kind: WorkKind) -> Map<usize, String> {
        match kind {
            WorkKind::Full => self.errors,
            WorkKind::Thumbnail => self.thumbnail_errors,
        }
    }

    /// `idx` is in at most one of: cached, in flight, failed, for `kind`.
    pub open spec fn in_one_place(self, idx: usize, kind: WorkKind) -> bool {
        &&& !(self.cached(kind).contains_key(idx) && self.pending(kind).contains(idx))
        &&& !(self.cached(kind).contains_key(idx) && self.failed(kind).contains_key(idx))
        &&& !(self.pending(kind).contains(idx) && self.failed(kind).contains_key(idx))
    }

    /// No index is at once cached, in flight or failed for the same kind: no
    /// work is done twice, and failed work does not come back.
    pub open spec fn exclusive(self) -> bool {
        forall|idx: usize, kind: WorkKind| #[trigger] self.in_one_place(idx, kind)
    }

    /// Distance of `idx` from the current index.
    pub open spec fn dist(self, idx: usize) -> nat {
        distance(idx, self.current_idx)
    }

    /// Whether `(idx, kind)` may be handed to a worker.
    pub open spec fn is_available(self, idx: usize, kind: WorkKind) -> bool {
        &&& idx < self.file_count
        &&& !self.pending(kind).contains(idx)
        &&& !self.cached(kind).contains_key(idx)
        &&& !self.failed(kind).contains_key(idx)
        &&& (kind == WorkKind::Full ==> !self.saturated.contains(idx))
    }

    /// `k` is a cached full image other than the current one that lies
    /// farther from the current index than `idx`.
    pub open spec fn is_farther_cached(self, k: usize, idx: usize) -> bool {
        &&& self.images.contains_key(k)
        &&& k != self.current_idx
        &&& self.dist(k) > self.dist(idx)
    }

    /// `idx` is strictly nearer than the farthest cached full image, the
    /// current one left aside: it would deserve to replace that entry.
    pub open spec fn closer_than_some_cached(self, idx: usize) -> bool {
        exists|k: usize| #[trigger] self.is_farther_cached(k, idx)
    }

    /// Mean size of the cached full images, or the default while none is cached.
    pub open spec fn avg_image_size(self) -> nat {
        if self.images.dom().len() == 0 {
            DEFAULT_IMAGE_BYTES as nat
        } else {
            self.used_bytes / self.images.dom().len()
        }
    }

    /// Whether one more image of average size, on top of what is cached and
    /// what is being decoded, would exceed the budget.
    pub open spec fn over_budget(self) -> bool {
        self.used_bytes + self.in_progress.len() * self.avg_image_size() + self.avg_image_size()
            > self.budget
    }

    /// Whether the budget lets a full decode of `idx` be scheduled.
    pub open spec fn affordable(self, idx: usize) -> bool {
        !self.over_budget() || self.closer_than_some_cached(idx)
    }

    /// Whether a decoded full image of `size` bytes for `idx` is turned away:
    /// it is not the current one, it does not fit, and nothing cached lies
    /// farther away than it.
    pub open spec fn rejects(self, idx: usize, size: nat) -> bool {
        &&& idx != self.current_idx
        &&& self.used_bytes + size > self.budget
        &&& !self.closer_than_some_cached(idx)
    }

    /// The state with `img` stored as the full image of `idx`, before eviction.
    pub open spec fn with_image(self, idx: usize, img: DecodedImage) -> CacheView {
        CacheView {
            images: self.images.insert(idx, Arc::new(img)),
            used_bytes: cached_bytes(self.images.insert(idx, Arc::new(img))),
            ..self
        }
    }

    /// `r` was cached in `self` and is no longer in `post`.
    pub open spec fn evicted(self, post: CacheView, r: usize) -> bool {
        self.images.contains_key(r) && !post.images.contains_key(r)
    }

    /// `r` is the entry whose eviction ended the run from `self` to `post`:
    /// none that left was nearer, and with it the cache was still over budget.
    pub open spec fn last_evicted(self, post: CacheView, r: usize) -> bool {
        &&& self.evicted(post, r)
        &&& post.used_bytes + self.images[r].footprint() > self.budget
        &&& forall|q: usize| #[trigger] self.evicted(post, q) ==> self.dist(q) >= self.dist(r)
    }

    /// `post` is what eviction may leave of `self`: only full images leave,
    /// never the current one, always the farthest first, and no more of them
    /// than it takes to get under budget or down to a single entry.
    pub open spec fn evicts_to(self, post: CacheView) -> bool {
        &&& post == CacheView { images: post.images, used_bytes: post.used_bytes, ..self }
        &&& post.images.submap_of(self.images)
        &&& post.used_bytes == cached_bytes(post.images)
        &&& self.images.contains_key(self.current_idx) ==> post.images.contains_key(
            self.current_idx,
        )
        &&& forall|r: usize, k: usize|
            #![trigger self.evicted(post, r), post.images.contains_key(k)]
            self.evicted(post, r) && post.images.contains_key(k) && k != self.current_idx
                ==> self.dist(r) >= self.dist(k)
        &&& post.used_bytes <= self.budget || post.images.dom().len() <= 1
        &&& post.images == self.images || (post.images.dom().len() >= 1 && exists|r: usize|
            #[trigger] self.last_evicted(post, r))
    }

    /// `post` is what storing the decoded `img` for `(idx, kind)` may leave of
    /// `self`.
    pub open spec fn inserts_to(
        self,
        idx: usize,
        img: DecodedImage,
        kind: WorkKind,
        post: CacheView,
    ) -> bool {
        match kind {
            WorkKind::Thumbnail => post == CacheView {
                thumbnails: self.thumbnails.insert(idx, Arc::new(img)),
                ..self
            },
            WorkKind::Full => if self.rejects(idx, img.footprint()) {
                post == CacheView { saturated: self.saturated.insert(idx), ..self }
            } else {
                self.with_image(idx, img).evicts_to(post)
            },
        }
    }

    /// The state after the viewer moved to `idx`.
    pub open spec fn with_current(self, idx: usize) -> CacheView {
        if idx != self.current_idx {
            CacheView { current_idx: idx, saturated: Set::empty(), ..self }
        } else {
            self
        }
    }

    /// The state with `(idx, kind)` marked as being decoded.
    pub open spec fn with_pending(self, idx: usize, kind: WorkKind) -> CacheView {
        match kind {
            WorkKind::Full => CacheView { in_progress: self.in_progress.insert(idx), ..self },
            WorkKind::Thumbnail => CacheView {
                thumbnails_in_progress: self.thumbnails_in_progress.insert(idx),
                ..self
            },
        }
    }

    /// The state with `(idx, kind)` no longer marked as being decoded.
    pub open spec fn without_pending(self, idx: usize, kind: WorkKind) -> CacheView {
        match kind {
            WorkKind::Full => CacheView { in_progress: self.in_progress.remove(idx), ..self },
            WorkKind::Thumbnail => CacheView {
                thumbnails_in_progress: self.thumbnails_in_progress.remove(idx),
                ..self
            },
        }
    }

    /// The state with the decode of `(idx, kind)` recorded as failed.
    pub open spec fn with_error(self, idx: usize, kind: WorkKind, message: String) -> CacheView {
        match kind {
            WorkKind::Full => CacheView { errors: self.errors.insert(idx, message), ..self },
            WorkKind::Thumbnail => CacheView {
                thumbnail_errors: self.thumbnail_errors.insert(idx, message),
                ..self
            },
        }
    }

    /// `post` is what recording the outcome of the decode of `(idx, kind)`
    /// may leave of `self`: the in-flight mark goes, and then the image is
    /// stored or the failure recorded.
    pub open spec fn finishes_to(
        self,
        idx: usize,
        kind: WorkKind,
        outcome: Result<DecodedImage, String>,
        post: CacheView,
    ) -> bool {
        match outcome {
            Ok(img) => self.without_pending(idx, kind).inserts_to(idx, img, kind, post),
            Err(message) => post == self.without_pending(idx, kind).with_error(
                idx,
                kind,
                message,
            ),
        }
    }
}

/// Nothing below any bound in an empty map.
pub proof fn lemma_bytes_below_empty(n: nat)
    ensures
        bytes_below(Map::empty(), n) == 0,
    decreases n,
{
    if n > 0 {
        lemma_bytes_below_empty((n - 1) as nat);
    }
}

/// Storing `v` at `k` changes the partial sum by the difference between the
/// new entry and the one it replaces, once the bound lies above `k`.
pub proof fn lemma_bytes_below_insert(
    images: Map<usize, Arc<DecodedImage>>,
    k: usize,
    v: Arc<DecodedImage>,
    n: nat,
)
    requires
        n <= usize::MAX as nat + 1,
    ensures
        bytes_below(images.insert(k, v), n) + (if k < n && images.contains_key(k) {
            images[k].footprint()
        } else {
            0
        }) == bytes_below(images, n) + (if k < n {
            v.footprint()
        } else {
            0
        }),
    decreases n,
{
    if n > 0 {
        lemma_bytes_below_insert(images, k, v, (n - 1) as nat);
    }
}

/// Dropping the entry at `k` lowers the partial sum by its footprint, once the
/// bound lies above `k`.
pub proof fn lemma_bytes_below_remove(images: Map<usize, Arc<DecodedImage>>, k: usize, n: nat)
    requires
        n <= usize::MAX as nat + 1,
    ensures
        bytes_below(images.remove(k), n) + (if k < n && images.contains_key(k) {
            images[k].footprint()
        } else {
            0
        }) == bytes_below(images, n),
    decreases n,
{
    if n > 0 {
        lemma_bytes_below_remove(images, k, (n - 1) as nat);
    }
}

/// A part of a cache holds no more bytes than the whole, even with one of
/// the entries it lacks counted in.
pub proof fn lemma_bytes_below_submap(
    part: Map<usize, Arc<DecodedImage>>,
    whole: Map<usize, Arc<DecodedImage>>,
    r: usize,
    n: nat,
)
    requires
        part.submap_of(whole),
        whole.contains_key(r),
        !part.contains_key(r),
        n <= usize::MAX as nat + 1,
    ensures
        bytes_below(part, n) + (if r < n {
            whole[r].footprint()
        } else {
            0
        }) <= bytes_below(whole, n),
    decreases n,
{
    if n > 0 {
        lemma_bytes_below_submap(part, whole, r, (n - 1) as nat);
        let i = (n - 1) as usize;
        if part.contains_key(i) {
            assert(whole.contains_key(i) && whole[i] == part[i]);
        }
    }
}

/// Each entry is at most `usize::MAX` bytes, so the partial sum is bounded by
/// the number of indices it ranges over.
pub proof fn lemma_bytes_below_bound(images: Map<usize, Arc<DecodedImage>>, n: nat)
    ensures
        bytes_below(images, n) <= n * (usize::MAX as nat),
    decreases n,
{
    if n > 0 {
        lemma_bytes_below_bound(images, (n - 1) as nat);
        let i = (n - 1) as usize;
        if images.contains_key(i) {
            images[i].lemma_footprint_bounded();
        }
        assert(n * (usize::MAX as nat) == (n - 1) * (usize::MAX as nat) + usize::MAX as nat)
            by (nonlinear_arith);
    }
}

/// The byte total of any cache, with room for one more image, fits in 128
/// bits.
pub proof fn lemma_cached_bytes_fits(images: Map<usize, Arc<DecodedImage>>)
    ensures
        cached_bytes(images) + usize::MAX <= u128::MAX,
{
    lemma_bytes_below_bound(images, usize::MAX as nat + 1);
    let m = usize::MAX as nat;
    assert((m + 1) * m + m < 0x1_0000_0000_0000_0000_0000_0000_0000_0000) by (nonlinear_arith)
        requires
            m <= 0xffff_ffff_ffff_ffff,
    ;
}

} // verus!
