//! What holds of every state and every transition of the cache.

use crate::loader::{DecodedImage, ViewMode, WorkKind};
use crate::model::{lemma_bytes_below_submap, CacheView};
use std::sync::Arc;
use vstd::prelude::*;

verus! {

/// Eviction removes full images only, so it never makes an index cached, in
/// flight or failed that was not so before.
pub proof fn lemma_evict_keeps_exclusive(pre: CacheView, post: CacheView)
    requires
        pre.exclusive(),
        pre.evicts_to(post),
    ensures
        post.exclusive(),
{
    assert forall|idx: usize, kind: WorkKind| #[trigger] post.in_one_place(idx, kind) by {
        assert(pre.in_one_place(idx, kind));
    }
}

/// Storing the image of an index that is neither in flight nor failed keeps
/// every index in at most one of: cached, in flight, failed.
pub proof fn lemma_insert_keeps_exclusive(
    pre: CacheView,
    idx: usize,
    img: DecodedImage,
    kind: WorkKind,
    post: CacheView,
)
    requires
        pre.exclusive(),
        !pre.pending(kind).contains(idx),
        !pre.failed(kind).contains_key(idx),
        pre.inserts_to(idx, img, kind, post),
    ensures
        post.exclusive(),
{
    if kind == WorkKind::Full && !pre.rejects(idx, img.footprint()) {
        let mid = pre.with_image(idx, img);
        assert forall|i: usize, k: WorkKind| #[trigger] mid.in_one_place(i, k) by {
            assert(pre.in_one_place(i, k));
        }
        lemma_evict_keeps_exclusive(mid, post);
    } else {
        assert forall|i: usize, k: WorkKind| #[trigger] post.in_one_place(i, k) by {
            assert(pre.in_one_place(i, k));
        }
    }
}

/// Handing out a unit of work that is available keeps every index in at most
/// one of: cached, in flight, failed.
pub proof fn lemma_claim_keeps_exclusive(pre: CacheView, idx: usize, kind: WorkKind)
    requires
        pre.exclusive(),
        pre.is_available(idx, kind),
    ensures
        pre.with_pending(idx, kind).exclusive(),
{
    let post = pre.with_pending(idx, kind);
    assert forall|i: usize, k: WorkKind| #[trigger] post.in_one_place(i, k) by {
        assert(pre.in_one_place(i, k));
    }
}

/// Recording the outcome of a decode that was in flight keeps every index in
/// at most one of: cached, in flight, failed.
pub proof fn lemma_finish_keeps_exclusive(
    pre: CacheView,
    idx: usize,
    kind: WorkKind,
    outcome: Result<DecodedImage, String>,
    post: CacheView,
)
    requires
        pre.exclusive(),
        pre.pending(kind).contains(idx),
        pre.finishes_to(idx, kind, outcome, post),
    ensures
        post.exclusive(),
{
    let mid = pre.without_pending(idx, kind);
    assert(pre.in_one_place(idx, kind));
    assert forall|i: usize, k: WorkKind| #[trigger] mid.in_one_place(i, k) by {
        assert(pre.in_one_place(i, k));
    }
    match outcome {
        Ok(img) => {
            lemma_insert_keeps_exclusive(mid, idx, img, kind, post);
        },
        Err(message) => {
            lemma_failure_keeps_exclusive(mid, idx, kind, message);
        },
    }
}

/// Recording the failure of a unit that is neither cached nor in flight
/// keeps every index in at most one of: cached, in flight, failed.
pub proof fn lemma_failure_keeps_exclusive(
    pre: CacheView,
    idx: usize,
    kind: WorkKind,
    message: String,
)
    requires
        pre.exclusive(),
        !pre.cached(kind).contains_key(idx),
        !pre.pending(kind).contains(idx),
    ensures
        pre.with_error(idx, kind, message).exclusive(),
{
    let post = pre.with_error(idx, kind, message);
    assert forall|i: usize, k: WorkKind| #[trigger] post.in_one_place(i, k) by {
        assert(pre.in_one_place(i, k));
    }
}

/// Dropping an in-flight mark, moving the viewer or growing the file list
/// keeps every index in at most one of: cached, in flight, failed.
pub proof fn lemma_bookkeeping_keeps_exclusive(
    pre: CacheView,
    idx: usize,
    kind: WorkKind,
    file_count: usize,
)
    requires
        pre.exclusive(),
    ensures
        pre.without_pending(idx, kind).exclusive(),
        pre.with_current(idx).exclusive(),
        (CacheView { file_count, ..pre }).exclusive(),
{
    let a = pre.without_pending(idx, kind);
    assert forall|i: usize, k: WorkKind| #[trigger] a.in_one_place(i, k) by {
        assert(pre.in_one_place(i, k));
    }
    let b = pre.with_current(idx);
    assert forall|i: usize, k: WorkKind| #[trigger] b.in_one_place(i, k) by {
        assert(pre.in_one_place(i, k));
    }
    let c = CacheView { file_count, ..pre };
    assert forall|i: usize, k: WorkKind| #[trigger] c.in_one_place(i, k) by {
        assert(pre.in_one_place(i, k));
    }
}

/// Switching the view mode keeps every index in at most one of: cached, in
/// flight, failed.
pub proof fn lemma_mode_keeps_exclusive(pre: CacheView, mode: ViewMode)
    requires
        pre.exclusive(),
    ensures
        (CacheView { view_mode: mode, ..pre }).exclusive(),
{
    let post = CacheView { view_mode: mode, ..pre };
    assert forall|i: usize, k: WorkKind| #[trigger] post.in_one_place(i, k) by {
        assert(pre.in_one_place(i, k));
    }
}

/// The full image of the current index, once cached, stays through eviction
/// as long as the viewer does not move.
pub proof fn lemma_eviction_keeps_current(pre: CacheView, post: CacheView)
    requires
        pre.evicts_to(post),
        pre.images.contains_key(pre.current_idx),
    ensures
        post.current_idx == pre.current_idx,
        post.images.contains_key(post.current_idx),
        post.images[post.current_idx] == pre.images[pre.current_idx],
{
}

/// Eviction leaves a cache of at most one entry as it is, whatever the
/// overage: a lone image of the current index is never removed.
pub proof fn lemma_eviction_spares_single_entry(pre: CacheView, post: CacheView)
    requires
        pre.images.dom().finite(),
        pre.images.dom().len() <= 1,
        pre.evicts_to(post),
    ensures
        post.images == pre.images,
{
    if post.images != pre.images {
        let r = choose|r: usize| #[trigger] pre.last_evicted(post, r);
        assert(pre.evicted(post, r));
        vstd::set_lib::lemma_len_subset(post.images.dom(), pre.images.dom());
        vstd::set_lib::lemma_len_subset(post.images.dom().insert(r), pre.images.dom());
        assert(post.images.dom().insert(r).len() == post.images.dom().len() + 1);
    }
}

/// Eviction leaves a cache that is within budget as it is.
pub proof fn lemma_eviction_spares_cache_within_budget(pre: CacheView, post: CacheView)
    requires
        pre.accounted(),
        pre.used_bytes <= pre.budget,
        pre.evicts_to(post),
    ensures
        post == pre,
{
    if post.images != pre.images {
        let r = choose|r: usize| #[trigger] pre.last_evicted(post, r);
        lemma_bytes_below_submap(post.images, pre.images, r, usize::MAX as nat + 1);
    }
}

/// A full image that fits in the budget beside what is cached is stored,
/// and nothing is evicted for it.
pub proof fn lemma_image_that_fits_is_stored(
    pre: CacheView,
    idx: usize,
    img: DecodedImage,
    post: CacheView,
)
    requires
        pre.accounted(),
        !pre.images.contains_key(idx),
        pre.used_bytes + img.footprint() <= pre.budget,
        pre.inserts_to(idx, img, WorkKind::Full, post),
    ensures
        post == pre.with_image(idx, img),
        post.used_bytes == pre.used_bytes + img.footprint(),
{
    let mid = pre.with_image(idx, img);
    crate::model::lemma_bytes_below_insert(
        pre.images,
        idx,
        Arc::new(img),
        usize::MAX as nat + 1,
    );
    lemma_eviction_spares_cache_within_budget(mid, post);
}

/// A full image decoded for the current index is always stored, however far
/// over budget the cache already is, and its index is not marked saturated.
pub proof fn lemma_current_is_never_rejected(pre: CacheView, img: DecodedImage, post: CacheView)
    requires
        pre.inserts_to(pre.current_idx, img, WorkKind::Full, post),
    ensures
        post.images.contains_key(pre.current_idx),
        post.images[pre.current_idx] == Arc::new(img),
        post.saturated == pre.saturated,
{
    let mid = pre.with_image(pre.current_idx, img);
    assert(mid.images.contains_key(mid.current_idx));
}

/// With a budget smaller than the image, and nothing cached but perhaps the
/// current index, a full image for any other index is turned away and marked
/// saturated, and the cache goes on holding nothing but the current index.
pub proof fn lemma_small_budget_keeps_only_current(
    pre: CacheView,
    idx: usize,
    img: DecodedImage,
    post: CacheView,
)
    requires
        pre.images.dom().subset_of(set![pre.current_idx]),
        img.footprint() > pre.budget,
        pre.inserts_to(idx, img, WorkKind::Full, post),
    ensures
        post.images.dom().subset_of(set![pre.current_idx]),
        idx != pre.current_idx ==> post.images == pre.images && post.saturated
            == pre.saturated.insert(idx),
{
    if idx != pre.current_idx {
        assert forall|k: usize| !pre.is_farther_cached(k, idx) by {}
        assert(pre.rejects(idx, img.footprint()));
    } else {
        let mid = pre.with_image(idx, img);
        assert(mid.images.dom() =~= set![pre.current_idx]);
    }
}

/// Moving the viewer to another index leaves no index marked saturated.
pub proof fn lemma_move_clears_saturated(pre: CacheView, idx: usize)
    requires
        idx != pre.current_idx,
    ensures
        pre.with_current(idx).saturated == Set::<usize>::empty(),
        pre.with_current(idx).current_idx == idx,
{
}

/// With no files there is nothing to schedule, in either view.
pub proof fn lemma_no_files_no_work(s: CacheView, r: Option<(usize, WorkKind)>)
    requires
        s.file_count == 0,
        s.schedules(r),
    ensures
        r is None,
{
}

/// Whatever is scheduled is available at that moment: in range, not cached,
/// not in flight, not failed and, for a full image, not saturated.
pub proof fn lemma_scheduled_is_available(s: CacheView, r: Option<(usize, WorkKind)>)
    requires
        s.schedules(r),
    ensures
        r matches Some((idx, kind)) ==> s.is_available(idx, kind),
{
    crate::schedule::lemma_forward_end_from_ge(s, 1);
    crate::schedule::lemma_backward_end_from_ge(s, 1);
}

/// A unit that is in flight is not handed out again, and one whose decode
/// failed never is, wherever the viewer moves: no two workers hold the same
/// unit, and failures are final.
pub proof fn lemma_taken_or_failed_is_not_scheduled(
    s: CacheView,
    idx: usize,
    kind: WorkKind,
    r: Option<(usize, WorkKind)>,
)
    requires
        s.pending(kind).contains(idx) || s.failed(kind).contains_key(idx),
        s.schedules(r),
    ensures
        r != Some((idx, kind)),
{
    lemma_scheduled_is_available(s, r);
}

} // verus!
