//! Decoded images and the cache state that workers and the viewer share.

use crate::laws::{
    lemma_bookkeeping_keeps_exclusive, lemma_claim_keeps_exclusive, lemma_evict_keeps_exclusive,
    lemma_failure_keeps_exclusive, lemma_insert_keeps_exclusive, lemma_mode_keeps_exclusive,
};
use crate::model::{
    distance, lemma_bytes_below_empty, lemma_bytes_below_insert, lemma_bytes_below_remove,
    lemma_cached_bytes_fits, CacheView, DEFAULT_IMAGE_BYTES,
};
use std::collections::{HashMap, HashSet};
use std::sync::Arc;
use vstd::prelude::*;

verus! {

/// What a unit of decode work produces.
#[derive(Clone, Copy, Debug, PartialEq, Eq, Structural)]
pub enum WorkKind {
    /// The image at its native resolution, charged against the byte budget.
    Full,
    /// A small fixed-size rendition for the grid view.
    Thumbnail,
}

/// Which scheduling policy is active.
#[derive(Clone, Copy, Debug, PartialEq, Eq, Structural)]
pub enum ViewMode {
    Single,
    Grid,
}

/// What workers tell the consumer.
#[derive(Clone, Copy, Debug, PartialEq, Eq, Structural)]
pub enum UserEvent {
    ImageReady(usize),
    ThumbnailReady(usize),
    FileListUpdated,
}

/// What a `DecodedImage` stands for.
pub struct ImageView {
    /// Raw pixels, row by row, four bytes to a pixel.
    pub pixels: Seq<u8>,
    pub width: u32,
    pub height: u32,
    /// Size of the file the image was decoded from.
    pub file_size: u64,
    /// Label of the format, for display.
    pub format_name: Seq<char>,
}

/// One decoded picture. Its buffer always holds `width * height` pixels of
/// four bytes; it is made once and not changed afterwards.
pub struct DecodedImage {
    rgba_bytes: Vec<u8>,
    width: u32,
    height: u32,
    file_size: u64,
    format_name: String,
}

impl View for DecodedImage {
    type V = ImageView;

    closed spec fn view(&self) -> ImageView {
        ImageView {
            pixels: self.rgba_bytes@,
            width: self.width,
            height: self.height,
            file_size: self.file_size,
            format_name: self.format_name@,
        }
    }
}

impl DecodedImage {
    #[verifier::type_invariant]
    spec fn well_formed(&self) -> bool {
        self.rgba_bytes@.len() == self.width as nat * self.height as nat * 4
    }

    /// Number of bytes the pixel buffer occupies.
    pub open spec fn footprint(&self) -> nat {
        self@.pixels.len()
    }

    /// No buffer is longer than the address space.
    pub proof fn lemma_footprint_bounded(&self)
        ensures
            self.footprint() <= usize::MAX,
    {
        assert(self.rgba_bytes.len() == self.rgba_bytes@.len());
    }

    /// A decoded image from its parts; `None` where the buffer does not hold
    /// exactly `width * height` pixels of four bytes.
    pub fn new(
        rgba_bytes: Vec<u8>,
        width: u32,
        height: u32,
        file_size: u64,
        format_name: String,
    ) -> (r: Option<DecodedImage>)
        ensures
            r is Some <==> rgba_bytes@.len() == width as nat * height as nat * 4,
            r matches Some(img) ==> img@ == (ImageView {
                pixels: rgba_bytes@,
                width,
                height,
                file_size,
                format_name: format_name@,
            }),
    {
        assert(width * height <= 0xffff_ffff * 0xffff_ffff) by (nonlinear_arith)
            requires
                0 <= width <= 0xffff_ffff,
                0 <= height <= 0xffff_ffff,
        ;
        let expected = width as u128 * height as u128 * 4;
        if rgba_bytes.len() as u128 == expected {
            Some(DecodedImage { rgba_bytes, width, height, file_size, format_name })
        } else {
            None
        }
    }

    /// Memory footprint in bytes: four for each pixel.
    pub fn mem_size(&self) -> (r: u64)
        ensures
            r == self.footprint(),
            r == self@.width as nat * self@.height as nat * 4,
            r <= usize::MAX,
    {
        proof {
            use_type_invariant(self);
        }
        self.rgba_bytes.len() as u64
    }

    /// The raw pixels.
    pub fn rgba_bytes(&self) -> (r: &Vec<u8>)
        ensures
            r@ == self@.pixels,
            r@.len() == self@.width as nat * self@.height as nat * 4,
    {
        proof {
            use_type_invariant(self);
        }
        &self.rgba_bytes
    }

    /// Width in pixels.
    pub fn width(&self) -> (r: u32)
        ensures
            r == self@.width,
    {
        self.width
    }

    /// Height in pixels.
    pub fn height(&self) -> (r: u32)
        ensures
            r == self@.height,
    {
        self.height
    }

    /// Size of the file the image was decoded from.
    pub fn file_size(&self) -> (r: u64)
        ensures
            r == self@.file_size,
    {
        self.file_size
    }

    /// Label of the format, for display.
    pub fn format_name(&self) -> (r: &String)
        ensures
            r@ == self@.format_name,
    {
        &self.format_name
    }
}

/// The lock-protected aggregate: cache contents, in-flight work, failures and
/// byte accounting.
pub struct CacheState {
    current_idx: usize,
    view_mode: ViewMode,
    images: HashMap<usize, Arc<DecodedImage>>,
    thumbnails: HashMap<usize, Arc<DecodedImage>>,
    in_progress: HashSet<usize>,
    thumbnails_in_progress: HashSet<usize>,
    errors: HashMap<usize, String>,
    thumbnail_errors: HashMap<usize, String>,
    used_bytes: u128,
    budget: u64,
    file_count: usize,
    saturated: HashSet<usize>,
}

impl View for CacheState {
    type V = CacheView;

    closed spec fn view(&self) -> CacheView {
        CacheView {
            current_idx: self.current_idx,
            view_mode: self.view_mode,
            images: self.images@,
            thumbnails: self.thumbnails@,
            in_progress: self.in_progress@,
            thumbnails_in_progress: self.thumbnails_in_progress@,
            errors: self.errors@,
            thumbnail_errors: self.thumbnail_errors@,
            used_bytes: self.used_bytes as nat,
            budget: self.budget as nat,
            file_count: self.file_count,
            saturated: self.saturated@,
        }
    }
}

impl CacheState {
    /// The state's invariant, stated over its model.
    pub open spec fn inv(&self) -> bool {
        self@.inv()
    }

    /// The part of the invariant that holds even between storing an image
    /// and evicting for it.
    pub open spec fn accounted(&self) -> bool {
        self@.accounted()
    }

    /// An empty cache with the given budget, looking at index 0 in single view.
    pub fn new(budget: u64, file_count: usize) -> (s: Self)
        ensures
            s@ == CacheView::empty(budget, file_count),
            s.inv(),
            s@.exclusive(),
    {
        broadcast use vstd::std_specs::hash::group_hash_axioms;

        proof {
            lemma_bytes_below_empty(usize::MAX as nat + 1);
            assert forall|idx: usize, kind: WorkKind| #[trigger]
                CacheView::empty(budget, file_count).in_one_place(idx, kind) by {}
        }
        CacheState {
            current_idx: 0,
            view_mode: ViewMode::Single,
            images: HashMap::new(),
            thumbnails: HashMap::new(),
            in_progress: HashSet::new(),
            thumbnails_in_progress: HashSet::new(),
            errors: HashMap::new(),
            thumbnail_errors: HashMap::new(),
            used_bytes: 0,
            budget,
            file_count,
            saturated: HashSet::new(),
        }
    }

    /// Index the viewer currently wants displayed.
    pub fn current_idx(&self) -> (r: usize)
        ensures
            r == self@.current_idx,
    {
        self.current_idx
    }

    /// Active scheduling policy.
    pub fn view_mode(&self) -> (r: ViewMode)
        ensures
            r == self@.view_mode,
    {
        self.view_mode
    }

    /// Upper bound on valid indices.
    pub fn file_count(&self) -> (r: usize)
        ensures
            r == self@.file_count,
    {
        self.file_count
    }

    /// Bytes accounted to the full-resolution cache.
    pub fn used_bytes(&self) -> (r: u128)
        ensures
            r == self@.used_bytes,
    {
        self.used_bytes
    }

    /// The byte budget given at construction.
    pub fn budget(&self) -> (r: u64)
        ensures
            r == self@.budget,
    {
        self.budget
    }

    /// Number of cached full images.
    pub fn cached_count(&self) -> (r: usize)
        ensures
            r == self@.images.dom().len(),
    {
        broadcast use vstd::std_specs::hash::group_hash_axioms;

        self.images.len()
    }

    /// Number of cached thumbnails.
    pub fn thumbnail_count(&self) -> (r: usize)
        ensures
            r == self@.thumbnails.dom().len(),
    {
        broadcast use vstd::std_specs::hash::group_hash_axioms;

        self.thumbnails.len()
    }

    /// Whether some worker is decoding `(idx, kind)`.
    pub fn is_in_progress(&self, idx: usize, kind: WorkKind) -> (r: bool)
        ensures
            r == self@.pending(kind).contains(idx),
    {
        broadcast use vstd::std_specs::hash::group_hash_axioms;

        match kind {
            WorkKind::Full => self.in_progress.contains(&idx),
            WorkKind::Thumbnail => self.thumbnails_in_progress.contains(&idx),
        }
    }

    /// Why the decode of `(idx, kind)` failed, if it did.
    pub fn error(&self, idx: usize, kind: WorkKind) -> (r: Option<String>)
        ensures
            r == (if self@.failed(kind).contains_key(idx) {
                Some(self@.failed(kind)[idx])
            } else {
                None
            }),
    {
        broadcast use vstd::std_specs::hash::group_hash_axioms;

        let found = match kind {
            WorkKind::Full => self.errors.get(&idx),
            WorkKind::Thumbnail => self.thumbnail_errors.get(&idx),
        };
        match found {
            Some(message) => Some(message.clone()),
            None => None,
        }
    }

    /// Follows the file list as it grows.
    pub fn set_file_count(&mut self, file_count: usize)
        ensures
            final(self)@ == (CacheView { file_count, ..old(self)@ }),
            old(self).inv() ==> final(self).inv(),
            old(self)@.exclusive() ==> final(self)@.exclusive(),
    {
        proof {
            if self@.exclusive() {
                lemma_bookkeeping_keeps_exclusive(self@, 0, WorkKind::Full, file_count);
            }
        }
        self.file_count = file_count;
    }

    /// Marks `(idx, kind)` as being decoded by some worker.
    pub fn mark_in_progress(&mut self, idx: usize, kind: WorkKind)
        ensures
            final(self)@ == old(self)@.with_pending(idx, kind),
            old(self).inv() ==> final(self).inv(),
            old(self)@.exclusive() && old(self)@.is_available(idx, kind)
                ==> final(self)@.exclusive(),
    {
        broadcast use vstd::std_specs::hash::group_hash_axioms;

        proof {
            if self@.exclusive() && self@.is_available(idx, kind) {
                lemma_claim_keeps_exclusive(self@, idx, kind);
            }
        }

        match kind {
            WorkKind::Full => {
                self.in_progress.insert(idx);
            },
            WorkKind::Thumbnail => {
                self.thumbnails_in_progress.insert(idx);
            },
        }
    }

    /// Takes the in-flight mark off `(idx, kind)`.
    pub fn clear_in_progress(&mut self, idx: usize, kind: WorkKind)
        ensures
            final(self)@ == old(self)@.without_pending(idx, kind),
            old(self).inv() ==> final(self).inv(),
            old(self)@.exclusive() ==> final(self)@.exclusive(),
    {
        broadcast use vstd::std_specs::hash::group_hash_axioms;

        proof {
            if self@.exclusive() {
                lemma_bookkeeping_keeps_exclusive(self@, idx, kind, self@.file_count);
            }
        }

        match kind {
            WorkKind::Full => {
                self.in_progress.remove(&idx);
            },
            WorkKind::Thumbnail => {
                self.thumbnails_in_progress.remove(&idx);
            },
        }
    }

    /// Records that decoding `(idx, kind)` failed for good.
    pub fn record_error(&mut self, idx: usize, kind: WorkKind, message: String)
        ensures
            final(self)@ == old(self)@.with_error(idx, kind, message),
            old(self).inv() ==> final(self).inv(),
            old(self)@.exclusive() && !old(self)@.cached(kind).contains_key(idx)
                && !old(self)@.pending(kind).contains(idx) ==> final(self)@.exclusive(),
    {
        broadcast use vstd::std_specs::hash::group_hash_axioms;

        proof {
            if self@.exclusive() && !self@.cached(kind).contains_key(idx) && !self@.pending(
                kind,
            ).contains(idx) {
                lemma_failure_keeps_exclusive(self@, idx, kind, message);
            }
        }

        match kind {
            WorkKind::Full => {
                self.errors.insert(idx, message);
            },
            WorkKind::Thumbnail => {
                self.thumbnail_errors.insert(idx, message);
            },
        }
    }

    /// Moves the viewer to `idx`. A real move forgets which indices were
    /// judged unaffordable, since that judgment depended on distance.
    pub fn set_current_idx(&mut self, idx: usize)
        ensures
            final(self)@ == old(self)@.with_current(idx),
            idx != old(self)@.current_idx ==> final(self)@.saturated == Set::<usize>::empty(),
            old(self).inv() ==> final(self).inv(),
            old(self)@.exclusive() ==> final(self)@.exclusive(),
    {
        proof {
            if self@.exclusive() {
                lemma_bookkeeping_keeps_exclusive(self@, idx, WorkKind::Full, self@.file_count);
            }
        }
        if idx != self.current_idx {
            self.current_idx = idx;
            self.saturated.clear();
        }
    }

    /// Switches the scheduling policy; cached entries stay.
    pub fn set_mode(&mut self, mode: ViewMode)
        ensures
            final(self)@ == (CacheView { view_mode: mode, ..old(self)@ }),
            old(self).inv() ==> final(self).inv(),
            old(self)@.exclusive() ==> final(self)@.exclusive(),
    {
        proof {
            if self@.exclusive() {
                lemma_mode_keeps_exclusive(self@, mode);
            }
        }
        self.view_mode = mode;
    }

    /// Whether `idx` was judged unaffordable at the current position.
    pub fn is_saturated(&self, idx: usize) -> (r: bool)
        ensures
            r == self@.saturated.contains(idx),
    {
        broadcast use vstd::std_specs::hash::group_hash_axioms;

        self.saturated.contains(&idx)
    }

    /// Whether `(idx, kind)` may be handed to a worker.
    pub fn is_available(&self, idx: usize, kind: WorkKind) -> (r: bool)
        ensures
            r == self@.is_available(idx, kind),
    {
        broadcast use vstd::std_specs::hash::group_hash_axioms;

        match kind {
            WorkKind::Full => idx < self.file_count && !self.images.contains_key(&idx)
                && !self.in_progress.contains(&idx) && !self.errors.contains_key(&idx)
                && !self.saturated.contains(&idx),
            WorkKind::Thumbnail => idx < self.file_count && !self.thumbnails.contains_key(&idx)
                && !self.thumbnails_in_progress.contains(&idx)
                && !self.thumbnail_errors.contains_key(&idx),
        }
    }

    /// Mean size of the cached full images, or 8 MiB while none is cached.
    pub fn avg_image_size(&self) -> (r: u128)
        ensures
            r == self@.avg_image_size(),
    {
        broadcast use vstd::std_specs::hash::group_hash_axioms;

        let n = self.images.len();
        if n == 0 {
            DEFAULT_IMAGE_BYTES as u128
        } else {
            self.used_bytes / (n as u128)
        }
    }

    /// Whether scheduling one more full decode is predicted to exceed the
    /// budget.
    pub fn over_budget(&self) -> (r: bool)
        ensures
            r == self@.over_budget(),
    {
        broadcast use vstd::std_specs::hash::group_hash_axioms;

        let avg = self.avg_image_size();
        let pending = self.in_progress.len() as u128;
        match pending.checked_mul(avg) {
            None => true,
            Some(in_flight) => match self.used_bytes.checked_add(in_flight) {
                None => true,
                Some(committed) => match committed.checked_add(avg) {
                    None => true,
                    Some(predicted) => predicted > self.budget as u128,
                },
            },
        }
    }

    /// A shared handle to the cached full image of `idx`, if there is one.
    pub fn get(&self, idx: usize) -> (r: Option<Arc<DecodedImage>>)
        ensures
            r == (if self@.images.contains_key(idx) {
                Some(self@.images[idx])
            } else {
                None
            }),
    {
        broadcast use vstd::std_specs::hash::group_hash_axioms;

        match self.images.get(&idx) {
            Some(img) => Some(share(img)),
            None => None,
        }
    }

    /// A shared handle to the cached thumbnail of `idx`, if there is one.
    pub fn get_thumbnail(&self, idx: usize) -> (r: Option<Arc<DecodedImage>>)
        ensures
            r == (if self@.thumbnails.contains_key(idx) {
                Some(self@.thumbnails[idx])
            } else {
                None
            }),
    {
        broadcast use vstd::std_specs::hash::group_hash_axioms;

        match self.thumbnails.get(&idx) {
            Some(img) => Some(share(img)),
            None => None,
        }
    }

    /// The cached full image farthest from the current index, the current one
    /// left aside, with its distance.
    pub fn get_farthest_cached(&self) -> (r: Option<(usize, usize)>)
        ensures
            match r {
                Some((i, d)) => {
                    &&& self@.images.contains_key(i)
                    &&& i != self@.current_idx
                    &&& d == self@.dist(i)
                    &&& forall|k: usize|
                        self@.images.contains_key(k) && k != self@.current_idx ==> self@.dist(k)
                            <= d
                },
                None => forall|k: usize|
                    self@.images.contains_key(k) ==> k == self@.current_idx,
            },
    {
        broadcast use vstd::std_specs::hash::group_hash_axioms;

        let cur = self.current_idx;
        let mut best: Option<(usize, usize)> = None;
        for key in it: self.images.keys()
            invariant
                cur == self.current_idx,
                forall|k: usize|
                    self.images@.contains_key(k) ==> exists|j: int|
                        0 <= j < it.seq().len() && *#[trigger] it.seq()[j] == k,
                match best {
                    Some((i, d)) => {
                        &&& self.images@.contains_key(i)
                        &&& i != cur
                        &&& d == distance(i, cur)
                        &&& forall|j: int|
                            0 <= j < it.index() && *it.seq()[j] != cur ==> distance(
                                *it.seq()[j],
                                cur,
                            ) <= d
                    },
                    None => forall|j: int| 0 <= j < it.index() ==> *it.seq()[j] == cur,
                },
        {
            let k = *key;
            if k != cur {
                let d = if k >= cur {
                    k - cur
                } else {
                    cur - k
                };
                let better = match best {
                    Some((_, bd)) => d >= bd,
                    None => true,
                };
                if better {
                    best = Some((k, d));
                }
            }
        }
        best
    }

    /// Removes full images, farthest from the current index first, until the
    /// cache is within budget or holds a single entry. The current index's
    /// image never leaves.
    pub fn evict_distant(&mut self)
        requires
            old(self).accounted(),
        ensures
            final(self).inv(),
            old(self)@.evicts_to(final(self)@),
            old(self)@.images.contains_key(old(self)@.current_idx) ==> {
                &&& final(self)@.images.contains_key(old(self)@.current_idx)
                &&& final(self)@.images[old(self)@.current_idx]
                    == old(self)@.images[old(self)@.current_idx]
            },
            old(self)@.images.dom().len() <= 1 ==> final(self)@ == old(self)@,
            old(self)@.exclusive() ==> final(self)@.exclusive(),
    {
        broadcast use vstd::std_specs::hash::group_hash_axioms;

        let ghost pre = self@;
        let ghost mut last: Option<usize> = None;
        while self.used_bytes > self.budget as u128 && self.images.len() > 1
            invariant
                self.accounted(),
                self@ == (CacheView { images: self@.images, used_bytes: self@.used_bytes, ..pre }),
                self@.images.submap_of(pre.images),
                pre.images.contains_key(pre.current_idx) ==> self@.images.contains_key(
                    pre.current_idx,
                ),
                forall|r: usize, k: usize|
                    #![trigger pre.evicted(self@, r), self@.images.contains_key(k)]
                    pre.evicted(self@, r) && self@.images.contains_key(k) && k != pre.current_idx
                        ==> pre.dist(r) >= pre.dist(k),
                match last {
                    Some(r) => self@.images.dom().len() >= 1 && pre.last_evicted(self@, r),
                    None => self@.images == pre.images,
                },
            ensures
                self.used_bytes <= self.budget || self@.images.dom().len() <= 1,
            decreases self@.images.dom().len(),
        {
            let ghost before = self@;
            match self.get_farthest_cached() {
                Some((idx, _)) => {
                    match self.images.remove(&idx) {
                        Some(img) => {
                            proof {
                                lemma_bytes_below_remove(before.images, idx, usize::MAX as nat + 1);
                            }
                            self.used_bytes = self.used_bytes - img.mem_size() as u128;
                        },
                        None => {},
                    }
                    proof {
                        assert forall|q: usize| #[trigger]
                            pre.evicted(self@, q) implies pre.dist(q) >= pre.dist(idx) by {
                            if q != idx {
                                assert(pre.evicted(before, q));
                                assert(before.images.contains_key(idx));
                            }
                        }
                        assert forall|r: usize, k: usize|
                            #![trigger pre.evicted(self@, r), self@.images.contains_key(k)]
                            pre.evicted(self@, r) && self@.images.contains_key(k) && k
                                != pre.current_idx implies pre.dist(r) >= pre.dist(k) by {
                            if r != idx {
                                assert(pre.evicted(before, r));
                                assert(before.images.contains_key(k));
                            }
                        }
                        last = Some(idx);
                        assert(pre.evicted(self@, idx));
                    }
                },
                None => {
                    proof {
                        assert(self@.images.dom().subset_of(set![pre.current_idx]));
                        vstd::set_lib::lemma_len_subset(
                            self@.images.dom(),
                            set![pre.current_idx],
                        );
                    }
                    break ;
                },
            }
        }
        proof {
            if pre.images.dom().len() <= 1 {
                if let Some(r) = last {
                    assert(pre.evicted(self@, r));
                    vstd::set_lib::lemma_len_subset(
                        self@.images.dom().insert(r),
                        pre.images.dom(),
                    );
                }
            }
            if pre.exclusive() {
                lemma_evict_keeps_exclusive(pre, self@);
            }
        }
    }

    /// Records a finished decode. A thumbnail is always stored. A full image
    /// is turned away, and its index marked saturated, when it is not the
    /// current one, does not fit, and nothing cached lies farther away;
    /// otherwise it replaces what was cached for `idx` and eviction runs.
    pub fn insert(&mut self, idx: usize, decoded: DecodedImage, kind: WorkKind)
        requires
            old(self).inv(),
        ensures
            final(self).inv(),
            old(self)@.inserts_to(idx, decoded, kind, final(self)@),
            old(self)@.exclusive() && !old(self)@.pending(kind).contains(idx)
                && !old(self)@.failed(kind).contains_key(idx) ==> final(self)@.exclusive(),
    {
        broadcast use vstd::std_specs::hash::group_hash_axioms;

        let ghost pre = self@;
        let ghost keeps = pre.exclusive() && !pre.pending(kind).contains(idx)
            && !pre.failed(kind).contains_key(idx);
        match kind {
            WorkKind::Thumbnail => {
                self.thumbnails.insert(idx, Arc::new(decoded));
            },
            WorkKind::Full => {
                proof {
                    lemma_cached_bytes_fits(pre.images);
                    lemma_cached_bytes_fits(pre.images.insert(idx, Arc::new(decoded)));
                    lemma_bytes_below_insert(
                        pre.images,
                        idx,
                        Arc::new(decoded),
                        usize::MAX as nat + 1,
                    );
                    lemma_bytes_below_remove(pre.images, idx, usize::MAX as nat + 1);
                }
                let size = decoded.mem_size() as u128;
                if idx != self.current_idx && self.used_bytes + size > self.budget as u128 {
                    let my_dist = if idx >= self.current_idx {
                        idx - self.current_idx
                    } else {
                        self.current_idx - idx
                    };
                    let farthest = self.get_farthest_cached();
                    let farthest_dist = match farthest {
                        Some((_, d)) => d,
                        None => 0,
                    };
                    if my_dist >= farthest_dist {
                        proof {
                            assert forall|k: usize| !pre.is_farther_cached(k, idx) by {}
                        }
                        self.saturated.insert(idx);
                        proof {
                            if keeps {
                                lemma_insert_keeps_exclusive(pre, idx, decoded, kind, self@);
                            }
                        }
                        return ;
                    }
                    proof {
                        if let Some((far, _)) = farthest {
                            assert(pre.is_farther_cached(far, idx));
                        }
                    }
                }
                match self.images.remove(&idx) {
                    Some(previous) => {
                        self.used_bytes = self.used_bytes - previous.mem_size() as u128;
                    },
                    None => {},
                }
                self.used_bytes = self.used_bytes + size;
                self.images.insert(idx, Arc::new(decoded));
                proof {
                    assert(self@.images == pre.images.insert(idx, Arc::new(decoded)));
                    assert(self@ == pre.with_image(idx, decoded));
                }
                self.evict_distant();
            },
        }
        proof {
            if keeps {
                lemma_insert_keeps_exclusive(pre, idx, decoded, kind, self@);
            }
        }
    }
}

/// A second handle to the image behind `img`, by `Arc::clone`: the new handle
/// points to the same image, which is not copied.
#[verifier::external_body]
fn share(img: &Arc<DecodedImage>) -> (r: Arc<DecodedImage>)
    ensures
        r == *img,
{
    Arc::clone(img)
}

} // verus!
