//! Finding near-duplicate images by the Hamming distance of their
//! perceptual hashes. Hashing itself needs the decoded image; here the
//! hashes arrive as bytes and the decisions are made: which image is an
//! original, which is a duplicate of which, and at what distance.

use image_hasher::ImageHash;
use std::collections::HashSet;
use vstd::prelude::*;

verus! {

/// Longest hash, in bytes, whose bit count still fits in 32 bits.
pub const MAX_HASH_BYTES: usize = 0x1fff_ffff;

/// Number of bits set in `x`.
pub open spec fn ones(x: u8) -> nat {
    ((x & 1) + ((x >> 1) & 1) + ((x >> 2) & 1) + ((x >> 3) & 1) + ((x >> 4) & 1) + ((x >> 5) & 1)
        + ((x >> 6) & 1) + ((x >> 7) & 1)) as nat
}

/// Number of bits in which `a` and `b` differ within their first `n` bytes.
pub open spec fn differing_bits(a: Seq<u8>, b: Seq<u8>, n: nat) -> nat
    decreases n,
{
    if n == 0 {
        0
    } else {
        differing_bits(a, b, (n - 1) as nat) + ones(a[n - 1] ^ b[n - 1])
    }
}

/// Hamming distance of two hashes: the bits in which they differ, over as
/// many bytes as both have.
pub open spec fn hamming(a: Seq<u8>, b: Seq<u8>) -> nat {
    differing_bits(
        a,
        b,
        if a.len() <= b.len() {
            a.len()
        } else {
            b.len()
        },
    )
}

/// Whether `bytes` can be a hash: not empty, and not longer than
/// `MAX_HASH_BYTES`.
pub open spec fn valid_hash(bytes: Seq<u8>) -> bool {
    0 < bytes.len() <= MAX_HASH_BYTES
}

/// The perceptual hash of one image.
pub struct PerceptualHash {
    bytes: Vec<u8>,
}

impl View for PerceptualHash {
    type V = Seq<u8>;

    closed spec fn view(&self) -> Seq<u8> {
        self.bytes@
    }
}

impl PerceptualHash {
    #[verifier::type_invariant]
    spec fn well_formed(&self) -> bool {
        valid_hash(self.bytes@)
    }

    /// Takes the bytes of a hash; `None` where they cannot be one.
    pub fn new(bytes: Vec<u8>) -> (r: Option<PerceptualHash>)
        ensures
            r is Some <==> valid_hash(bytes@),
            r matches Some(h) ==> h@ == bytes@,
    {
        if bytes.len() == 0 || bytes.len() > MAX_HASH_BYTES {
            None
        } else {
            Some(PerceptualHash { bytes })
        }
    }

    /// The bytes of the hash.
    pub fn as_bytes(&self) -> (r: &Vec<u8>)
        ensures
            r@ == self@,
            valid_hash(self@),
    {
        proof {
            use_type_invariant(self);
        }
        &self.bytes
    }

    /// Hamming distance to `other`.
    pub fn dist(&self, other: &PerceptualHash) -> (d: u32)
        ensures
            d == hamming(self@, other@),
    {
        proof {
            use_type_invariant(self);
            use_type_invariant(other);
        }
        match hash_distance(&self.bytes, &other.bytes) {
            Some(d) => d,
            None => 0,
        }
    }
}

impl Clone for PerceptualHash {
    /// A copy of the hash.
    fn clone(&self) -> (r: PerceptualHash)
        ensures
            r@ == self@,
    {
        proof {
            use_type_invariant(self);
        }
        let bytes = self.bytes.clone();
        assert(bytes@ =~= self.bytes@);
        PerceptualHash { bytes }
    }
}

/// Hamming distance of two hashes by `image_hasher::ImageHash::dist`, on
/// hashes made of the given bytes by `ImageHash::from_bytes`. That function
/// turns empty bytes down, and then there is no distance. Otherwise `dist`
/// adds up, over the byte pairs, the bits set in their exclusive or.
#[verifier::external_body]
fn hash_distance(a: &Vec<u8>, b: &Vec<u8>) -> (r: Option<u32>)
    requires
        a@.len() <= MAX_HASH_BYTES,
        b@.len() <= MAX_HASH_BYTES,
    ensures
        match r {
            Some(d) => a@.len() > 0 && b@.len() > 0 && d == hamming(a@, b@),
            None => a@.len() == 0 || b@.len() == 0,
        },
{
    let x = ImageHash::<Box<[u8]>>::from_bytes(a);
    let y = ImageHash::<Box<[u8]>>::from_bytes(b);
    match (x, y) {
        (Ok(x), Ok(y)) => Some(x.dist(&y)),
        _ => None,
    }
}

/// What an image turned out to be when it was held against the originals
/// met so far.
#[derive(Clone, Copy, Debug, PartialEq, Eq, Structural)]
pub enum Sighting {
    /// No original is within the threshold: the image is kept as original
    /// number `slot`.
    Original { slot: usize },
    /// The image is within the threshold of original number `of`, the first
    /// such, at `distance`. `reveals_original` says that this is the first
    /// duplicate met of that original.
    Duplicate { of: usize, distance: u32, reveals_original: bool },
}

/// What a `DuplicateIndex` stands for.
pub struct DuplicateView {
    /// Hashes of the originals, in the order they were met.
    pub originals: Seq<Seq<u8>>,
    /// Numbers of the originals of which a duplicate was met.
    pub shown: Set<usize>,
    /// Largest distance at which two images count as duplicates.
    pub threshold: u32,
}

impl DuplicateView {
    /// Original number `i` is within the threshold of `hash`.
    pub open spec fn matches(self, hash: Seq<u8>, i: int) -> bool {
        0 <= i < self.originals.len() && hamming(hash, self.originals[i]) <= self.threshold
    }

    /// Original number `i` is the first within the threshold of `hash`.
    pub open spec fn first_match(self, hash: Seq<u8>, i: int) -> bool {
        self.matches(hash, i) && forall|j: int| 0 <= j < i ==> !self.matches(hash, j)
    }

    /// No original is within the threshold of `hash`.
    pub open spec fn no_match(self, hash: Seq<u8>) -> bool {
        forall|j: int| !self.matches(hash, j)
    }

    /// What holding `hash` against the originals gives, and what the index
    /// is afterwards.
    pub open spec fn observes(self, hash: Seq<u8>, sighting: Sighting, post: DuplicateView) -> bool {
        match sighting {
            Sighting::Original { slot } => {
                &&& self.no_match(hash)
                &&& slot == self.originals.len()
                &&& post == DuplicateView { originals: self.originals.push(hash), ..self }
            },
            Sighting::Duplicate { of, distance, reveals_original } => {
                &&& self.first_match(hash, of as int)
                &&& distance == hamming(hash, self.originals[of as int])
                &&& reveals_original == !self.shown.contains(of)
                &&& post == DuplicateView { shown: self.shown.insert(of), ..self }
            },
        }
    }
}

/// The originals met so far, against which each new image is held.
pub struct DuplicateIndex {
    originals: Vec<PerceptualHash>,
    shown: HashSet<usize>,
    threshold: u32,
}

impl View for DuplicateIndex {
    type V = DuplicateView;

    closed spec fn view(&self) -> DuplicateView {
        DuplicateView {
            originals: Seq::new(self.originals@.len(), |i: int| self.originals@[i]@),
            shown: self.shown@,
            threshold: self.threshold,
        }
    }
}

impl DuplicateIndex {
    /// An index without originals.
    pub fn new(threshold: u32) -> (r: DuplicateIndex)
        ensures
            r@ == (DuplicateView { originals: Seq::empty(), shown: Set::empty(), threshold }),
    {
        let r = DuplicateIndex { originals: Vec::new(), shown: HashSet::new(), threshold };
        assert(r@.originals =~= Seq::empty());
        r
    }

    /// Number of originals met so far.
    pub fn len(&self) -> (n: usize)
        ensures
            n == self@.originals.len(),
    {
        self.originals.len()
    }

    /// The first original within the threshold of `hash`, with its distance.
    pub fn first_match(&self, hash: &PerceptualHash) -> (r: Option<(usize, u32)>)
        ensures
            match r {
                Some((i, d)) => self@.first_match(hash@, i as int) && d == hamming(
                    hash@,
                    self@.originals[i as int],
                ),
                None => self@.no_match(hash@),
            },
    {
        let mut i: usize = 0;
        while i < self.originals.len()
            invariant
                i <= self.originals@.len(),
                forall|j: int| 0 <= j < i ==> !self@.matches(hash@, j),
            decreases self.originals@.len() - i,
        {
            let d = hash.dist(&self.originals[i]);
            if d <= self.threshold {
                return Some((i, d));
            }
            i = i + 1;
        }
        None
    }

    /// Holds `hash` against the originals met so far. The first original
    /// within the threshold makes it a duplicate of that one; where there is
    /// none, it becomes the next original.
    pub fn observe(&mut self, hash: PerceptualHash) -> (r: Sighting)
        ensures
            old(self)@.observes(hash@, r, final(self)@),
    {
        broadcast use vstd::std_specs::hash::group_hash_axioms;

        let ghost pre = self@;
        match self.first_match(&hash) {
            Some((of, distance)) => {
                let reveals_original = !self.shown.contains(&of);
                self.shown.insert(of);
                proof {
                    assert(self@.originals =~= pre.originals);
                }
                Sighting::Duplicate { of, distance, reveals_original }
            },
            None => {
                let slot = self.originals.len();
                self.originals.push(hash);
                proof {
                    assert(self@.originals =~= pre.originals.push(hash@));
                }
                Sighting::Original { slot }
            },
        }
    }
}

} // verus!
