//! Digests of the chain's algebraic hash and the hash calls the library makes.
use vstd::prelude::*;

verus! {

/// The order of the prime field in which every digest element lives.
pub const FIELD_MODULUS: u64 = 18446744069414584321;

/// A hash value: four field elements, each stored as its canonical integer.
#[derive(Clone, Copy, Debug, PartialEq, Eq, Structural)]
pub struct Digest {
    pub d0: u64,
    pub d1: u64,
    pub d2: u64,
    pub d3: u64,
}

impl View for Digest {
    type V = Seq<u64>;

    open spec fn view(&self) -> Seq<u64> {
        seq![self.d0, self.d1, self.d2, self.d3]
    }
}

/// Every element of the sequence is a canonical field element.
pub open spec fn canonical_elements(s: Seq<u64>) -> bool {
    forall|i: int| 0 <= i < s.len() ==> (#[trigger] s[i]) < FIELD_MODULUS
}

impl Digest {
    /// A digest is canonical when each element is below the field modulus.
    pub open spec fn canonical(&self) -> bool {
        canonical_elements(self@)
    }

    /// The digest whose four elements are zero (the hash of an empty leaf).
    pub fn zero() -> (r: Digest)
        ensures
            r@ == seq![0u64, 0u64, 0u64, 0u64],
            r.canonical(),
    {
        Digest { d0: 0, d1: 0, d2: 0, d3: 0 }
    }

    /// Checks that every element is a canonical field element.
    pub fn is_canonical(&self) -> (r: bool)
        ensures
            r == self.canonical(),
    {
        self.d0 < FIELD_MODULUS && self.d1 < FIELD_MODULUS && self.d2 < FIELD_MODULUS
            && self.d3 < FIELD_MODULUS
    }
}

/// What the two-to-one compression of the chain's hash returns for two digests.
pub uninterp spec fn rpo_merge(left: Seq<u64>, right: Seq<u64>) -> Seq<u64>;

/// What the chain's hash returns for a sequence of field elements.
pub uninterp spec fn rpo_hash_elements(elements: Seq<u64>) -> Seq<u64>;

/// Relies on `Rpo256::merge` (re-exported as `miden_objects::Hasher`): the
/// digest of the pair, which depends on the two inputs alone; its elements are
/// read back with `as_int`, so they are canonical.
#[verifier::external_body]
pub(crate) fn merge_digests(left: Digest, right: Digest) -> (r: Digest)
    requires
        left.canonical(),
        right.canonical(),
    ensures
        r@ == rpo_merge(left@, right@),
        r.canonical(),
{
    let l = miden_objects::Digest::new([left.d0, left.d1, left.d2, left.d3].map(miden_objects::Felt::new));
    let r = miden_objects::Digest::new([right.d0, right.d1, right.d2, right.d3].map(miden_objects::Felt::new));
    let out: [u64; 4] = miden_objects::Hasher::merge(&[l, r]).into();
    Digest { d0: out[0], d1: out[1], d2: out[2], d3: out[3] }
}

/// Relies on `Rpo256::hash_elements` (re-exported as `miden_objects::Hasher`):
/// the digest of the field elements, which depends on them alone; its elements
/// are read back with `as_int`, so they are canonical.
#[verifier::external_body]
pub(crate) fn hash_elements(elements: &Vec<u64>) -> (r: Digest)
    requires
        canonical_elements(elements@),
    ensures
        r@ == rpo_hash_elements(elements@),
        r.canonical(),
{
    let felts: Vec<miden_objects::Felt> = elements.iter().map(|e| miden_objects::Felt::new(*e)).collect();
    let out: [u64; 4] = miden_objects::Hasher::hash_elements(&felts).into();
    Digest { d0: out[0], d1: out[1], d2: out[2], d3: out[3] }
}

} // verus!
