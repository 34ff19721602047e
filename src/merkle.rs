//! Merkle paths and the recomputation of a root from a leaf and its siblings.
use vstd::arithmetic::power2::{lemma2_to64, lemma_pow2_unfold, pow2};
use vstd::prelude::*;

use crate::digest::{canonical_elements, merge_digests, rpo_merge, Digest};

verus! {

/// Why a merkle path or a sparse-merkle-tree opening was rejected.
#[derive(Clone, Copy, Debug, PartialEq, Eq, Structural)]
pub enum ProofError {
    /// A digest element is not a canonical field element.
    NonCanonicalDigest,
    /// A field that the wire format marks optional is absent.
    MissingField,
    /// The leaf index does not fit in a tree of the path's depth.
    IndexOutOfRange,
    /// The path does not have the number of siblings the tree depth asks for.
    PathLengthMismatch,
    /// The recomputed root differs from the claimed root.
    RootMismatch,
    /// Two entries of a multiple-entry leaf share a key.
    DuplicateKey,
    /// A multiple-entry leaf holds fewer than two entries.
    TooFewEntries,
    /// The leaf's entries do not all sit at the leaf index of the key.
    LeafIndexMismatch,
}

/// The sibling digests from a leaf up to the root, nearest sibling first.
#[derive(Clone, Debug, PartialEq, Eq)]
pub struct MerklePath {
    pub siblings: Vec<Digest>,
}

impl View for MerklePath {
    type V = Seq<Seq<u64>>;

    open spec fn view(&self) -> Seq<Seq<u64>> {
        self.siblings@.map_values(|d: Digest| d@)
    }
}

/// The parent of `node` and `sibling`; the low bit of `index` says whether
/// `node` is the right child.
pub open spec fn parent_of(node: Seq<u64>, sibling: Seq<u64>, index: nat) -> Seq<u64> {
    if index % 2 == 0 {
        rpo_merge(node, sibling)
    } else {
        rpo_merge(sibling, node)
    }
}

/// The root reached from `node` at position `index` through `siblings`.
pub open spec fn fold_root(node: Seq<u64>, index: nat, siblings: Seq<Seq<u64>>) -> Seq<u64>
    decreases siblings.len(),
{
    if siblings.len() == 0 {
        node
    } else {
        fold_root(parent_of(node, siblings[0], index), index / 2, siblings.drop_first())
    }
}

/// `index` shifted right by `depth` bits.
pub open spec fn shifted(index: nat, depth: nat) -> nat
    decreases depth,
{
    if depth == 0 {
        index
    } else {
        shifted(index / 2, (depth - 1) as nat)
    }
}

/// `index` names a leaf of a tree of the given depth.
pub open spec fn index_fits(index: nat, depth: nat) -> bool {
    shifted(index, depth) == 0
}

/// Every sibling of the path is canonical.
pub open spec fn canonical_path(siblings: Seq<Seq<u64>>) -> bool {
    forall|i: int| 0 <= i < siblings.len() ==> canonical_elements(#[trigger] siblings[i])
}

/// What recomputing a root yields: the rejection, or the root.
pub open spec fn compute_root_spec(path: Seq<Seq<u64>>, index: nat, node: Seq<u64>) -> Result<
    Seq<u64>,
    ProofError,
> {
    if !canonical_elements(node) || !canonical_path(path) {
        Err(ProofError::NonCanonicalDigest)
    } else if !index_fits(index, path.len()) {
        Err(ProofError::IndexOutOfRange)
    } else {
        Ok(fold_root(node, index, path))
    }
}

/// What checking a path against a root of a tree of `depth` yields.
pub open spec fn verify_path_spec(
    path: Seq<Seq<u64>>,
    depth: nat,
    index: nat,
    node: Seq<u64>,
    root: Seq<u64>,
) -> Result<(), ProofError> {
    if path.len() != depth {
        Err(ProofError::PathLengthMismatch)
    } else {
        match compute_root_spec(path, index, node) {
            Err(e) => Err(e),
            Ok(r) => if r == root {
                Ok(())
            } else {
                Err(ProofError::RootMismatch)
            },
        }
    }
}

proof fn lemma_fold_step(node: Seq<u64>, index: nat, siblings: Seq<Seq<u64>>, i: int)
    requires
        0 <= i < siblings.len(),
    ensures
        fold_root(node, index, siblings.subrange(i, siblings.len() as int)) == fold_root(
            parent_of(node, siblings[i], index),
            index / 2,
            siblings.subrange(i + 1, siblings.len() as int),
        ),
{
    let rest = siblings.subrange(i, siblings.len() as int);
    assert(rest.drop_first() =~= siblings.subrange(i + 1, siblings.len() as int));
}

impl MerklePath {
    /// Recomputes the root above `node`, which sits at leaf position `index`.
    pub fn compute_root(&self, index: u64, node: Digest) -> (r: Result<Digest, ProofError>)
        ensures
            match (r, compute_root_spec(self@, index as nat, node@)) {
                (Ok(d), Ok(s)) => d@ == s && d.canonical(),
                (Err(e), Err(s)) => e == s,
                _ => false,
            },
    {
        let n = self.siblings.len();
        let mut k: usize = 0;
        while k < n
            invariant
                n == self.siblings@.len(),
                0 <= k <= n,
                forall|j: int| 0 <= j < k ==> canonical_elements(#[trigger] self@[j]),
            decreases n - k,
        {
            if !self.siblings[k].is_canonical() {
                assert(self@[k as int] == self.siblings@[k as int]@);
                assert(!canonical_elements(self@[k as int]));
                return Err(ProofError::NonCanonicalDigest);
            }
            k = k + 1;
        }
        if !node.is_canonical() {
            return Err(ProofError::NonCanonicalDigest);
        }
        let ghost path = self@;
        assert(path.subrange(0, n as int) =~= path);
        let mut cur = node;
        let mut idx: u64 = index;
        let mut i: usize = 0;
        while i < n
            invariant
                n == self.siblings@.len(),
                path == self@,
                canonical_path(path),
                0 <= i <= n,
                cur.canonical(),
                fold_root(cur@, idx as nat, path.subrange(i as int, n as int)) == fold_root(
                    node@,
                    index as nat,
                    path,
                ),
                shifted(idx as nat, (n - i) as nat) == shifted(index as nat, n as nat),
            decreases n - i,
        {
            let sib = self.siblings[i];
            assert(path[i as int] == sib@);
            proof {
                lemma_fold_step(cur@, idx as nat, path, i as int);
            }
            if idx % 2 == 0 {
                cur = merge_digests(cur, sib);
            } else {
                cur = merge_digests(sib, cur);
            }
            idx = idx / 2;
            i = i + 1;
        }
        assert(path.subrange(n as int, n as int) =~= Seq::<Seq<u64>>::empty());
        if idx != 0 {
            return Err(ProofError::IndexOutOfRange);
        }
        Ok(cur)
    }

    /// Checks that the path has `depth` siblings and leads from `node` at
    /// position `index` to `root`.
    pub fn verify(&self, depth: u64, index: u64, node: Digest, root: Digest) -> (r: Result<(), ProofError>)
        ensures
            r == verify_path_spec(self@, depth as nat, index as nat, node@, root@),
    {
        if self.siblings.len() as u64 != depth {
            return Err(ProofError::PathLengthMismatch);
        }
        match self.compute_root(index, node) {
            Err(e) => Err(e),
            Ok(d) => if d == root {
                Ok(())
            } else {
                assert(d@ != root@);
                Err(ProofError::RootMismatch)
            },
        }
    }
}

/// An index below `2^depth` names a leaf of a tree of that depth.
pub proof fn lemma_index_fits(index: nat, depth: nat)
    requires
        index < pow2(depth),
    ensures
        index_fits(index, depth),
    decreases depth,
{
    if depth == 0 {
        lemma2_to64();
    } else {
        lemma_pow2_unfold(depth);
        let p = pow2((depth - 1) as nat);
        assert(index / 2 < p) by (nonlinear_arith)
            requires
                index < 2 * p,
        ;
        lemma_index_fits(index / 2, (depth - 1) as nat);
    }
}

/// Every `u64` index names a leaf of a tree of depth 64.
pub proof fn lemma_u64_index_fits(index: u64)
    ensures
        index_fits(index as nat, 64),
{
    lemma2_to64();
    lemma_index_fits(index as nat, 64);
}

/// A path checks against the root honestly recomputed from its leaf, and
/// against no root other than the one it recomputes.
pub proof fn lemma_honest_path_accepted(
    path: Seq<Seq<u64>>,
    index: nat,
    node: Seq<u64>,
    root: Seq<u64>,
)
    requires
        canonical_elements(node),
        canonical_path(path),
        index_fits(index, path.len()),
    ensures
        verify_path_spec(path, path.len(), index, node, fold_root(node, index, path))
            == Ok::<(), ProofError>(()),
        verify_path_spec(path, path.len(), index, node, root) == Ok::<(), ProofError>(())
            ==> root == fold_root(node, index, path),
{
}

} // verus!
