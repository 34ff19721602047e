//! Sparse-merkle-tree leaves and openings as they travel on the wire, and
//! their verification against a committed root.
use vstd::prelude::*;

use crate::digest::{canonical_elements, hash_elements, merge_digests, rpo_hash_elements, rpo_merge, Digest};
use crate::merkle::{
    canonical_path, fold_root, lemma_u64_index_fits, verify_path_spec, MerklePath, ProofError,
};

verus! {

/// The depth of the sparse merkle tree: its leaves are indexed by a `u64`.
pub const SMT_DEPTH: u64 = 64;

/// An entry in a leaf: a key digest and its value.
#[derive(Clone, Copy, Debug, PartialEq, Eq, Structural)]
pub struct SmtLeafEntry {
    pub key: Option<Digest>,
    pub value: Option<Digest>,
}

/// The entries of a leaf that holds several keys.
#[derive(Clone, Debug, PartialEq, Eq)]
pub struct SmtLeafEntries {
    pub entries: Vec<SmtLeafEntry>,
}

/// The content of one leaf slot.
#[derive(Clone, Debug, PartialEq, Eq)]
pub enum Leaf {
    /// No entry; carries the index of the leaf.
    Empty(u64),
    /// Exactly one entry.
    Single(SmtLeafEntry),
    /// Two or more entries whose keys share the leaf index.
    Multiple(SmtLeafEntries),
}

/// A leaf in a sparse merkle tree of depth 64.
#[derive(Clone, Debug, PartialEq, Eq)]
pub struct SmtLeaf {
    pub leaf: Option<Leaf>,
}

/// The opening of a leaf: the path to the root and the leaf it ends in.
#[derive(Clone, Debug, PartialEq, Eq)]
pub struct SmtOpening {
    pub path: Option<MerklePath>,
    pub leaf: Option<SmtLeaf>,
}

/// A checked leaf: its index in the tree and its hash.
#[derive(Clone, Copy, Debug, PartialEq, Eq, Structural)]
pub struct LeafSummary {
    pub index: u64,
    pub hash: Digest,
}

/// Both halves of the entry are present.
pub open spec fn entry_present(e: SmtLeafEntry) -> bool {
    e.key.is_some() && e.value.is_some()
}

/// Both halves of a present entry are canonical.
pub open spec fn entry_canonical(e: SmtLeafEntry) -> bool {
    e.key.unwrap().canonical() && e.value.unwrap().canonical()
}

/// The leaf index at which a key sits: its most significant element.
pub open spec fn key_index(k: Digest) -> u64 {
    k.d3
}

/// The field elements hashed for a multiple-entry leaf: key then value, for
/// each entry in order.
pub open spec fn entries_elements(es: Seq<SmtLeafEntry>) -> Seq<u64>
    decreases es.len(),
{
    if es.len() == 0 {
        Seq::empty()
    } else {
        entries_elements(es.drop_last()) + es.last().key.unwrap()@ + es.last().value.unwrap()@
    }
}

/// Two entries of the list share a key.
pub open spec fn has_duplicate_key(es: Seq<SmtLeafEntry>) -> bool {
    exists|i: int, j: int| 0 <= i < j < es.len() && (#[trigger] es[i]).key == (#[trigger] es[j]).key
}

/// What checking a multiple-entry leaf yields.
pub open spec fn multiple_spec(es: Seq<SmtLeafEntry>) -> Result<(u64, Seq<u64>), ProofError> {
    if es.len() < 2 {
        Err(ProofError::TooFewEntries)
    } else if exists|i: int| 0 <= i < es.len() && !entry_present(#[trigger] es[i]) {
        Err(ProofError::MissingField)
    } else if exists|i: int| 0 <= i < es.len() && !entry_canonical(#[trigger] es[i]) {
        Err(ProofError::NonCanonicalDigest)
    } else if exists|i: int|
        0 <= i < es.len() && key_index((#[trigger] es[i]).key.unwrap()) != key_index(
            es[0].key.unwrap(),
        ) {
        Err(ProofError::LeafIndexMismatch)
    } else if has_duplicate_key(es) {
        Err(ProofError::DuplicateKey)
    } else {
        Ok((key_index(es[0].key.unwrap()), rpo_hash_elements(entries_elements(es))))
    }
}

/// What checking a leaf yields: its index and hash, or why it is malformed.
pub open spec fn leaf_spec(leaf: SmtLeaf) -> Result<(u64, Seq<u64>), ProofError> {
    match leaf.leaf {
        None => Err(ProofError::MissingField),
        Some(Leaf::Empty(i)) => Ok((i, seq![0u64, 0u64, 0u64, 0u64])),
        Some(Leaf::Single(e)) => if !entry_present(e) {
            Err(ProofError::MissingField)
        } else if !entry_canonical(e) {
            Err(ProofError::NonCanonicalDigest)
        } else {
            Ok((key_index(e.key.unwrap()), rpo_merge(e.key.unwrap()@, e.value.unwrap()@)))
        },
        Some(Leaf::Multiple(es)) => multiple_spec(es.entries@),
    }
}

/// The value stored under `key` among the entries, if any.
pub open spec fn entries_lookup(es: Seq<SmtLeafEntry>, key: Digest) -> Option<Digest>
    decreases es.len(),
{
    if es.len() == 0 {
        None
    } else if entries_lookup(es.drop_last(), key).is_some() {
        entries_lookup(es.drop_last(), key)
    } else if es.last().key == Some(key) {
        es.last().value
    } else {
        None
    }
}

/// The value that a leaf stores under `key`, if any.
pub open spec fn leaf_lookup(leaf: SmtLeaf, key: Digest) -> Option<Digest> {
    match leaf.leaf {
        Some(Leaf::Single(e)) => if e.key == Some(key) {
            e.value
        } else {
            None
        },
        Some(Leaf::Multiple(es)) => entries_lookup(es.entries@, key),
        _ => None,
    }
}

/// What verifying an opening for `key` against `root` yields: the value the
/// tree holds under the key (`None` for a proof of absence), or the rejection.
pub open spec fn opening_spec(opening: SmtOpening, key: Digest, root: Digest) -> Result<
    Option<Digest>,
    ProofError,
> {
    if opening.path.is_none() || opening.leaf.is_none() {
        Err(ProofError::MissingField)
    } else if !key.canonical() {
        Err(ProofError::NonCanonicalDigest)
    } else {
        match leaf_spec(opening.leaf.unwrap()) {
            Err(e) => Err(e),
            Ok((index, hash)) => if index != key_index(key) {
                Err(ProofError::LeafIndexMismatch)
            } else {
                match verify_path_spec(
                    opening.path.unwrap()@,
                    SMT_DEPTH as nat,
                    index as nat,
                    hash,
                    root@,
                ) {
                    Err(e) => Err(e),
                    Ok(_) => Ok(leaf_lookup(opening.leaf.unwrap(), key)),
                }
            },
        }
    }
}

fn check_multiple(es: &Vec<SmtLeafEntry>) -> (r: Result<LeafSummary, ProofError>)
    ensures
        match (r, multiple_spec(es@)) {
            (Ok(s), Ok((i, h))) => s.index == i && s.hash@ == h,
            (Err(e), Err(f)) => e == f,
            _ => false,
        },
{
    let n = es.len();
    if n < 2 {
        return Err(ProofError::TooFewEntries);
    }
    let mut i: usize = 0;
    while i < n
        invariant
            n == es@.len(),
            n >= 2,
            0 <= i <= n,
            forall|j: int| 0 <= j < i ==> entry_present(#[trigger] es@[j]),
        decreases n - i,
    {
        if es[i].key.is_none() || es[i].value.is_none() {
            assert(!entry_present(es@[i as int]));
            return Err(ProofError::MissingField);
        }
        i = i + 1;
    }
    i = 0;
    while i < n
        invariant
            n == es@.len(),
            n >= 2,
            0 <= i <= n,
            forall|j: int| 0 <= j < n ==> entry_present(#[trigger] es@[j]),
            forall|j: int| 0 <= j < i ==> entry_canonical(#[trigger] es@[j]),
        decreases n - i,
    {
        let e = es[i];
        assert(entry_present(es@[i as int]));
        if !e.key.unwrap().is_canonical() || !e.value.unwrap().is_canonical() {
            assert(!entry_canonical(es@[i as int]));
            return Err(ProofError::NonCanonicalDigest);
        }
        i = i + 1;
    }
    assert(entry_present(es@[0]));
    let first = es[0].key.unwrap().d3;
    i = 0;
    while i < n
        invariant
            n == es@.len(),
            n >= 2,
            0 <= i <= n,
            first == key_index(es@[0].key.unwrap()),
            forall|j: int| 0 <= j < n ==> entry_present(#[trigger] es@[j]),
            forall|j: int| 0 <= j < n ==> entry_canonical(#[trigger] es@[j]),
            forall|j: int|
                0 <= j < i ==> key_index((#[trigger] es@[j]).key.unwrap()) == first,
        decreases n - i,
    {
        assert(entry_present(es@[i as int]));
        if es[i].key.unwrap().d3 != first {
            assert(key_index(es@[i as int].key.unwrap()) != first);
            return Err(ProofError::LeafIndexMismatch);
        }
        i = i + 1;
    }
    i = 0;
    while i < n
        invariant
            n == es@.len(),
            n >= 2,
            0 <= i <= n,
            forall|a: int, b: int| 0 <= a < b < n && a < i ==> es@[a].key != es@[b].key,
            forall|j: int| 0 <= j < n ==> entry_present(#[trigger] es@[j]),
            forall|j: int| 0 <= j < n ==> entry_canonical(#[trigger] es@[j]),
            forall|j: int|
                0 <= j < n ==> key_index((#[trigger] es@[j]).key.unwrap()) == key_index(es@[0].key.unwrap()),
        decreases n - i,
    {
        let mut j: usize = i + 1;
        while j < n
            invariant
                n == es@.len(),
                n >= 2,
            n >= 2,
                0 <= i < n,
                i + 1 <= j <= n,
                forall|a: int, b: int| 0 <= a < b < n && a < i ==> es@[a].key != es@[b].key,
                forall|b: int| i < b < j ==> es@[i as int].key != es@[b].key,
                forall|t: int| 0 <= t < n ==> entry_present(#[trigger] es@[t]),
                forall|t: int| 0 <= t < n ==> entry_canonical(#[trigger] es@[t]),
                forall|t: int|
                    0 <= t < n ==> key_index((#[trigger] es@[t]).key.unwrap()) == key_index(es@[0].key.unwrap()),
            decreases n - j,
        {
            if es[i].key == es[j].key {
                assert(es@[i as int].key == es@[j as int].key);
                assert(has_duplicate_key(es@));
                return Err(ProofError::DuplicateKey);
            }
            j = j + 1;
        }
        i = i + 1;
    }
    assert(!has_duplicate_key(es@));
    let mut elements: Vec<u64> = Vec::new();
    i = 0;
    while i < n
        invariant
            n == es@.len(),
            n >= 2,
            0 <= i <= n,
            forall|j: int| 0 <= j < n ==> entry_present(#[trigger] es@[j]),
            forall|j: int| 0 <= j < n ==> entry_canonical(#[trigger] es@[j]),
            elements@ == entries_elements(es@.subrange(0, i as int)),
            canonical_elements(elements@),
        decreases n - i,
    {
        assert(entry_present(es@[i as int]) && entry_canonical(es@[i as int]));
        let k = es[i].key.unwrap();
        let v = es[i].value.unwrap();
        let ghost before = elements@;
        elements.push(k.d0);
        elements.push(k.d1);
        elements.push(k.d2);
        elements.push(k.d3);
        elements.push(v.d0);
        elements.push(v.d1);
        elements.push(v.d2);
        elements.push(v.d3);
        proof {
            let sub = es@.subrange(0, i as int + 1);
            assert(sub.drop_last() =~= es@.subrange(0, i as int));
            assert(sub.last() == es@[i as int]);
            assert(elements@ =~= before + k@ + v@);
            assert(k.canonical() && v.canonical());
            assert forall|t: int| 0 <= t < elements@.len() implies (#[trigger] elements@[t])
                < crate::digest::FIELD_MODULUS by {
                if t >= before.len() + 4 {
                    assert(elements@[t] == v@[t - before.len() - 4]);
                } else if t >= before.len() {
                    assert(elements@[t] == k@[t - before.len()]);
                }
            }
        }
        i = i + 1;
    }
    assert(es@.subrange(0, n as int) =~= es@);
    let hash = hash_elements(&elements);
    Ok(LeafSummary { index: first, hash })
}

impl SmtLeaf {
    /// Checks the leaf and returns its index in the tree and its hash; an
    /// empty leaf hashes to the zero digest, so absence is proved the same way
    /// as presence.
    pub fn summary(&self) -> (r: Result<LeafSummary, ProofError>)
        ensures
            match (r, leaf_spec(*self)) {
                (Ok(s), Ok((i, h))) => s.index == i && s.hash@ == h,
                (Err(e), Err(f)) => e == f,
                _ => false,
            },
    {
        match &self.leaf {
            None => Err(ProofError::MissingField),
            Some(Leaf::Empty(i)) => Ok(LeafSummary { index: *i, hash: Digest::zero() }),
            Some(Leaf::Single(e)) => {
                match (e.key, e.value) {
                    (Some(k), Some(v)) => {
                        if !k.is_canonical() || !v.is_canonical() {
                            return Err(ProofError::NonCanonicalDigest);
                        }
                        Ok(LeafSummary { index: k.d3, hash: merge_digests(k, v) })
                    },
                    _ => Err(ProofError::MissingField),
                }
            },
            Some(Leaf::Multiple(es)) => check_multiple(&es.entries),
        }
    }

    /// The value stored under `key` in this leaf, if any.
    pub fn lookup(&self, key: Digest) -> (r: Option<Digest>)
        ensures
            r == leaf_lookup(*self, key),
    {
        match &self.leaf {
            Some(Leaf::Single(e)) => if e.key == Some(key) {
                e.value
            } else {
                None
            },
            Some(Leaf::Multiple(es)) => {
                let n = es.entries.len();
                let mut found: Option<Digest> = None;
                let mut i: usize = 0;
                while i < n
                    invariant
                        n == es.entries@.len(),
                        0 <= i <= n,
                        found == entries_lookup(es.entries@.subrange(0, i as int), key),
                    decreases n - i,
                {
                    let ghost sub = es.entries@.subrange(0, i as int + 1);
                    assert(sub.drop_last() =~= es.entries@.subrange(0, i as int));
                    if found.is_none() && es.entries[i].key == Some(key) {
                        found = es.entries[i].value;
                    }
                    i = i + 1;
                }
                assert(es.entries@.subrange(0, n as int) =~= es.entries@);
                found
            },
            _ => None,
        }
    }
}

impl SmtOpening {
    /// Verifies that this opening proves what the tree of root `root` holds
    /// under `key`, and returns that value (`None` for a proof of absence).
    pub fn verify(&self, key: Digest, root: Digest) -> (r: Result<Option<Digest>, ProofError>)
        ensures
            r == opening_spec(*self, key, root),
    {
        match (&self.path, &self.leaf) {
            (Some(path), Some(leaf)) => {
                if !key.is_canonical() {
                    return Err(ProofError::NonCanonicalDigest);
                }
                match leaf.summary() {
                    Err(e) => Err(e),
                    Ok(s) => {
                        if s.index != key.d3 {
                            return Err(ProofError::LeafIndexMismatch);
                        }
                        match path.verify(SMT_DEPTH, s.index, s.hash, root) {
                            Err(e) => Err(e),
                            Ok(()) => Ok(leaf.lookup(key)),
                        }
                    },
                }
            },
            _ => Err(ProofError::MissingField),
        }
    }
}

/// A multiple-entry leaf in which two entries share a key is rejected, both
/// when the leaf is checked and when an opening that ends in it is verified.
pub proof fn lemma_duplicate_keys_rejected(leaf: SmtLeaf, opening: SmtOpening, key: Digest, root: Digest)
    requires
        leaf.leaf matches Some(Leaf::Multiple(es)) && has_duplicate_key(es.entries@),
        opening.leaf == Some(leaf),
    ensures
        leaf_spec(leaf) is Err,
        opening_spec(opening, key, root) is Err,
{
}

/// An opening of a well-formed leaf at the key's index, with a path of the
/// tree's depth, is accepted against the root recomputed from the leaf hash.
pub proof fn lemma_honest_opening_accepted(opening: SmtOpening, key: Digest, root: Digest)
    requires
        opening.path is Some,
        opening.leaf is Some,
        key.canonical(),
        opening.path.unwrap()@.len() == SMT_DEPTH,
        canonical_path(opening.path.unwrap()@),
        leaf_spec(opening.leaf.unwrap()) matches Ok((i, h)) && i == key_index(key)
            && canonical_elements(h) && root@ == fold_root(h, i as nat, opening.path.unwrap()@),
    ensures
        opening_spec(opening, key, root) == Ok::<Option<Digest>, ProofError>(
            leaf_lookup(opening.leaf.unwrap(), key),
        ),
{
    lemma_u64_index_fits(key_index(key));
}

} // verus!
