use miden_client::digest::Digest;
use miden_client::merkle::{MerklePath, ProofError};
use miden_client::smt::{Leaf, SmtLeaf, SmtLeafEntries, SmtLeafEntry, SmtOpening, SMT_DEPTH};

fn d(a: u64, b: u64, c: u64, e: u64) -> Digest {
    Digest { d0: a, d1: b, d2: c, d3: e }
}

fn path_of(n: u64, seed: u64) -> MerklePath {
    let mut siblings = Vec::new();
    for i in 0..n {
        siblings.push(d(seed + i, i, 7, 1));
    }
    MerklePath { siblings }
}

fn entry(k: Digest, v: Digest) -> SmtLeafEntry {
    SmtLeafEntry { key: Some(k), value: Some(v) }
}

#[test]
fn honest_path_is_accepted() {
    let path = path_of(8, 100);
    let leaf = d(1, 2, 3, 4);
    let root = path.compute_root(5, leaf).unwrap();
    assert_eq!(path.verify(8, 5, leaf, root), Ok(()));
}

#[test]
fn flipped_sibling_bit_is_rejected() {
    let path = path_of(8, 100);
    let leaf = d(1, 2, 3, 4);
    let root = path.compute_root(5, leaf).unwrap();
    for i in 0..8 {
        let mut flipped = path.clone();
        flipped.siblings[i].d1 ^= 1;
        assert_eq!(flipped.verify(8, 5, leaf, root), Err(ProofError::RootMismatch));
    }
}

#[test]
fn merge_changes_the_node() {
    let path = path_of(1, 9);
    let leaf = d(1, 2, 3, 4);
    let root = path.compute_root(0, leaf).unwrap();
    assert_ne!(root, leaf);
    let swapped = path.compute_root(1, leaf).unwrap();
    assert_ne!(root, swapped);
}

#[test]
fn empty_path_returns_the_leaf() {
    let path = MerklePath { siblings: Vec::new() };
    let leaf = d(1, 2, 3, 4);
    assert_eq!(path.compute_root(0, leaf), Ok(leaf));
    assert_eq!(path.compute_root(1, leaf), Err(ProofError::IndexOutOfRange));
}

#[test]
fn wrong_path_length_is_rejected() {
    let path = path_of(4, 1);
    let leaf = d(1, 2, 3, 4);
    let root = path.compute_root(2, leaf).unwrap();
    assert_eq!(path.verify(5, 2, leaf, root), Err(ProofError::PathLengthMismatch));
}

#[test]
fn index_out_of_range_is_rejected() {
    let path = path_of(3, 1);
    let leaf = d(1, 2, 3, 4);
    assert_eq!(path.compute_root(8, leaf), Err(ProofError::IndexOutOfRange));
    assert!(path.compute_root(7, leaf).is_ok());
}

#[test]
fn non_canonical_digest_is_rejected() {
    let path = path_of(3, 1);
    let bad = d(u64::MAX, 0, 0, 0);
    assert_eq!(path.compute_root(0, bad), Err(ProofError::NonCanonicalDigest));
}

#[test]
fn empty_leaf_hashes_to_zero() {
    let leaf = SmtLeaf { leaf: Some(Leaf::Empty(42)) };
    let s = leaf.summary().unwrap();
    assert_eq!(s.index, 42);
    assert_eq!(s.hash, Digest::zero());
}

#[test]
fn single_leaf_summary() {
    let leaf = SmtLeaf { leaf: Some(Leaf::Single(entry(d(1, 2, 3, 9), d(5, 6, 7, 8)))) };
    let s = leaf.summary().unwrap();
    assert_eq!(s.index, 9);
    assert_ne!(s.hash, Digest::zero());
    assert_ne!(s.hash, d(1, 2, 3, 9));
}

#[test]
fn multiple_leaf_summary() {
    let es = vec![entry(d(1, 0, 0, 9), d(5, 0, 0, 0)), entry(d(2, 0, 0, 9), d(6, 0, 0, 0))];
    let leaf = SmtLeaf { leaf: Some(Leaf::Multiple(SmtLeafEntries { entries: es })) };
    let s = leaf.summary().unwrap();
    assert_eq!(s.index, 9);
    assert_ne!(s.hash, Digest::zero());
}

#[test]
fn duplicate_keys_are_rejected() {
    let es = vec![entry(d(1, 0, 0, 9), d(5, 0, 0, 0)), entry(d(1, 0, 0, 9), d(6, 0, 0, 0))];
    let leaf = SmtLeaf { leaf: Some(Leaf::Multiple(SmtLeafEntries { entries: es })) };
    assert_eq!(leaf.summary(), Err(ProofError::DuplicateKey));
    let opening = SmtOpening { path: Some(path_of(SMT_DEPTH, 3)), leaf: Some(leaf) };
    assert_eq!(opening.verify(d(1, 0, 0, 9), Digest::zero()), Err(ProofError::DuplicateKey));
}

#[test]
fn malformed_multiple_leaves_are_rejected() {
    let one = SmtLeaf { leaf: Some(Leaf::Multiple(SmtLeafEntries { entries: vec![entry(d(1, 0, 0, 9), d(5, 0, 0, 0))] })) };
    assert_eq!(one.summary(), Err(ProofError::TooFewEntries));
    let spread = vec![entry(d(1, 0, 0, 9), d(5, 0, 0, 0)), entry(d(2, 0, 0, 8), d(6, 0, 0, 0))];
    let leaf = SmtLeaf { leaf: Some(Leaf::Multiple(SmtLeafEntries { entries: spread })) };
    assert_eq!(leaf.summary(), Err(ProofError::LeafIndexMismatch));
    let missing = vec![entry(d(1, 0, 0, 9), d(5, 0, 0, 0)), SmtLeafEntry { key: Some(d(2, 0, 0, 9)), value: None }];
    let leaf = SmtLeaf { leaf: Some(Leaf::Multiple(SmtLeafEntries { entries: missing })) };
    assert_eq!(leaf.summary(), Err(ProofError::MissingField));
    assert_eq!(SmtLeaf { leaf: None }.summary(), Err(ProofError::MissingField));
}

#[test]
fn honest_opening_proves_presence_and_absence() {
    let key = d(11, 12, 13, 77);
    let value = d(1, 1, 1, 1);
    let leaf = SmtLeaf { leaf: Some(Leaf::Single(entry(key, value))) };
    let path = path_of(SMT_DEPTH, 50);
    let root = path.compute_root(77, leaf.summary().unwrap().hash).unwrap();
    let opening = SmtOpening { path: Some(path.clone()), leaf: Some(leaf) };
    assert_eq!(opening.verify(key, root), Ok(Some(value)));
    let other = d(99, 12, 13, 77);
    assert_eq!(opening.verify(other, root), Ok(None));
    let elsewhere = d(11, 12, 13, 78);
    assert_eq!(opening.verify(elsewhere, root), Err(ProofError::LeafIndexMismatch));
    let empty = SmtLeaf { leaf: Some(Leaf::Empty(78)) };
    let empty_root = path.compute_root(78, Digest::zero()).unwrap();
    let absence = SmtOpening { path: Some(path), leaf: Some(empty) };
    assert_eq!(absence.verify(elsewhere, empty_root), Ok(None));
    assert_eq!(absence.verify(elsewhere, root), Err(ProofError::RootMismatch));
}

#[test]
fn opening_without_path_is_rejected() {
    let opening = SmtOpening { path: None, leaf: Some(SmtLeaf { leaf: Some(Leaf::Empty(0)) }) };
    assert_eq!(opening.verify(Digest::zero(), Digest::zero()), Err(ProofError::MissingField));
}
