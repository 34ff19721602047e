//! The local view of chain state: tracked notes, observed nullifiers, known
//! accounts and the height up to which that view has been verified.
use vstd::prelude::*;

use crate::digest::Digest;

verus! {

/// Where a tracked note stands in its lifecycle.
#[derive(Clone, Copy, Debug, PartialEq, Eq, Structural)]
pub enum NoteStatus {
    /// Announced but not yet seen in a block.
    Expected,
    /// Included in a verified block and not spent.
    Committed,
    /// Its nullifier was seen in a verified block; this is terminal.
    Consumed,
    /// Spent by a local transaction that the chain has not confirmed yet.
    ConsumedLocally,
    /// Rejected as unusable.
    Invalid,
}

/// A tracked note: its identity, the nullifier that spends it, the account it
/// is meant for, and its status.
#[derive(Clone, Copy, Debug, PartialEq, Eq, Structural)]
pub struct NoteRecord {
    pub id: Digest,
    pub nullifier: Digest,
    pub recipient: u64,
    pub status: NoteStatus,
}

/// The block data against which the proofs delivered for that block are checked.
#[derive(Clone, Copy, Debug, PartialEq, Eq, Structural)]
pub struct BlockHeader {
    pub height: u32,
    pub note_root: Digest,
    pub nullifier_root: Digest,
}

/// The local store.
#[derive(Clone, Debug, PartialEq, Eq)]
pub struct Store {
    /// The last block height whose data has been verified and applied.
    pub height: u32,
    pub notes: Vec<NoteRecord>,
    /// Nullifiers seen in verified blocks.
    pub nullifiers: Vec<Digest>,
    /// Accounts tracked locally.
    pub accounts: Vec<u64>,
}

/// The record with its status replaced.
pub open spec fn with_status(r: NoteRecord, s: NoteStatus) -> NoteRecord {
    NoteRecord { status: s, ..r }
}

/// Every tracked note whose nullifier has been observed is consumed.
pub open spec fn nullified_consumed(notes: Seq<NoteRecord>, nullifiers: Seq<Digest>) -> bool {
    forall|j: int|
        0 <= j < notes.len() && nullifiers.contains(#[trigger] notes[j].nullifier)
            ==> notes[j].status == NoteStatus::Consumed
}

impl Store {
    /// The store's invariant: an observed nullifier leaves its note consumed.
    pub open spec fn wf(&self) -> bool {
        nullified_consumed(self.notes@, self.nullifiers@)
    }

    /// An empty store at height zero that tracks the given accounts.
    pub fn new(accounts: Vec<u64>) -> (r: Store)
        ensures
            r.height == 0,
            r.notes@.len() == 0,
            r.nullifiers@.len() == 0,
            r.accounts@ == accounts@,
            r.wf(),
    {
        Store { height: 0, notes: Vec::new(), nullifiers: Vec::new(), accounts }
    }

    /// Starts tracking a note, as a local transaction does for the notes it
    /// creates or as an import does; a note whose nullifier has already been
    /// observed is recorded as consumed.
    pub fn track_note(&mut self, note: NoteRecord)
        requires
            old(self).wf(),
        ensures
            final(self).wf(),
            final(self).height == old(self).height,
            final(self).nullifiers@ == old(self).nullifiers@,
            final(self).accounts@ == old(self).accounts@,
            final(self).notes@ == old(self).notes@.push(
                if old(self).nullifiers@.contains(note.nullifier) {
                    with_status(note, NoteStatus::Consumed)
                } else {
                    note
                },
            ),
    {
        let rec = if contains_digest(&self.nullifiers, note.nullifier) {
            NoteRecord { status: NoteStatus::Consumed, ..note }
        } else {
            note
        };
        self.notes.push(rec);
        assert(nullified_consumed(self.notes@, self.nullifiers@)) by {
            assert forall|j: int|
                0 <= j < self.notes@.len() && self.nullifiers@.contains(
                    #[trigger] self.notes@[j].nullifier,
                ) implies self.notes@[j].status == NoteStatus::Consumed by {
                if j < old(self).notes@.len() {
                    assert(self.notes@[j] == old(self).notes@[j]);
                }
            }
        }
    }

    /// Checks the store's invariant, for a store assembled field by field.
    pub fn is_wf(&self) -> (r: bool)
        ensures
            r == self.wf(),
    {
        let n = self.notes.len();
        let mut i: usize = 0;
        while i < n
            invariant
                n == self.notes@.len(),
                0 <= i <= n,
                forall|j: int|
                    0 <= j < i && self.nullifiers@.contains(#[trigger] self.notes@[j].nullifier)
                        ==> self.notes@[j].status == NoteStatus::Consumed,
            decreases n - i,
        {
            let r = self.notes[i];
            if r.status != NoteStatus::Consumed && contains_digest(&self.nullifiers, r.nullifier) {
                assert(self.notes@[i as int] == r);
                return false;
            }
            i = i + 1;
        }
        true
    }

    /// Checks whether an account is tracked locally.
    pub fn has_account(&self, account: u64) -> (r: bool)
        ensures
            r == self.accounts@.contains(account),
    {
        let n = self.accounts.len();
        let mut i: usize = 0;
        while i < n
            invariant
                n == self.accounts@.len(),
                0 <= i <= n,
                forall|k: int| 0 <= k < i ==> self.accounts@[k] != account,
            decreases n - i,
        {
            if self.accounts[i] == account {
                assert(self.accounts@[i as int] == account);
                return true;
            }
            i = i + 1;
        }
        false
    }
}

/// Checks whether the digest is in the list.
pub fn contains_digest(v: &Vec<Digest>, d: Digest) -> (r: bool)
    ensures
        r == v@.contains(d),
{
    let n = v.len();
    let mut i: usize = 0;
    while i < n
        invariant
            n == v@.len(),
            0 <= i <= n,
            forall|k: int| 0 <= k < i ==> v@[k] != d,
        decreases n - i,
    {
        if v[i] == d {
            assert(v@[i as int] == d);
            return true;
        }
        i = i + 1;
    }
    false
}

} // verus!
