//! Which tracked notes an account can consume now, and why the others cannot.
use vstd::prelude::*;

use crate::digest::Digest;
use crate::store::{NoteRecord, NoteStatus, Store};

verus! {

/// Why a tracked note is not offered to an account.
#[derive(Clone, Copy, Debug, PartialEq, Eq, Structural)]
pub enum ExclusionReason {
    /// The note is not committed (expected, consumed, locally consumed or invalid).
    NotCommitted(NoteStatus),
    /// The note is committed but meant for another account.
    RecipientMismatch,
}

/// A tracked note left out of a screening, with the reason.
#[derive(Clone, Copy, Debug, PartialEq, Eq, Structural)]
pub struct Exclusion {
    pub note: Digest,
    pub reason: ExclusionReason,
}

/// The outcome of screening the store for one account.
#[derive(Clone, Debug, PartialEq, Eq)]
pub struct ScreenReport {
    /// The notes the account can consume, in store order.
    pub consumable: Vec<NoteRecord>,
    /// Every other tracked note, in store order.
    pub excluded: Vec<Exclusion>,
}

/// Why screening itself failed.
#[derive(Clone, Copy, Debug, PartialEq, Eq, Structural)]
pub enum ScreenError {
    /// The account is not tracked locally.
    UnknownAccount(u64),
}

/// The note is committed and meant for the account.
pub open spec fn consumable_by(r: NoteRecord, account: u64) -> bool {
    r.status == NoteStatus::Committed && r.recipient == account
}

/// Why a note that is not consumable by the account is left out.
pub open spec fn exclusion_of(r: NoteRecord) -> Exclusion {
    if r.status != NoteStatus::Committed {
        Exclusion { note: r.id, reason: ExclusionReason::NotCommitted(r.status) }
    } else {
        Exclusion { note: r.id, reason: ExclusionReason::RecipientMismatch }
    }
}

/// The notes consumable by the account, in order.
pub open spec fn screened(notes: Seq<NoteRecord>, account: u64) -> Seq<NoteRecord>
    decreases notes.len(),
{
    if notes.len() == 0 {
        Seq::empty()
    } else if consumable_by(notes.last(), account) {
        screened(notes.drop_last(), account).push(notes.last())
    } else {
        screened(notes.drop_last(), account)
    }
}

/// The exclusions for the account, in order.
pub open spec fn exclusions(notes: Seq<NoteRecord>, account: u64) -> Seq<Exclusion>
    decreases notes.len(),
{
    if notes.len() == 0 {
        Seq::empty()
    } else if consumable_by(notes.last(), account) {
        exclusions(notes.drop_last(), account)
    } else {
        exclusions(notes.drop_last(), account).push(exclusion_of(notes.last()))
    }
}

impl Store {
    /// Screens the tracked notes for `account`: the committed notes meant for
    /// it are offered, every other note is listed with its reason. No note's
    /// script is run. An account with no eligible note gets an empty list.
    pub fn screen_notes(&self, account: u64) -> (r: Result<ScreenReport, ScreenError>)
        ensures
            match r {
                Ok(rep) => self.accounts@.contains(account) && rep.consumable@ == screened(
                    self.notes@,
                    account,
                ) && rep.excluded@ == exclusions(self.notes@, account),
                Err(e) => !self.accounts@.contains(account) && e == ScreenError::UnknownAccount(
                    account,
                ),
            },
    {
        if !self.has_account(account) {
            return Err(ScreenError::UnknownAccount(account));
        }
        let mut consumable: Vec<NoteRecord> = Vec::new();
        let mut excluded: Vec<Exclusion> = Vec::new();
        let n = self.notes.len();
        let mut i: usize = 0;
        while i < n
            invariant
                n == self.notes@.len(),
                0 <= i <= n,
                consumable@ == screened(self.notes@.subrange(0, i as int), account),
                excluded@ == exclusions(self.notes@.subrange(0, i as int), account),
            decreases n - i,
        {
            let ghost sub = self.notes@.subrange(0, i as int + 1);
            assert(sub.drop_last() =~= self.notes@.subrange(0, i as int));
            let rec = self.notes[i];
            if rec.status == NoteStatus::Committed && rec.recipient == account {
                consumable.push(rec);
            } else if rec.status != NoteStatus::Committed {
                excluded.push(Exclusion { note: rec.id, reason: ExclusionReason::NotCommitted(rec.status) });
            } else {
                excluded.push(Exclusion { note: rec.id, reason: ExclusionReason::RecipientMismatch });
            }
            i = i + 1;
        }
        assert(self.notes@.subrange(0, n as int) =~= self.notes@);
        Ok(ScreenReport { consumable, excluded })
    }
}

/// Every note a screening offers is a tracked note that is committed and meant
/// for the account; in particular none is consumed or invalid.
pub proof fn lemma_screened_are_committed(notes: Seq<NoteRecord>, account: u64)
    ensures
        forall|k: int|
            0 <= k < screened(notes, account).len() ==> {
                &&& (#[trigger] screened(notes, account)[k]).status == NoteStatus::Committed
                &&& screened(notes, account)[k].recipient == account
                &&& notes.contains(screened(notes, account)[k])
            },
    decreases notes.len(),
{
    if notes.len() > 0 {
        lemma_screened_are_committed(notes.drop_last(), account);
        let prev = screened(notes.drop_last(), account);
        assert forall|k: int| 0 <= k < prev.len() implies notes.contains(#[trigger] prev[k]) by {
            assert(notes.drop_last().contains(prev[k]));
            let w = choose|t: int| 0 <= t < notes.drop_last().len() && notes.drop_last()[t] == prev[k];
            assert(notes[w] == prev[k]);
        }
        assert(notes[notes.len() - 1] == notes.last());
    }
}

/// Once the store has observed a note's nullifier, no screening of that store
/// offers the note, whatever the account.
pub proof fn lemma_nullified_never_screened(store: Store, nf: Digest, account: u64)
    requires
        store.wf(),
        store.nullifiers@.contains(nf),
    ensures
        forall|k: int|
            0 <= k < screened(store.notes@, account).len() ==> (#[trigger] screened(
                store.notes@,
                account,
            )[k]).nullifier != nf,
{
    lemma_screened_are_committed(store.notes@, account);
    assert forall|k: int| 0 <= k < screened(store.notes@, account).len() implies (#[trigger] screened(
        store.notes@,
        account,
    )[k]).nullifier != nf by {
        let r = screened(store.notes@, account)[k];
        let w = choose|t: int| 0 <= t < store.notes@.len() && store.notes@[t] == r;
        if r.nullifier == nf {
            assert(store.nullifiers@.contains(store.notes@[w].nullifier));
        }
    }
}

} // verus!
