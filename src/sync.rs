//! One synchronisation cycle: every proof of a delta is checked against the
//! delivered block header before any of it is applied to the store.
use vstd::prelude::*;

use crate::digest::Digest;
use crate::merkle::{verify_path_spec, MerklePath, ProofError};
use crate::screener::{lemma_nullified_never_screened, screened};
use crate::smt::{opening_spec, SmtOpening};
use crate::store::{
    contains_digest, nullified_consumed, with_status, BlockHeader, NoteRecord, NoteStatus, Store,
};

verus! {

/// The depth of the per-block note tree.
pub const NOTE_TREE_DEPTH: u64 = 16;

/// A note delivered in a delta, with the path that places its id in the
/// block's note tree.
#[derive(Clone, Debug, PartialEq, Eq)]
pub struct NoteInclusion {
    pub note: NoteRecord,
    pub index: u64,
    pub path: MerklePath,
}

/// A nullifier delivered in a delta, with its opening in the nullifier tree.
#[derive(Clone, Debug, PartialEq, Eq)]
pub struct NullifierProof {
    pub nullifier: Digest,
    pub opening: SmtOpening,
}

/// What a remote node reports for the blocks since the local height.
#[derive(Clone, Debug, PartialEq, Eq)]
pub struct SyncDelta {
    pub header: BlockHeader,
    pub notes: Vec<NoteInclusion>,
    pub nullifiers: Vec<NullifierProof>,
}

/// Why a cycle was refused. None of these is cured by asking again for the
/// same data.
#[derive(Clone, Copy, Debug, PartialEq, Eq, Structural)]
pub enum SyncError {
    /// The delivered tip lies below the recorded height.
    StaleTip,
    /// A note's inclusion path does not check against the note root.
    NoteProof(ProofError),
    /// A nullifier's opening does not check against the nullifier root.
    NullifierProof(ProofError),
    /// A nullifier's opening proves that the nullifier is absent.
    NullifierAbsent,
}

/// How a successful cycle ended.
#[derive(Clone, Copy, Debug, PartialEq, Eq, Structural)]
pub enum SyncOutcome {
    /// The tip equals the recorded height: nothing was done.
    UpToDate,
    /// The delta was verified and applied, and the height advanced.
    Advanced,
}

/// The check of one delivered note.
pub open spec fn note_check(h: BlockHeader, n: NoteInclusion) -> Result<(), SyncError> {
    match verify_path_spec(n.path@, NOTE_TREE_DEPTH as nat, n.index as nat, n.note.id@, h.note_root@) {
        Ok(_) => Ok(()),
        Err(e) => Err(SyncError::NoteProof(e)),
    }
}

/// The check of one delivered nullifier: its opening must prove presence.
pub open spec fn nullifier_check(h: BlockHeader, p: NullifierProof) -> Result<(), SyncError> {
    match opening_spec(p.opening, p.nullifier, h.nullifier_root) {
        Ok(Some(_)) => Ok(()),
        Ok(None) => Err(SyncError::NullifierAbsent),
        Err(e) => Err(SyncError::NullifierProof(e)),
    }
}

/// The first failing note check, in delivery order.
pub open spec fn notes_check(h: BlockHeader, ns: Seq<NoteInclusion>) -> Result<(), SyncError>
    decreases ns.len(),
{
    if ns.len() == 0 {
        Ok(())
    } else {
        match notes_check(h, ns.drop_last()) {
            Err(e) => Err(e),
            Ok(_) => note_check(h, ns.last()),
        }
    }
}

/// The first failing nullifier check, in delivery order.
pub open spec fn nullifiers_check(h: BlockHeader, ps: Seq<NullifierProof>) -> Result<(), SyncError>
    decreases ps.len(),
{
    if ps.len() == 0 {
        Ok(())
    } else {
        match nullifiers_check(h, ps.drop_last()) {
            Err(e) => Err(e),
            Ok(_) => nullifier_check(h, ps.last()),
        }
    }
}

/// What a cycle from `height` with `delta` returns.
pub open spec fn sync_result(height: u32, delta: SyncDelta) -> Result<SyncOutcome, SyncError> {
    if delta.header.height < height {
        Err(SyncError::StaleTip)
    } else if delta.header.height == height {
        Ok(SyncOutcome::UpToDate)
    } else {
        match notes_check(delta.header, delta.notes@) {
            Err(e) => Err(e),
            Ok(_) => match nullifiers_check(delta.header, delta.nullifiers@) {
                Err(e) => Err(e),
                Ok(_) => Ok(SyncOutcome::Advanced),
            },
        }
    }
}

/// The status a tracked note takes when a verified block includes it: an
/// expected note becomes committed; no status moves backward.
pub open spec fn committed_status(s: NoteStatus) -> NoteStatus {
    match s {
        NoteStatus::Expected => NoteStatus::Committed,
        other => other,
    }
}

/// Some tracked note has this id.
pub open spec fn tracks_id(notes: Seq<NoteRecord>, id: Digest) -> bool {
    exists|j: int| 0 <= j < notes.len() && (#[trigger] notes[j]).id == id
}

/// The notes after a verified block includes `n`.
pub open spec fn commit_note(notes: Seq<NoteRecord>, nfs: Seq<Digest>, n: NoteRecord) -> Seq<NoteRecord> {
    if tracks_id(notes, n.id) {
        notes.map_values(
            |r: NoteRecord|
                if r.id == n.id {
                    with_status(r, committed_status(r.status))
                } else {
                    r
                },
        )
    } else {
        notes.push(
            if nfs.contains(n.nullifier) {
                with_status(n, NoteStatus::Consumed)
            } else {
                with_status(n, NoteStatus::Committed)
            },
        )
    }
}

/// The notes after each delivered note is committed, in order.
pub open spec fn commit_notes(notes: Seq<NoteRecord>, nfs: Seq<Digest>, ns: Seq<NoteInclusion>) -> Seq<
    NoteRecord,
>
    decreases ns.len(),
{
    if ns.len() == 0 {
        notes
    } else {
        commit_note(commit_notes(notes, nfs, ns.drop_last()), nfs, ns.last().note)
    }
}

/// The notes after nullifier `nf` is observed.
pub open spec fn consume(notes: Seq<NoteRecord>, nf: Digest) -> Seq<NoteRecord> {
    notes.map_values(
        |r: NoteRecord|
            if r.nullifier == nf {
                with_status(r, NoteStatus::Consumed)
            } else {
                r
            },
    )
}

/// The notes after each delivered nullifier is observed, in order.
pub open spec fn consume_all(notes: Seq<NoteRecord>, ps: Seq<NullifierProof>) -> Seq<NoteRecord>
    decreases ps.len(),
{
    if ps.len() == 0 {
        notes
    } else {
        consume(consume_all(notes, ps.drop_last()), ps.last().nullifier)
    }
}

/// Locally spent notes whose nullifier the chain has not shown revert to committed.
pub open spec fn reconcile(notes: Seq<NoteRecord>) -> Seq<NoteRecord> {
    notes.map_values(
        |r: NoteRecord|
            if r.status == NoteStatus::ConsumedLocally {
                with_status(r, NoteStatus::Committed)
            } else {
                r
            },
    )
}

/// The tracked notes after a verified delta is applied.
pub open spec fn synced_notes(notes: Seq<NoteRecord>, nfs: Seq<Digest>, delta: SyncDelta) -> Seq<NoteRecord> {
    reconcile(consume_all(commit_notes(notes, nfs, delta.notes@), delta.nullifiers@))
}

/// The nullifiers of a delta, in delivery order.
pub open spec fn delta_nullifiers(ps: Seq<NullifierProof>) -> Seq<Digest> {
    ps.map_values(|p: NullifierProof| p.nullifier)
}

fn commit_note_exec(notes: &mut Vec<NoteRecord>, nfs: &Vec<Digest>, n: NoteRecord)
    requires
        nullified_consumed(old(notes)@, nfs@),
    ensures
        final(notes)@ == commit_note(old(notes)@, nfs@, n),
        nullified_consumed(final(notes)@, nfs@),
{
    let len = notes.len();
    let mut found = false;
    let mut j: usize = 0;
    while j < len
        invariant
            len == notes@.len(),
            len == old(notes)@.len(),
            0 <= j <= len,
            found == exists|k: int| 0 <= k < j && (#[trigger] old(notes)@[k]).id == n.id,
            forall|k: int|
                0 <= k < j ==> notes@[k] == (if old(notes)@[k].id == n.id {
                    with_status(old(notes)@[k], committed_status(old(notes)@[k].status))
                } else {
                    old(notes)@[k]
                }),
            forall|k: int| j <= k < len ==> notes@[k] == old(notes)@[k],
        decreases len - j,
    {
        let r = notes[j];
        if r.id == n.id {
            let s = match r.status {
                NoteStatus::Expected => NoteStatus::Committed,
                other => other,
            };
            notes.set(j, NoteRecord { status: s, ..r });
            found = true;
        }
        j = j + 1;
    }
    if found {
        assert(notes@ =~= commit_note(old(notes)@, nfs@, n));
    } else {
        assert(!tracks_id(old(notes)@, n.id));
        assert(notes@ =~= old(notes)@);
        let rec = if contains_digest(nfs, n.nullifier) {
            NoteRecord { status: NoteStatus::Consumed, ..n }
        } else {
            NoteRecord { status: NoteStatus::Committed, ..n }
        };
        notes.push(rec);
    }
    assert forall|k: int|
        0 <= k < notes@.len() && nfs@.contains(#[trigger] notes@[k].nullifier)
            implies notes@[k].status == NoteStatus::Consumed by {
        if k < old(notes)@.len() {
            assert(nfs@.contains(old(notes)@[k].nullifier));
        }
    }
}

fn consume_exec(notes: &mut Vec<NoteRecord>, nfs: &Vec<Digest>, nf: Digest)
    requires
        nullified_consumed(old(notes)@, nfs@),
    ensures
        final(notes)@ == consume(old(notes)@, nf),
        nullified_consumed(final(notes)@, nfs@.push(nf)),
{
    let len = notes.len();
    let mut j: usize = 0;
    while j < len
        invariant
            len == notes@.len(),
            len == old(notes)@.len(),
            0 <= j <= len,
            forall|k: int|
                0 <= k < j ==> notes@[k] == (if old(notes)@[k].nullifier == nf {
                    with_status(old(notes)@[k], NoteStatus::Consumed)
                } else {
                    old(notes)@[k]
                }),
            forall|k: int| j <= k < len ==> notes@[k] == old(notes)@[k],
        decreases len - j,
    {
        let r = notes[j];
        if r.nullifier == nf {
            notes.set(j, NoteRecord { status: NoteStatus::Consumed, ..r });
        }
        j = j + 1;
    }
    assert(notes@ =~= consume(old(notes)@, nf));
    assert forall|k: int|
        0 <= k < notes@.len() && nfs@.push(nf).contains(#[trigger] notes@[k].nullifier)
            implies notes@[k].status == NoteStatus::Consumed by {
        let x = notes@[k].nullifier;
        if x != nf {
            let w = choose|t: int| 0 <= t < nfs@.push(nf).len() && nfs@.push(nf)[t] == x;
            assert(nfs@[w] == x);
            assert(nfs@.contains(old(notes)@[k].nullifier));
        }
    }
}

fn reconcile_exec(notes: &mut Vec<NoteRecord>, nfs: &Vec<Digest>)
    requires
        nullified_consumed(old(notes)@, nfs@),
    ensures
        final(notes)@ == reconcile(old(notes)@),
        nullified_consumed(final(notes)@, nfs@),
{
    let len = notes.len();
    let mut j: usize = 0;
    while j < len
        invariant
            len == notes@.len(),
            len == old(notes)@.len(),
            0 <= j <= len,
            forall|k: int|
                0 <= k < j ==> notes@[k] == (if old(notes)@[k].status == NoteStatus::ConsumedLocally {
                    with_status(old(notes)@[k], NoteStatus::Committed)
                } else {
                    old(notes)@[k]
                }),
            forall|k: int| j <= k < len ==> notes@[k] == old(notes)@[k],
        decreases len - j,
    {
        let r = notes[j];
        if r.status == NoteStatus::ConsumedLocally {
            notes.set(j, NoteRecord { status: NoteStatus::Committed, ..r });
        }
        j = j + 1;
    }
    assert(notes@ =~= reconcile(old(notes)@));
    assert forall|k: int|
        0 <= k < notes@.len() && nfs@.contains(#[trigger] notes@[k].nullifier)
            implies notes@[k].status == NoteStatus::Consumed by {
        assert(nfs@.contains(old(notes)@[k].nullifier));
    }
}

impl Store {
    /// Runs one synchronisation cycle with the delta a remote node delivered.
    /// Every proof is checked before anything is written, so a refused cycle
    /// leaves the store exactly as it was; the height advances only once all
    /// of the delta has been applied.
    pub fn apply_sync(&mut self, delta: &SyncDelta) -> (r: Result<SyncOutcome, SyncError>)
        requires
            old(self).wf(),
        ensures
            r == sync_result(old(self).height, *delta),
            r == Ok::<SyncOutcome, SyncError>(SyncOutcome::Advanced) ==> {
                &&& final(self).height == delta.header.height
                &&& final(self).notes@ == synced_notes(old(self).notes@, old(self).nullifiers@, *delta)
                &&& final(self).nullifiers@ == old(self).nullifiers@ + delta_nullifiers(delta.nullifiers@)
                &&& final(self).accounts@ == old(self).accounts@
            },
            r != Ok::<SyncOutcome, SyncError>(SyncOutcome::Advanced) ==> *final(self) == *old(self),
            final(self).wf(),
    {
        let h = delta.header;
        if h.height < self.height {
            return Err(SyncError::StaleTip);
        }
        if h.height == self.height {
            return Ok(SyncOutcome::UpToDate);
        }
        let n = delta.notes.len();
        let mut i: usize = 0;
        while i < n
            invariant
                n == delta.notes@.len(),
                0 <= i <= n,
                notes_check(h, delta.notes@.subrange(0, i as int)) == Ok::<(), SyncError>(()),
                h == delta.header,
                h.height > self.height,
                *self == *old(self),
                self.wf(),
            decreases n - i,
        {
            let ghost sub = delta.notes@.subrange(0, i as int + 1);
            assert(sub.drop_last() =~= delta.notes@.subrange(0, i as int));
            let inc = &delta.notes[i];
            match inc.path.verify(NOTE_TREE_DEPTH, inc.index, inc.note.id, h.note_root) {
                Err(e) => {
                    assert(notes_check(h, sub) == Err::<(), SyncError>(SyncError::NoteProof(e)));
                    assert(forall|k: int| i + 1 <= k <= n ==> #[trigger] notes_check(h, delta.notes@.subrange(0, k)) == Err::<(), SyncError>(SyncError::NoteProof(e))) by {
                        lemma_notes_check_stays(h, delta.notes@, i as int + 1, SyncError::NoteProof(e));
                    }
                    assert(delta.notes@.subrange(0, n as int) =~= delta.notes@);
                    return Err(SyncError::NoteProof(e));
                },
                Ok(()) => {},
            }
            i = i + 1;
        }
        assert(delta.notes@.subrange(0, n as int) =~= delta.notes@);
        let m = delta.nullifiers.len();
        i = 0;
        while i < m
            invariant
                m == delta.nullifiers@.len(),
                0 <= i <= m,
                nullifiers_check(h, delta.nullifiers@.subrange(0, i as int)) == Ok::<(), SyncError>(()),
                notes_check(h, delta.notes@) == Ok::<(), SyncError>(()),
                h == delta.header,
                h.height > self.height,
                *self == *old(self),
                self.wf(),
            decreases m - i,
        {
            let ghost sub = delta.nullifiers@.subrange(0, i as int + 1);
            assert(sub.drop_last() =~= delta.nullifiers@.subrange(0, i as int));
            let p = &delta.nullifiers[i];
            let err = match p.opening.verify(p.nullifier, h.nullifier_root) {
                Err(e) => Some(SyncError::NullifierProof(e)),
                Ok(None) => Some(SyncError::NullifierAbsent),
                Ok(Some(_)) => None,
            };
            match err {
                Some(e) => {
                    assert(nullifiers_check(h, sub) == Err::<(), SyncError>(e));
                    assert(forall|k: int| i + 1 <= k <= m ==> #[trigger] nullifiers_check(h, delta.nullifiers@.subrange(0, k)) == Err::<(), SyncError>(e)) by {
                        lemma_nullifiers_check_stays(h, delta.nullifiers@, i as int + 1, e);
                    }
                    assert(delta.nullifiers@.subrange(0, m as int) =~= delta.nullifiers@);
                    return Err(e);
                },
                None => {},
            }
            i = i + 1;
        }
        assert(delta.nullifiers@.subrange(0, m as int) =~= delta.nullifiers@);
        let ghost old_notes = self.notes@;
        let ghost old_nfs = self.nullifiers@;
        i = 0;
        while i < n
            invariant
                n == delta.notes@.len(),
                0 <= i <= n,
                self.nullifiers@ == old_nfs,
                h == delta.header,
                old_notes == old(self).notes@,
                old_nfs == old(self).nullifiers@,
                notes_check(h, delta.notes@) == Ok::<(), SyncError>(()),
                nullifiers_check(h, delta.nullifiers@) == Ok::<(), SyncError>(()),
                h.height > old(self).height,
                self.notes@ == commit_notes(old_notes, old_nfs, delta.notes@.subrange(0, i as int)),
                nullified_consumed(self.notes@, self.nullifiers@),
                self.height == old(self).height,
                self.accounts@ == old(self).accounts@,
            decreases n - i,
        {
            let ghost sub = delta.notes@.subrange(0, i as int + 1);
            assert(sub.drop_last() =~= delta.notes@.subrange(0, i as int));
            commit_note_exec(&mut self.notes, &self.nullifiers, delta.notes[i].note);
            i = i + 1;
        }
        assert(delta.notes@.subrange(0, n as int) =~= delta.notes@);
        let ghost committed = self.notes@;
        i = 0;
        while i < m
            invariant
                m == delta.nullifiers@.len(),
                0 <= i <= m,
                self.nullifiers@ == old_nfs + delta_nullifiers(delta.nullifiers@.subrange(0, i as int)),
                h == delta.header,
                old_nfs == old(self).nullifiers@,
                committed == commit_notes(old(self).notes@, old_nfs, delta.notes@),
                notes_check(h, delta.notes@) == Ok::<(), SyncError>(()),
                nullifiers_check(h, delta.nullifiers@) == Ok::<(), SyncError>(()),
                h.height > old(self).height,
                self.notes@ == consume_all(committed, delta.nullifiers@.subrange(0, i as int)),
                nullified_consumed(self.notes@, self.nullifiers@),
                self.height == old(self).height,
                self.accounts@ == old(self).accounts@,
            decreases m - i,
        {
            let ghost sub = delta.nullifiers@.subrange(0, i as int + 1);
            assert(sub.drop_last() =~= delta.nullifiers@.subrange(0, i as int));
            let nf = delta.nullifiers[i].nullifier;
            consume_exec(&mut self.notes, &self.nullifiers, nf);
            self.nullifiers.push(nf);
            assert(delta_nullifiers(sub) =~= delta_nullifiers(delta.nullifiers@.subrange(0, i as int)).push(nf));
            assert(self.nullifiers@ =~= old_nfs + delta_nullifiers(sub));
            i = i + 1;
        }
        assert(delta.nullifiers@.subrange(0, m as int) =~= delta.nullifiers@);
        reconcile_exec(&mut self.notes, &self.nullifiers);
        self.height = h.height;
        Ok(SyncOutcome::Advanced)
    }
}

proof fn lemma_notes_check_stays(h: BlockHeader, ns: Seq<NoteInclusion>, k0: int, e: SyncError)
    requires
        0 <= k0 <= ns.len(),
        notes_check(h, ns.subrange(0, k0)) == Err::<(), SyncError>(e),
    ensures
        forall|k: int| k0 <= k <= ns.len() ==> #[trigger] notes_check(h, ns.subrange(0, k)) == Err::<(), SyncError>(e),
    decreases ns.len() - k0,
{
    if k0 < ns.len() {
        assert(ns.subrange(0, k0 + 1).drop_last() =~= ns.subrange(0, k0));
        lemma_notes_check_stays(h, ns, k0 + 1, e);
    }
}

proof fn lemma_nullifiers_check_stays(h: BlockHeader, ps: Seq<NullifierProof>, k0: int, e: SyncError)
    requires
        0 <= k0 <= ps.len(),
        nullifiers_check(h, ps.subrange(0, k0)) == Err::<(), SyncError>(e),
    ensures
        forall|k: int| k0 <= k <= ps.len() ==> #[trigger] nullifiers_check(h, ps.subrange(0, k)) == Err::<(), SyncError>(e),
    decreases ps.len() - k0,
{
    if k0 < ps.len() {
        assert(ps.subrange(0, k0 + 1).drop_last() =~= ps.subrange(0, k0));
        lemma_nullifiers_check_stays(h, ps, k0 + 1, e);
    }
}

/// A nullifier the store has observed stays observed through a successful
/// cycle; afterwards every note it spends is consumed and no screening, for
/// any account, offers such a note. (A refused cycle leaves the store as it
/// was, so the same holds there.)
pub proof fn lemma_observed_nullifier_persists(
    before: Store,
    after: Store,
    delta: SyncDelta,
    nf: Digest,
    account: u64,
)
    requires
        before.nullifiers@.contains(nf),
        after.wf(),
        after.nullifiers@ == before.nullifiers@ + delta_nullifiers(delta.nullifiers@),
    ensures
        after.nullifiers@.contains(nf),
        forall|j: int|
            0 <= j < after.notes@.len() && (#[trigger] after.notes@[j]).nullifier == nf
                ==> after.notes@[j].status == NoteStatus::Consumed,
        forall|k: int|
            0 <= k < screened(after.notes@, account).len() ==> (#[trigger] screened(
                after.notes@,
                account,
            )[k]).nullifier != nf,
{
    let w = choose|t: int| 0 <= t < before.nullifiers@.len() && before.nullifiers@[t] == nf;
    assert(after.nullifiers@[w] == nf);
    lemma_nullified_never_screened(after, nf, account);
}

} // verus!
