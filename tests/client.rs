use miden_client::coordinator::{Coordinator, TxAction, TxError, TxEvent, TxStage};
use miden_client::digest::Digest;
use miden_client::errors::{ClientError, IdPrefixFetchError};
use miden_client::merkle::{MerklePath, ProofError};
use miden_client::screener::{ExclusionReason, ScreenError};
use miden_client::smt::{Leaf, SmtLeaf, SmtLeafEntry, SmtOpening, SMT_DEPTH};
use miden_client::store::{BlockHeader, NoteRecord, NoteStatus, Store};
use miden_client::sync::{NoteInclusion, NullifierProof, SyncDelta, SyncError, SyncOutcome, NOTE_TREE_DEPTH};
use miden_client::transaction::{missing_output_notes, OutputTemplate, TransactionRequest, TransactionRequestError};

fn d(a: u64, b: u64, c: u64, e: u64) -> Digest {
    Digest { d0: a, d1: b, d2: c, d3: e }
}

fn path_of(n: u64, seed: u64) -> MerklePath {
    let mut siblings = Vec::new();
    for i in 0..n {
        siblings.push(d(seed + i, i, 3, 2));
    }
    MerklePath { siblings }
}

fn note(id: u64, nf: u64, recipient: u64, status: NoteStatus) -> NoteRecord {
    NoteRecord { id: d(id, 0, 0, 0), nullifier: d(nf, 0, 0, 5), recipient, status }
}

fn nullifier_proof(nf: Digest) -> (NullifierProof, Digest) {
    let leaf = SmtLeaf { leaf: Some(Leaf::Single(SmtLeafEntry { key: Some(nf), value: Some(d(12, 0, 0, 0)) })) };
    let path = path_of(SMT_DEPTH, 40);
    let root = path.compute_root(nf.d3, leaf.summary().unwrap().hash).unwrap();
    (NullifierProof { nullifier: nf, opening: SmtOpening { path: Some(path), leaf: Some(leaf) } }, root)
}

fn inclusion(n: NoteRecord, index: u64) -> (NoteInclusion, Digest) {
    let path = path_of(NOTE_TREE_DEPTH, 70);
    let root = path.compute_root(index, n.id).unwrap();
    (NoteInclusion { note: n, index, path }, root)
}

fn store_at(height: u32, notes: Vec<NoteRecord>) -> Store {
    let mut s = Store::new(vec![1, 2]);
    s.height = height;
    s.notes = notes;
    s
}

fn delta_10_to_12(tracked_nf: u64) -> SyncDelta {
    let new_note = note(500, 501, 1, NoteStatus::Expected);
    let (inc, note_root) = inclusion(new_note, 3);
    let (np, nf_root) = nullifier_proof(d(tracked_nf, 0, 0, 5));
    SyncDelta {
        header: BlockHeader { height: 12, note_root, nullifier_root: nf_root },
        notes: vec![inc],
        nullifiers: vec![np],
    }
}

#[test]
fn sync_from_ten_to_twelve() {
    let mut store = store_at(10, vec![note(7, 8, 1, NoteStatus::Committed), note(9, 10, 1, NoteStatus::Committed)]);
    let delta = delta_10_to_12(8);
    assert_eq!(store.apply_sync(&delta), Ok(SyncOutcome::Advanced));
    assert_eq!(store.height, 12);
    assert_eq!(store.notes.len(), 3);
    assert_eq!(store.notes[0].status, NoteStatus::Consumed);
    assert_eq!(store.notes[1].status, NoteStatus::Committed);
    assert_eq!(store.notes[2].id, d(500, 0, 0, 0));
    assert_eq!(store.notes[2].status, NoteStatus::Committed);
    assert_eq!(store.nullifiers, vec![d(8, 0, 0, 5)]);
}

#[test]
fn failed_verification_leaves_store_unchanged() {
    let mut store = store_at(10, vec![note(7, 8, 1, NoteStatus::Committed)]);
    let before = store.clone();
    let mut delta = delta_10_to_12(8);
    delta.header.nullifier_root = d(1, 1, 1, 1);
    assert_eq!(store.apply_sync(&delta), Err(SyncError::NullifierProof(ProofError::RootMismatch)));
    assert_eq!(store, before);
    let mut delta = delta_10_to_12(8);
    delta.notes[0].path.siblings[2].d0 ^= 4;
    assert_eq!(store.apply_sync(&delta), Err(SyncError::NoteProof(ProofError::RootMismatch)));
    assert_eq!(store, before);
}

#[test]
fn sync_at_tip_is_a_no_op_and_stale_tip_is_refused() {
    let mut store = store_at(12, vec![note(7, 8, 1, NoteStatus::Committed)]);
    let before = store.clone();
    assert_eq!(store.apply_sync(&delta_10_to_12(8)), Ok(SyncOutcome::UpToDate));
    assert_eq!(store, before);
    let mut high = store_at(13, Vec::new());
    assert_eq!(high.apply_sync(&delta_10_to_12(8)), Err(SyncError::StaleTip));
}

#[test]
fn absent_nullifier_is_refused() {
    let mut store = store_at(10, Vec::new());
    let mut delta = delta_10_to_12(8);
    let nf = d(8, 0, 0, 5);
    let empty = SmtLeaf { leaf: Some(Leaf::Empty(5)) };
    let path = path_of(SMT_DEPTH, 40);
    delta.header.nullifier_root = path.compute_root(5, Digest::zero()).unwrap();
    delta.nullifiers = vec![NullifierProof { nullifier: nf, opening: SmtOpening { path: Some(path), leaf: Some(empty) } }];
    assert_eq!(store.apply_sync(&delta), Err(SyncError::NullifierAbsent));
}

#[test]
fn locally_consumed_note_is_reconciled() {
    let mut store = store_at(10, vec![note(7, 8, 1, NoteStatus::ConsumedLocally), note(9, 10, 1, NoteStatus::ConsumedLocally)]);
    assert_eq!(store.apply_sync(&delta_10_to_12(8)), Ok(SyncOutcome::Advanced));
    assert_eq!(store.notes[0].status, NoteStatus::Consumed);
    assert_eq!(store.notes[1].status, NoteStatus::Committed);
}

#[test]
fn nullified_note_stays_consumed_and_unscreened() {
    let mut store = store_at(10, vec![note(7, 8, 1, NoteStatus::Committed)]);
    assert_eq!(store.apply_sync(&delta_10_to_12(8)), Ok(SyncOutcome::Advanced));
    store.track_note(note(70, 8, 2, NoteStatus::Committed));
    assert_eq!(store.notes[2].status, NoteStatus::Consumed);
    for account in [1u64, 2u64] {
        let report = store.screen_notes(account).unwrap();
        assert!(report.consumable.iter().all(|n| n.nullifier != d(8, 0, 0, 5)));
    }
}

#[test]
fn screening_offers_only_committed_notes_for_the_account() {
    let store = store_at(
        10,
        vec![
            note(1, 1, 1, NoteStatus::Committed),
            note(2, 2, 1, NoteStatus::Consumed),
            note(3, 3, 1, NoteStatus::Invalid),
            note(4, 4, 2, NoteStatus::Committed),
            note(5, 5, 1, NoteStatus::Expected),
        ],
    );
    let report = store.screen_notes(1).unwrap();
    assert_eq!(report.consumable, vec![note(1, 1, 1, NoteStatus::Committed)]);
    assert_eq!(report.excluded.len(), 4);
    assert_eq!(report.excluded[0].reason, ExclusionReason::NotCommitted(NoteStatus::Consumed));
    assert_eq!(report.excluded[2].reason, ExclusionReason::RecipientMismatch);
    assert_eq!(report.excluded[2].note, d(4, 0, 0, 0));
}

#[test]
fn screening_with_no_eligible_note_is_empty() {
    let store = store_at(10, vec![note(2, 2, 1, NoteStatus::Consumed)]);
    let report = store.screen_notes(2).unwrap();
    assert!(report.consumable.is_empty());
    assert_eq!(store.screen_notes(3), Err(ScreenError::UnknownAccount(3)));
}

fn template(id: u64) -> OutputTemplate {
    OutputTemplate { note_id: d(id, 0, 0, 0), recipient: d(1, 2, 3, 4), amount: 10 }
}

fn built_request() -> TransactionRequest {
    let store = store_at(10, vec![note(100, 101, 1, NoteStatus::Committed)]);
    TransactionRequest::build(&store, vec![d(100, 0, 0, 0)], vec![template(200)], vec![7]).unwrap()
}

#[test]
fn request_build_checks_inputs_and_outputs() {
    let store = store_at(10, vec![note(100, 101, 1, NoteStatus::Committed), note(102, 103, 1, NoteStatus::Expected)]);
    assert_eq!(
        TransactionRequest::build(&store, vec![d(104, 0, 0, 0)], vec![], vec![]),
        Err(TransactionRequestError::InputNoteNotFound(d(104, 0, 0, 0)))
    );
    assert_eq!(
        TransactionRequest::build(&store, vec![d(100, 0, 0, 0), d(102, 0, 0, 0)], vec![], vec![]),
        Err(TransactionRequestError::InputNoteNotCommitted(d(102, 0, 0, 0)))
    );
    let mut bad = template(5);
    bad.recipient = Digest::zero();
    assert_eq!(
        TransactionRequest::build(&store, vec![d(100, 0, 0, 0)], vec![template(4), bad], vec![]),
        Err(TransactionRequestError::InvalidOutput(1))
    );
    let mut huge = template(6);
    huge.amount = 1u64 << 63;
    assert_eq!(
        TransactionRequest::build(&store, vec![], vec![huge], vec![]),
        Err(TransactionRequestError::InvalidOutput(0))
    );
    let req = built_request();
    assert_eq!(req.expected_output_ids(), vec![d(200, 0, 0, 0)]);
    assert_eq!(req.script_args, vec![7]);
}

#[test]
fn declared_output_produced_is_submitted() {
    let mut c = Coordinator::new(built_request());
    assert_eq!(c.step(TxEvent::ExecutionSucceeded(vec![d(200, 0, 0, 0), d(300, 0, 0, 0)])), TxAction::Prove);
    assert_eq!(c.step(TxEvent::ProvingSucceeded), TxAction::Submit);
    assert_eq!(c.stage, TxStage::Validated);
    assert_eq!(c.step(TxEvent::SubmissionFailed), TxAction::Retry(TxError::SubmissionFailed));
    assert_eq!(c.step(TxEvent::SubmissionSucceeded), TxAction::Finish);
    assert_eq!(c.stage, TxStage::Submitted);
}

#[test]
fn missing_declared_output_is_discarded() {
    let mut c = Coordinator::new(built_request());
    assert_eq!(c.step(TxEvent::ExecutionSucceeded(vec![d(300, 0, 0, 0)])), TxAction::Prove);
    assert_eq!(c.step(TxEvent::ProvingFailed), TxAction::Retry(TxError::ProvingFailed));
    assert_eq!(c.stage, TxStage::Executed);
    assert_eq!(
        c.step(TxEvent::ProvingSucceeded),
        TxAction::Abort(TxError::MissingOutputNotes(vec![d(200, 0, 0, 0)]))
    );
    assert_eq!(c.stage, TxStage::Discarded);
    assert_eq!(c.step(TxEvent::SubmissionSucceeded), TxAction::Ignore);
    assert_eq!(c.stage, TxStage::Discarded);
}

#[test]
fn execution_failure_aborts() {
    let mut c = Coordinator::new(built_request());
    assert_eq!(c.step(TxEvent::ProvingSucceeded), TxAction::Ignore);
    assert_eq!(c.step(TxEvent::ExecutionFailed), TxAction::Abort(TxError::ExecutionFailed));
    assert_eq!(c.stage, TxStage::Discarded);
}

#[test]
fn missing_outputs_keep_declared_order() {
    let expected = vec![d(1, 0, 0, 0), d(2, 0, 0, 0), d(3, 0, 0, 0)];
    let produced = vec![d(2, 0, 0, 0), d(9, 0, 0, 0)];
    assert_eq!(missing_output_notes(&expected, &produced), vec![d(1, 0, 0, 0), d(3, 0, 0, 0)]);
    assert!(missing_output_notes(&expected, &expected).is_empty());
}

#[test]
fn error_messages_name_the_subsystem() {
    assert_eq!(
        IdPrefixFetchError::NoMatch("note ID prefix 0x12".to_string()).message(),
        "No matches were found with the note ID prefix 0x12."
    );
    assert_eq!(
        IdPrefixFetchError::MultipleMatches("account ID prefix 0x1".to_string()).message(),
        "Found more than one element for the provided account ID prefix 0x1 and only one match is expected."
    );
    assert_eq!(
        ClientError::NoConsumableNoteForAccount(42).message(),
        "No consumable note for account ID 0x000000000000002a"
    );
    assert_eq!(ClientError::StoreError("disk full".to_string()).message(), "Store error: disk full");
    assert_eq!(
        ClientError::MerkleError(ProofError::RootMismatch).message(),
        "Error with merkle path: computed root does not match the expected root"
    );
    assert_eq!(
        ClientError::from(SyncError::StaleTip).message(),
        "Sync error: chain tip is below the recorded height"
    );
    let missing = ClientError::MissingOutputNotes(vec![d(1, 0, 0, 0), d(2, 0, 0, 0)]).message();
    let first = "0x0100000000000000000000000000000000000000000000000000000000000000";
    let second = "0x0200000000000000000000000000000000000000000000000000000000000000";
    assert_eq!(
        missing,
        format!("Transaction error: The transaction did not produce the expected notes corresponding to Note IDs: {first}, {second}")
    );
    assert_eq!(
        ClientError::NoteNotFoundOnChain(d(1, 0, 0, 0)).message(),
        format!("The note with ID {first} doesn't exist in the chain")
    );
    assert_eq!(
        ClientError::ImportNewAccountWithoutSeed.message(),
        "Import account error: can't import a new account without its initial seed"
    );
}
