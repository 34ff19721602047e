//! The life of one transaction attempt: execution, proving, validation of the
//! declared outputs, submission. The caller performs each outside step (run
//! the executor, the prover, the submission) and reports the outcome; the
//! coordinator decides what happens next.
use vstd::prelude::*;

use crate::digest::Digest;
use crate::transaction::{declared_ids, missing_output_notes, missing_outputs, TransactionRequest};

verus! {

/// Where an attempt stands. Validation runs as soon as a proof is reported,
/// so a proved attempt is found either validated or discarded.
#[derive(Clone, Copy, Debug, PartialEq, Eq, Structural)]
pub enum TxStage {
    Built,
    Executed,
    Validated,
    Submitted,
    Discarded,
}

/// Why an attempt stopped or a step must be repeated.
#[derive(Clone, Debug, PartialEq, Eq)]
pub enum TxError {
    /// The script failed; nothing was changed.
    ExecutionFailed,
    /// The prover failed; the witness is kept and proving may be repeated.
    ProvingFailed,
    /// The transaction did not produce these declared notes.
    MissingOutputNotes(Vec<Digest>),
    /// The node did not accept the submission; the proof is kept.
    SubmissionFailed,
}

/// What the caller reports after an outside step.
#[derive(Clone, Debug, PartialEq, Eq)]
pub enum TxEvent {
    /// Execution succeeded and produced notes with these ids.
    ExecutionSucceeded(Vec<Digest>),
    ExecutionFailed,
    ProvingSucceeded,
    ProvingFailed,
    SubmissionSucceeded,
    SubmissionFailed,
}

/// What the caller is to do next.
#[derive(Clone, Debug, PartialEq, Eq)]
pub enum TxAction {
    /// Run the prover on the execution witness.
    Prove,
    /// Submit the proven transaction.
    Submit,
    /// The transaction was submitted; nothing is left to do.
    Finish,
    /// The attempt is over and the transaction is discarded.
    Abort(TxError),
    /// The step failed and may be repeated from the kept artifact.
    Retry(TxError),
    /// The event does not fit the stage and was ignored.
    Ignore,
}

/// One transaction attempt.
#[derive(Clone, Debug, PartialEq, Eq)]
pub struct Coordinator {
    pub request: TransactionRequest,
    pub stage: TxStage,
    /// The ids of the notes execution produced.
    pub produced: Vec<Digest>,
}

impl Coordinator {
    /// Starts an attempt for a built request.
    pub fn new(request: TransactionRequest) -> (r: Coordinator)
        ensures
            r.request == request,
            r.stage == TxStage::Built,
            r.produced@.len() == 0,
    {
        Coordinator { request, stage: TxStage::Built, produced: Vec::new() }
    }

    /// The declared outputs that execution did not produce.
    pub open spec fn missing(&self) -> Seq<Digest> {
        missing_outputs(declared_ids(self.request.outputs@), self.produced@)
    }

    /// Advances the attempt with the outcome of the last outside step. A
    /// proof is accepted only if every declared output was produced;
    /// otherwise the transaction is discarded and never submitted.
    pub fn step(&mut self, event: TxEvent) -> (a: TxAction)
        ensures
            final(self).request == old(self).request,
            match (old(self).stage, event) {
                (TxStage::Built, TxEvent::ExecutionSucceeded(out)) => {
                    &&& final(self).stage == TxStage::Executed
                    &&& final(self).produced@ == out@
                    &&& a == TxAction::Prove
                },
                (TxStage::Built, TxEvent::ExecutionFailed) => {
                    &&& final(self).stage == TxStage::Discarded
                    &&& final(self).produced == old(self).produced
                    &&& a == TxAction::Abort(TxError::ExecutionFailed)
                },
                (TxStage::Executed, TxEvent::ProvingSucceeded) => {
                    &&& final(self).produced == old(self).produced
                    &&& if old(self).missing().len() == 0 {
                        final(self).stage == TxStage::Validated && a == TxAction::Submit
                    } else {
                        &&& final(self).stage == TxStage::Discarded
                        &&& a matches TxAction::Abort(TxError::MissingOutputNotes(m))
                        &&& m@ == old(self).missing()
                    }
                },
                (TxStage::Executed, TxEvent::ProvingFailed) => {
                    &&& *final(self) == *old(self)
                    &&& a == TxAction::Retry(TxError::ProvingFailed)
                },
                (TxStage::Validated, TxEvent::SubmissionSucceeded) => {
                    &&& final(self).stage == TxStage::Submitted
                    &&& final(self).produced == old(self).produced
                    &&& a == TxAction::Finish
                },
                (TxStage::Validated, TxEvent::SubmissionFailed) => {
                    &&& *final(self) == *old(self)
                    &&& a == TxAction::Retry(TxError::SubmissionFailed)
                },
                _ => *final(self) == *old(self) && a == TxAction::Ignore,
            },
    {
        match (self.stage, event) {
            (TxStage::Built, TxEvent::ExecutionSucceeded(out)) => {
                self.produced = out;
                self.stage = TxStage::Executed;
                TxAction::Prove
            },
            (TxStage::Built, TxEvent::ExecutionFailed) => {
                self.stage = TxStage::Discarded;
                TxAction::Abort(TxError::ExecutionFailed)
            },
            (TxStage::Executed, TxEvent::ProvingSucceeded) => {
                let expected = self.request.expected_output_ids();
                let missing = missing_output_notes(&expected, &self.produced);
                if missing.len() == 0 {
                    self.stage = TxStage::Validated;
                    TxAction::Submit
                } else {
                    self.stage = TxStage::Discarded;
                    TxAction::Abort(TxError::MissingOutputNotes(missing))
                }
            },
            (TxStage::Executed, TxEvent::ProvingFailed) => TxAction::Retry(TxError::ProvingFailed),
            (TxStage::Validated, TxEvent::SubmissionSucceeded) => {
                self.stage = TxStage::Submitted;
                TxAction::Finish
            },
            (TxStage::Validated, TxEvent::SubmissionFailed) => TxAction::Retry(
                TxError::SubmissionFailed,
            ),
            _ => TxAction::Ignore,
        }
    }
}

} // verus!
