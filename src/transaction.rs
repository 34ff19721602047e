//! Transaction requests and the coordination of execution, proving, output
//! validation and submission.
use vstd::prelude::*;

use crate::digest::Digest;
use crate::store::{NoteRecord, NoteStatus, Store};

verus! {

/// The largest amount a fungible asset can hold.
pub const MAX_ASSET_AMOUNT: u64 = 9223372036854775807;

/// A note the transaction is asked to create.
#[derive(Clone, Copy, Debug, PartialEq, Eq, Structural)]
pub struct OutputTemplate {
    /// The id the created note will have.
    pub note_id: Digest,
    /// The digest of the note's recipient.
    pub recipient: Digest,
    /// The amount of the asset the note carries.
    pub amount: u64,
}

/// A compiled intent: notes to consume, notes to create, script arguments.
#[derive(Clone, Debug, PartialEq, Eq)]
pub struct TransactionRequest {
    pub input_notes: Vec<Digest>,
    pub outputs: Vec<OutputTemplate>,
    pub script_args: Vec<u64>,
}

/// Why a request could not be built.
#[derive(Clone, Copy, Debug, PartialEq, Eq, Structural)]
pub enum TransactionRequestError {
    /// An input note is not tracked.
    InputNoteNotFound(Digest),
    /// An input note is tracked but not committed.
    InputNoteNotCommitted(Digest),
    /// The output template at this position is malformed.
    InvalidOutput(usize),
}

/// The status of the first tracked note with this id.
pub open spec fn note_lookup(notes: Seq<NoteRecord>, id: Digest) -> Option<NoteStatus>
    decreases notes.len(),
{
    if notes.len() == 0 {
        None
    } else if note_lookup(notes.drop_last(), id).is_some() {
        note_lookup(notes.drop_last(), id)
    } else if notes.last().id == id {
        Some(notes.last().status)
    } else {
        None
    }
}

/// The first input that is not a committed tracked note, as an error.
pub open spec fn input_error(notes: Seq<NoteRecord>, inputs: Seq<Digest>) -> Option<TransactionRequestError>
    decreases inputs.len(),
{
    if inputs.len() == 0 {
        None
    } else if input_error(notes, inputs.drop_last()).is_some() {
        input_error(notes, inputs.drop_last())
    } else {
        match note_lookup(notes, inputs.last()) {
            None => Some(TransactionRequestError::InputNoteNotFound(inputs.last())),
            Some(s) => if s != NoteStatus::Committed {
                Some(TransactionRequestError::InputNoteNotCommitted(inputs.last()))
            } else {
                None
            },
        }
    }
}

/// The template names a canonical note id and a canonical, non-zero
/// recipient, and its amount is within the asset limit.
pub open spec fn template_valid(t: OutputTemplate) -> bool {
    &&& t.note_id.canonical()
    &&& t.recipient.canonical()
    &&& t.recipient@ != seq![0u64, 0u64, 0u64, 0u64]
    &&& t.amount <= MAX_ASSET_AMOUNT
}

/// Every template before position `k` is valid.
pub open spec fn templates_valid_upto(ts: Seq<OutputTemplate>, k: int) -> bool {
    forall|j: int| 0 <= j < k ==> template_valid(#[trigger] ts[j])
}

/// The ids of the notes the templates declare.
pub open spec fn declared_ids(ts: Seq<OutputTemplate>) -> Seq<Digest> {
    ts.map_values(|t: OutputTemplate| t.note_id)
}

/// The declared outputs that the produced notes do not include, in order.
pub open spec fn missing_outputs(expected: Seq<Digest>, produced: Seq<Digest>) -> Seq<Digest>
    decreases expected.len(),
{
    if expected.len() == 0 {
        Seq::empty()
    } else if produced.contains(expected.last()) {
        missing_outputs(expected.drop_last(), produced)
    } else {
        missing_outputs(expected.drop_last(), produced).push(expected.last())
    }
}

fn lookup_status(notes: &Vec<NoteRecord>, id: Digest) -> (r: Option<NoteStatus>)
    ensures
        r == note_lookup(notes@, id),
{
    let n = notes.len();
    let mut found: Option<NoteStatus> = None;
    let mut i: usize = 0;
    while i < n
        invariant
            n == notes@.len(),
            0 <= i <= n,
            found == note_lookup(notes@.subrange(0, i as int), id),
        decreases n - i,
    {
        let ghost sub = notes@.subrange(0, i as int + 1);
        assert(sub.drop_last() =~= notes@.subrange(0, i as int));
        if found.is_none() && notes[i].id == id {
            found = Some(notes[i].status);
        }
        i = i + 1;
    }
    assert(notes@.subrange(0, n as int) =~= notes@);
    found
}

impl OutputTemplate {
    /// Checks that the template is well formed.
    pub fn is_valid(&self) -> (r: bool)
        ensures
            r == template_valid(*self),
    {
        let zero = Digest::zero();
        self.note_id.is_canonical() && self.recipient.is_canonical() && self.recipient != zero
            && self.amount <= MAX_ASSET_AMOUNT
    }
}

impl TransactionRequest {
    /// Builds a request from an intent. Every input must be a committed note of
    /// the store and every output template well formed; otherwise the first
    /// offending input, or failing that the first malformed template, is
    /// reported. The store is only read.
    pub fn build(
        store: &Store,
        input_notes: Vec<Digest>,
        outputs: Vec<OutputTemplate>,
        script_args: Vec<u64>,
    ) -> (r: Result<TransactionRequest, TransactionRequestError>)
        ensures
            match r {
                Ok(req) => {
                    &&& input_error(store.notes@, input_notes@).is_none()
                    &&& templates_valid_upto(outputs@, outputs@.len() as int)
                    &&& req.input_notes@ == input_notes@
                    &&& req.outputs@ == outputs@
                    &&& req.script_args@ == script_args@
                },
                Err(TransactionRequestError::InvalidOutput(k)) => {
                    &&& input_error(store.notes@, input_notes@).is_none()
                    &&& k < outputs@.len()
                    &&& templates_valid_upto(outputs@, k as int)
                    &&& !template_valid(outputs@[k as int])
                },
                Err(e) => input_error(store.notes@, input_notes@) == Some(e),
            },
    {
        let n = input_notes.len();
        let mut i: usize = 0;
        while i < n
            invariant
                n == input_notes@.len(),
                0 <= i <= n,
                input_error(store.notes@, input_notes@.subrange(0, i as int)).is_none(),
            decreases n - i,
        {
            let ghost sub = input_notes@.subrange(0, i as int + 1);
            assert(sub.drop_last() =~= input_notes@.subrange(0, i as int));
            let id = input_notes[i];
            let err = match lookup_status(&store.notes, id) {
                None => Some(TransactionRequestError::InputNoteNotFound(id)),
                Some(s) => if s != NoteStatus::Committed {
                    Some(TransactionRequestError::InputNoteNotCommitted(id))
                } else {
                    None
                },
            };
            match err {
                Some(e) => {
                    assert(input_error(store.notes@, sub) == Some(e));
                    proof {
                        lemma_input_error_stays(store.notes@, input_notes@, i as int + 1);
                    }
                    assert(input_notes@.subrange(0, n as int) =~= input_notes@);
                    return Err(e);
                },
                None => {},
            }
            i = i + 1;
        }
        assert(input_notes@.subrange(0, n as int) =~= input_notes@);
        let m = outputs.len();
        let mut k: usize = 0;
        while k < m
            invariant
                m == outputs@.len(),
                0 <= k <= m,
                templates_valid_upto(outputs@, k as int),
                input_error(store.notes@, input_notes@).is_none(),
            decreases m - k,
        {
            if !outputs[k].is_valid() {
                return Err(TransactionRequestError::InvalidOutput(k));
            }
            k = k + 1;
        }
        Ok(TransactionRequest { input_notes, outputs, script_args })
    }

    /// The ids of the notes the request declares as outputs.
    pub fn expected_output_ids(&self) -> (r: Vec<Digest>)
        ensures
            r@ == declared_ids(self.outputs@),
    {
        let mut ids: Vec<Digest> = Vec::new();
        let n = self.outputs.len();
        let mut i: usize = 0;
        while i < n
            invariant
                n == self.outputs@.len(),
                0 <= i <= n,
                ids@ == declared_ids(self.outputs@.subrange(0, i as int)),
            decreases n - i,
        {
            ids.push(self.outputs[i].note_id);
            assert(ids@ =~= declared_ids(self.outputs@.subrange(0, i as int + 1)));
            i = i + 1;
        }
        assert(self.outputs@.subrange(0, n as int) =~= self.outputs@);
        ids
    }
}

proof fn lemma_input_error_stays(notes: Seq<NoteRecord>, inputs: Seq<Digest>, k0: int)
    requires
        0 <= k0 <= inputs.len(),
        input_error(notes, inputs.subrange(0, k0)).is_some(),
    ensures
        input_error(notes, inputs) == input_error(notes, inputs.subrange(0, k0)),
    decreases inputs.len() - k0,
{
    if k0 < inputs.len() {
        assert(inputs.subrange(0, k0 + 1).drop_last() =~= inputs.subrange(0, k0));
        lemma_input_error_stays(notes, inputs, k0 + 1);
    } else {
        assert(inputs.subrange(0, k0) =~= inputs);
    }
}

/// Compares the notes a transaction produced with the ones its request
/// declared, and returns the declared ones that are missing, in order.
pub fn missing_output_notes(expected: &Vec<Digest>, produced: &Vec<Digest>) -> (r: Vec<Digest>)
    ensures
        r@ == missing_outputs(expected@, produced@),
{
    let mut missing: Vec<Digest> = Vec::new();
    let n = expected.len();
    let mut i: usize = 0;
    while i < n
        invariant
            n == expected@.len(),
            0 <= i <= n,
            missing@ == missing_outputs(expected@.subrange(0, i as int), produced@),
        decreases n - i,
    {
        let ghost sub = expected@.subrange(0, i as int + 1);
        assert(sub.drop_last() =~= expected@.subrange(0, i as int));
        let e = expected[i];
        if !crate::store::contains_digest(produced, e) {
            missing.push(e);
        }
        i = i + 1;
    }
    assert(expected@.subrange(0, n as int) =~= expected@);
    missing
}

/// A declared output is missing exactly when the produced notes do not
/// include it: validation rejects a transaction that fails to create any
/// declared note and accepts one whose outputs include all of them.
pub proof fn lemma_missing_outputs_exact(expected: Seq<Digest>, produced: Seq<Digest>, o: Digest)
    ensures
        missing_outputs(expected, produced).contains(o) <==> (expected.contains(o)
            && !produced.contains(o)),
        missing_outputs(expected, produced).len() == 0 <==> (forall|j: int|
            0 <= j < expected.len() ==> produced.contains(#[trigger] expected[j])),
    decreases expected.len(),
{
    if expected.len() > 0 {
        let init = expected.drop_last();
        lemma_missing_outputs_exact(init, produced, o);
        let last = expected.last();
        assert(expected =~= init.push(last));
        if expected.contains(o) {
            let w = choose|t: int| 0 <= t < expected.len() && expected[t] == o;
            if w < init.len() {
                assert(init[w] == o);
            }
        }
        if init.contains(o) {
            let w = choose|t: int| 0 <= t < init.len() && init[t] == o;
            assert(expected[w] == o);
        }
        let m = missing_outputs(init, produced);
        if !produced.contains(last) {
            assert(m.push(last)[m.len() as int] == last);
            assert(m.push(last).contains(o) <==> (m.contains(o) || o == last)) by {
                if m.push(last).contains(o) {
                    let w = choose|t: int| 0 <= t < m.push(last).len() && m.push(last)[t] == o;
                    if w < m.len() {
                        assert(m[w] == o);
                    }
                }
                if m.contains(o) {
                    let w = choose|t: int| 0 <= t < m.len() && m[t] == o;
                    assert(m.push(last)[w] == o);
                }
            }
            assert(!produced.contains(expected[expected.len() - 1]));
        } else {
            assert forall|j: int| 0 <= j < init.len() implies produced.contains(#[trigger] init[j]) <==> produced.contains(expected[j]) by {
                assert(init[j] == expected[j]);
            }
            if forall|j: int| 0 <= j < init.len() ==> produced.contains(#[trigger] init[j]) {
                assert forall|j: int| 0 <= j < expected.len() implies produced.contains(#[trigger] expected[j]) by {
                    if j < init.len() {
                        assert(init[j] == expected[j]);
                    }
                }
            }
        }
        if forall|j: int| 0 <= j < expected.len() ==> produced.contains(#[trigger] expected[j]) {
            assert forall|j: int| 0 <= j < init.len() implies produced.contains(#[trigger] init[j]) by {
                assert(init[j] == expected[j]);
            }
        }
    }
}

} // verus!
