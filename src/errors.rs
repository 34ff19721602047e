//! The client's error taxonomy: one variant per collaborator error kind, each
//! carrying the inner error unchanged, and the messages that name the failing
//! subsystem.
use vstd::prelude::*;
use vstd::string::*;

use crate::digest::Digest;
use crate::merkle::ProofError;
use crate::screener::ScreenError;
use crate::sync::SyncError;
use crate::transaction::TransactionRequestError;

verus! {

/// Declares `miden_objects::AccountError` so that a client error can carry it unchanged.
#[verifier::external_type_specification]
#[verifier::external_body]
pub struct ExAccountError(miden_objects::AccountError);

/// Declares `miden_objects::AssetError` so that a client error can carry it unchanged.
#[verifier::external_type_specification]
#[verifier::external_body]
pub struct ExAssetError(miden_objects::AssetError);

/// Declares `miden_objects::NoteError` so that a client error can carry it unchanged.
#[verifier::external_type_specification]
#[verifier::external_body]
pub struct ExNoteError(miden_objects::NoteError);

/// Declares `miden_objects::TransactionScriptError` so that a client error can carry it unchanged.
#[verifier::external_type_specification]
#[verifier::external_body]
pub struct ExTransactionScriptError(miden_objects::TransactionScriptError);

/// Declares `miden_tx::utils::DeserializationError` so that a client error can carry it unchanged.
#[verifier::external_type_specification]
#[verifier::external_body]
pub struct ExDeserializationError(miden_tx::utils::DeserializationError);

/// Declares `miden_tx::utils::HexParseError` so that a client error can carry it unchanged.
#[verifier::external_type_specification]
#[verifier::external_body]
pub struct ExHexParseError(miden_tx::utils::HexParseError);

/// Declares `miden_tx::TransactionExecutorError` so that a client error can carry it unchanged.
#[verifier::external_type_specification]
#[verifier::external_body]
pub struct ExTransactionExecutorError(miden_tx::TransactionExecutorError);

/// Declares `miden_tx::TransactionProverError` so that a client error can carry it unchanged.
#[verifier::external_type_specification]
#[verifier::external_body]
pub struct ExTransactionProverError(miden_tx::TransactionProverError);

/// The text of a digest as `0x` followed by the hex of its bytes.
pub uninterp spec fn digest_hex(d: Seq<u64>) -> Seq<char>;

/// The text of an account id as `0x` followed by sixteen hex digits.
pub uninterp spec fn account_hex(id: u64) -> Seq<char>;

/// Relies on `RpoDigest::to_hex`: the hex text of the digest's bytes, which
/// depends on the digest alone.
#[verifier::external_body]
fn digest_to_hex(d: Digest) -> (r: String)
    ensures
        r@ == digest_hex(d@),
{
    let felts = [d.d0, d.d1, d.d2, d.d3].map(miden_objects::Felt::new);
    miden_objects::Digest::new(felts).to_hex()
}

/// Relies on std's `format!` with `{:016x}`, as account ids are displayed:
/// the text depends on the id alone.
#[verifier::external_body]
fn account_id_to_hex(id: u64) -> (r: String)
    ensures
        r@ == account_hex(id),
{
    format!("0x{:016x}", id)
}

/// Errors generated by the client.
#[derive(Debug)]
pub enum ClientError {
    AccountError(miden_objects::AccountError),
    AssetError(miden_objects::AssetError),
    DataDeserializationError(miden_tx::utils::DeserializationError),
    NoteNotFoundOnChain(Digest),
    HexParseError(miden_tx::utils::HexParseError),
    ImportNewAccountWithoutSeed,
    MerkleError(ProofError),
    MissingOutputNotes(Vec<Digest>),
    NoteError(miden_objects::NoteError),
    NoteImportError(String),
    NoteRecordError(String),
    NoConsumableNoteForAccount(u64),
    RpcError(String),
    NoteScreenerError(ScreenError),
    StoreError(String),
    SyncError(SyncError),
    TransactionExecutorError(miden_tx::TransactionExecutorError),
    TransactionProvingError(miden_tx::TransactionProverError),
    TransactionRequestError(TransactionRequestError),
    TransactionScriptBuilderError(String),
    TransactionScriptError(miden_objects::TransactionScriptError),
}

/// The words with which the message of each kind of client error begins.
pub open spec fn client_error_prefix(e: ClientError) -> Seq<char> {
    match e {
        ClientError::AccountError(_) => "Account error: "@,
        ClientError::AssetError(_) => "Asset error: "@,
        ClientError::DataDeserializationError(_) => "Data deserialization error: "@,
        ClientError::NoteNotFoundOnChain(_) => "The note with ID "@,
        ClientError::HexParseError(_) => "Error turning array to Digest: "@,
        ClientError::ImportNewAccountWithoutSeed => "Import account error: can't import a new account without its initial seed"@,
        ClientError::MerkleError(_) => "Error with merkle path: "@,
        ClientError::MissingOutputNotes(_) => "Transaction error: The transaction did not produce the expected notes corresponding to Note IDs: "@,
        ClientError::NoteError(_) => "Note error: "@,
        ClientError::NoteImportError(_) => "Error importing note: "@,
        ClientError::NoteRecordError(_) => "Note record error: "@,
        ClientError::NoConsumableNoteForAccount(_) => "No consumable note for account ID "@,
        ClientError::RpcError(_) => "RPC api error: "@,
        ClientError::NoteScreenerError(_) => "Note screener error: "@,
        ClientError::StoreError(_) => "Store error: "@,
        ClientError::SyncError(_) => "Sync error: "@,
        ClientError::TransactionExecutorError(_) => "Transaction executor error: "@,
        ClientError::TransactionProvingError(_) => "Transaction prover error: "@,
        ClientError::TransactionRequestError(_) => "Transaction request error: "@,
        ClientError::TransactionScriptBuilderError(_) => "Transaction script builder error: "@,
        ClientError::TransactionScriptError(_) => "Transaction script error: "@,
    }
}

/// The hex texts of the ids joined with `", "`.
pub open spec fn joined_hex(ids: Seq<Digest>) -> Seq<char>
    decreases ids.len(),
{
    if ids.len() == 0 {
        Seq::empty()
    } else if ids.len() == 1 {
        digest_hex(ids[0]@)
    } else {
        joined_hex(ids.drop_last()) + ", "@ + digest_hex(ids.last()@)
    }
}

/// The text that follows the prefix, where it is determined by data of this
/// library; `None` where it is an outside error's own message.
pub open spec fn client_error_detail(e: ClientError) -> Option<Seq<char>> {
    match e {
        ClientError::NoteNotFoundOnChain(id) => Some(digest_hex(id@) + " doesn't exist in the chain"@),
        ClientError::ImportNewAccountWithoutSeed => Some(Seq::empty()),
        ClientError::MerkleError(p) => Some(proof_error_text(p)),
        ClientError::MissingOutputNotes(ids) => Some(joined_hex(ids@)),
        ClientError::NoteImportError(s) => Some(s@),
        ClientError::NoteRecordError(s) => Some(s@),
        ClientError::NoConsumableNoteForAccount(id) => Some(account_hex(id)),
        ClientError::RpcError(s) => Some(s@),
        ClientError::NoteScreenerError(ScreenError::UnknownAccount(id)) => Some(
            "unknown account "@ + account_hex(id),
        ),
        ClientError::StoreError(s) => Some(s@),
        ClientError::SyncError(s) => Some(sync_error_text(s)),
        ClientError::TransactionRequestError(t) => Some(request_error_text(t)),
        ClientError::TransactionScriptBuilderError(s) => Some(s@),
        _ => None,
    }
}

/// The message of a proof rejection.
pub open spec fn proof_error_text(e: ProofError) -> Seq<char> {
    match e {
        ProofError::NonCanonicalDigest => "digest element is not a canonical field element"@,
        ProofError::MissingField => "a required field is missing"@,
        ProofError::IndexOutOfRange => "leaf index does not fit the tree depth"@,
        ProofError::PathLengthMismatch => "path length does not match the tree depth"@,
        ProofError::RootMismatch => "computed root does not match the expected root"@,
        ProofError::DuplicateKey => "leaf holds duplicate keys"@,
        ProofError::TooFewEntries => "multiple-entry leaf holds fewer than two entries"@,
        ProofError::LeafIndexMismatch => "leaf entries do not match the leaf index"@,
    }
}

/// The message of a refused synchronisation cycle.
pub open spec fn sync_error_text(e: SyncError) -> Seq<char> {
    match e {
        SyncError::StaleTip => "chain tip is below the recorded height"@,
        SyncError::NoteProof(p) => "invalid note inclusion proof: "@ + proof_error_text(p),
        SyncError::NullifierProof(p) => "invalid nullifier proof: "@ + proof_error_text(p),
        SyncError::NullifierAbsent => "nullifier proof shows the nullifier absent"@,
    }
}

/// The message of a request that could not be built.
pub open spec fn request_error_text(e: TransactionRequestError) -> Seq<char> {
    match e {
        TransactionRequestError::InputNoteNotFound(id) => "input note not found: "@ + digest_hex(id@),
        TransactionRequestError::InputNoteNotCommitted(id) => "input note not committed: "@ + digest_hex(id@),
        TransactionRequestError::InvalidOutput(_) => "malformed output note template"@,
    }
}

/// `prefix` followed by `rest`.
fn joined(prefix: &str, rest: &str) -> (r: String)
    ensures
        r@ == prefix@ + rest@,
{
    String::from_str(prefix).concat(rest)
}

impl ProofError {
    /// A human-readable description of the rejection.
    pub fn message(&self) -> (r: String)
        ensures
            r@ == proof_error_text(*self),
    {
        let s = match self {
            ProofError::NonCanonicalDigest => "digest element is not a canonical field element",
            ProofError::MissingField => "a required field is missing",
            ProofError::IndexOutOfRange => "leaf index does not fit the tree depth",
            ProofError::PathLengthMismatch => "path length does not match the tree depth",
            ProofError::RootMismatch => "computed root does not match the expected root",
            ProofError::DuplicateKey => "leaf holds duplicate keys",
            ProofError::TooFewEntries => "multiple-entry leaf holds fewer than two entries",
            ProofError::LeafIndexMismatch => "leaf entries do not match the leaf index",
        };
        String::from_str(s)
    }
}

impl SyncError {
    /// A human-readable description of why the cycle was refused.
    pub fn message(&self) -> (r: String)
        ensures
            r@ == sync_error_text(*self),
    {
        match self {
            SyncError::StaleTip => String::from_str("chain tip is below the recorded height"),
            SyncError::NoteProof(p) => joined("invalid note inclusion proof: ", p.message().as_str()),
            SyncError::NullifierProof(p) => joined("invalid nullifier proof: ", p.message().as_str()),
            SyncError::NullifierAbsent => String::from_str("nullifier proof shows the nullifier absent"),
        }
    }
}

impl TransactionRequestError {
    /// A human-readable description of why the request was refused.
    pub fn message(&self) -> (r: String)
        ensures
            r@ == request_error_text(*self),
    {
        match self {
            TransactionRequestError::InputNoteNotFound(id) => joined(
                "input note not found: ",
                digest_to_hex(*id).as_str(),
            ),
            TransactionRequestError::InputNoteNotCommitted(id) => joined(
                "input note not committed: ",
                digest_to_hex(*id).as_str(),
            ),
            TransactionRequestError::InvalidOutput(_) => String::from_str("malformed output note template"),
        }
    }
}

/// The hex texts of the ids joined with `", "`.
fn join_hex(ids: &Vec<Digest>) -> (r: String)
    ensures
        r@ == joined_hex(ids@),
{
    let mut out = String::new();
    let n = ids.len();
    let mut i: usize = 0;
    while i < n
        invariant
            n == ids@.len(),
            0 <= i <= n,
            out@ == joined_hex(ids@.subrange(0, i as int)),
        decreases n - i,
    {
        let ghost sub = ids@.subrange(0, i as int + 1);
        assert(sub.drop_last() =~= ids@.subrange(0, i as int));
        let h = digest_to_hex(ids[i]);
        if i > 0 {
            out.append(", ");
        }
        out.append(h.as_str());
        i = i + 1;
    }
    assert(ids@.subrange(0, n as int) =~= ids@);
    out
}

impl ClientError {
    /// A human-readable message naming the failing subsystem and keeping the
    /// inner cause's text.
    pub fn message(&self) -> (r: String)
        ensures
            r@.len() >= client_error_prefix(*self).len(),
            r@.subrange(0, client_error_prefix(*self).len() as int) == client_error_prefix(*self),
            client_error_detail(*self) matches Some(d) ==> r@ == client_error_prefix(*self) + d,
    {
        let r = match self {
            ClientError::AccountError(e) => joined("Account error: ", e.to_string().as_str()),
            ClientError::AssetError(e) => joined("Asset error: ", e.to_string().as_str()),
            ClientError::DataDeserializationError(e) => joined(
                "Data deserialization error: ",
                e.to_string().as_str(),
            ),
            ClientError::NoteNotFoundOnChain(id) => {
                let h = joined(digest_to_hex(*id).as_str(), " doesn't exist in the chain");
                joined("The note with ID ", h.as_str())
            },
            ClientError::HexParseError(e) => joined(
                "Error turning array to Digest: ",
                e.to_string().as_str(),
            ),
            ClientError::ImportNewAccountWithoutSeed => String::from_str(
                "Import account error: can't import a new account without its initial seed",
            ),
            ClientError::MerkleError(p) => joined("Error with merkle path: ", p.message().as_str()),
            ClientError::MissingOutputNotes(ids) => joined(
                "Transaction error: The transaction did not produce the expected notes corresponding to Note IDs: ",
                join_hex(ids).as_str(),
            ),
            ClientError::NoteError(e) => joined("Note error: ", e.to_string().as_str()),
            ClientError::NoteImportError(s) => joined("Error importing note: ", s.as_str()),
            ClientError::NoteRecordError(s) => joined("Note record error: ", s.as_str()),
            ClientError::NoConsumableNoteForAccount(id) => joined(
                "No consumable note for account ID ",
                account_id_to_hex(*id).as_str(),
            ),
            ClientError::RpcError(s) => joined("RPC api error: ", s.as_str()),
            ClientError::NoteScreenerError(ScreenError::UnknownAccount(id)) => {
                let h = joined("unknown account ", account_id_to_hex(*id).as_str());
                joined("Note screener error: ", h.as_str())
            },
            ClientError::StoreError(s) => joined("Store error: ", s.as_str()),
            ClientError::SyncError(s) => joined("Sync error: ", s.message().as_str()),
            ClientError::TransactionExecutorError(e) => joined(
                "Transaction executor error: ",
                e.to_string().as_str(),
            ),
            ClientError::TransactionProvingError(e) => joined(
                "Transaction prover error: ",
                e.to_string().as_str(),
            ),
            ClientError::TransactionRequestError(t) => joined(
                "Transaction request error: ",
                t.message().as_str(),
            ),
            ClientError::TransactionScriptBuilderError(s) => joined(
                "Transaction script builder error: ",
                s.as_str(),
            ),
            ClientError::TransactionScriptError(e) => joined(
                "Transaction script error: ",
                e.to_string().as_str(),
            ),
        };
        proof {
            let p = client_error_prefix(*self);
            assert(r@.subrange(0, p.len() as int) =~= p);
            if let Some(d) = client_error_detail(*self) {
                assert(r@ =~= p + d);
            }
        }
        r
    }
}

impl From<miden_objects::AccountError> for ClientError {
    fn from(err: miden_objects::AccountError) -> (r: ClientError)
        ensures
            r == ClientError::AccountError(err),
    {
        ClientError::AccountError(err)
    }
}

impl vstd::std_specs::convert::FromSpecImpl<miden_objects::AccountError> for ClientError {
    open spec fn obeys_from_spec() -> bool {
        true
    }

    open spec fn from_spec(v: miden_objects::AccountError) -> ClientError {
        ClientError::AccountError(v)
    }
}

impl From<miden_tx::utils::DeserializationError> for ClientError {
    fn from(err: miden_tx::utils::DeserializationError) -> (r: ClientError)
        ensures
            r == ClientError::DataDeserializationError(err),
    {
        ClientError::DataDeserializationError(err)
    }
}

impl vstd::std_specs::convert::FromSpecImpl<miden_tx::utils::DeserializationError> for ClientError {
    open spec fn obeys_from_spec() -> bool {
        true
    }

    open spec fn from_spec(v: miden_tx::utils::DeserializationError) -> ClientError {
        ClientError::DataDeserializationError(v)
    }
}

impl From<miden_tx::utils::HexParseError> for ClientError {
    fn from(err: miden_tx::utils::HexParseError) -> (r: ClientError)
        ensures
            r == ClientError::HexParseError(err),
    {
        ClientError::HexParseError(err)
    }
}

impl vstd::std_specs::convert::FromSpecImpl<miden_tx::utils::HexParseError> for ClientError {
    open spec fn obeys_from_spec() -> bool {
        true
    }

    open spec fn from_spec(v: miden_tx::utils::HexParseError) -> ClientError {
        ClientError::HexParseError(v)
    }
}

impl From<miden_objects::NoteError> for ClientError {
    fn from(err: miden_objects::NoteError) -> (r: ClientError)
        ensures
            r == ClientError::NoteError(err),
    {
        ClientError::NoteError(err)
    }
}

impl vstd::std_specs::convert::FromSpecImpl<miden_objects::NoteError> for ClientError {
    open spec fn obeys_from_spec() -> bool {
        true
    }

    open spec fn from_spec(v: miden_objects::NoteError) -> ClientError {
        ClientError::NoteError(v)
    }
}

impl From<ProofError> for ClientError {
    fn from(err: ProofError) -> (r: ClientError)
        ensures
            r == ClientError::MerkleError(err),
    {
        ClientError::MerkleError(err)
    }
}

impl vstd::std_specs::convert::FromSpecImpl<ProofError> for ClientError {
    open spec fn obeys_from_spec() -> bool {
        true
    }

    open spec fn from_spec(v: ProofError) -> ClientError {
        ClientError::MerkleError(v)
    }
}

impl From<ScreenError> for ClientError {
    fn from(err: ScreenError) -> (r: ClientError)
        ensures
            r == ClientError::NoteScreenerError(err),
    {
        ClientError::NoteScreenerError(err)
    }
}

impl vstd::std_specs::convert::FromSpecImpl<ScreenError> for ClientError {
    open spec fn obeys_from_spec() -> bool {
        true
    }

    open spec fn from_spec(v: ScreenError) -> ClientError {
        ClientError::NoteScreenerError(v)
    }
}

impl From<SyncError> for ClientError {
    fn from(err: SyncError) -> (r: ClientError)
        ensures
            r == ClientError::SyncError(err),
    {
        ClientError::SyncError(err)
    }
}

impl vstd::std_specs::convert::FromSpecImpl<SyncError> for ClientError {
    open spec fn obeys_from_spec() -> bool {
        true
    }

    open spec fn from_spec(v: SyncError) -> ClientError {
        ClientError::SyncError(v)
    }
}

impl From<miden_tx::TransactionExecutorError> for ClientError {
    fn from(err: miden_tx::TransactionExecutorError) -> (r: ClientError)
        ensures
            r == ClientError::TransactionExecutorError(err),
    {
        ClientError::TransactionExecutorError(err)
    }
}

impl vstd::std_specs::convert::FromSpecImpl<miden_tx::TransactionExecutorError> for ClientError {
    open spec fn obeys_from_spec() -> bool {
        true
    }

    open spec fn from_spec(v: miden_tx::TransactionExecutorError) -> ClientError {
        ClientError::TransactionExecutorError(v)
    }
}

impl From<miden_tx::TransactionProverError> for ClientError {
    fn from(err: miden_tx::TransactionProverError) -> (r: ClientError)
        ensures
            r == ClientError::TransactionProvingError(err),
    {
        ClientError::TransactionProvingError(err)
    }
}

impl vstd::std_specs::convert::FromSpecImpl<miden_tx::TransactionProverError> for ClientError {
    open spec fn obeys_from_spec() -> bool {
        true
    }

    open spec fn from_spec(v: miden_tx::TransactionProverError) -> ClientError {
        ClientError::TransactionProvingError(v)
    }
}

impl From<TransactionRequestError> for ClientError {
    fn from(err: TransactionRequestError) -> (r: ClientError)
        ensures
            r == ClientError::TransactionRequestError(err),
    {
        ClientError::TransactionRequestError(err)
    }
}

impl vstd::std_specs::convert::FromSpecImpl<TransactionRequestError> for ClientError {
    open spec fn obeys_from_spec() -> bool {
        true
    }

    open spec fn from_spec(v: TransactionRequestError) -> ClientError {
        ClientError::TransactionRequestError(v)
    }
}

/// Error when looking for a specific ID from a partial ID.
#[derive(Clone, Debug, PartialEq, Eq)]
pub enum IdPrefixFetchError {
    /// No matches were found for the ID prefix.
    NoMatch(String),
    /// Multiple entities matched with the ID prefix.
    MultipleMatches(String),
}

/// The message of a failed prefix lookup.
pub open spec fn id_prefix_text(e: IdPrefixFetchError) -> Seq<char> {
    match e {
        IdPrefixFetchError::NoMatch(id) => "No matches were found with the "@ + id@ + "."@,
        IdPrefixFetchError::MultipleMatches(id) => "Found more than one element for the provided "@
            + id@ + " and only one match is expected."@,
    }
}

impl IdPrefixFetchError {
    /// A human-readable message for the failed lookup.
    pub fn message(&self) -> (r: String)
        ensures
            r@ == id_prefix_text(*self),
    {
        match self {
            IdPrefixFetchError::NoMatch(id) => {
                let mut s = joined("No matches were found with the ", id.as_str());
                s.append(".");
                s
            },
            IdPrefixFetchError::MultipleMatches(id) => {
                let mut s = joined("Found more than one element for the provided ", id.as_str());
                s.append(" and only one match is expected.");
                s
            },
        }
    }
}

} // verus!
