//! Error statuses returned across the node's RPC surfaces.

use crate::text::bytes_copy;
use vstd::prelude::*;

verus! {

/// Code is the machine-readable class of one RPC failure.
#[derive(Clone, Copy, Debug, PartialEq, Eq, Structural)]
pub enum Code {
    /// Success is not a failure.
    Success,
    /// Cancelled means the caller gave up.
    Cancelled,
    /// Unknown means the failure could not be classified.
    Unknown,
    /// InvalidArgument means the request itself is malformed.
    InvalidArgument,
    /// DeadlineExceeded means the time budget ran out.
    DeadlineExceeded,
    /// NotFound means the requested item does not exist.
    NotFound,
    /// AlreadyExists means the item to create exists.
    AlreadyExists,
    /// PermissionDenied means the caller may not do this.
    PermissionDenied,
    /// ResourceExhausted means a quota or size limit was hit.
    ResourceExhausted,
    /// FailedPrecondition means the node is not in the required state.
    FailedPrecondition,
    /// Aborted means a conflicting operation won.
    Aborted,
    /// OutOfRange means a value lies outside the valid range.
    OutOfRange,
    /// Unimplemented means the operation is not offered.
    Unimplemented,
    /// Internal means an invariant of the node broke.
    Internal,
    /// Unavailable means the peer cannot be reached for now.
    Unavailable,
    /// DataLoss means bytes were lost or corrupted.
    DataLoss,
    /// Unauthenticated means the caller showed no valid identity.
    Unauthenticated,
}

/// Status is one RPC failure.
#[derive(Debug, PartialEq, Eq)]
pub struct Status {
    /// code classifies the failure.
    pub code: Code,
    /// message explains the failure to an operator.
    pub message: String,
    /// details carries an encoded machine-readable explanation, if any.
    pub details: Vec<u8>,
}

/// StatusView is the mathematical content of a `Status`.
pub struct StatusView {
    /// code classifies the failure.
    pub code: Code,
    /// message explains the failure.
    pub message: Seq<char>,
    /// details is the encoded explanation.
    pub details: Seq<u8>,
}

impl View for Status {
    type V = StatusView;

    open spec fn view(&self) -> StatusView {
        StatusView { code: self.code, message: self.message@, details: self.details@ }
    }
}

impl Clone for Status {
    fn clone(&self) -> (copy: Self)
        ensures
            copy@ == self@,
    {
        Status {
            code: self.code,
            message: self.message.clone(),
            details: bytes_copy(self.details.as_slice()),
        }
    }
}

/// The status with `code` and `message` and no details.
pub open spec fn plain_status(code: Code, message: Seq<char>) -> StatusView {
    StatusView { code, message, details: Seq::<u8>::empty() }
}

/// `InvalidArgument` with `message`.
pub open spec fn invalid_argument(message: Seq<char>) -> StatusView {
    plain_status(Code::InvalidArgument, message)
}

/// `FailedPrecondition` with `message`.
pub open spec fn failed_precondition(message: Seq<char>) -> StatusView {
    plain_status(Code::FailedPrecondition, message)
}

/// Whether `outcome` is the failure `failure`.
pub open spec fn fails_with<T>(outcome: Result<T, Status>, failure: StatusView) -> bool {
    outcome matches Err(status) && status@ == failure
}

/// The failure of every operation that needs a local store when there is none.
pub open spec fn no_store() -> StatusView {
    failed_precondition("local store is not configured"@)
}

/// The failure of every operation that would make the node its own peer.
pub open spec fn self_peer() -> StatusView {
    failed_precondition("local node cannot act as its own peer"@)
}

/// The failure of a hostname that encodes no public key.
pub open spec fn invalid_onion() -> StatusView {
    invalid_argument("peer onion is invalid"@)
}

/// Return the failure of an operation that needs a local store.
pub fn no_store_error() -> (status: Status)
    ensures
        status@ == no_store(),
{
    Status::failed_precondition("local store is not configured")
}

/// Return one clear error for self-peer storage attempts.
pub fn self_peer_error() -> (status: Status)
    ensures
        status@ == self_peer(),
{
    Status::failed_precondition("local node cannot act as its own peer")
}

/// Return the failure of a hostname that encodes no public key.
pub fn invalid_onion_error() -> (status: Status)
    ensures
        status@ == invalid_onion(),
{
    Status::invalid_argument("peer onion is invalid")
}

/// StorageError is one failure of the local encrypted store.
#[derive(Debug, PartialEq, Eq)]
pub enum StorageError {
    /// InvalidFileName means that a file name is empty or malformed.
    InvalidFileName,
    /// FileNotFound means that the file or blob does not exist.
    FileNotFound,
    /// LocalContentTooLarge means that the shared content would exceed its limit.
    LocalContentTooLarge,
    /// RecoveryRequired means that local bytes are damaged.
    RecoveryRequired(String),
    /// Message is a failure that is known by its text only.
    Message(String),
    /// Other is any other failure, as text.
    Other(String),
}

/// The RPC failure for a failure of the store.
pub open spec fn storage_status(error: StorageError) -> StatusView {
    match error {
        StorageError::InvalidFileName => invalid_argument("file name is required"@),
        StorageError::FileNotFound => plain_status(Code::NotFound, "file not found"@),
        StorageError::LocalContentTooLarge => plain_status(
            Code::ResourceExhausted,
            "current shared content exceeds the fixed 4 MiB limit"@,
        ),
        StorageError::RecoveryRequired(message) => failed_precondition(message@),
        StorageError::Message(message) => plain_status(Code::Internal, message@),
        StorageError::Other(message) => plain_status(Code::Internal, message@),
    }
}

/// Convert a storage-layer error into an RPC status.
pub fn map_storage_error(error: StorageError) -> (status: Status)
    ensures
        status@ == storage_status(error),
{
    match error {
        StorageError::InvalidFileName => Status::invalid_argument("file name is required"),
        StorageError::FileNotFound => Status::with_text(Code::NotFound, "file not found"),
        StorageError::LocalContentTooLarge => Status::with_text(
            Code::ResourceExhausted,
            "current shared content exceeds the fixed 4 MiB limit",
        ),
        StorageError::RecoveryRequired(message) => Status::new(Code::FailedPrecondition, message),
        StorageError::Message(message) => Status::new(Code::Internal, message),
        StorageError::Other(message) => Status::new(Code::Internal, message),
    }
}

impl Clone for StorageError {
    fn clone(&self) -> (copy: Self)
        ensures
            storage_status(copy) == storage_status(*self),
            copy is FileNotFound == self is FileNotFound,
            copy is RecoveryRequired == self is RecoveryRequired,
            copy is Message == self is Message,
    {
        match self {
            StorageError::InvalidFileName => StorageError::InvalidFileName,
            StorageError::FileNotFound => StorageError::FileNotFound,
            StorageError::LocalContentTooLarge => StorageError::LocalContentTooLarge,
            StorageError::RecoveryRequired(message) => StorageError::RecoveryRequired(
                message.clone(),
            ),
            StorageError::Message(message) => StorageError::Message(message.clone()),
            StorageError::Other(message) => StorageError::Other(message.clone()),
        }
    }
}

impl Status {
    /// Build a status without details.
    pub fn new(code: Code, message: String) -> (status: Self)
        ensures
            status@ == plain_status(code, message@),
    {
        let details: Vec<u8> = Vec::new();
        let status = Status { code, message, details };
        assert(status@.details =~= Seq::<u8>::empty());
        status
    }

    /// Build a status without details from a literal message.
    pub fn with_text(code: Code, message: &str) -> (status: Self)
        ensures
            status@ == plain_status(code, message@),
    {
        Status::new(code, message.to_owned())
    }

    /// Build an `InvalidArgument` status.
    pub fn invalid_argument(message: &str) -> (status: Self)
        ensures
            status@ == invalid_argument(message@),
    {
        Status::with_text(Code::InvalidArgument, message)
    }

    /// Build a `FailedPrecondition` status.
    pub fn failed_precondition(message: &str) -> (status: Self)
        ensures
            status@ == failed_precondition(message@),
    {
        Status::with_text(Code::FailedPrecondition, message)
    }
}

/// Each failure of the store has its own class, and one that is known by its
/// words keeps them; no failure of the store is told as a success.
pub proof fn law_store_failures_keep_their_class(error: StorageError, status: Status)
    requires
        call_ensures(map_storage_error, (error,), status),
    ensures
        status.code != Code::Success,
        status.code == Code::InvalidArgument <==> error is InvalidFileName,
        status.code == Code::NotFound <==> error is FileNotFound,
        status.code == Code::ResourceExhausted <==> error is LocalContentTooLarge,
        status.code == Code::FailedPrecondition <==> error is RecoveryRequired,
        status.code == Code::Internal <==> error is Message || error is Other,
        error matches StorageError::RecoveryRequired(text) ==> status.message@ == text@,
        error matches StorageError::Message(text) ==> status.message@ == text@,
        error matches StorageError::Other(text) ==> status.message@ == text@,
        status.details@.len() == 0,
{
}

/// A missing store and a contact with ourselves are about the state of the
/// node, a hostname without a key about the request.
pub proof fn law_refusals_tell_what_is_wrong(store: Status, ourselves: Status, onion: Status)
    requires
        call_ensures(no_store_error, (), store),
        call_ensures(self_peer_error, (), ourselves),
        call_ensures(invalid_onion_error, (), onion),
    ensures
        store.code == Code::FailedPrecondition,
        ourselves.code == Code::FailedPrecondition,
        onion.code == Code::InvalidArgument,
{
}

} // verus!
