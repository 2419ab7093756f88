//! The ways in which work on a compute request can fail.

use vstd::prelude::*;

verus! {

/// The class of a failure, which decides how far it reaches.
#[derive(Clone, Copy, Debug, PartialEq, Eq, Structural)]
pub enum ErrorKind {
    /// The ledger could not be reached; the next poll tries again.
    Transport,
    /// The code bundle could not be fetched or is not JSON.
    Retrieval,
    /// The request or its code module is not acceptable.
    Validation,
    /// The sandboxed run failed or gave an unsupported result.
    Execution,
    /// The result could not be signed or submitted.
    Submission,
}

/// Why a task was abandoned. Every such failure ends that task only.
#[derive(Clone, Copy, Debug, PartialEq, Eq, Structural)]
pub enum TaskError {
    /// The request names a language that no backend runs.
    UnsupportedLanguage,
    /// The request id or the creation block does not fit in 32 bits.
    FieldOutOfRange,
    /// The code bundle lacks a string field `function` or `imports`.
    MalformedModule,
    /// The code module refers to the environment file.
    ForbiddenEnvReference,
    /// The submission count could not be read from the ledger.
    CountUnavailable,
    /// The code bundle could not be fetched.
    FetchFailed,
    /// The code bundle is not JSON.
    BundleNotJson,
    /// The sandbox could not be set up or started.
    SandboxFailed,
    /// The interpreter exited with a failure.
    ProcessFailed,
    /// The interpreter's output is not UTF-8.
    OutputNotUtf8,
    /// The interpreter's output is not JSON.
    OutputNotJson,
    /// The result is an array that is neither all numbers nor all booleans.
    UnsupportedArray,
    /// The result holds a number that is no unsigned 64-bit integer.
    NumberConversion,
    /// The result is neither a number, a boolean nor an array.
    UnsupportedType,
    /// The operator key is unusable or the signature could not be made.
    SigningFailed,
    /// The signature does not recover to the operator's address.
    SignerMismatch,
    /// The transaction was rejected or could not be sent.
    TransactionFailed,
}

impl TaskError {
    /// The class that the failure belongs to.
    pub open spec fn spec_kind(&self) -> ErrorKind {
        match *self {
            TaskError::UnsupportedLanguage => ErrorKind::Validation,
            TaskError::FieldOutOfRange => ErrorKind::Validation,
            TaskError::MalformedModule => ErrorKind::Validation,
            TaskError::ForbiddenEnvReference => ErrorKind::Validation,
            TaskError::CountUnavailable => ErrorKind::Transport,
            TaskError::FetchFailed => ErrorKind::Retrieval,
            TaskError::BundleNotJson => ErrorKind::Retrieval,
            TaskError::SandboxFailed => ErrorKind::Execution,
            TaskError::ProcessFailed => ErrorKind::Execution,
            TaskError::OutputNotUtf8 => ErrorKind::Execution,
            TaskError::OutputNotJson => ErrorKind::Execution,
            TaskError::UnsupportedArray => ErrorKind::Execution,
            TaskError::NumberConversion => ErrorKind::Execution,
            TaskError::UnsupportedType => ErrorKind::Execution,
            TaskError::SigningFailed => ErrorKind::Submission,
            TaskError::SignerMismatch => ErrorKind::Submission,
            TaskError::TransactionFailed => ErrorKind::Submission,
        }
    }

    /// The class that the failure belongs to.
    #[verifier::when_used_as_spec(spec_kind)]
    pub fn kind(&self) -> (kind: ErrorKind)
        ensures
            kind == self.spec_kind(),
    {
        match self {
            TaskError::UnsupportedLanguage => ErrorKind::Validation,
            TaskError::FieldOutOfRange => ErrorKind::Validation,
            TaskError::MalformedModule => ErrorKind::Validation,
            TaskError::ForbiddenEnvReference => ErrorKind::Validation,
            TaskError::CountUnavailable => ErrorKind::Transport,
            TaskError::FetchFailed => ErrorKind::Retrieval,
            TaskError::BundleNotJson => ErrorKind::Retrieval,
            TaskError::SandboxFailed => ErrorKind::Execution,
            TaskError::ProcessFailed => ErrorKind::Execution,
            TaskError::OutputNotUtf8 => ErrorKind::Execution,
            TaskError::OutputNotJson => ErrorKind::Execution,
            TaskError::UnsupportedArray => ErrorKind::Execution,
            TaskError::NumberConversion => ErrorKind::Execution,
            TaskError::UnsupportedType => ErrorKind::Execution,
            TaskError::SigningFailed => ErrorKind::Submission,
            TaskError::SignerMismatch => ErrorKind::Submission,
            TaskError::TransactionFailed => ErrorKind::Submission,
        }
    }
}

} // verus!
