//! The error type of the version control system.
use vstd::prelude::*;
use vstd::string::*;

verus! {

/// Everything that can go wrong in the version control system.
///
/// An I/O failure is carried by its message, so that the type stays a plain value.
#[derive(Debug, Clone)]
pub enum ChakError {
    // System / I/O
    StdIoError(String),
    EnvVarNotFound(String),
    InvalidPath(String),
    // General-purpose
    CustomError(String),
    NoEntriesFound(String),
    // hash pointer
    InvalidHashLength(String),
    HashPointerNotFound(String),
    // Serialization
    SerializationError(String),
    DeserializationError(String),
    // Repo-specific
    RepoNotInitialized,
    RepoAlreadyExists,
    InvalidRepoState(String),
    MissingObject(String),
    NothingToCommit,
    FileNotTracked(String),
    MergeConflict(String),
    // Branch/ref-related
    BranchNotFound(String),
    InvalidBranchName(String),
    DetachedHead,
    CannotDeleteCurrentBranch,
    // Command/input-related
    InvalidCommand(String),
    MissingArgument(String),
    AmbiguousReference(String),
    // Locking/concurrency
    RepoLocked,
    ConcurrentOperationError,
}

/// The text shown to the user for an error: a fixed prefix for the kind of error,
/// followed by the error's own message where it carries one.
pub open spec fn error_message(e: ChakError) -> Seq<char> {
    match e {
        ChakError::StdIoError(m) => "I/O error: "@ + m@,
        ChakError::EnvVarNotFound(m) => "Environment variable not found: "@ + m@,
        ChakError::InvalidPath(m) => "Invalid path: "@ + m@,
        ChakError::CustomError(m) => "Error: "@ + m@,
        ChakError::NoEntriesFound(m) => "No entries found: "@ + m@,
        ChakError::SerializationError(m) => "Serialization error: "@ + m@,
        ChakError::DeserializationError(m) => "Deserialization error: "@ + m@,
        ChakError::RepoNotInitialized => "Repository not initialized"@,
        ChakError::RepoAlreadyExists => "Repository already exists"@,
        ChakError::InvalidRepoState(m) => "Invalid repository state: "@ + m@,
        ChakError::MissingObject(m) => "Missing object: "@ + m@,
        ChakError::NothingToCommit => "Nothing to commit"@,
        ChakError::FileNotTracked(m) => "File not tracked: "@ + m@,
        ChakError::MergeConflict(m) => "Merge conflict: "@ + m@,
        ChakError::BranchNotFound(m) => "Branch not found: "@ + m@,
        ChakError::InvalidBranchName(m) => "Invalid branch name: "@ + m@,
        ChakError::DetachedHead => "HEAD is detached"@,
        ChakError::CannotDeleteCurrentBranch => "Cannot delete the current branch"@,
        ChakError::InvalidCommand(m) => "Invalid command: "@ + m@,
        ChakError::MissingArgument(m) => "Missing argument: "@ + m@,
        ChakError::AmbiguousReference(m) => "Ambiguous reference: "@ + m@,
        ChakError::RepoLocked => "Repository is locked"@,
        ChakError::ConcurrentOperationError => "Another operation is already in progress"@,
        ChakError::InvalidHashLength(m) => "Invalid hash length: "@ + m@,
        ChakError::HashPointerNotFound(m) => "Hash pointer not found: "@ + m@,
    }
}

/// `prefix` followed by `m`.
fn prefixed(prefix: &str, m: &String) -> (res: String)
    ensures
        res@ == prefix@ + m@,
{
    let mut s = prefix.to_owned();
    s.append(m.as_str());
    s
}

impl ChakError {
    /// The text shown to the user for this error.
    pub fn to_message(&self) -> (res: String)
        ensures
            res@ == error_message(*self),
    {
        match self {
            ChakError::StdIoError(m) => prefixed("I/O error: ", m),
            ChakError::EnvVarNotFound(m) => prefixed("Environment variable not found: ", m),
            ChakError::InvalidPath(m) => prefixed("Invalid path: ", m),
            ChakError::CustomError(m) => prefixed("Error: ", m),
            ChakError::NoEntriesFound(m) => prefixed("No entries found: ", m),
            ChakError::SerializationError(m) => prefixed("Serialization error: ", m),
            ChakError::DeserializationError(m) => prefixed("Deserialization error: ", m),
            ChakError::RepoNotInitialized => "Repository not initialized".to_owned(),
            ChakError::RepoAlreadyExists => "Repository already exists".to_owned(),
            ChakError::InvalidRepoState(m) => prefixed("Invalid repository state: ", m),
            ChakError::MissingObject(m) => prefixed("Missing object: ", m),
            ChakError::NothingToCommit => "Nothing to commit".to_owned(),
            ChakError::FileNotTracked(m) => prefixed("File not tracked: ", m),
            ChakError::MergeConflict(m) => prefixed("Merge conflict: ", m),
            ChakError::BranchNotFound(m) => prefixed("Branch not found: ", m),
            ChakError::InvalidBranchName(m) => prefixed("Invalid branch name: ", m),
            ChakError::DetachedHead => "HEAD is detached".to_owned(),
            ChakError::CannotDeleteCurrentBranch => "Cannot delete the current branch".to_owned(),
            ChakError::InvalidCommand(m) => prefixed("Invalid command: ", m),
            ChakError::MissingArgument(m) => prefixed("Missing argument: ", m),
            ChakError::AmbiguousReference(m) => prefixed("Ambiguous reference: ", m),
            ChakError::RepoLocked => "Repository is locked".to_owned(),
            ChakError::ConcurrentOperationError => "Another operation is already in progress".to_owned(),
            ChakError::InvalidHashLength(m) => prefixed("Invalid hash length: ", m),
            ChakError::HashPointerNotFound(m) => prefixed("Hash pointer not found: ", m),
        }
    }
}

} // verus!
