//! What can go wrong.

use vstd::prelude::*;

verus! {

/// Why running a piece on the host failed.
#[derive(Debug, PartialEq, Eq)]
pub enum ExecutionError {
    /// The process ran and ended unsuccessfully; the exit code, or `None` when
    /// a signal ended it.
    ProcessError(Option<i32>),
    /// The operating system refused the operation; the text is its message.
    IoError(String),
    /// The piece was asked to undo but defines no undo action.
    UndefinedUndo,
}

pub type ExecutionResult = Result<(), ExecutionError>;

/// Everything an operation of this crate can fail with.
#[derive(Debug, PartialEq, Eq)]
pub enum Error {
    /// A record claims to be undone on a machine on which it was never done,
    /// or a ledger holds one id or one machine twice.
    InvariantViolation,
    /// Executing or undoing a piece failed on the host.
    ExecutionFailure(ExecutionError),
    /// The remote history and the local history have diverged.
    SyncConflict,
    /// The ledger file differs from the one that was last committed.
    RepositoryCorrupt,
    /// No record has the id that was asked for.
    NotFound,
    /// The record is already marked for undo.
    AlreadyUndone,
    /// The record is still needed by some machine.
    StillInUse,
    /// A piece of this kind takes exactly one value.
    ExpectedSingleValue,
    /// A file location must start with `/`.
    NotAbsolute,
    /// A quote in a command line is never closed.
    UnclosedQuote,
    /// There is no comment to remove.
    NoComment,
    /// There is no undo command to remove.
    NoUndoCommand,
    /// Only a command piece carries an undo command.
    NotACommand,
    /// A record id is eight hexadecimal digits, or `-` for the last record.
    InvalidId,
    /// The text is not a machine id.
    InvalidMachineId,
    /// The host would not tell its name.
    UnknownHostname,
    /// An installation already exists at the root.
    AlreadyInstalled,
    /// No installation exists at the root.
    NotInstalled,
    /// The location to link a tracked file at is taken by a symbolic link.
    AlreadySymlink,
    /// The file at the location does not hold what the piece expects.
    UnexpectedContent,
    /// The piece expects a file at the location, and there is none.
    MissingFile,
    /// A file outside the files subtree was changed in the repository.
    OutsideFiles,
    /// The user declined.
    Aborted,
}

/// Turns the exit code of a finished process into a result: success is exit
/// code zero and nothing else.
pub fn to_execution_result(code: Option<i32>) -> (r: ExecutionResult)
    ensures
        r == (if code == Some(0i32) {
            Ok::<(), ExecutionError>(())
        } else {
            Err::<(), ExecutionError>(ExecutionError::ProcessError(code))
        }),
{
    match code {
        Some(c) => {
            if c == 0 {
                Ok(())
            } else {
                Err(ExecutionError::ProcessError(code))
            }
        },
        None => Err(ExecutionError::ProcessError(code)),
    }
}

} // verus!
