use vstd::prelude::*;
use vstd::string::StringExecFns;

verus! {

/// Why an operation was refused.
#[derive(Clone, Copy, Debug, PartialEq, Eq, Structural)]
pub enum XetError {
    /// The transaction has already been completed, or the token that was used has been released.
    TransactionClosed,
    /// The transaction has been marked as canceled and accepts no further mutation.
    TransactionCanceled,
    /// The remote store failed, or answered outside of what was asked of it.
    RemoteFailure,
    /// The concurrency gate hands out no more permits.
    ConcurrencyGateClosed,
    /// A write was attempted on a file that was opened for reading.
    ReadOnlyFile,
    /// A seek named an origin other than start, current position or end.
    InvalidWhence,
}

impl XetError {
    /// The text of the error, as a sequence of characters.
    pub open spec fn text(self) -> Seq<char> {
        match self {
            XetError::TransactionClosed => "Transaction operation attempted after transaction completed."@,
            XetError::TransactionCanceled => "Transaction has been canceled."@,
            XetError::RemoteFailure => "Remote operation failed."@,
            XetError::ConcurrencyGateClosed => "Transaction limit gate is closed."@,
            XetError::ReadOnlyFile => "Readonly file"@,
            XetError::InvalidWhence => "Invalid Seek Whence"@,
        }
    }

    /// A human-readable description of the error.
    pub fn message(&self) -> (s: String)
        ensures
            s@ == self.text(),
    {
        match self {
            XetError::TransactionClosed => String::from_str(
                "Transaction operation attempted after transaction completed.",
            ),
            XetError::TransactionCanceled => String::from_str("Transaction has been canceled."),
            XetError::RemoteFailure => String::from_str("Remote operation failed."),
            XetError::ConcurrencyGateClosed => String::from_str("Transaction limit gate is closed."),
            XetError::ReadOnlyFile => String::from_str("Readonly file"),
            XetError::InvalidWhence => String::from_str("Invalid Seek Whence"),
        }
    }
}

} // verus!
