//! The kinds of failure of a synchronisation.

use vstd::prelude::*;
use vstd::string::*;

verus! {

/// Why a step of a synchronisation failed.
#[derive(Debug)]
pub enum SyncError {
    /// The connection to the server failed.
    Network,
    /// The server answered what the protocol does not allow, or lacks what
    /// the synchroniser needs.
    Protocol,
    /// The cache table refused or could not be written.
    Db,
    /// The Maildir could not be read or written.
    Maildir,
    /// The synchronisation was told to stop.
    Cancelled,
    /// Anything else, in words.
    Other(String),
}

impl SyncError {
    /// Whether the failure is `Other` with exactly this text.
    pub open spec fn is_other(self, msg: Seq<char>) -> bool {
        self matches SyncError::Other(s) && s@ == msg
    }

    /// A failure of kind `Other` with the given text.
    pub fn other(msg: &str) -> (e: SyncError)
        ensures
            e.is_other(msg@),
    {
        SyncError::Other(msg.to_owned())
    }

    /// Whether a new attempt is in order after this failure. Only a
    /// cancellation ends the work for good.
    pub fn retries(&self) -> (r: bool)
        ensures
            r == !(*self is Cancelled),
    {
        match self {
            SyncError::Cancelled => false,
            _ => true,
        }
    }
}

} // verus!
