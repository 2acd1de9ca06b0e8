//! The outside work that the engine asks for, and the answers it takes.
//!
//! The engine never touches the network, the file system or the database.
//! Each of its steps ends in a [`Step`]: a [`Request`] that the caller carries
//! out before it hands back a [`Reply`], or the result of the work.

use crate::error::SyncError;
use crate::flags::ImapFlag;
use crate::imap::{Mailbox, UidRange};
use crate::maildir::{IdResult, Maildir};
use crate::meta::{Fetch, MessageMeta, MetaView};
use crate::statefile::StateFileFields;
use vstd::prelude::*;

verus! {

/// A message between the threads of one mailbox.
#[derive(Debug)]
pub enum SyncMessage {
    /// The program is shutting down.
    Exit,
    /// The server reported a change, or the wait for one ended.
    ImapChanged,
    /// Waiting on the server failed.
    ImapError(String),
    /// Something was written in the Maildir.
    MaildirChanged,
    /// Watching the Maildir failed.
    MaildirError(String),
}

/// One piece of outside work.
#[derive(Debug)]
pub enum Request {
    /// Connect, log in and ask for the capabilities. Answer: `Capabilities`.
    Connect,
    /// Send `ENABLE QRESYNC`.
    EnableQresync,
    /// Select the mailbox. Answer: `Selected`.
    Select,
    /// Fetch the metadata of a range of UIDs; `last` of `None` means up to
    /// the top. Answer: `Fetched`.
    FetchUids { first: u32, last: Option<u32>, changedsince: Option<u64> },
    /// Fetch metadata and body of one UID. Answer: `Fetched`.
    FetchUid(u32),
    /// Fetch the metadata of one UID. Answer: `Fetched`.
    FetchUidMeta(u32),
    /// Append a message to the selected mailbox.
    Append { body: Vec<u8>, flags: Vec<ImapFlag> },
    /// Add flags to a message.
    AddFlags { uid: u32, flags: Vec<ImapFlag> },
    /// Take flags off a message.
    RemoveFlags { uid: u32, flags: Vec<ImapFlag> },
    /// Mark a message as deleted.
    StoreDeleted(u32),
    /// Expunge a message that is marked as deleted.
    Expunge(u32),
    /// Collect the UID ranges that the server reported as vanished without
    /// being asked. Answer: `Vanished`.
    DrainUnsolicited,
    /// Log out.
    Logout,
    /// Store a message in the Maildir: in `cur/` with the flags as suffix if
    /// they hold `S`, in `new/` otherwise. Answer: `Stored`.
    SaveMessage { body: Vec<u8>, letters: String },
    /// Move a message from `new/` to `cur/` and set its flags.
    MoveToCur { id: String, letters: String },
    /// Set the flags of a message.
    SetFlags { id: String, letters: String },
    /// Delete a message file.
    DeleteMessage(String),
    /// List `new/`. Answer: `Listed`.
    ListNew,
    /// List `new/`, then `cur/`. Answer: `Listed`.
    List,
    /// Look a message up by its ID. Answer: `Found`.
    Stat(String),
    /// Read the file at a path. Answer: `Body`.
    ReadBody(String),
    /// Insert a row into the stored table.
    DbInsert(MessageMeta),
    /// Overwrite the row of the record's UID in the stored table.
    DbUpdate(MessageMeta),
    /// Delete the row of a UID from the stored table.
    DbDelete(u32),
    /// Store the state record.
    SaveState(StateFileFields),
    /// Start the thread that waits for the server to report a change.
    SpawnIdle,
    /// Start the thread that watches the Maildir.
    SpawnWatch,
    /// Wait for the next message of the mailbox's threads. Answer: `Message`.
    Wait,
    /// Take a message if one is waiting. Answer: `Message` or `Empty`.
    Poll,
    /// Sleep for this many seconds.
    Sleep(u64),
}

/// The outcome of a request.
#[derive(Debug)]
pub enum Reply {
    /// The work was done and has nothing to tell.
    Done,
    /// The work failed.
    Failed(SyncError),
    /// The capability names that the server announced.
    Capabilities(Vec<String>),
    /// The counters of the selected mailbox.
    Selected(Mailbox),
    /// The rows of a FETCH response.
    Fetched(Vec<Fetch>),
    /// The Maildir ID under which a message was stored.
    Stored(String),
    /// The files of the Maildir, or of its `new/` alone where only that
    /// was asked for.
    Listed(Maildir),
    /// A message file.
    Found(IdResult),
    /// The content of a file.
    Body(Vec<u8>),
    /// UID ranges that vanished from the server.
    Vanished(Vec<UidRange>),
    /// A message of one of the mailbox's threads.
    Message(SyncMessage),
    /// No message is waiting.
    Empty,
}

/// How a step of the engine ends.
#[derive(Debug)]
pub enum Step {
    /// Outside work is needed before the next step.
    Ask(Request),
    /// The work is finished, well or badly.
    Done(Result<(), SyncError>),
}

/// What a request asks of the stored table.
pub enum TableOp {
    /// Nothing: the request is not for the table.
    Nothing,
    /// A row is to go in.
    Insert(MetaView),
    /// A row is to be overwritten.
    Update(MetaView),
    /// The row of a UID is to go.
    Delete(u32),
}

/// What a request asks of the stored table.
pub open spec fn table_op(req: Request) -> TableOp {
    match req {
        Request::DbInsert(m) => TableOp::Insert(m@),
        Request::DbUpdate(m) => TableOp::Update(m@),
        Request::DbDelete(uid) => TableOp::Delete(uid),
        _ => TableOp::Nothing,
    }
}

/// What a step asks of the stored table.
pub open spec fn step_op(step: Step) -> TableOp {
    match step {
        Step::Ask(req) => table_op(req),
        Step::Done(_) => TableOp::Nothing,
    }
}

/// The file comes before the row: a step that asks the stored table for a
/// new row answers the Maildir's word that the message was stored, and the
/// row names the ID that the Maildir gave.
pub open spec fn row_follows_file(reply: Reply, step: Step) -> bool {
    step matches Step::Ask(Request::DbInsert(meta)) ==> (reply matches Reply::Stored(id) && meta@.id
        == id@)
}

/// The step does not ask the stored table for a new row.
pub open spec fn asks_no_new_row(step: Step) -> bool {
    !(step matches Step::Ask(Request::DbInsert(_)))
}

/// The table after what was asked of it has been done.
pub open spec fn apply_op(table: Map<u32, MetaView>, op: TableOp) -> Map<u32, MetaView> {
    match op {
        TableOp::Nothing => table,
        TableOp::Insert(m) => table.insert(m.uid, m),
        TableOp::Update(m) => if table.dom().contains(m.uid) {
            table.insert(m.uid, m)
        } else {
            table
        },
        TableOp::Delete(uid) => table.remove(uid),
    }
}

/// The failure that answers a reply of the wrong kind.
pub open spec fn is_unexpected(e: SyncError) -> bool {
    e.is_other("unexpected reply"@)
}

/// The failure that answers a reply where none was asked for.
pub open spec fn is_idle_resume(e: SyncError) -> bool {
    e.is_other("nothing is pending"@)
}

/// The failure for a reply of the wrong kind.
pub fn unexpected() -> (e: SyncError)
    ensures
        is_unexpected(e),
{
    SyncError::other("unexpected reply")
}

/// The failure for a reply where none was asked for.
pub fn idle_resume() -> (e: SyncError)
    ensures
        is_idle_resume(e),
{
    SyncError::other("nothing is pending")
}

/// What a failed or misplaced reply turns into: the failure itself, or the
/// failure for a reply of the wrong kind.
pub open spec fn is_failure_of(reply: Reply, e: SyncError) -> bool {
    match reply {
        Reply::Failed(f) => e == f,
        _ => is_unexpected(e),
    }
}

/// The failure that a reply stands for, where the reply is not the one that
/// was hoped for.
pub fn failure_of(reply: Reply) -> (e: SyncError)
    ensures
        is_failure_of(reply, e),
{
    match reply {
        Reply::Failed(f) => f,
        _ => unexpected(),
    }
}

} // verus!
