//! The verbs that take more than one command: deleting a message on the
//! server, and replacing its body.

use crate::error::SyncError;
use crate::imap::find_uid_row;
use crate::text::{decimal, push_decimal};
use crate::meta::{Fetch, FetchResult};
use crate::request::{failure_of, idle_resume, is_failure_of, is_idle_resume, Reply, Request, Step};
use vstd::prelude::*;
use vstd::string::*;

verus! {

/// The work of deleting one message on the server: it is marked as deleted
/// and then expunged. Both commands must succeed.
#[derive(Clone, Copy, Debug, PartialEq, Eq, Structural)]
pub enum Expunger {
    /// The server was asked to mark the message as deleted.
    Store { uid: u32 },
    /// The server was asked to expunge the message.
    Expunge { uid: u32 },
    /// Nothing is pending.
    Finished,
}

impl Expunger {
    /// How the work goes on after a reply.
    pub open spec fn resumes(self, reply: Reply, job: Expunger, step: Step) -> bool {
        match self {
            Expunger::Store { uid } => match reply {
                Reply::Done => job == (Expunger::Expunge { uid }) && step == Step::Ask(
                    Request::Expunge(uid),
                ),
                _ => Self::fails(reply, job, step),
            },
            Expunger::Expunge { uid } => match reply {
                Reply::Done => job == Expunger::Finished && step == Step::Done(Ok(())),
                _ => Self::fails(reply, job, step),
            },
            Expunger::Finished => {
                &&& job == Expunger::Finished
                &&& step matches Step::Done(Err(e))
                &&& is_idle_resume(e)
            },
        }
    }

    /// The work ends with the failure that the reply stands for.
    pub open spec fn fails(reply: Reply, job: Expunger, step: Step) -> bool {
        &&& job == Expunger::Finished
        &&& step matches Step::Done(Err(e))
        &&& is_failure_of(reply, e)
    }

    /// Starts deleting the message with this UID.
    pub fn begin(uid: u32) -> (r: (Expunger, Step))
        ensures
            r.0 == (Expunger::Store { uid }),
            r.1 == Step::Ask(Request::StoreDeleted(uid)),
    {
        (Expunger::Store { uid }, Step::Ask(Request::StoreDeleted(uid)))
    }

    /// Takes the reply to the last request and says what comes next.
    pub fn resume(self, reply: Reply) -> (r: (Expunger, Step))
        ensures
            self.resumes(reply, r.0, r.1),
    {
        match self {
            Expunger::Store { uid } => match reply {
                Reply::Done => (Expunger::Expunge { uid }, Step::Ask(Request::Expunge(uid))),
                other => (Expunger::Finished, Step::Done(Err(failure_of(other)))),
            },
            Expunger::Expunge { uid } => match reply {
                Reply::Done => (Expunger::Finished, Step::Done(Ok(()))),
                other => (Expunger::Finished, Step::Done(Err(failure_of(other)))),
            },
            Expunger::Finished => (Expunger::Finished, Step::Done(Err(idle_resume()))),
        }
    }
}

/// The words for a message that the server does not list.
pub open spec fn not_found_text(uid: u32) -> Seq<char> {
    "UID "@ + decimal(uid as nat) + " not found on server"@
}

/// Whether a row is complete and has this UID.
pub open spec fn is_row_of(fetch: Fetch, uid: u32) -> bool {
    FetchResult::is_uid_row(&fetch) && fetch.uid == Some(uid)
}

/// The work of replacing the body of a message on the server. The flags of
/// the message are fetched, the new body is appended with those flags, and
/// only when that succeeded the old message is deleted: if the upload fails,
/// the old message stays. If the deletion fails after the upload went well, the
/// server holds both copies until a later cycle sorts them out.
#[derive(Debug)]
pub enum Replace {
    /// The server was asked for the message's flags.
    Meta { uid: u32, body: Vec<u8> },
    /// The server was asked to append the new body.
    Append { uid: u32 },
    /// The old message is being deleted.
    Delete(Expunger),
    /// Nothing is pending.
    Finished,
}

impl Replace {
    /// The work ends with the failure that the reply stands for.
    pub open spec fn fails(reply: Reply, job: Replace, step: Step) -> bool {
        &&& job is Finished
        &&& step matches Step::Done(Err(e))
        &&& is_failure_of(reply, e)
    }

    /// How the work goes on after a reply.
    pub open spec fn resumes(self, reply: Reply, job: Replace, step: Step) -> bool {
        match self {
            Replace::Meta { uid, body } => match reply {
                Reply::Fetched(rows) => {
                    if exists|i: int| 0 <= i < rows@.len() && is_row_of(#[trigger] rows@[i], uid) {
                        &&& job == (Replace::Append { uid })
                        &&& step matches Step::Ask(Request::Append { body: b, flags })
                        &&& b == body
                        &&& exists|i: int|
                            0 <= i < rows@.len() && is_row_of(#[trigger] rows@[i], uid)
                                && flags@ == rows@[i].flags@ && forall|j: int|
                                0 <= j < i ==> !is_row_of(#[trigger] rows@[j], uid)
                    } else {
                        &&& job is Finished
                        &&& step matches Step::Done(Err(e))
                        &&& e.is_other(not_found_text(uid))
                    }
                },
                _ => Self::fails(reply, job, step),
            },
            Replace::Append { uid } => match reply {
                Reply::Done => job == Replace::Delete(Expunger::Store { uid }) && step
                    == Step::Ask(Request::StoreDeleted(uid)),
                _ => Self::fails(reply, job, step),
            },
            Replace::Delete(inner) => exists|next: Expunger|
                {
                    &&& #[trigger] inner.resumes(reply, next, step)
                    &&& match step {
                        Step::Ask(_) => job == Replace::Delete(next),
                        Step::Done(_) => job is Finished,
                    }
                },
            Replace::Finished => {
                &&& job is Finished
                &&& step matches Step::Done(Err(e))
                &&& is_idle_resume(e)
            },
        }
    }

    /// Starts replacing the body of the message with this UID.
    pub fn begin(uid: u32, body: Vec<u8>) -> (r: (Replace, Step))
        ensures
            r.0 == (Replace::Meta { uid, body }),
            r.1 == Step::Ask(Request::FetchUidMeta(uid)),
    {
        (Replace::Meta { uid, body }, Step::Ask(Request::FetchUidMeta(uid)))
    }

    /// Takes the reply to the last request and says what comes next.
    pub fn resume(self, reply: Reply) -> (r: (Replace, Step))
        ensures
            self.resumes(reply, r.0, r.1),
    {
        match self {
            Replace::Meta { uid, body } => match reply {
                Reply::Fetched(rows) => {
                    let mut rows = rows;
                    let ghost all = rows@;
                    match find_uid_row(rows.as_slice(), uid) {
                        Some(i) => {
                            let Fetch { uid: u, size, internal_date_millis, flags, body: b } =
                                rows.remove(i);
                            assert(is_row_of(all[i as int], uid));
                            (Replace::Append { uid }, Step::Ask(Request::Append { body, flags }))
                        },
                        None => {
                            let mut s = String::new();
                            s.append("UID ");
                            push_decimal(&mut s, uid as u64);
                            s.append(" not found on server");
                            assert(s@ =~= not_found_text(uid));
                            (Replace::Finished, Step::Done(Err(SyncError::Other(s))))
                        },
                    }
                },
                other => (Replace::Finished, Step::Done(Err(failure_of(other)))),
            },
            Replace::Append { uid } => match reply {
                Reply::Done => {
                    let (inner, step) = Expunger::begin(uid);
                    (Replace::Delete(inner), step)
                },
                other => (Replace::Finished, Step::Done(Err(failure_of(other)))),
            },
            Replace::Delete(inner) => {
                let (next, step) = inner.resume(reply);
                match step {
                    Step::Ask(req) => (Replace::Delete(next), Step::Ask(req)),
                    Step::Done(res) => (Replace::Finished, Step::Done(res)),
                }
            },
            Replace::Finished => (Replace::Finished, Step::Done(Err(idle_resume()))),
        }
    }
}

/// While the new body has not been uploaded with success, replacing a
/// message asks for nothing that would delete the old one: a failed upload
/// ends the work at once.
pub proof fn lemma_replace_keeps_old_message(pre: Replace, reply: Reply, post: Replace, step: Step)
    requires
        pre.resumes(reply, post, step),
        pre is Meta || (pre is Append && !(reply is Done)),
    ensures
        !(step matches Step::Ask(Request::StoreDeleted(_))),
        !(step matches Step::Ask(Request::Expunge(_))),
        pre is Append ==> post is Finished && step matches Step::Done(Err(_)),
{
}

} // verus!
