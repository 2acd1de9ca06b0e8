//! From the local side to the server: what changed in the Maildir is sent
//! to the server.

use crate::cache::{Cache, CacheView};
use crate::db::{ascending, has_id, is_first_with_id, is_last_with_id, is_listed_in};
use crate::error::SyncError;
use crate::flags::{flags_of_letters, imap_of_flags, FlagValue, ImapFlag, SyncFlags};
use crate::maildir::{
    all_cached, distinct_ids, lemma_scan_agreeing, scan, IdResult, MailEntry,
};
use crate::text::texts;
use crate::meta::{MessageMeta, MetaView};
use crate::request::{
    apply_op, asks_no_new_row, failure_of, idle_resume, is_failure_of, is_idle_resume,
    row_follows_file, step_op, Reply, Request, Step, TableOp,
};
use crate::rows::RowsJob;
use crate::statefile::StateFileFields;
use crate::verbs::{Expunger, Replace};
use vstd::prelude::*;

verus! {

/// What the work on a changed file did to the message on the server.
#[derive(Clone, Copy, Debug, PartialEq, Eq, Structural)]
pub enum Outcome {
    /// Nothing was sent.
    Untouched,
    /// Flags were sent: the message's row has to be fetched again.
    Touched(u32),
    /// The body was replaced: the message with this UID is gone; the new one
    /// comes back from the server under a new UID.
    Replaced(u32),
}

/// The text of a string that may be missing.
pub open spec fn opt_text(s: Option<String>) -> Option<Seq<char>> {
    match s {
        Some(x) => Some(x@),
        None => None,
    }
}

/// The work on one file that differs from its cached record. Flags that the
/// file has and the record lacks are added on the server, flags that only
/// the record has are taken away; a file of another size than the record's
/// replaces the message's body, after which the file and the row go.
#[derive(Debug)]
pub enum ChangeJob {
    /// The Maildir was asked for the file. The cached UID, size and flags
    /// are kept.
    Stat { uid: u32, size: u32, flags: SyncFlags },
    /// The server was asked to add flags. `sub` are the flags to take away
    /// afterwards, `path` is the file to upload afterwards.
    Add { uid: u32, sub: SyncFlags, path: Option<String> },
    /// The server was asked to take flags away.
    Sub { uid: u32, path: Option<String> },
    /// The caller was asked for the file's content.
    Read { uid: u32 },
    /// The body is being replaced on the server.
    Replace { uid: u32, work: Replace },
    /// The Maildir was asked to delete the file.
    File { uid: u32 },
    /// The stored table was asked to delete the row.
    Row { uid: u32 },
    /// Nothing is pending.
    Finished(Outcome),
}

impl ChangeJob {
    /// What the stored table was asked for last.
    pub open spec fn pending(self) -> TableOp {
        match self {
            ChangeJob::Row { uid } => TableOp::Delete(uid),
            _ => TableOp::Nothing,
        }
    }

    /// The work ends with the failure that the reply stands for.
    pub open spec fn fails(reply: Reply, job: ChangeJob, step: Step) -> bool {
        &&& job == ChangeJob::Finished(Outcome::Untouched)
        &&& step matches Step::Done(Err(e))
        &&& is_failure_of(reply, e)
    }

    /// What follows once the flags are in order: the upload of the file where
    /// there is one to upload, the end of the work where not.
    pub open spec fn after_sub(
        uid: u32,
        path: Option<Seq<char>>,
        touched: bool,
        job: ChangeJob,
        step: Step,
    ) -> bool {
        match path {
            Some(p) => {
                &&& job == (ChangeJob::Read { uid })
                &&& step matches Step::Ask(Request::ReadBody(x))
                &&& x@ == p
            },
            None => {
                &&& job == ChangeJob::Finished(
                    if touched {
                        Outcome::Touched(uid)
                    } else {
                        Outcome::Untouched
                    },
                )
                &&& step == Step::Done(Ok(()))
            },
        }
    }

    /// What follows once flags were added, or none had to be.
    pub open spec fn after_add(
        uid: u32,
        sub: Set<FlagValue>,
        path: Option<Seq<char>>,
        touched: bool,
        job: ChangeJob,
        step: Step,
    ) -> bool {
        if sub != Set::<FlagValue>::empty() {
            &&& job matches ChangeJob::Sub { uid: u, path: p }
            &&& u == uid
            &&& opt_text(p) == path
            &&& step matches Step::Ask(Request::RemoveFlags { uid: v, flags })
            &&& v == uid
            &&& flags@ == imap_of_flags(sub)
        } else {
            Self::after_sub(uid, path, touched, job, step)
        }
    }

    /// What follows the look at the file.
    pub open spec fn after_stat(
        uid: u32,
        size: u32,
        cached: Set<FlagValue>,
        found: IdResult,
        job: ChangeJob,
        step: Step,
    ) -> bool {
        let on_disk = flags_of_letters(found.spec_flags());
        let add = on_disk.difference(cached);
        let sub = cached.difference(on_disk);
        let path = if size != found.spec_size() {
            Some(found.spec_path())
        } else {
            None
        };
        if add != Set::<FlagValue>::empty() {
            &&& job matches ChangeJob::Add { uid: u, sub: s, path: p }
            &&& u == uid
            &&& s@ == sub
            &&& opt_text(p) == path
            &&& step matches Step::Ask(Request::AddFlags { uid: v, flags })
            &&& v == uid
            &&& flags@ == imap_of_flags(add)
        } else {
            Self::after_add(uid, sub, path, false, job, step)
        }
    }

    /// How the work on the file with the given ID starts.
    pub open spec fn begins(
        table: Map<u32, MetaView>,
        id: Seq<char>,
        job: ChangeJob,
        step: Step,
    ) -> bool {
        if has_id(table, id) {
            &&& job matches ChangeJob::Stat { uid, size, flags }
            &&& is_first_with_id(table, id, uid)
            &&& size == table[uid].size
            &&& flags@ == table[uid].flags
            &&& step matches Step::Ask(Request::Stat(x))
            &&& x@ == id
        } else {
            &&& job == ChangeJob::Finished(Outcome::Untouched)
            &&& step matches Step::Done(Err(e))
            &&& e is Db
        }
    }

    /// How the work goes on after a reply. `id` is the file's ID.
    pub open spec fn resumes(
        self,
        before: CacheView,
        id: Seq<char>,
        reply: Reply,
        job: ChangeJob,
        step: Step,
        after: CacheView,
    ) -> bool {
        match self {
            ChangeJob::Stat { uid, size, flags } => {
                &&& after == before
                &&& match reply {
                    Reply::Found(found) => Self::after_stat(uid, size, flags@, found, job, step),
                    _ => Self::fails(reply, job, step),
                }
            },
            ChangeJob::Add { uid, sub, path } => {
                &&& after == before
                &&& match reply {
                    Reply::Done => Self::after_add(uid, sub@, opt_text(path), true, job, step),
                    _ => Self::fails(reply, job, step),
                }
            },
            ChangeJob::Sub { uid, path } => {
                &&& after == before
                &&& match reply {
                    Reply::Done => Self::after_sub(uid, opt_text(path), true, job, step),
                    _ => Self::fails(reply, job, step),
                }
            },
            ChangeJob::Read { uid } => {
                &&& after == before
                &&& match reply {
                    Reply::Body(body) => {
                        &&& job == (ChangeJob::Replace { uid, work: Replace::Meta { uid, body } })
                        &&& step == Step::Ask(Request::FetchUidMeta(uid))
                    },
                    _ => Self::fails(reply, job, step),
                }
            },
            ChangeJob::Replace { uid, work } => {
                &&& after == before
                &&& exists|next: Replace, inner: Step|
                    {
                        &&& #[trigger] work.resumes(reply, next, inner)
                        &&& match inner {
                            Step::Ask(_) => job == (ChangeJob::Replace { uid, work: next }) && step
                                == inner,
                            Step::Done(Ok(_)) => {
                                &&& job == (ChangeJob::File { uid })
                                &&& step matches Step::Ask(Request::DeleteMessage(x))
                                &&& x@ == id
                            },
                            Step::Done(Err(_)) => job == ChangeJob::Finished(Outcome::Untouched)
                                && step == inner,
                        }
                    }
            },
            ChangeJob::File { uid } => {
                &&& after == before
                &&& match reply {
                    Reply::Done => job == (ChangeJob::Row { uid }) && step == Step::Ask(
                        Request::DbDelete(uid),
                    ),
                    _ => Self::fails(reply, job, step),
                }
            },
            ChangeJob::Row { uid } => match reply {
                Reply::Done => {
                    &&& after == (CacheView { table: before.table.remove(uid), ..before })
                    &&& job == ChangeJob::Finished(Outcome::Replaced(uid))
                    &&& step == Step::Done(Ok(()))
                },
                _ => after == before && Self::fails(reply, job, step),
            },
            ChangeJob::Finished(_) => {
                &&& after == before
                &&& job == ChangeJob::Finished(Outcome::Untouched)
                &&& step matches Step::Done(Err(e))
                &&& is_idle_resume(e)
            },
        }
    }

    fn fail(reply: Reply) -> (r: (ChangeJob, Step))
        ensures
            Self::fails(reply, r.0, r.1),
    {
        (ChangeJob::Finished(Outcome::Untouched), Step::Done(Err(failure_of(reply))))
    }

    fn go_after_sub(uid: u32, path: Option<String>, touched: bool) -> (r: (ChangeJob, Step))
        ensures
            Self::after_sub(uid, opt_text(path), touched, r.0, r.1),
    {
        match path {
            Some(p) => (ChangeJob::Read { uid }, Step::Ask(Request::ReadBody(p))),
            None => (
                ChangeJob::Finished(
                    if touched {
                        Outcome::Touched(uid)
                    } else {
                        Outcome::Untouched
                    },
                ),
                Step::Done(Ok(())),
            ),
        }
    }

    fn go_after_add(uid: u32, sub: SyncFlags, path: Option<String>, touched: bool) -> (r: (
        ChangeJob,
        Step,
    ))
        ensures
            Self::after_add(uid, sub@, opt_text(path), touched, r.0, r.1),
    {
        match sub.as_imap_flags() {
            Some(flags) => (
                ChangeJob::Sub { uid, path },
                Step::Ask(Request::RemoveFlags { uid, flags }),
            ),
            None => Self::go_after_sub(uid, path, touched),
        }
    }

    /// Starts the work on the changed file with this ID.
    pub fn begin(cache: &Cache, id: &str) -> (r: (ChangeJob, Step))
        ensures
            Self::begins(cache@.table, id@, r.0, r.1),
    {
        match cache.get_id(id) {
            Ok(meta) => (
                ChangeJob::Stat { uid: meta.uid(), size: meta.size(), flags: meta.sync_flags() },
                Step::Ask(Request::Stat(id.to_owned())),
            ),
            Err(_) => (ChangeJob::Finished(Outcome::Untouched), Step::Done(Err(SyncError::Db))),
        }
    }

    /// Takes the reply to the last request and says what comes next.
    pub fn resume(self, cache: &mut Cache, id: &str, reply: Reply) -> (r: (ChangeJob, Step))
        ensures
            self.resumes(old(cache)@, id@, reply, r.0, r.1, final(cache)@),
    {
        match self {
            ChangeJob::Stat { uid, size, flags } => match reply {
                Reply::Found(found) => {
                    let on_disk = SyncFlags::from_maildir_string(found.flags());
                    let diff = flags.diff(on_disk);
                    let path = if size as u64 != found.size() {
                        Some(found.path().to_owned())
                    } else {
                        None
                    };
                    match diff.add.as_imap_flags() {
                        Some(list) => (
                            ChangeJob::Add { uid, sub: diff.sub, path },
                            Step::Ask(Request::AddFlags { uid, flags: list }),
                        ),
                        None => Self::go_after_add(uid, diff.sub, path, false),
                    }
                },
                other => Self::fail(other),
            },
            ChangeJob::Add { uid, sub, path } => match reply {
                Reply::Done => Self::go_after_add(uid, sub, path, true),
                other => Self::fail(other),
            },
            ChangeJob::Sub { uid, path } => match reply {
                Reply::Done => Self::go_after_sub(uid, path, true),
                other => Self::fail(other),
            },
            ChangeJob::Read { uid } => match reply {
                Reply::Body(body) => {
                    let (work, step) = Replace::begin(uid, body);
                    (ChangeJob::Replace { uid, work }, step)
                },
                other => Self::fail(other),
            },
            ChangeJob::Replace { uid, work } => {
                let (next, inner) = work.resume(reply);
                assert(work.resumes(reply, next, inner));
                match inner {
                    Step::Ask(req) => (ChangeJob::Replace { uid, work: next }, Step::Ask(req)),
                    Step::Done(Ok(u)) => (
                        ChangeJob::File { uid },
                        Step::Ask(Request::DeleteMessage(id.to_owned())),
                    ),
                    Step::Done(Err(e)) => (
                        ChangeJob::Finished(Outcome::Untouched),
                        Step::Done(Err(e)),
                    ),
                }
            },
            ChangeJob::File { uid } => match reply {
                Reply::Done => (ChangeJob::Row { uid }, Step::Ask(Request::DbDelete(uid))),
                other => Self::fail(other),
            },
            ChangeJob::Row { uid } => match reply {
                Reply::Done => {
                    let _ = cache.delete_uid(uid);
                    (ChangeJob::Finished(Outcome::Replaced(uid)), Step::Done(Ok(())))
                },
                other => Self::fail(other),
            },
            ChangeJob::Finished(_) => (
                ChangeJob::Finished(Outcome::Untouched),
                Step::Done(Err(idle_resume())),
            ),
        }
    }
}

/// The work on one file that the cache does not know: the file is uploaded
/// with the flags of its name and then deleted. It comes back from the
/// server, which gives it its UID.
#[derive(Debug)]
pub enum NewJob {
    /// The Maildir was asked for the file.
    Stat,
    /// The caller was asked for the file's content.
    Read { flags: Vec<ImapFlag> },
    /// The server was asked to append the message.
    Append,
    /// The Maildir was asked to delete the file.
    File,
    /// Nothing is pending.
    Finished,
}

impl NewJob {
    /// The work ends with the failure that the reply stands for.
    pub open spec fn fails(reply: Reply, job: NewJob, step: Step) -> bool {
        &&& job is Finished
        &&& step matches Step::Done(Err(e))
        &&& is_failure_of(reply, e)
    }

    /// How the work goes on after a reply. `id` is the file's ID.
    pub open spec fn resumes(self, id: Seq<char>, reply: Reply, job: NewJob, step: Step) -> bool {
        match self {
            NewJob::Stat => match reply {
                Reply::Found(found) => {
                    &&& job matches NewJob::Read { flags }
                    &&& flags@ == imap_of_flags(flags_of_letters(found.spec_flags()))
                    &&& step matches Step::Ask(Request::ReadBody(p))
                    &&& p@ == found.spec_path()
                },
                _ => Self::fails(reply, job, step),
            },
            NewJob::Read { flags } => match reply {
                Reply::Body(body) => job is Append && step == Step::Ask(
                    Request::Append { body, flags },
                ),
                _ => Self::fails(reply, job, step),
            },
            NewJob::Append => match reply {
                Reply::Done => {
                    &&& job is File
                    &&& step matches Step::Ask(Request::DeleteMessage(x))
                    &&& x@ == id
                },
                _ => Self::fails(reply, job, step),
            },
            NewJob::File => match reply {
                Reply::Done => job is Finished && step == Step::Done(Ok(())),
                _ => Self::fails(reply, job, step),
            },
            NewJob::Finished => {
                &&& job is Finished
                &&& step matches Step::Done(Err(e))
                &&& is_idle_resume(e)
            },
        }
    }

    /// Starts the work on the new file with this ID.
    pub fn begin(id: &str) -> (r: (NewJob, Step))
        ensures
            r.0 is Stat,
            r.1 matches Step::Ask(Request::Stat(x)) && x@ == id@,
    {
        (NewJob::Stat, Step::Ask(Request::Stat(id.to_owned())))
    }

    /// Takes the reply to the last request and says what comes next.
    pub fn resume(self, id: &str, reply: Reply) -> (r: (NewJob, Step))
        ensures
            self.resumes(id@, reply, r.0, r.1),
    {
        match self {
            NewJob::Stat => match reply {
                Reply::Found(found) => {
                    let set = SyncFlags::from_maildir_string(found.flags());
                    let flags = match set.as_imap_flags() {
                        Some(f) => f,
                        None => {
                            let v: Vec<ImapFlag> = Vec::new();
                            assert(v@ =~= imap_of_flags(set@));
                            v
                        },
                    };
                    (NewJob::Read { flags }, Step::Ask(Request::ReadBody(found.path().to_owned())))
                },
                other => (NewJob::Finished, Step::Done(Err(failure_of(other)))),
            },
            NewJob::Read { flags } => match reply {
                Reply::Body(body) => (NewJob::Append, Step::Ask(Request::Append { body, flags })),
                other => (NewJob::Finished, Step::Done(Err(failure_of(other)))),
            },
            NewJob::Append => match reply {
                Reply::Done => (NewJob::File, Step::Ask(Request::DeleteMessage(id.to_owned()))),
                other => (NewJob::Finished, Step::Done(Err(failure_of(other)))),
            },
            NewJob::File => match reply {
                Reply::Done => (NewJob::Finished, Step::Done(Ok(()))),
                other => (NewJob::Finished, Step::Done(Err(failure_of(other)))),
            },
            NewJob::Finished => (NewJob::Finished, Step::Done(Err(idle_resume()))),
        }
    }
}

/// The work on one message whose file is gone: the message is deleted on the
/// server and then forgotten in the table.
#[derive(Clone, Copy, Debug, PartialEq, Eq, Structural)]
pub enum GoneJob {
    /// The message is being deleted on the server.
    Server(Expunger),
    /// The stored table was asked to delete the row.
    Row,
    /// Nothing is pending.
    Finished,
}

impl GoneJob {
    /// What the stored table was asked for last. `uid` is the message's UID.
    pub open spec fn pending(self, uid: u32) -> TableOp {
        match self {
            GoneJob::Row => TableOp::Delete(uid),
            _ => TableOp::Nothing,
        }
    }

    /// How the work goes on after a reply. `uid` is the message's UID.
    pub open spec fn resumes(
        self,
        before: CacheView,
        uid: u32,
        reply: Reply,
        job: GoneJob,
        step: Step,
        after: CacheView,
    ) -> bool {
        match self {
            GoneJob::Server(inner) => {
                &&& after == before
                &&& exists|next: Expunger, sub: Step|
                    {
                        &&& #[trigger] inner.resumes(reply, next, sub)
                        &&& match sub {
                            Step::Ask(_) => job == GoneJob::Server(next) && step == sub,
                            Step::Done(Ok(_)) => job == GoneJob::Row && step == Step::Ask(
                                Request::DbDelete(uid),
                            ),
                            Step::Done(Err(_)) => job == GoneJob::Finished && step == sub,
                        }
                    }
            },
            GoneJob::Row => {
                &&& job == GoneJob::Finished
                &&& match reply {
                    Reply::Done => {
                        &&& after == (CacheView { table: before.table.remove(uid), ..before })
                        &&& step == Step::Done(Ok(()))
                    },
                    _ => {
                        &&& after == before
                        &&& step matches Step::Done(Err(e))
                        &&& is_failure_of(reply, e)
                    },
                }
            },
            GoneJob::Finished => {
                &&& after == before
                &&& job == GoneJob::Finished
                &&& step matches Step::Done(Err(e))
                &&& is_idle_resume(e)
            },
        }
    }

    /// Starts the work on the message with this UID.
    pub fn begin(uid: u32) -> (r: (GoneJob, Step))
        ensures
            r.0 == GoneJob::Server(Expunger::Store { uid }),
            r.1 == Step::Ask(Request::StoreDeleted(uid)),
    {
        let (inner, step) = Expunger::begin(uid);
        (GoneJob::Server(inner), step)
    }

    /// Takes the reply to the last request and says what comes next.
    pub fn resume(self, cache: &mut Cache, uid: u32, reply: Reply) -> (r: (GoneJob, Step))
        ensures
            self.resumes(old(cache)@, uid, reply, r.0, r.1, final(cache)@),
    {
        match self {
            GoneJob::Server(inner) => {
                let (next, sub) = inner.resume(reply);
                assert(inner.resumes(reply, next, sub));
                match sub {
                    Step::Ask(req) => (GoneJob::Server(next), Step::Ask(req)),
                    Step::Done(Ok(u)) => (GoneJob::Row, Step::Ask(Request::DbDelete(uid))),
                    Step::Done(Err(e)) => (GoneJob::Finished, Step::Done(Err(e))),
                }
            },
            GoneJob::Row => match reply {
                Reply::Done => {
                    let _ = cache.delete_uid(uid);
                    (GoneJob::Finished, Step::Done(Ok(())))
                },
                other => (GoneJob::Finished, Step::Done(Err(failure_of(other)))),
            },
            GoneJob::Finished => (GoneJob::Finished, Step::Done(Err(idle_resume()))),
        }
    }
}

/// A list without one number, the order of the others kept.
pub open spec fn without(s: Seq<u32>, uid: u32) -> Seq<u32>
    decreases s.len(),
{
    if s.len() == 0 {
        s
    } else if s.last() == uid {
        without(s.drop_last(), uid)
    } else {
        without(s.drop_last(), uid).push(s.last())
    }
}

/// The list of UIDs to fetch again, after the work on one changed file: a
/// message whose flags were sent joins the list once, a message that was
/// replaced leaves it.
pub open spec fn refetch_after(list: Seq<u32>, outcome: Outcome) -> Seq<u32> {
    match outcome {
        Outcome::Untouched => list,
        Outcome::Touched(uid) => if list.contains(uid) {
            list
        } else {
            list.push(uid)
        },
        Outcome::Replaced(uid) => without(list, uid),
    }
}

/// Brings the list of UIDs to fetch again up to the outcome of one file's
/// work.
pub fn note_outcome(list: Vec<u32>, outcome: Outcome) -> (r: Vec<u32>)
    ensures
        r@ == refetch_after(list@, outcome),
{
    match outcome {
        Outcome::Untouched => list,
        Outcome::Touched(uid) => {
            let mut v = list;
            let mut i: usize = 0;
            while i < v.len()
                invariant
                    outcome == Outcome::Touched(uid),
                    v@ == list@,
                    i <= v.len(),
                    forall|j: int| 0 <= j < i ==> v@[j] != uid,
                decreases v.len() - i,
            {
                if v[i] == uid {
                    assert(list@[i as int] == uid);
                    return v;
                }
                i = i + 1;
            }
            v.push(uid);
            v
        },
        Outcome::Replaced(uid) => {
            let mut out: Vec<u32> = Vec::new();
            let mut i: usize = 0;
            while i < list.len()
                invariant
                    i <= list.len(),
                    out@ == without(list@.take(i as int), uid),
                decreases list.len() - i,
            {
                proof {
                    assert(list@.take(i + 1).drop_last() =~= list@.take(i as int));
                }
                if list[i] != uid {
                    out.push(list[i]);
                }
                i = i + 1;
            }
            assert(list@.take(list.len() as int) =~= list@);
            out
        },
    }
}

/// The parts of the work from the local side to the server, in their order.
#[derive(Clone, Copy, Debug, PartialEq, Eq, Structural)]
pub enum Phase {
    /// Messages whose files are gone are deleted on the server.
    Gone,
    /// Files that differ from the cache are sent.
    Changed,
    /// Files that the cache does not know are uploaded.
    New,
    /// Messages whose flags were sent are fetched again.
    Refetch,
}

impl Phase {
    /// The place of a part in the order.
    pub open spec fn rank(self) -> int {
        match self {
            Phase::Gone => 0,
            Phase::Changed => 1,
            Phase::New => 2,
            Phase::Refetch => 3,
        }
    }
}

/// Where the work from the local side to the server stands.
#[derive(Debug)]
pub enum PushStage {
    /// The Maildir was asked for its listing.
    List,
    /// A message whose file is gone is being deleted.
    Gone(GoneJob),
    /// A changed file is being sent.
    Changed(ChangeJob),
    /// A new file is being uploaded.
    New(NewJob),
    /// The server was asked for the row of a message whose flags were sent.
    Refetch,
    /// The row of such a message is being worked on.
    Rows(RowsJob),
    /// The state record was handed over to be stored.
    State,
    /// Nothing is pending.
    Finished,
}

/// The work from the local side to the server.
///
/// The Maildir's listing is held against the cache. Messages whose files are
/// gone are deleted on the server, changed files are sent, new files are
/// uploaded, and the rows of the messages whose flags were sent are fetched
/// again. The first failure ends the work.
#[derive(Debug)]
pub struct Push {
    /// UIDs of the messages whose files are gone, ascending.
    pub gone: Vec<u32>,
    /// IDs of the files that differ from the cache.
    pub changed: Vec<String>,
    /// IDs of the files that the cache does not know.
    pub new: Vec<String>,
    /// UIDs of the messages to fetch again.
    pub refetch: Vec<u32>,
    /// The position, in its list, of the item being worked on.
    pub k: usize,
    pub stage: PushStage,
}

/// The lists of a push, as mathematical values.
pub struct Lists {
    pub gone: Seq<u32>,
    pub changed: Seq<Seq<char>>,
    pub new: Seq<Seq<char>>,
    pub refetch: Seq<u32>,
}

/// Whether `ids` is the index of a table by Maildir ID: every ID of the
/// table is a key, and under it lies the record with the greatest UID among
/// those with that ID.
pub open spec fn is_index(ids: Map<Seq<char>, MessageMeta>, table: Map<u32, MetaView>) -> bool {
    &&& forall|id: Seq<char>|
        #![trigger ids.contains_key(id)]
        #![trigger has_id(table, id)]
        ids.contains_key(id) <==> has_id(table, id)
    &&& forall|id: Seq<char>| #[trigger]
        ids.contains_key(id) ==> is_last_with_id(table, id, ids[id]@.uid) && ids[id]@
            == table[ids[id]@.uid]
}

impl Push {
    /// What the stored table was asked for last, given the cached table.
    pub open spec fn pending(self, table: Map<u32, MetaView>) -> TableOp {
        match self.stage {
            PushStage::Gone(work) => if self.k < self.gone@.len() {
                work.pending(self.gone@[self.k as int])
            } else {
                TableOp::Nothing
            },
            PushStage::Changed(work) => if self.k < self.changed@.len() {
                work.pending()
            } else {
                TableOp::Nothing
            },
            PushStage::Rows(work) => if self.k < self.refetch@.len() {
                work.pending(table)
            } else {
                TableOp::Nothing
            },
            _ => TableOp::Nothing,
        }
    }

    /// The lists of a state.
    pub open spec fn lists(self) -> Lists {
        Lists {
            gone: self.gone@,
            changed: texts(self.changed@),
            new: texts(self.new@),
            refetch: self.refetch@,
        }
    }

    /// The work ends with the failure that the reply stands for.
    pub open spec fn fails(reply: Reply, job: Push, step: Step) -> bool {
        &&& job.stage is Finished
        &&& step matches Step::Done(Err(e))
        &&& is_failure_of(reply, e)
    }

    /// The work ends with the result of one of its parts.
    pub open spec fn ends(job: Push, step: Step, inner: Step) -> bool {
        job.stage is Finished && step == inner
    }

    /// The work on a changed file starts; if it cannot, the whole work ends.
    pub open spec fn starts_changed(
        table: Map<u32, MetaView>,
        id: Seq<char>,
        job: Push,
        step: Step,
    ) -> bool {
        exists|work: ChangeJob, inner: Step|
            {
                &&& #[trigger] ChangeJob::begins(table, id, work, inner)
                &&& match inner {
                    Step::Ask(_) => job.stage == PushStage::Changed(work) && step == inner,
                    Step::Done(_) => Self::ends(job, step, inner),
                }
            }
    }

    /// How the work goes on with the item at position `k` of the part
    /// `phase`, or with the first item of a later part if that part has no
    /// such item, or with the storing of the state record if nothing is left
    /// to do.
    pub open spec fn goes_on(
        lists: Lists,
        phase: Phase,
        k: int,
        before: CacheView,
        job: Push,
        step: Step,
        after: CacheView,
    ) -> bool {
        &&& after.table == before.table
        &&& job.pending(after.table) == step_op(step)
        &&& asks_no_new_row(step)
        &&& {
            let kc = if phase == Phase::Changed {
                k
            } else {
                0
            };
            let kn = if phase == Phase::New {
                k
            } else {
                0
            };
            let kr = if phase == Phase::Refetch {
                k
            } else {
                0
            };
            &&& job.lists() == lists
            &&& if phase == Phase::Gone && 0 <= k < lists.gone.len() {
                &&& after == before
                &&& job.k == k
                &&& job.stage == PushStage::Gone(GoneJob::Server(Expunger::Store { uid: lists.gone[k] }))
                &&& step == Step::Ask(Request::StoreDeleted(lists.gone[k]))
            } else if phase.rank() <= 1 && 0 <= kc < lists.changed.len() {
                &&& after == before
                &&& job.k == kc
                &&& Self::starts_changed(before.table, lists.changed[kc], job, step)
            } else if phase.rank() <= 2 && 0 <= kn < lists.new.len() {
                &&& after == before
                &&& job.k == kn
                &&& job.stage matches PushStage::New(NewJob::Stat)
                &&& step matches Step::Ask(Request::Stat(x))
                &&& x@ == lists.new[kn]
            } else if 0 <= kr < lists.refetch.len() {
                &&& after == before
                &&& job.k == kr
                &&& job.stage is Refetch
                &&& step == Step::Ask(Request::FetchUidMeta(lists.refetch[kr]))
            } else {
                &&& after.table == before.table
                &&& after.state == (StateFileFields {
                    maildir_last: after.state.maildir_last,
                    ..before.state
                })
                &&& job.stage is State
                &&& step == Step::Ask(Request::SaveState(after.state))
            }
        }
    }

    /// What the listing of the Maildir leads to.
    pub open spec fn after_list(
        lists: Lists,
        entries: Seq<MailEntry>,
        before: CacheView,
        job: Push,
        step: Step,
        after: CacheView,
    ) -> bool {
        &&& after.table == before.table
        &&& job.pending(after.table) == step_op(step)
        &&& asks_no_new_row(step)
        &&& {
            exists|ids: Map<Seq<char>, MessageMeta>|
                {
                    &&& #[trigger] is_index(ids, before.table)
                    &&& if scan(entries, ids).failed {
                        &&& after == before
                        &&& job.lists() == lists
                        &&& job.stage is Finished
                        &&& step matches Step::Done(Err(e))
                        &&& e is Maildir
                    } else {
                        &&& job.lists().new == scan(entries, ids).new
                        &&& job.lists().changed == scan(entries, ids).changed
                        &&& job.lists().refetch == Seq::<u32>::empty()
                        &&& ascending(job.gone@)
                        &&& forall|u: u32|
                            #![trigger job.gone@.contains(u)]
                            #![trigger before.table.dom().contains(u)]
                            job.gone@.contains(u) <==> before.table.dom().contains(u) && is_listed_in(
                                before.table[u],
                                scan(entries, ids).left,
                            )
                        &&& Self::goes_on(job.lists(), Phase::Gone, 0, before, job, step, after)
                    }
                }
        }
    }

    /// How the work goes on after a reply.
    pub open spec fn resumes(
        self,
        before: CacheView,
        reply: Reply,
        job: Push,
        step: Step,
        after: CacheView,
    ) -> bool {
        &&& after.table == if reply is Done {
            apply_op(before.table, self.pending(before.table))
        } else {
            before.table
        }
        &&& job.pending(after.table) == step_op(step)
        &&& row_follows_file(reply, step)
        &&& {
            match self.stage {
                PushStage::List => match reply {
                    Reply::Listed(listing) => Self::after_list(
                        self.lists(),
                        listing.entries@,
                        before,
                        job,
                        step,
                        after,
                    ),
                    _ => after == before && job.lists() == self.lists() && Self::fails(reply, job, step),
                },
                PushStage::Gone(work) => {
                    if self.k < self.gone@.len() {
                        exists|next: GoneJob, inner: Step, mid: CacheView|
                            {
                                &&& #[trigger] work.resumes(
                                    before,
                                    self.gone@[self.k as int],
                                    reply,
                                    next,
                                    inner,
                                    mid,
                                )
                                &&& match inner {
                                    Step::Ask(_) => {
                                        &&& after == mid
                                        &&& job.lists() == self.lists()
                                        &&& job.k == self.k
                                        &&& job.stage == PushStage::Gone(next)
                                        &&& step == inner
                                    },
                                    Step::Done(Ok(_)) => Self::goes_on(
                                        self.lists(),
                                        Phase::Gone,
                                        self.k + 1,
                                        mid,
                                        job,
                                        step,
                                        after,
                                    ),
                                    Step::Done(Err(_)) => {
                                        &&& after == mid
                                        &&& job.lists() == self.lists()
                                        &&& Self::ends(job, step, inner)
                                    },
                                }
                            }
                    } else {
                        job.lists() == self.lists() && Self::misplaced(before, job, step, after)
                    }
                },
                PushStage::Changed(work) => {
                    if self.k < self.changed@.len() {
                        exists|next: ChangeJob, inner: Step, mid: CacheView|
                            {
                                &&& #[trigger] work.resumes(
                                    before,
                                    self.changed@[self.k as int]@,
                                    reply,
                                    next,
                                    inner,
                                    mid,
                                )
                                &&& match inner {
                                    Step::Ask(_) => {
                                        &&& after == mid
                                        &&& job.lists() == self.lists()
                                        &&& job.k == self.k
                                        &&& job.stage == PushStage::Changed(next)
                                        &&& step == inner
                                    },
                                    Step::Done(Ok(_)) => {
                                        &&& next matches ChangeJob::Finished(outcome)
                                        &&& Self::goes_on(
                                            Lists {
                                                refetch: refetch_after(self.refetch@, outcome),
                                                ..self.lists()
                                            },
                                            Phase::Changed,
                                            self.k + 1,
                                            mid,
                                            job,
                                            step,
                                            after,
                                        )
                                    },
                                    Step::Done(Err(_)) => {
                                        &&& after == mid
                                        &&& job.lists() == self.lists()
                                        &&& Self::ends(job, step, inner)
                                    },
                                }
                            }
                    } else {
                        job.lists() == self.lists() && Self::misplaced(before, job, step, after)
                    }
                },
                PushStage::New(work) => {
                    if self.k < self.new@.len() {
                        exists|next: NewJob, inner: Step|
                            {
                                &&& #[trigger] work.resumes(
                                    self.new@[self.k as int]@,
                                    reply,
                                    next,
                                    inner,
                                )
                                &&& match inner {
                                    Step::Ask(_) => {
                                        &&& after == before
                                        &&& job.lists() == self.lists()
                                        &&& job.k == self.k
                                        &&& job.stage == PushStage::New(next)
                                        &&& step == inner
                                    },
                                    Step::Done(Ok(_)) => Self::goes_on(
                                        self.lists(),
                                        Phase::New,
                                        self.k + 1,
                                        before,
                                        job,
                                        step,
                                        after,
                                    ),
                                    Step::Done(Err(_)) => after == before && job.lists()
                                        == self.lists() && Self::ends(job, step, inner),
                                }
                            }
                    } else {
                        job.lists() == self.lists() && Self::misplaced(before, job, step, after)
                    }
                },
                PushStage::Refetch => match reply {
                    Reply::Fetched(rows) => {
                        if self.k < self.refetch@.len() {
                            exists|work: RowsJob, inner: Step|
                                {
                                    &&& #[trigger] RowsJob::advances(
                                        rows@,
                                        0,
                                        false,
                                        before.table,
                                        work,
                                        inner,
                                    )
                                    &&& self.after_rows(work, inner, before, job, step, after)
                                }
                        } else {
                            job.lists() == self.lists() && Self::misplaced(before, job, step, after)
                        }
                    },
                    _ => after == before && job.lists() == self.lists() && Self::fails(reply, job, step),
                },
                PushStage::Rows(work) => {
                    if self.k < self.refetch@.len() {
                        exists|next: RowsJob, inner: Step, mid: CacheView|
                            {
                                &&& #[trigger] work.resumes(before, reply, next, inner, mid)
                                &&& self.after_rows(next, inner, mid, job, step, after)
                            }
                    } else {
                        job.lists() == self.lists() && Self::misplaced(before, job, step, after)
                    }
                },
                PushStage::State => {
                    &&& after == before
                    &&& job.lists() == self.lists()
                    &&& match reply {
                        Reply::Done => job.stage is Finished && step == Step::Done(Ok(())),
                        _ => Self::fails(reply, job, step),
                    }
                },
                PushStage::Finished => {
                    &&& job.lists() == self.lists()
                    &&& Self::misplaced(before, job, step, after)
                },
            }
        }
    }

    /// What follows a step of the work on a row that was fetched again.
    pub open spec fn after_rows(
        self,
        work: RowsJob,
        inner: Step,
        mid: CacheView,
        job: Push,
        step: Step,
        after: CacheView,
    ) -> bool {
        match inner {
            Step::Ask(_) => {
                &&& after == mid
                &&& job.lists() == self.lists()
                &&& job.k == self.k
                &&& job.stage == PushStage::Rows(work)
                &&& step == inner
            },
            Step::Done(Ok(_)) => Self::goes_on(
                self.lists(),
                Phase::Refetch,
                self.k + 1,
                mid,
                job,
                step,
                after,
            ),
            Step::Done(Err(_)) => after == mid && job.lists() == self.lists() && Self::ends(
                                    job,
                                    step,
                                    inner,
                                ),
        }
    }

    /// A reply came where none was asked for.
    pub open spec fn misplaced(before: CacheView, job: Push, step: Step, after: CacheView) -> bool {
        &&& after == before
        &&& job.stage is Finished
        &&& step matches Step::Done(Err(e))
        &&& is_idle_resume(e)
    }
}

impl Push {
    fn finish(
        gone: Vec<u32>,
        changed: Vec<String>,
        new: Vec<String>,
        refetch: Vec<u32>,
        k: usize,
        step: Step,
    ) -> (r: (Push, Step))
        ensures
            r.0.stage is Finished,
            r.0.lists() == (Lists {
                gone: gone@,
                changed: texts(changed@),
                new: texts(new@),
                refetch: refetch@,
            }),
            r.1 == step,
    {
        (Push { gone, changed, new, refetch, k, stage: PushStage::Finished }, step)
    }

    fn go_on(
        gone: Vec<u32>,
        changed: Vec<String>,
        new: Vec<String>,
        refetch: Vec<u32>,
        phase: Phase,
        k: usize,
        cache: &mut Cache,
    ) -> (r: (Push, Step))
        ensures
            Self::goes_on(
                Lists { gone: gone@, changed: texts(changed@), new: texts(new@), refetch: refetch@ },
                phase,
                k as int,
                old(cache)@,
                r.0,
                r.1,
                final(cache)@,
            ),
    {
        let kc = match phase {
            Phase::Changed => k,
            _ => 0,
        };
        let kn = match phase {
            Phase::New => k,
            _ => 0,
        };
        let kr = match phase {
            Phase::Refetch => k,
            _ => 0,
        };
        let early = match phase {
            Phase::Gone | Phase::Changed => true,
            _ => false,
        };
        let middle = match phase {
            Phase::Refetch => false,
            _ => true,
        };
        if phase == Phase::Gone && k < gone.len() {
            let (work, step) = GoneJob::begin(gone[k]);
            (Push { gone, changed, new, refetch, k, stage: PushStage::Gone(work) }, step)
        } else if early && kc < changed.len() {
            let (work, inner) = ChangeJob::begin(cache, changed[kc].as_str());
            proof {
                assert(texts(changed@)[kc as int] == changed@[kc as int]@);
                assert(ChangeJob::begins(cache@.table, texts(changed@)[kc as int], work, inner));
            }
            match inner {
                Step::Ask(req) => (
                    Push { gone, changed, new, refetch, k: kc, stage: PushStage::Changed(work) },
                    Step::Ask(req),
                ),
                Step::Done(res) => (
                    Push { gone, changed, new, refetch, k: kc, stage: PushStage::Finished },
                    Step::Done(res),
                ),
            }
        } else if middle && kn < new.len() {
            let (work, step) = NewJob::begin(new[kn].as_str());
            proof {
                assert(texts(new@)[kn as int] == new@[kn as int]@);
            }
            (Push { gone, changed, new, refetch, k: kn, stage: PushStage::New(work) }, step)
        } else if kr < refetch.len() {
            let uid = refetch[kr];
            (
                Push { gone, changed, new, refetch, k: kr, stage: PushStage::Refetch },
                Step::Ask(Request::FetchUidMeta(uid)),
            )
        } else {
            let fields = cache.update_maildir_state();
            (
                Push { gone, changed, new, refetch, k: 0, stage: PushStage::State },
                Step::Ask(Request::SaveState(fields)),
            )
        }
    }

    /// Starts the work: the Maildir is asked for its listing.
    pub fn begin() -> (r: (Push, Step))
        ensures
            r.0.stage is List,
            r.0.lists() == (Lists {
                gone: Seq::empty(),
                changed: Seq::empty(),
                new: Seq::empty(),
                refetch: Seq::empty(),
            }),
            r.1 == Step::Ask(Request::List),
    {
        let r = (
            Push {
                gone: Vec::new(),
                changed: Vec::new(),
                new: Vec::new(),
                refetch: Vec::new(),
                k: 0,
                stage: PushStage::List,
            },
            Step::Ask(Request::List),
        );
        assert(texts(r.0.changed@) =~= Seq::<Seq<char>>::empty());
        assert(texts(r.0.new@) =~= Seq::<Seq<char>>::empty());
        r
    }

    fn go_after_rows(
        gone: Vec<u32>,
        changed: Vec<String>,
        new: Vec<String>,
        refetch: Vec<u32>,
        k: usize,
        work: RowsJob,
        inner: Step,
        cache: &mut Cache,
    ) -> (r: (Push, Step))
        requires
            k < usize::MAX,
        ensures
            (Push { gone, changed, new, refetch, k, stage: PushStage::Finished }).after_rows(
                work,
                inner,
                old(cache)@,
                r.0,
                r.1,
                final(cache)@,
            ),
    {
        match inner {
            Step::Ask(req) => (
                Push { gone, changed, new, refetch, k, stage: PushStage::Rows(work) },
                Step::Ask(req),
            ),
            Step::Done(Ok(u)) => Self::go_on(gone, changed, new, refetch, Phase::Refetch, k + 1, cache),
            Step::Done(Err(e)) => Self::finish(gone, changed, new, refetch, k, Step::Done(Err(e))),
        }
    }

    /// Takes the reply to the last request and says what comes next.
    pub fn resume(self, cache: &mut Cache, reply: Reply) -> (r: (Push, Step))
        ensures
            self.resumes(old(cache)@, reply, r.0, r.1, final(cache)@),
    {
        let Push { gone, changed, new, refetch, k, stage } = self;
        match stage {
            PushStage::List => match reply {
                Reply::Listed(listing) => {
                    let mut ids = cache.get_known_ids();
                    let ghost index = ids@;
                    assert(is_index(index, cache@.table));
                    match listing.get_updates(&mut ids) {
                        Err(e) => Self::finish(gone, changed, new, refetch, k, Step::Done(Err(e))),
                        Ok((fresh, differing)) => {
                            let missing = cache.uids_listed_in(&ids);
                            let none: Vec<u32> = Vec::new();
                            Self::go_on(missing, differing, fresh, none, Phase::Gone, 0, cache)
                        },
                    }
                },
                other => Self::finish(
                    gone,
                    changed,
                    new,
                    refetch,
                    k,
                    Step::Done(Err(failure_of(other))),
                ),
            },
            PushStage::Gone(work) => {
                if k < gone.len() {
                    let (next, inner) = work.resume(cache, gone[k], reply);
                    assert(work.resumes(old(cache)@, self.gone@[k as int], reply, next, inner, cache@));
                    match inner {
                        Step::Ask(req) => (
                            Push { gone, changed, new, refetch, k, stage: PushStage::Gone(next) },
                            Step::Ask(req),
                        ),
                        Step::Done(Ok(u)) => Self::go_on(
                            gone,
                            changed,
                            new,
                            refetch,
                            Phase::Gone,
                            k + 1,
                            cache,
                        ),
                        Step::Done(Err(e)) => Self::finish(
                            gone,
                            changed,
                            new,
                            refetch,
                            k,
                            Step::Done(Err(e)),
                        ),
                    }
                } else {
                    Self::finish(gone, changed, new, refetch, k, Step::Done(Err(idle_resume())))
                }
            },
            PushStage::Changed(work) => {
                if k < changed.len() {
                    let (next, inner) = work.resume(cache, changed[k].as_str(), reply);
                    assert(work.resumes(
                        old(cache)@,
                        self.changed@[k as int]@,
                        reply,
                        next,
                        inner,
                        cache@,
                    ));
                    match inner {
                        Step::Ask(req) => (
                            Push { gone, changed, new, refetch, k, stage: PushStage::Changed(next) },
                            Step::Ask(req),
                        ),
                        Step::Done(Ok(u)) => {
                            let outcome = match next {
                                ChangeJob::Finished(o) => o,
                                _ => Outcome::Untouched,
                            };
                            let again = note_outcome(refetch, outcome);
                            Self::go_on(gone, changed, new, again, Phase::Changed, k + 1, cache)
                        },
                        Step::Done(Err(e)) => Self::finish(
                            gone,
                            changed,
                            new,
                            refetch,
                            k,
                            Step::Done(Err(e)),
                        ),
                    }
                } else {
                    Self::finish(gone, changed, new, refetch, k, Step::Done(Err(idle_resume())))
                }
            },
            PushStage::New(work) => {
                if k < new.len() {
                    let (next, inner) = work.resume(new[k].as_str(), reply);
                    assert(work.resumes(self.new@[k as int]@, reply, next, inner));
                    match inner {
                        Step::Ask(req) => (
                            Push { gone, changed, new, refetch, k, stage: PushStage::New(next) },
                            Step::Ask(req),
                        ),
                        Step::Done(Ok(u)) => Self::go_on(
                            gone,
                            changed,
                            new,
                            refetch,
                            Phase::New,
                            k + 1,
                            cache,
                        ),
                        Step::Done(Err(e)) => Self::finish(
                            gone,
                            changed,
                            new,
                            refetch,
                            k,
                            Step::Done(Err(e)),
                        ),
                    }
                } else {
                    Self::finish(gone, changed, new, refetch, k, Step::Done(Err(idle_resume())))
                }
            },
            PushStage::Refetch => match reply {
                Reply::Fetched(rows) => {
                    if k < refetch.len() {
                        let (work, inner) = RowsJob::begin(cache, rows);
                        assert(RowsJob::advances(rows@, 0, false, cache@.table, work, inner));
                        Self::go_after_rows(gone, changed, new, refetch, k, work, inner, cache)
                    } else {
                        Self::finish(gone, changed, new, refetch, k, Step::Done(Err(idle_resume())))
                    }
                },
                other => Self::finish(
                    gone,
                    changed,
                    new,
                    refetch,
                    k,
                    Step::Done(Err(failure_of(other))),
                ),
            },
            PushStage::Rows(work) => {
                if k < refetch.len() {
                    let (next, inner) = work.resume(cache, reply);
                    assert(work.resumes(old(cache)@, reply, next, inner, cache@));
                    Self::go_after_rows(gone, changed, new, refetch, k, next, inner, cache)
                } else {
                    Self::finish(gone, changed, new, refetch, k, Step::Done(Err(idle_resume())))
                }
            },
            PushStage::State => match reply {
                Reply::Done => Self::finish(gone, changed, new, refetch, k, Step::Done(Ok(()))),
                other => Self::finish(
                    gone,
                    changed,
                    new,
                    refetch,
                    k,
                    Step::Done(Err(failure_of(other))),
                ),
            },
            PushStage::Finished => Self::finish(
                gone,
                changed,
                new,
                refetch,
                k,
                Step::Done(Err(idle_resume())),
            ),
        }
    }
}

/// A Maildir that agrees with the cache asks for nothing: where the listing
/// shows each cached message once and as the cache knows it, and no other
/// file, the next thing after the listing is the storing of the state
/// record, and the table stays as it is.
pub proof fn lemma_push_at_rest(
    lists: Lists,
    entries: Seq<MailEntry>,
    before: CacheView,
    job: Push,
    step: Step,
    after: CacheView,
)
    requires
        Push::after_list(lists, entries, before, job, step, after),
        distinct_ids(entries),
        forall|ids: Map<Seq<char>, MessageMeta>| #[trigger]
            is_index(ids, before.table) ==> all_cached(entries, ids),
        forall|u: u32|
            before.table.dom().contains(u) ==> exists|i: int|
                0 <= i < entries.len() && (#[trigger] entries[i]).id@ == before.table[u].id,
    ensures
        job.stage is State,
        step == Step::Ask(Request::SaveState(after.state)),
        after.table == before.table,
{
    let ids = choose|ids: Map<Seq<char>, MessageMeta>|
        {
            &&& #[trigger] is_index(ids, before.table)
            &&& if scan(entries, ids).failed {
                &&& after == before
                &&& job.lists() == lists
                &&& job.stage is Finished
                &&& step matches Step::Done(Err(e))
                &&& e is Maildir
            } else {
                &&& job.lists().new == scan(entries, ids).new
                &&& job.lists().changed == scan(entries, ids).changed
                &&& job.lists().refetch == Seq::<u32>::empty()
                &&& ascending(job.gone@)
                &&& forall|u: u32|
                    #![trigger job.gone@.contains(u)]
                    #![trigger before.table.dom().contains(u)]
                    job.gone@.contains(u) <==> before.table.dom().contains(u) && is_listed_in(
                        before.table[u],
                        scan(entries, ids).left,
                    )
                &&& Push::goes_on(job.lists(), Phase::Gone, 0, before, job, step, after)
            }
        };
    lemma_scan_agreeing(entries, ids);
    if job.gone@.len() > 0 {
        let u = job.gone@[0];
        assert(job.gone@.contains(u));
        let i = choose|i: int|
            0 <= i < entries.len() && (#[trigger] entries[i]).id@ == before.table[u].id;
        assert(!scan(entries, ids).left.contains_key(before.table[u].id));
    }
}

/// The first failure ends the work: while no row is being fetched again, a
/// request that failed is answered with the end of the work and with that
/// failure. Nothing is sent or deleted after it; in particular a file whose
/// upload failed stays where it is, and so does the message on the server
/// that it was to replace.
pub proof fn lemma_push_stops_at_failure(
    pre: Push,
    before: CacheView,
    failure: SyncError,
    post: Push,
    step: Step,
    after: CacheView,
)
    requires
        pre.resumes(before, Reply::Failed(failure), post, step, after),
        !(pre.stage is Rows),
    ensures
        post.stage is Finished,
        step matches Step::Done(Err(_)),
        after == before,
{
}

} // verus!
