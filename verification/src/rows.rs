//! Bringing the cache and the Maildir up to the rows of a FETCH response.

use crate::cache::{meta_of_row, Cache, CacheView};
use crate::error::SyncError;
use crate::flags::{flags_of_imap, letters_of_flags, maildir_flags_from_imap, SyncFlags};
use crate::local::DeleteLocal;
use crate::meta::{Fetch, FetchResult, MessageMeta, MetaView, UidResult};
use crate::request::{
    apply_op, asks_no_new_row, failure_of, idle_resume, is_failure_of, is_idle_resume,
    row_follows_file, step_op, Reply, Request, Step, TableOp,
};
use crate::statefile::StateFileFields;
use vstd::prelude::*;

verus! {

/// What a FETCH row asks of the synchroniser.
#[derive(Clone, Copy, Debug, PartialEq, Eq, Structural)]
pub enum RowPlan {
    /// The row lacks UID, size or date: it is passed over.
    Skip,
    /// The message is cached as the row describes it: nothing to do.
    Keep,
    /// Size or date moved: the local copy goes and the message is
    /// downloaded again.
    Refetch,
    /// Only the flags differ: the cache row and the file's flags follow.
    /// `seen` says that the row newly reports the message as seen, so that a
    /// file in `new/` has to move to `cur/`.
    Flags { seen: bool },
    /// The message is not cached: it is downloaded.
    Download,
}

/// What a FETCH row asks for, given the table.
pub open spec fn spec_plan(table: Map<u32, MetaView>, fetch: Fetch) -> RowPlan {
    if !FetchResult::is_uid_row(&fetch) {
        RowPlan::Skip
    } else if !table.dom().contains(fetch.row_view().uid) {
        RowPlan::Download
    } else {
        let meta = table[fetch.row_view().uid];
        if meta.is_equal(fetch.row_view()) {
            RowPlan::Keep
        } else if meta.needs_refetch(fetch.row_view()) {
            RowPlan::Refetch
        } else {
            RowPlan::Flags { seen: meta.needs_move_from_new_to_cur(fetch.row_view()) }
        }
    }
}

/// Decides what a FETCH row asks for.
pub fn plan_row(cache: &Cache, fetch: &Fetch) -> (r: RowPlan)
    ensures
        r == spec_plan(cache@.table, *fetch),
{
    match FetchResult::from(fetch) {
        FetchResult::Other(_) => RowPlan::Skip,
        FetchResult::Uid(uidres) => match cache.get_uid(uidres.uid) {
            Err(_) => RowPlan::Download,
            Ok(meta) => {
                if meta.is_equal(&uidres) {
                    RowPlan::Keep
                } else if meta.needs_refetch(&uidres) {
                    RowPlan::Refetch
                } else {
                    RowPlan::Flags { seen: meta.needs_move_from_new_to_cur(&uidres) }
                }
            },
        },
    }
}

/// The work of downloading one message: fetch it with its body, store the
/// body in the Maildir, and only then enter it in the table and raise the
/// high-water mark of UIDs.
#[derive(Debug)]
pub enum Download {
    /// The server was asked for the message.
    Fetch { uid: u32 },
    /// The Maildir was asked to store the body of `row`.
    Save { rest: Vec<Fetch>, row: Fetch },
    /// The stored table was asked to insert the row for `row`, which lies in
    /// the Maildir under `id`.
    Insert { rest: Vec<Fetch>, row: Fetch, id: String },
    /// The state record was handed over to be stored.
    State { rest: Vec<Fetch> },
    /// Nothing is pending.
    Finished,
}

impl Download {
    /// What the stored table was asked for last, given the cached table.
    pub open spec fn pending(self, table: Map<u32, MetaView>) -> TableOp {
        match self {
            Download::Insert { rest, row, id } => {
                if FetchResult::is_uid_row(&row) && !table.dom().contains(row.row_view().uid) {
                    TableOp::Insert(meta_of_row(id@, row.row_view()))
                } else {
                    TableOp::Nothing
                }
            },
            _ => TableOp::Nothing,
        }
    }

    /// How the work goes on with the rows that are left: the first one's
    /// body goes to the Maildir; a row without a body ends the work badly.
    pub open spec fn nexts(rest: Seq<Fetch>, job: Download, step: Step) -> bool {
        if rest.len() == 0 {
            &&& job is Finished
            &&& step == Step::Done(Ok(()))
        } else if rest[0].body is None {
            &&& job is Finished
            &&& step matches Step::Done(Err(e))
            &&& e is Protocol
        } else {
            &&& job matches Download::Save { rest: left, row }
            &&& left@ == rest.drop_first()
            &&& row.uid == rest[0].uid
            &&& row.size == rest[0].size
            &&& row.internal_date_millis == rest[0].internal_date_millis
            &&& row.flags@ == rest[0].flags@
            &&& step matches Step::Ask(Request::SaveMessage { body, letters })
            &&& body@ == rest[0].body->0@
            &&& letters@ == letters_of_flags(flags_of_imap(rest[0].flags@))
        }
    }

    /// How the work goes on after a reply.
    pub open spec fn resumes(
        self,
        before: CacheView,
        reply: Reply,
        job: Download,
        step: Step,
        after: CacheView,
    ) -> bool {
        match self {
            Download::Fetch { uid } => {
                &&& after == before
                &&& match reply {
                    Reply::Fetched(rows) => Self::nexts(rows@, job, step),
                    _ => Self::fails(reply, job, step),
                }
            },
            Download::Save { rest, row } => {
                &&& after == before
                &&& match reply {
                    Reply::Stored(id) => {
                        if !FetchResult::is_uid_row(&row) {
                            &&& job is Finished
                            &&& step matches Step::Done(Err(e))
                            &&& e is Protocol
                        } else if before.table.dom().contains(row.row_view().uid) {
                            &&& job is Finished
                            &&& step matches Step::Done(Err(e))
                            &&& e is Db
                        } else {
                            &&& job == (Download::Insert { rest, row, id })
                            &&& step matches Step::Ask(Request::DbInsert(meta))
                            &&& meta@ == meta_of_row(id@, row.row_view())
                        }
                    },
                    _ => Self::fails(reply, job, step),
                }
            },
            Download::Insert { rest, row, id } => match reply {
                Reply::Done => {
                    if !FetchResult::is_uid_row(&row) {
                        &&& after == before
                        &&& job is Finished
                        &&& step matches Step::Done(Err(e))
                        &&& e is Protocol
                    } else if before.table.dom().contains(row.row_view().uid) {
                        &&& after == before
                        &&& job is Finished
                        &&& step matches Step::Done(Err(e))
                        &&& e is Db
                    } else {
                        let uid = row.row_view().uid;
                        &&& after.table == before.table.insert(
                            uid,
                            meta_of_row(id@, row.row_view()),
                        )
                        &&& if uid > before.state.last_seen_uid {
                            &&& after.state == (StateFileFields {
                                last_seen_uid: uid,
                                ..before.state
                            })
                            &&& job == (Download::State { rest })
                            &&& step == Step::Ask(Request::SaveState(after.state))
                        } else {
                            &&& after.state == before.state
                            &&& Self::nexts(rest@, job, step)
                        }
                    }
                },
                _ => after == before && Self::fails(reply, job, step),
            },
            Download::State { rest } => {
                &&& after == before
                &&& match reply {
                    Reply::Done => Self::nexts(rest@, job, step),
                    _ => Self::fails(reply, job, step),
                }
            },
            Download::Finished => {
                &&& after == before
                &&& job is Finished
                &&& step matches Step::Done(Err(e))
                &&& is_idle_resume(e)
            },
        }
    }

    /// The work ends with the failure that the reply stands for.
    pub open spec fn fails(reply: Reply, job: Download, step: Step) -> bool {
        &&& job is Finished
        &&& step matches Step::Done(Err(e))
        &&& is_failure_of(reply, e)
    }

    /// Starts downloading the message with this UID.
    pub fn begin(uid: u32) -> (r: (Download, Step))
        ensures
            r.0 == (Download::Fetch { uid }),
            r.1 == Step::Ask(Request::FetchUid(uid)),
    {
        (Download::Fetch { uid }, Step::Ask(Request::FetchUid(uid)))
    }

    fn next(rest: Vec<Fetch>) -> (r: (Download, Step))
        ensures
            Self::nexts(rest@, r.0, r.1),
    {
        let mut rest = rest;
        if rest.len() == 0 {
            return (Download::Finished, Step::Done(Ok(())));
        }
        let ghost all = rest@;
        let Fetch { uid, size, internal_date_millis, flags, body } = rest.remove(0);
        match body {
            None => (Download::Finished, Step::Done(Err(SyncError::Protocol))),
            Some(body) => {
                let letters = maildir_flags_from_imap(flags.as_slice());
                assert(rest@ =~= all.drop_first());
                (
                    Download::Save {
                        rest,
                        row: Fetch { uid, size, internal_date_millis, flags, body: None },
                    },
                    Step::Ask(Request::SaveMessage { body, letters }),
                )
            },
        }
    }

    /// Takes the reply to the last request and says what comes next.
    pub fn resume(self, cache: &mut Cache, reply: Reply) -> (r: (Download, Step))
        ensures
            self.resumes(old(cache)@, reply, r.0, r.1, final(cache)@),
    {
        match self {
            Download::Fetch { uid } => match reply {
                Reply::Fetched(rows) => Self::next(rows),
                other => (Download::Finished, Step::Done(Err(failure_of(other)))),
            },
            Download::Save { rest, row } => match reply {
                Reply::Stored(id) => {
                    let meta = match FetchResult::from(&row) {
                        FetchResult::Other(_) => None,
                        FetchResult::Uid(uidres) => {
                            if cache.get_uid(uidres.uid).is_ok() {
                                Some(None)
                            } else {
                                Some(
                                    Some(
                                        MessageMeta::new(
                                            id.as_str(),
                                            uidres.size,
                                            SyncFlags::from_imap(uidres.flags),
                                            uidres.uid,
                                            uidres.internal_date_millis,
                                        ),
                                    ),
                                )
                            }
                        },
                    };
                    match meta {
                        None => (Download::Finished, Step::Done(Err(SyncError::Protocol))),
                        Some(None) => (Download::Finished, Step::Done(Err(SyncError::Db))),
                        Some(Some(meta)) => (
                            Download::Insert { rest, row, id },
                            Step::Ask(Request::DbInsert(meta)),
                        ),
                    }
                },
                other => (Download::Finished, Step::Done(Err(failure_of(other)))),
            },
            Download::Insert { rest, row, id } => match reply {
                Reply::Done => {
                    let before = cache.get_last_seen_uid();
                    let added = match FetchResult::from(&row) {
                        FetchResult::Other(_) => None,
                        FetchResult::Uid(uidres) => match cache.add(id.as_str(), &uidres) {
                            Ok(_) => Some(Some(uidres.uid)),
                            Err(_) => Some(None),
                        },
                    };
                    match added {
                        None => (Download::Finished, Step::Done(Err(SyncError::Protocol))),
                        Some(None) => (Download::Finished, Step::Done(Err(SyncError::Db))),
                        Some(Some(uid)) => {
                            if uid > before {
                                (
                                    Download::State { rest },
                                    Step::Ask(Request::SaveState(cache.state())),
                                )
                            } else {
                                Self::next(rest)
                            }
                        },
                    }
                },
                other => (Download::Finished, Step::Done(Err(failure_of(other)))),
            },
            Download::State { rest } => match reply {
                Reply::Done => Self::next(rest),
                other => (Download::Finished, Step::Done(Err(failure_of(other)))),
            },
            Download::Finished => (Download::Finished, Step::Done(Err(idle_resume()))),
        }
    }
}

/// The work that one FETCH row asks for.
#[derive(Debug)]
pub enum RowJob {
    /// The local copy of the message is being forgotten before the message
    /// is downloaded again.
    Refetch { local: DeleteLocal, uid: u32 },
    /// The stored table was asked to overwrite the row.
    Update { seen: bool },
    /// The Maildir was asked to list `new/`.
    InNew { uid: u32 },
    /// The Maildir was asked to set the file's flags, or to move the file.
    Flags,
    /// The message is being downloaded.
    Download(Download),
    /// Nothing is pending.
    Finished,
}

impl RowJob {
    /// What the stored table was asked for last, given the cached table and
    /// the row that the work started from.
    pub open spec fn pending(self, table: Map<u32, MetaView>, row: Fetch) -> TableOp {
        match self {
            RowJob::Refetch { local, uid } => local.pending(),
            RowJob::Update { seen } => {
                if FetchResult::is_uid_row(&row) && table.dom().contains(row.row_view().uid) {
                    TableOp::Update(table[row.row_view().uid].updated(row.row_view()))
                } else {
                    TableOp::Nothing
                }
            },
            RowJob::Download(d) => d.pending(table),
            _ => TableOp::Nothing,
        }
    }

    /// How the work on a row starts.
    pub open spec fn begins(table: Map<u32, MetaView>, row: Fetch, job: RowJob, step: Step) -> bool {
        let uid = row.row_view().uid;
        match spec_plan(table, row) {
            RowPlan::Skip | RowPlan::Keep => job is Finished && step == Step::Done(Ok(())),
            RowPlan::Refetch => {
                &&& job matches RowJob::Refetch { local, uid: u }
                &&& u == uid
                &&& DeleteLocal::begins(table, uid, local, step)
            },
            RowPlan::Flags { seen } => {
                &&& job == (RowJob::Update { seen })
                &&& step matches Step::Ask(Request::DbUpdate(meta))
                &&& meta@ == table[uid].updated(row.row_view())
            },
            RowPlan::Download => {
                &&& job == RowJob::Download(Download::Fetch { uid })
                &&& step == Step::Ask(Request::FetchUid(uid))
            },
        }
    }

    /// The work ends with the failure that the reply stands for.
    pub open spec fn fails(reply: Reply, job: RowJob, step: Step) -> bool {
        &&& job is Finished
        &&& step matches Step::Done(Err(e))
        &&& is_failure_of(reply, e)
    }

    /// The request that brings a file's flags up to its cached record: a
    /// move to `cur/` where the file is to move, the setting of its flags
    /// where it is not.
    pub open spec fn asks_flags(meta: MetaView, moves: bool, step: Step) -> bool {
        if moves {
            &&& step matches Step::Ask(Request::MoveToCur { id, letters })
            &&& id@ == meta.id
            &&& letters@ == letters_of_flags(meta.flags)
        } else {
            &&& step matches Step::Ask(Request::SetFlags { id, letters })
            &&& id@ == meta.id
            &&& letters@ == letters_of_flags(meta.flags)
        }
    }

    /// How the work goes on after a reply. `row` is the row that the work
    /// started from.
    pub open spec fn resumes(
        self,
        before: CacheView,
        row: Fetch,
        reply: Reply,
        job: RowJob,
        step: Step,
        after: CacheView,
    ) -> bool {
        &&& after.table == if reply is Done {
            apply_op(before.table, self.pending(before.table, row))
        } else {
            before.table
        }
        &&& job.pending(after.table, row) == step_op(step)
        &&& row_follows_file(reply, step)
        &&& {
            match self {
                RowJob::Refetch { local, uid } => exists|next: DeleteLocal, inner: Step|
                    {
                        &&& #[trigger] local.resumes(before, reply, next, inner, after)
                        &&& match inner {
                            Step::Ask(_) => job == (RowJob::Refetch { local: next, uid }) && step
                                == inner,
                            Step::Done(Ok(_)) => job == RowJob::Download(Download::Fetch { uid })
                                && step == Step::Ask(Request::FetchUid(uid)),
                            Step::Done(Err(_)) => job is Finished && step == inner,
                        }
                    },
                RowJob::Update { seen } => match reply {
                    Reply::Done => {
                        let uid = row.row_view().uid;
                        if !FetchResult::is_uid_row(&row) {
                            &&& after == before
                            &&& job is Finished
                            &&& step matches Step::Done(Err(e))
                            &&& e is Protocol
                        } else if !before.table.dom().contains(uid) {
                            &&& after == before
                            &&& job is Finished
                            &&& step matches Step::Done(Err(e))
                            &&& e is Db
                        } else {
                            let meta = before.table[uid].updated(row.row_view());
                            &&& after == (CacheView { table: before.table.insert(uid, meta), ..before })
                            &&& if seen {
                                &&& job == (RowJob::InNew { uid })
                                &&& step == Step::Ask(Request::ListNew)
                            } else {
                                &&& job is Flags
                                &&& Self::asks_flags(meta, false, step)
                            }
                        }
                    },
                    _ => after == before && Self::fails(reply, job, step),
                },
                RowJob::InNew { uid } => {
                    &&& after == before
                    &&& match reply {
                        Reply::Listed(listing) => {
                            if !before.table.dom().contains(uid) {
                                &&& job is Finished
                                &&& step matches Step::Done(Err(e))
                                &&& e is Db
                            } else {
                                &&& job is Flags
                                &&& Self::asks_flags(
                                    before.table[uid],
                                    listing.has_in_new(before.table[uid].id),
                                    step,
                                )
                            }
                        },
                        _ => Self::fails(reply, job, step),
                    }
                },
                RowJob::Flags => {
                    &&& after == before
                    &&& match reply {
                        Reply::Done => job is Finished && step == Step::Done(Ok(())),
                        _ => Self::fails(reply, job, step),
                    }
                },
                RowJob::Download(d) => exists|next: Download|
                    {
                        &&& #[trigger] d.resumes(before, reply, next, step, after)
                        &&& match step {
                            Step::Ask(_) => job == RowJob::Download(next),
                            Step::Done(_) => job is Finished,
                        }
                    },
                RowJob::Finished => {
                    &&& after == before
                    &&& job is Finished
                    &&& step matches Step::Done(Err(e))
                    &&& is_idle_resume(e)
                },
            }
        }
    }

    /// Starts the work on a row.
    pub fn begin(cache: &Cache, row: &Fetch) -> (r: (RowJob, Step))
        ensures
            Self::begins(cache@.table, *row, r.0, r.1),
    {
        match plan_row(cache, row) {
            RowPlan::Skip | RowPlan::Keep => (RowJob::Finished, Step::Done(Ok(()))),
            RowPlan::Refetch => {
                let uid = row.uid.unwrap();
                let (local, step) = DeleteLocal::begin(cache, uid);
                (RowJob::Refetch { local, uid }, step)
            },
            RowPlan::Flags { seen } => {
                let uid = row.uid.unwrap();
                let uidres = UidResult {
                    uid,
                    size: row.size.unwrap(),
                    internal_date_millis: row.internal_date_millis.unwrap(),
                    flags: row.flags.as_slice(),
                };
                let mut meta = cache.get_uid(uid).unwrap();
                meta.update(&uidres);
                (RowJob::Update { seen }, Step::Ask(Request::DbUpdate(meta)))
            },
            RowPlan::Download => {
                let uid = row.uid.unwrap();
                (RowJob::Download(Download::Fetch { uid }), Step::Ask(Request::FetchUid(uid)))
            },
        }
    }

    fn ask_flags(meta: &MessageMeta, moves: bool) -> (r: Step)
        ensures
            Self::asks_flags(meta@, moves, r),
    {
        if moves {
            Step::Ask(Request::MoveToCur { id: meta.id().to_owned(), letters: meta.flags() })
        } else {
            Step::Ask(Request::SetFlags { id: meta.id().to_owned(), letters: meta.flags() })
        }
    }

    /// Takes the reply to the last request and says what comes next.
    pub fn resume(self, cache: &mut Cache, row: &Fetch, reply: Reply) -> (r: (RowJob, Step))
        ensures
            self.resumes(old(cache)@, *row, reply, r.0, r.1, final(cache)@),
    {
        match self {
            RowJob::Refetch { local, uid } => {
                let (next, inner) = local.resume(cache, reply);
                assert(local.resumes(old(cache)@, reply, next, inner, cache@));
                match inner {
                    Step::Ask(req) => (RowJob::Refetch { local: next, uid }, Step::Ask(req)),
                    Step::Done(Ok(u)) => (
                        RowJob::Download(Download::Fetch { uid }),
                        Step::Ask(Request::FetchUid(uid)),
                    ),
                    Step::Done(Err(e)) => (RowJob::Finished, Step::Done(Err(e))),
                }
            },
            RowJob::Update { seen } => match reply {
                Reply::Done => {
                    let updated = match FetchResult::from(row) {
                        FetchResult::Other(_) => None,
                        FetchResult::Uid(uidres) => Some(cache.update(&uidres)),
                    };
                    match updated {
                        None => (RowJob::Finished, Step::Done(Err(SyncError::Protocol))),
                        Some(Err(_)) => (RowJob::Finished, Step::Done(Err(SyncError::Db))),
                        Some(Ok(meta)) => {
                            if seen {
                                (RowJob::InNew { uid: meta.uid() }, Step::Ask(Request::ListNew))
                            } else {
                                (RowJob::Flags, Self::ask_flags(&meta, false))
                            }
                        },
                    }
                },
                other => (RowJob::Finished, Step::Done(Err(failure_of(other)))),
            },
            RowJob::InNew { uid } => match reply {
                Reply::Listed(listing) => match cache.get_uid(uid) {
                    Err(_) => (RowJob::Finished, Step::Done(Err(SyncError::Db))),
                    Ok(meta) => {
                        let moves = listing.message_is_in_new(meta.id());
                        (RowJob::Flags, Self::ask_flags(&meta, moves))
                    },
                },
                other => (RowJob::Finished, Step::Done(Err(failure_of(other)))),
            },
            RowJob::Flags => match reply {
                Reply::Done => (RowJob::Finished, Step::Done(Ok(()))),
                other => (RowJob::Finished, Step::Done(Err(failure_of(other)))),
            },
            RowJob::Download(d) => {
                let (next, step) = d.resume(cache, reply);
                assert(d.resumes(old(cache)@, reply, next, step, cache@));
                match step {
                    Step::Ask(req) => (RowJob::Download(next), Step::Ask(req)),
                    Step::Done(res) => (RowJob::Finished, Step::Done(res)),
                }
            },
            RowJob::Finished => (RowJob::Finished, Step::Done(Err(idle_resume()))),
        }
    }
}

/// Whether a row asks for outside work.
pub open spec fn is_active(table: Map<u32, MetaView>, row: Fetch) -> bool {
    !(spec_plan(table, row) is Skip) && !(spec_plan(table, row) is Keep)
}

/// The position of the first row from `from` on that asks for outside work;
/// the list's length if there is none.
pub open spec fn first_active(rows: Seq<Fetch>, from: int, table: Map<u32, MetaView>) -> int
    decreases rows.len() - from,
{
    if from < 0 || from >= rows.len() {
        rows.len() as int
    } else if is_active(table, rows[from]) {
        from
    } else {
        first_active(rows, from + 1, table)
    }
}

/// The work that the rows of a FETCH response ask for, row after row. A row
/// that fails is noted and the work goes on with the next; in the end one
/// failure tells of them all.
#[derive(Debug)]
pub struct RowsJob {
    /// The rows of the response.
    pub fetches: Vec<Fetch>,
    /// How many of them have been taken up.
    pub next: usize,
    /// Whether the work on one of them failed.
    pub err: bool,
    /// The work on the row taken up last.
    pub row: RowJob,
}

impl RowsJob {
    /// What the stored table was asked for last, given the cached table.
    pub open spec fn pending(self, table: Map<u32, MetaView>) -> TableOp {
        if 0 < self.next <= self.fetches@.len() {
            self.row.pending(table, self.fetches@[self.next - 1])
        } else {
            TableOp::Nothing
        }
    }

    /// How the rows' work ends: well if no row failed, and with the words
    /// `Cache failed` if one did.
    pub open spec fn ends(err: bool, step: Step) -> bool {
        if err {
            step matches Step::Done(Err(e)) && e.is_other("Cache failed"@)
        } else {
            step == Step::Done(Ok(()))
        }
    }

    /// How the work goes on once no row is being worked on: with the next
    /// row that asks for outside work, or at its end.
    pub open spec fn advances(
        rows: Seq<Fetch>,
        from: int,
        err: bool,
        table: Map<u32, MetaView>,
        job: RowsJob,
        step: Step,
    ) -> bool {
        let k = first_active(rows, from, table);
        &&& job.fetches@ == rows
        &&& job.err == err
        &&& job.pending(table) == step_op(step)
        &&& asks_no_new_row(step)
        &&& if k < rows.len() {
            &&& job.next == k + 1
            &&& RowJob::begins(table, rows[k], job.row, step)
        } else {
            &&& job.next == rows.len()
            &&& job.row is Finished
            &&& Self::ends(err, step)
        }
    }

    /// How the work goes on after a reply.
    pub open spec fn resumes(
        self,
        before: CacheView,
        reply: Reply,
        job: RowsJob,
        step: Step,
        after: CacheView,
    ) -> bool {
        &&& after.table == if reply is Done {
            apply_op(before.table, self.pending(before.table))
        } else {
            before.table
        }
        &&& job.pending(after.table) == step_op(step)
        &&& row_follows_file(reply, step)
        &&& {
            if self.next == 0 || self.next > self.fetches@.len() || self.row is Finished {
                &&& after == before
                &&& job.fetches@ == self.fetches@
                &&& job.next == self.fetches@.len()
                &&& job.err == self.err
                &&& job.row is Finished
                &&& step matches Step::Done(Err(e))
                &&& is_idle_resume(e)
            } else {
                exists|row: RowJob, inner: Step|
                    {
                        &&& #[trigger] self.row.resumes(
                            before,
                            self.fetches@[self.next - 1],
                            reply,
                            row,
                            inner,
                            after,
                        )
                        &&& match inner {
                            Step::Ask(_) => {
                                &&& step == inner
                                &&& job.fetches@ == self.fetches@
                                &&& job.next == self.next
                                &&& job.err == self.err
                                &&& job.row == row
                            },
                            Step::Done(res) => Self::advances(
                                self.fetches@,
                                self.next as int,
                                self.err || res is Err,
                                after.table,
                                job,
                                step,
                            ),
                        }
                    }
            }
        }
    }

    fn advance(fetches: Vec<Fetch>, from: usize, err: bool, cache: &Cache) -> (r: (RowsJob, Step))
        ensures
            Self::advances(fetches@, from as int, err, cache@.table, r.0, r.1),
    {
        let mut k: usize = from;
        while k < fetches.len()
            invariant
                first_active(fetches@, k as int, cache@.table) == first_active(
                    fetches@,
                    from as int,
                    cache@.table,
                ),
            decreases fetches.len() - k,
        {
            let (row, step) = RowJob::begin(cache, &fetches[k]);
            match step {
                Step::Ask(req) => {
                    return (RowsJob { fetches, next: k + 1, err, row }, Step::Ask(req));
                },
                Step::Done(_) => {},
            }
            k = k + 1;
        }
        let n = fetches.len();
        let step = if err {
            Step::Done(Err(SyncError::other("Cache failed")))
        } else {
            Step::Done(Ok(()))
        };
        (RowsJob { fetches, next: n, err, row: RowJob::Finished }, step)
    }

    /// Starts the work on the rows of a FETCH response, in their order.
    pub fn begin(cache: &Cache, fetches: Vec<Fetch>) -> (r: (RowsJob, Step))
        ensures
            Self::advances(fetches@, 0, false, cache@.table, r.0, r.1),
    {
        Self::advance(fetches, 0, false, cache)
    }

    /// Takes the reply to the last request and says what comes next.
    pub fn resume(self, cache: &mut Cache, reply: Reply) -> (r: (RowsJob, Step))
        ensures
            self.resumes(old(cache)@, reply, r.0, r.1, final(cache)@),
    {
        let RowsJob { fetches, next, err, row } = self;
        let pending = match &row {
            RowJob::Finished => false,
            _ => true,
        };
        if next == 0 || next > fetches.len() || !pending {
            let n = fetches.len();
            return (
                RowsJob { fetches, next: n, err, row: RowJob::Finished },
                Step::Done(Err(idle_resume())),
            );
        }
        let (row2, inner) = row.resume(cache, &fetches[next - 1], reply);
        assert(self.row.resumes(
            old(cache)@,
            self.fetches@[self.next - 1],
            reply,
            row2,
            inner,
            cache@,
        ));
        match inner {
            Step::Ask(req) => (RowsJob { fetches, next, err, row: row2 }, Step::Ask(req)),
            Step::Done(res) => Self::advance(fetches, next, err || res.is_err(), cache),
        }
    }
}

/// Where no row from `from` on asks for outside work, there is no first
/// such row.
pub proof fn lemma_none_active(rows: Seq<Fetch>, from: int, table: Map<u32, MetaView>)
    requires
        0 <= from <= rows.len(),
        forall|i: int| from <= i < rows.len() ==> !is_active(table, #[trigger] rows[i]),
    ensures
        first_active(rows, from, table) == rows.len(),
    decreases rows.len() - from,
{
    if from < rows.len() {
        lemma_none_active(rows, from + 1, table);
    }
}

/// Rows that all agree with the cache ask for nothing: the work on them is
/// over at once, and it went well.
pub proof fn lemma_rows_at_rest(
    rows: Seq<Fetch>,
    table: Map<u32, MetaView>,
    job: RowsJob,
    step: Step,
)
    requires
        RowsJob::advances(rows, 0, false, table, job, step),
        forall|i: int| 0 <= i < rows.len() ==> !is_active(table, #[trigger] rows[i]),
    ensures
        step == Step::Done(Ok(())),
        job.row is Finished,
{
    lemma_none_active(rows, 0, table);
}

/// A message whose body could not be stored in the Maildir gets no row:
/// the work on it ends with the failure, and the cache stays as it was.
pub proof fn lemma_failed_store_adds_no_row(
    pre: Download,
    before: CacheView,
    reply: Reply,
    post: Download,
    step: Step,
    after: CacheView,
)
    requires
        pre.resumes(before, reply, post, step, after),
        pre is Save,
        !(reply is Stored),
    ensures
        after == before,
        post is Finished,
        step matches Step::Done(Err(_)),
        !(step matches Step::Ask(Request::DbInsert(_))),
{
}

/// The file comes first, the row after it: while a message is downloaded,
/// the stored table is asked for a new row only in answer to the Maildir's
/// word that the body was stored, and the row names the ID that the Maildir
/// gave.
pub proof fn lemma_row_follows_file(
    pre: Download,
    before: CacheView,
    reply: Reply,
    post: Download,
    step: Step,
    after: CacheView,
)
    requires
        pre.resumes(before, reply, post, step, after),
        step matches Step::Ask(Request::DbInsert(_)),
    ensures
        pre is Save,
        reply matches Reply::Stored(id) && step matches Step::Ask(Request::DbInsert(meta))
            && meta@.id == id@,
        after == before,
{
    match pre {
        Download::Fetch { uid } => {
            if reply is Fetched {
                assert(!(step matches Step::Ask(Request::DbInsert(_))));
            }
        },
        Download::Insert { rest, row, id } => {
            assert(!(step matches Step::Ask(Request::DbInsert(_))));
        },
        Download::State { rest } => {
            assert(!(step matches Step::Ask(Request::DbInsert(_))));
        },
        _ => {},
    }
}

/// A download that meets no failure caches the message as the server
/// described it: when the server answers with one complete row and its body,
/// the Maildir stores the body, and the stored table takes the row, the
/// cache holds a record of the message that agrees with the row and lies
/// under the ID that the Maildir gave; and the high-water mark of UIDs is
/// not below the message's UID.
pub proof fn lemma_download_caches_row(
    uid: u32,
    rows: Vec<Fetch>,
    row: Fetch,
    id: String,
    c0: CacheView,
    d1: Download,
    s1: Step,
    c1: CacheView,
    d2: Download,
    s2: Step,
    c2: CacheView,
    d3: Download,
    s3: Step,
    c3: CacheView,
)
    requires
        FetchResult::is_uid_row(&row),
        row.uid == Some(uid),
        row.body is Some,
        !c0.table.dom().contains(uid),
        rows@ == seq![row],
        (Download::Fetch { uid }).resumes(c0, Reply::Fetched(rows), d1, s1, c1),
        d1.resumes(c1, Reply::Stored(id), d2, s2, c2),
        d2.resumes(c2, Reply::Done, d3, s3, c3),
    ensures
        s1 is Ask,
        s2 matches Step::Ask(Request::DbInsert(m)) && m@ == meta_of_row(id@, row.row_view()),
        c3.table == c0.table.insert(uid, meta_of_row(id@, row.row_view())),
        c3.table[uid].is_equal(row.row_view()),
        c3.table[uid].id == id@,
        c3.state.last_seen_uid >= uid,
        c3.state.last_seen_uid >= c0.state.last_seen_uid,
{
    assert(rows@.len() == 1 && rows@[0] == row);
    assert(Download::nexts(rows@, d1, s1));
    match d1 {
        Download::Save { rest, row: kept } => {
            assert(kept.row_view() == row.row_view());
            assert(FetchResult::is_uid_row(&kept));
        },
        _ => {},
    }
}

/// An update of the flags brings the cached record up to the row: once the
/// stored table has taken the new record, the cache agrees with the row, and
/// the record has kept its Maildir ID.
pub proof fn lemma_update_caches_row(
    seen: bool,
    row: Fetch,
    before: CacheView,
    job: RowJob,
    step: Step,
    after: CacheView,
)
    requires
        FetchResult::is_uid_row(&row),
        before.table.dom().contains(row.row_view().uid),
        (RowJob::Update { seen }).resumes(before, row, Reply::Done, job, step, after),
    ensures
        after.table.dom() == before.table.dom(),
        after.table[row.row_view().uid].is_equal(row.row_view()),
        after.table[row.row_view().uid].id == before.table[row.row_view().uid].id,
        step is Ask,
{
    assert(after.table.dom() =~= before.table.dom());
}

} // verus!
