//! Forgetting messages locally: the file goes first, the cache row after it.

use crate::cache::{Cache, CacheView};
use crate::meta::MetaView;
use crate::request::{
    apply_op, failure_of, idle_resume, is_failure_of, is_idle_resume, step_op, Reply, Request, Step,
    TableOp,
};
use vstd::prelude::*;

verus! {

/// The work of forgetting one message: delete its file from the Maildir,
/// then its row from the table. A file that cannot be deleted does not stop
/// the row from going; most often the file is gone already.
#[derive(Clone, Copy, Debug, PartialEq, Eq, Structural)]
pub enum DeleteLocal {
    /// The Maildir was asked to delete the file.
    File { uid: u32 },
    /// The stored table was asked to delete the row.
    Row { uid: u32 },
    /// Nothing is pending.
    Finished,
}

impl DeleteLocal {
    /// What the stored table was asked for last.
    pub open spec fn pending(self) -> TableOp {
        match self {
            DeleteLocal::Row { uid } => TableOp::Delete(uid),
            _ => TableOp::Nothing,
        }
    }

    /// How the work starts on a cache with the given table: with the request
    /// to delete the file if the UID is cached, and at its end if not.
    pub open spec fn begins(table: Map<u32, MetaView>, uid: u32, job: DeleteLocal, step: Step) -> bool {
        if table.dom().contains(uid) {
            &&& job == DeleteLocal::File { uid }
            &&& step matches Step::Ask(Request::DeleteMessage(id))
            &&& id@ == table[uid].id
        } else {
            &&& job == DeleteLocal::Finished
            &&& step == Step::Done(Ok(()))
        }
    }

    /// How the work goes on after a reply.
    pub open spec fn resumes(
        self,
        before: CacheView,
        reply: Reply,
        job: DeleteLocal,
        step: Step,
        after: CacheView,
    ) -> bool {
        match self {
            DeleteLocal::File { uid } => {
                &&& job == DeleteLocal::Row { uid }
                &&& step == Step::Ask(Request::DbDelete(uid))
                &&& after == before
            },
            DeleteLocal::Row { uid } => {
                &&& job == DeleteLocal::Finished
                &&& match reply {
                    Reply::Done => {
                        &&& step == Step::Done(Ok(()))
                        &&& after == (CacheView { table: before.table.remove(uid), ..before })
                    },
                    _ => {
                        &&& step matches Step::Done(Err(e))
                        &&& is_failure_of(reply, e)
                        &&& after == before
                    },
                }
            },
            DeleteLocal::Finished => {
                &&& job == DeleteLocal::Finished
                &&& step matches Step::Done(Err(e))
                &&& is_idle_resume(e)
                &&& after == before
            },
        }
    }

    /// Starts forgetting the message with this UID.
    pub fn begin(cache: &Cache, uid: u32) -> (r: (DeleteLocal, Step))
        ensures
            Self::begins(cache@.table, uid, r.0, r.1),
    {
        match cache.get_uid(uid) {
            Ok(meta) => (
                DeleteLocal::File { uid },
                Step::Ask(Request::DeleteMessage(meta.id().to_owned())),
            ),
            Err(_) => (DeleteLocal::Finished, Step::Done(Ok(()))),
        }
    }

    /// Takes the reply to the last request and says what comes next.
    pub fn resume(self, cache: &mut Cache, reply: Reply) -> (r: (DeleteLocal, Step))
        ensures
            self.resumes(old(cache)@, reply, r.0, r.1, final(cache)@),
    {
        match self {
            DeleteLocal::File { uid } => (DeleteLocal::Row { uid }, Step::Ask(Request::DbDelete(uid))),
            DeleteLocal::Row { uid } => match reply {
                Reply::Done => {
                    let _ = cache.delete_uid(uid);
                    (DeleteLocal::Finished, Step::Done(Ok(())))
                },
                other => (DeleteLocal::Finished, Step::Done(Err(failure_of(other)))),
            },
            DeleteLocal::Finished => (DeleteLocal::Finished, Step::Done(Err(idle_resume()))),
        }
    }
}

/// The file goes first, the row after it: the stored table is asked to
/// delete a row only in answer to the Maildir's reply about the file, and the
/// row leaves the cache only when the stored table has let it go.
pub proof fn lemma_file_goes_before_row(
    pre: DeleteLocal,
    before: CacheView,
    reply: Reply,
    post: DeleteLocal,
    step: Step,
    after: CacheView,
)
    requires
        pre.resumes(before, reply, post, step, after),
    ensures
        step matches Step::Ask(Request::DbDelete(_)) ==> pre is File,
        after != before ==> pre is Row && reply is Done,
{
}

/// The position of the first UID from `from` on that the table holds; the
/// list's length if there is none.
pub open spec fn first_cached(uids: Seq<u32>, from: int, table: Map<u32, MetaView>) -> int
    decreases uids.len() - from,
{
    if from < 0 || from >= uids.len() {
        uids.len() as int
    } else if table.dom().contains(uids[from]) {
        from
    } else {
        first_cached(uids, from + 1, table)
    }
}

/// The work of forgetting a list of messages, one after the other. A
/// message that fails is noted and the work goes on with the next.
#[derive(Debug)]
pub struct DeleteMany {
    /// The UIDs to forget.
    pub uids: Vec<u32>,
    /// How many of them have been taken up.
    pub next: usize,
    /// Whether one of them could not be forgotten.
    pub failed: bool,
    /// The message being forgotten.
    pub current: DeleteLocal,
}

impl DeleteMany {
    /// What the stored table was asked for last.
    pub open spec fn pending(self) -> TableOp {
        self.current.pending()
    }

    /// How the work goes on once no message is being forgotten: with the
    /// next UID that is cached, or at its end.
    pub open spec fn advances(
        uids: Seq<u32>,
        from: int,
        failed: bool,
        table: Map<u32, MetaView>,
        job: DeleteMany,
        step: Step,
    ) -> bool {
        let k = first_cached(uids, from, table);
        &&& job.uids@ == uids
        &&& job.failed == failed
        &&& job.pending() == step_op(step)
        &&& if k < uids.len() {
            &&& job.next == k + 1
            &&& DeleteLocal::begins(table, uids[k], job.current, step)
        } else {
            &&& job.next == uids.len()
            &&& job.current == DeleteLocal::Finished
            &&& step == Step::Done(Ok(()))
        }
    }

    /// How the work goes on after a reply.
    pub open spec fn resumes(
        self,
        before: CacheView,
        reply: Reply,
        job: DeleteMany,
        step: Step,
        after: CacheView,
    ) -> bool {
        &&& after.table == if reply is Done {
            apply_op(before.table, self.pending())
        } else {
            before.table
        }
        &&& job.pending() == step_op(step)
        &&& {
            if self.current == DeleteLocal::Finished {
                &&& after == before
                &&& job.uids@ == self.uids@
                &&& job.next == self.next
                &&& job.failed == self.failed
                &&& job.current == DeleteLocal::Finished
                &&& step matches Step::Done(Err(e))
                &&& is_idle_resume(e)
            } else {
                exists|current: DeleteLocal, inner: Step|
                    {
                        &&& #[trigger] self.current.resumes(before, reply, current, inner, after)
                        &&& match inner {
                            Step::Ask(_) => {
                                &&& step == inner
                                &&& job.uids@ == self.uids@
                                &&& job.next == self.next
                                &&& job.failed == self.failed
                                &&& job.current == current
                            },
                            Step::Done(res) => Self::advances(
                                self.uids@,
                                self.next as int,
                                self.failed || res is Err,
                                after.table,
                                job,
                                step,
                            ),
                        }
                    }
            }
        }
    }

    /// The state is in good order: the message being forgotten is the one
    /// taken up last.
    pub open spec fn wf(self) -> bool {
        &&& self.next <= self.uids@.len()
        &&& self.current == DeleteLocal::Finished ==> self.next == self.uids@.len()
        &&& self.current != DeleteLocal::Finished ==> {
            &&& self.next >= 1
            &&& self.current == (DeleteLocal::File { uid: self.uids@[self.next - 1] })
                || self.current == (DeleteLocal::Row { uid: self.uids@[self.next - 1] })
        }
    }

    /// The messages taken up so far are gone from the table, unless one of
    /// them failed. The one being forgotten does not count yet.
    pub open spec fn cleared(self, table: Map<u32, MetaView>) -> bool {
        self.failed || forall|j: int|
            0 <= j < self.next - (if self.current == DeleteLocal::Finished {
                0int
            } else {
                1int
            }) && j < self.uids@.len() ==> !table.dom().contains(#[trigger] self.uids@[j])
    }

    fn advance(uids: Vec<u32>, from: usize, failed: bool, cache: &Cache) -> (r: (DeleteMany, Step))
        ensures
            Self::advances(uids@, from as int, failed, cache@.table, r.0, r.1),
    {
        let mut k: usize = from;
        while k < uids.len()
            invariant
                first_cached(uids@, k as int, cache@.table) == first_cached(
                    uids@,
                    from as int,
                    cache@.table,
                ),
            decreases uids.len() - k,
        {
            let (current, step) = DeleteLocal::begin(cache, uids[k]);
            match step {
                Step::Ask(req) => {
                    return (
                        DeleteMany { uids, next: k + 1, failed, current },
                        Step::Ask(req),
                    );
                },
                Step::Done(_) => {},
            }
            k = k + 1;
        }
        let n = uids.len();
        (DeleteMany { uids, next: n, failed, current: DeleteLocal::Finished }, Step::Done(Ok(())))
    }

    /// Starts forgetting the messages with these UIDs, in the list's order.
    pub fn begin(cache: &Cache, uids: Vec<u32>) -> (r: (DeleteMany, Step))
        ensures
            Self::advances(uids@, 0, false, cache@.table, r.0, r.1),
    {
        Self::advance(uids, 0, false, cache)
    }

    /// Takes the reply to the last request and says what comes next.
    pub fn resume(self, cache: &mut Cache, reply: Reply) -> (r: (DeleteMany, Step))
        ensures
            self.resumes(old(cache)@, reply, r.0, r.1, final(cache)@),
    {
        let DeleteMany { uids, next, failed, current } = self;
        match current {
            DeleteLocal::Finished => {
                return (DeleteMany { uids, next, failed, current }, Step::Done(Err(idle_resume())));
            },
            _ => {},
        }
        let (current2, inner) = current.resume(cache, reply);
        match inner {
            Step::Ask(req) => {
                let r = (DeleteMany { uids, next, failed, current: current2 }, Step::Ask(req));
                assert(self.current.resumes(old(cache)@, reply, current2, inner, cache@));
                r
            },
            Step::Done(res) => {
                let r = Self::advance(uids, next, failed || res.is_err(), cache);
                assert(self.current.resumes(old(cache)@, reply, current2, inner, cache@));
                r
            },
        }
    }
}

/// A step of forgetting a list of messages keeps what was reached: the
/// messages taken up before are still gone afterwards, and a message that
/// was forgotten with success is gone too.
pub proof fn lemma_delete_many_keeps_cleared(
    pre: DeleteMany,
    before: CacheView,
    reply: Reply,
    post: DeleteMany,
    step: Step,
    after: CacheView,
)
    requires
        pre.resumes(before, reply, post, step, after),
        pre.wf(),
        pre.cleared(before.table),
    ensures
        post.wf(),
        post.cleared(after.table),
        step is Done && !post.failed ==> forall|j: int|
            0 <= j < post.uids@.len() ==> !after.table.dom().contains(#[trigger] post.uids@[j]),
{
    if pre.current != DeleteLocal::Finished {
        let (current, inner) = choose|current: DeleteLocal, inner: Step|
            {
                &&& #[trigger] pre.current.resumes(before, reply, current, inner, after)
                &&& match inner {
                    Step::Ask(_) => {
                        &&& step == inner
                        &&& post.uids@ == pre.uids@
                        &&& post.next == pre.next
                        &&& post.failed == pre.failed
                        &&& post.current == current
                    },
                    Step::Done(res) => DeleteMany::advances(
                        pre.uids@,
                        pre.next as int,
                        pre.failed || res is Err,
                        after.table,
                        post,
                        step,
                    ),
                }
            };
        match inner {
            Step::Ask(_) => {},
            Step::Done(res) => {
                lemma_first_cached(pre.uids@, pre.next as int, after.table);
            },
        }
    }
}

/// Forgetting a list of messages starts in good order with nothing reached
/// yet; where it ends at once, none of the messages was cached.
pub proof fn lemma_delete_many_begins(
    uids: Seq<u32>,
    table: Map<u32, MetaView>,
    job: DeleteMany,
    step: Step,
)
    requires
        DeleteMany::advances(uids, 0, false, table, job, step),
    ensures
        job.wf(),
        job.cleared(table),
        step is Done ==> forall|j: int|
            0 <= j < uids.len() ==> !table.dom().contains(#[trigger] uids[j]),
{
    lemma_first_cached(uids, 0, table);
}

/// Forgetting messages only ever takes rows away, and leaves the state
/// record alone.
pub proof fn lemma_delete_many_shrinks(
    pre: DeleteMany,
    before: CacheView,
    reply: Reply,
    post: DeleteMany,
    step: Step,
    after: CacheView,
)
    requires
        pre.resumes(before, reply, post, step, after),
    ensures
        after.state == before.state,
        after.table.submap_of(before.table),
        post.uids@ == pre.uids@,
{
    if pre.current != DeleteLocal::Finished {
        let (current, inner) = choose|current: DeleteLocal, inner: Step|
            {
                &&& #[trigger] pre.current.resumes(before, reply, current, inner, after)
                &&& match inner {
                    Step::Ask(_) => {
                        &&& step == inner
                        &&& post.uids@ == pre.uids@
                        &&& post.next == pre.next
                        &&& post.failed == pre.failed
                        &&& post.current == current
                    },
                    Step::Done(res) => DeleteMany::advances(
                        pre.uids@,
                        pre.next as int,
                        pre.failed || res is Err,
                        after.table,
                        post,
                        step,
                    ),
                }
            };
    }
}

/// Forgetting every cached message leaves an empty table, unless one of
/// the messages could not be forgotten: if the list holds all cached UIDs,
/// the step that ends the work without a failure ends it on an empty table.
pub proof fn lemma_forgetting_all_empties(
    pre: DeleteMany,
    before: CacheView,
    reply: Reply,
    post: DeleteMany,
    step: Step,
    after: CacheView,
)
    requires
        pre.resumes(before, reply, post, step, after),
        pre.wf(),
        pre.cleared(before.table),
        forall|u: u32| before.table.dom().contains(u) ==> pre.uids@.contains(u),
        step is Done,
        !post.failed,
    ensures
        after.table == Map::<u32, MetaView>::empty(),
{
    lemma_delete_many_keeps_cleared(pre, before, reply, post, step, after);
    lemma_delete_many_shrinks(pre, before, reply, post, step, after);
    assert forall|u: u32| !after.table.dom().contains(u) by {
        if after.table.dom().contains(u) {
            assert(before.table.dom().contains(u));
            let j = choose|j: int| 0 <= j < pre.uids@.len() && pre.uids@[j] == u;
            assert(!after.table.dom().contains(post.uids@[j]));
        }
    }
    assert(after.table =~= Map::<u32, MetaView>::empty());
}

/// Between `from` and the first cached UID no UID is cached.
pub proof fn lemma_first_cached(uids: Seq<u32>, from: int, table: Map<u32, MetaView>)
    requires
        0 <= from <= uids.len(),
    ensures
        from <= first_cached(uids, from, table) <= uids.len(),
        forall|j: int|
            from <= j < first_cached(uids, from, table) ==> !table.dom().contains(
                #[trigger] uids[j],
            ),
        first_cached(uids, from, table) < uids.len() ==> table.dom().contains(
            uids[first_cached(uids, from, table)],
        ),
    decreases uids.len() - from,
{
    if from < uids.len() && !table.dom().contains(uids[from]) {
        lemma_first_cached(uids, from + 1, table);
    }
}

} // verus!
