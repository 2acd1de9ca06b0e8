//! From the server to the local side: the cache and the Maildir are brought
//! up to what the server holds.

use crate::cache::{state_after_imap, Cache, CacheView};
use crate::db::ascending;
use crate::error::SyncError;
use crate::imap::{fetch_range, in_ranges, vanished_known, Mailbox};
use crate::text::decimal;
use crate::local::{
    lemma_delete_many_begins, lemma_delete_many_keeps_cleared, lemma_forgetting_all_empties,
    DeleteMany,
};
use crate::meta::{Fetch, FetchResult, MetaView};
use crate::request::{
    apply_op, asks_no_new_row, failure_of, idle_resume, is_failure_of, is_idle_resume,
    row_follows_file, step_op, Reply, Request, Step, TableOp,
};
use crate::rows::RowsJob;
use crate::statefile::StateFileFields;
use vstd::prelude::*;

verus! {

/// Whether a complete row of the response has this UID.
pub open spec fn is_listed(rows: Seq<Fetch>, uid: u32) -> bool {
    exists|i: int|
        0 <= i < rows.len() && FetchResult::is_uid_row(&#[trigger] rows[i]) && rows[i].uid == Some(
            uid,
        )
}

/// Whether the response holds a complete row that the table cannot account
/// for: one whose UID is not cached, or one whose UID an earlier row had
/// already.
pub open spec fn has_stray_row(rows: Seq<Fetch>, table: Map<u32, MetaView>) -> bool {
    exists|i: int|
        0 <= i < rows.len() && FetchResult::is_uid_row(&#[trigger] rows[i]) && (
        !table.dom().contains(rows[i].uid->0) || is_listed(rows.take(i), rows[i].uid->0))
}

/// The position of a number in an ascending list.
fn position(known: &Vec<u32>, uid: u32) -> (r: Option<usize>)
    requires
        ascending(known@),
    ensures
        match r {
            Some(i) => i < known.len() && known[i as int] == uid,
            None => !known@.contains(uid),
        },
{
    let mut lo: usize = 0;
    let mut hi: usize = known.len();
    while lo < hi
        invariant
            ascending(known@),
            lo <= hi <= known.len(),
            forall|j: int| 0 <= j < lo ==> known[j] < uid,
            forall|j: int| hi <= j < known.len() ==> known[j] > uid,
        decreases hi - lo,
    {
        let mid = lo + (hi - lo) / 2;
        if known[mid] == uid {
            return Some(mid);
        }
        if known[mid] < uid {
            lo = mid + 1;
        } else {
            hi = mid;
        }
    }
    None
}

/// Holds the cached UIDs against the rows of a response that should list
/// them all. Returns the cached UIDs that no complete row names, ascending:
/// their messages are gone on the server. The flag says whether the response
/// holds a row that the cache cannot account for.
pub fn absent_uids(cache: &Cache, fetches: &Vec<Fetch>) -> (r: (Vec<u32>, bool))
    ensures
        ascending(r.0@),
        forall|u: u32|
            #![trigger r.0@.contains(u)]
            #![trigger cache@.table.dom().contains(u)]
            r.0@.contains(u) <==> cache@.table.dom().contains(u) && !is_listed(fetches@, u),
        r.1 == has_stray_row(fetches@, cache@.table),
{
    let known = cache.get_known_uids();
    let mut seen: Vec<bool> = Vec::new();
    let mut i: usize = 0;
    while i < known.len()
        invariant
            i <= known.len(),
            seen@.len() == i,
            forall|j: int| 0 <= j < i ==> !seen@[j],
        decreases known.len() - i,
    {
        seen.push(false);
        i = i + 1;
    }
    let mut stray = false;
    let mut k: usize = 0;
    while k < fetches.len()
        invariant
            ascending(known@),
            forall|u: u32| known@.contains(u) <==> cache@.table.dom().contains(u),
            k <= fetches.len(),
            seen@.len() == known@.len(),
            forall|j: int|
                0 <= j < known@.len() ==> seen@[j] == is_listed(fetches@.take(k as int), known@[j]),
            stray == has_stray_row(fetches@.take(k as int), cache@.table),
        decreases fetches.len() - k,
    {
        let ghost a = fetches@.take(k as int);
        let ghost b = fetches@.take(k + 1);
        let ghost old_seen = seen@;
        let ghost old_stray = stray;
        proof {
            assert(b.take(k as int) =~= a);
            assert forall|i: int| 0 <= i < k implies b.take(i) == a.take(i) by {
                assert(b.take(i) =~= a.take(i));
            }
        }
        let mut hit = false;
        match FetchResult::from(&fetches[k]) {
            FetchResult::Uid(res) => {
                match position(&known, res.uid) {
                    Some(p) => {
                        if seen[p] {
                            stray = true;
                        } else {
                            seen.set(p, true);
                        }
                    },
                    None => {
                        stray = true;
                    },
                }
                hit = true;
            },
            FetchResult::Other(_) => {},
        }
        proof {
            let row = fetches@[k as int];
            assert(b[k as int] == row);
            assert forall|u: u32| is_listed(b, u) == (is_listed(a, u) || (FetchResult::is_uid_row(
                &row,
            ) && row.uid == Some(u))) by {
                if is_listed(a, u) {
                    let i = choose|i: int|
                        0 <= i < a.len() && FetchResult::is_uid_row(&#[trigger] a[i]) && a[i].uid
                            == Some(u);
                    assert(b[i] == a[i]);
                }
                if is_listed(b, u) {
                    let i = choose|i: int|
                        0 <= i < b.len() && FetchResult::is_uid_row(&#[trigger] b[i]) && b[i].uid
                            == Some(u);
                    if i < k {
                        assert(a[i] == b[i]);
                    }
                }
            }
            assert forall|j: int| 0 <= j < known@.len() implies seen@[j] == is_listed(
                b,
                known@[j],
            ) by {
                if hit {
                    let u = row.uid->0;
                    if known@[j] == u {
                        assert(known@.contains(u));
                        let p = choose|p: int| 0 <= p < known@.len() && known@[p] == u;
                        if p < j {
                            assert(known@[p] < known@[j]);
                        }
                        if j < p {
                            assert(known@[j] < known@[p]);
                        }
                    }
                }
            }
            let row_stray = FetchResult::is_uid_row(&row) && (!cache@.table.dom().contains(
                row.uid->0,
            ) || is_listed(a, row.uid->0));
            if has_stray_row(a, cache@.table) {
                let i = choose|i: int|
                    0 <= i < a.len() && FetchResult::is_uid_row(&#[trigger] a[i]) && (
                    !cache@.table.dom().contains(a[i].uid->0) || is_listed(a.take(i), a[i].uid->0));
                assert(b[i] == a[i]);
                assert(b.take(i) == a.take(i));
            }
            if row_stray {
                assert(b[k as int] == row);
            }
            if has_stray_row(b, cache@.table) {
                let i = choose|i: int|
                    0 <= i < b.len() && FetchResult::is_uid_row(&#[trigger] b[i]) && (
                    !cache@.table.dom().contains(b[i].uid->0) || is_listed(b.take(i), b[i].uid->0));
                if i < k {
                    assert(a[i] == b[i]);
                    assert(b.take(i) == a.take(i));
                }
            }
            assert(has_stray_row(b, cache@.table) == (old_stray || row_stray));
            if hit {
                let u = row.uid->0;
                if known@.contains(u) {
                    let p = choose|p: int| 0 <= p < known@.len() && known@[p] == u;
                    assert(old_seen[p] == is_listed(a, u));
                } else {
                    assert(!cache@.table.dom().contains(u));
                }
            }
        }
        k = k + 1;
    }
    assert(fetches@.take(fetches.len() as int) =~= fetches@);
    let mut out: Vec<u32> = Vec::new();
    let mut j: usize = 0;
    while j < known.len()
        invariant
            ascending(known@),
            seen@.len() == known@.len(),
            j <= known.len(),
            forall|x: int| 0 <= x < known@.len() ==> seen@[x] == is_listed(fetches@, known@[x]),
            ascending(out@),
            forall|x: int| 0 <= x < out@.len() ==> j > 0 && out@[x] <= known@[j - 1],
            forall|u: u32|
                out@.contains(u) <==> exists|x: int|
                    0 <= x < j && known@[x] == u && !is_listed(fetches@, u),
        decreases known.len() - j,
    {
        if !seen[j] {
            let ghost before = out@;
            out.push(known[j]);
            proof {
                assert forall|a: int, b: int| 0 <= a < b < out@.len() implies out@[a]
                    < out@[b] by {
                    if b == before.len() {
                        assert(before[a] <= known@[j - 1]);
                        assert(known@[j - 1] < known@[j as int]);
                    } else {
                        assert(before[a] < before[b]);
                    }
                }
                assert forall|u: u32|
                    out@.contains(u) <==> exists|x: int|
                        0 <= x < j + 1 && known@[x] == u && !is_listed(fetches@, u) by {
                    if out@.contains(u) {
                        let i = choose|i: int| 0 <= i < out@.len() && out@[i] == u;
                        if i < before.len() {
                            assert(before[i] == u);
                            assert(before.contains(u));
                        } else {
                            assert(known@[j as int] == u);
                        }
                    }
                    if exists|x: int| 0 <= x < j + 1 && known@[x] == u && !is_listed(fetches@, u) {
                        let x = choose|x: int|
                            0 <= x < j + 1 && known@[x] == u && !is_listed(fetches@, u);
                        if x < j {
                            assert(before.contains(u));
                            let i = choose|i: int| 0 <= i < before.len() && before[i] == u;
                            assert(out@[i] == u);
                        } else {
                            assert(out@[before.len() as int] == u);
                        }
                    }
                }
            }
        }
        j = j + 1;
    }
    proof {
        assert forall|u: u32|
            out@.contains(u) <==> cache@.table.dom().contains(u) && !is_listed(fetches@, u) by {
            if cache@.table.dom().contains(u) && !is_listed(fetches@, u) {
                assert(known@.contains(u));
                let x = choose|x: int| 0 <= x < known@.len() && known@[x] == u;
                assert(0 <= x < j && known@[x] == u && !is_listed(fetches@, u));
            }
            if out@.contains(u) {
                let x = choose|x: int| 0 <= x < j && known@[x] == u && !is_listed(fetches@, u);
                assert(known@.contains(u));
            }
        }
    }
    (out, stray)
}

/// Where the work from the server to the local side stands.
#[derive(Debug)]
pub enum PullStage {
    /// The cache of an outdated epoch is being forgotten. `held` keeps the
    /// rows that were fetched before the epoch was found outdated.
    Purge { many: DeleteMany, held: Option<Vec<Fetch>> },
    /// The server was asked for the rows of the known messages.
    Fetch,
    /// The rows of the known messages are being worked on.
    Rows(RowsJob),
    /// The caller was asked for the UID ranges that vanished.
    Vanished,
    /// Messages that are gone on the server are being forgotten. `stray`
    /// says that the response held a row that the cache could not account
    /// for.
    Drop { many: DeleteMany, stray: bool },
    /// The server was asked for the rows above the high-water mark.
    NewFetch,
    /// The rows above the high-water mark are being worked on.
    NewRows(RowsJob),
    /// The state record was handed over to be stored.
    State,
    /// Nothing is pending.
    Finished,
}

/// The work from the server to the local side for one selected mailbox.
///
/// With quick resynchronisation the server is asked for what changed since
/// the stored change counter and tells what vanished. Without it all known
/// messages are fetched, what the server no longer lists is forgotten, and
/// the messages above the high-water mark are fetched. If the mailbox's epoch
/// is not the stored one, the whole cache is forgotten first.
#[derive(Debug)]
pub struct Pull {
    pub run: Run,
    pub stage: PullStage,
}

/// What stays the same throughout one run of the work.
#[derive(Clone, Copy, Debug, PartialEq, Eq, Structural)]
pub struct Run {
    /// The counters of the selected mailbox.
    pub mailbox: Mailbox,
    /// Whether the server does quick resynchronisation.
    pub quick: bool,
    /// The high-water mark of UIDs when the work began.
    pub last_seen: u32,
}

impl Run {
    /// The work ends with the given result.
    pub open spec fn ends(job: Pull, step: Step, res: Result<(), SyncError>) -> bool {
        job.stage is Finished && step == Step::Done(res)
    }

    /// The work ends with the failure that the reply stands for.
    pub open spec fn fails(reply: Reply, job: Pull, step: Step) -> bool {
        &&& job.stage is Finished
        &&& step matches Step::Done(Err(e))
        &&& is_failure_of(reply, e)
    }

    /// The server is asked for all messages, or for what changed since a
    /// change counter.
    pub open spec fn asks_all(changedsince: Option<u64>, job: Pull, step: Step) -> bool {
        &&& job.stage is Fetch
        &&& step == Step::Ask(Request::FetchUids { first: 1, last: None, changedsince })
    }

    /// The mailbox's counters are recorded and the state record is handed
    /// over to be stored.
    pub open spec fn saves_state(
        self,
        before: CacheView,
        job: Pull,
        step: Step,
        after: CacheView,
    ) -> bool {
        &&& after.table == before.table
        &&& after.state == state_after_imap(
            before.state,
            self.mailbox,
            self.quick,
            after.state.imap_last,
        )
        &&& job.stage is State
        &&& step == Step::Ask(Request::SaveState(after.state))
    }

    /// What follows once the messages that are gone on the server have been
    /// forgotten. `bad` says that something went wrong on the way; without
    /// quick resynchronisation that ends the work. Otherwise the messages
    /// above the high-water mark are asked for, where a UID above it can
    /// exist.
    pub open spec fn after_drop(
        self,
        bad: bool,
        before: CacheView,
        job: Pull,
        step: Step,
        after: CacheView,
    ) -> bool {
        if self.quick {
            self.saves_state(before, job, step, after)
        } else if bad {
            &&& after == before
            &&& job.stage is Finished
            &&& step matches Step::Done(Err(e))
            &&& e.is_other("Error removing absent UIDs"@)
        } else if self.last_seen < u32::MAX {
            &&& after == before
            &&& job.stage is NewFetch
            &&& step == Step::Ask(
                Request::FetchUids {
                    first: (self.last_seen + 1) as u32,
                    last: None,
                    changedsince: None,
                },
            )
        } else {
            self.saves_state(before, job, step, after)
        }
    }

    /// The messages with the given UIDs are forgotten, and then the work goes
    /// on as after every such round.
    pub open spec fn drops(
        self,
        uids: Seq<u32>,
        stray: bool,
        before: CacheView,
        job: Pull,
        step: Step,
        after: CacheView,
    ) -> bool {
        &&& after.table == before.table
        &&& job.pending(after.table) == step_op(step)
        &&& asks_no_new_row(step)
        &&& {
            exists|many: DeleteMany, inner: Step|
                {
                    &&& #[trigger] DeleteMany::advances(uids, 0, false, before.table, many, inner)
                    &&& match inner {
                        Step::Ask(_) => after == before && job.stage == (PullStage::Drop {
                            many,
                            stray,
                        }) && step == inner,
                        Step::Done(_) => self.after_drop(
                            stray || many.failed,
                            before,
                            job,
                            step,
                            after,
                        ),
                    }
                }
        }
    }

    /// What follows the work on the rows of the known messages. A failure
    /// ends the work. With quick resynchronisation the vanished UIDs are
    /// asked for; without it the cached messages that no row names are
    /// forgotten.
    pub open spec fn after_rows(
        self,
        res: Result<(), SyncError>,
        rows: Seq<Fetch>,
        before: CacheView,
        job: Pull,
        step: Step,
        after: CacheView,
    ) -> bool {
        &&& after.table == before.table
        &&& job.pending(after.table) == step_op(step)
        &&& asks_no_new_row(step)
        &&& {
            if res is Err {
                after == before && Self::ends(job, step, res)
            } else if self.quick {
                after == before && job.stage is Vanished && step == Step::Ask(Request::DrainUnsolicited)
            } else {
                exists|uids: Seq<u32>|
                    {
                        &&& ascending(uids)
                        &&& forall|u: u32|
                            #![trigger uids.contains(u)]
                            #![trigger before.table.dom().contains(u)]
                            uids.contains(u) <==> before.table.dom().contains(u) && !is_listed(rows, u)
                        &&& #[trigger] self.drops(
                            uids,
                            has_stray_row(rows, before.table),
                            before,
                            job,
                            step,
                            after,
                        )
                    }
            }
        }
    }

    /// The work on the rows of the known messages starts.
    pub open spec fn starts_rows(
        self,
        rows: Seq<Fetch>,
        before: CacheView,
        job: Pull,
        step: Step,
        after: CacheView,
    ) -> bool {
        &&& after.table == before.table
        &&& job.pending(after.table) == step_op(step)
        &&& asks_no_new_row(step)
        &&& {
            exists|work: RowsJob, inner: Step|
                {
                    &&& #[trigger] RowsJob::advances(rows, 0, false, before.table, work, inner)
                    &&& match inner {
                        Step::Ask(_) => after == before && job.stage == PullStage::Rows(work) && step
                            == inner,
                        Step::Done(res) => self.after_rows(res, rows, before, job, step, after),
                    }
                }
        }
    }

    /// The cache at the start of a new epoch of UIDs: the high-water mark is
    /// back at zero.
    pub open spec fn reset(before: CacheView) -> CacheView {
        CacheView { state: StateFileFields { last_seen_uid: 0, ..before.state }, ..before }
    }

    /// The forgetting of the whole cache starts: every cached UID is on the
    /// list.
    pub open spec fn purges(
        table: Map<u32, MetaView>,
        many: DeleteMany,
        inner: Step,
    ) -> bool {
        &&& ascending(many.uids@)
        &&& forall|u: u32|
            #![trigger many.uids@.contains(u)]
            #![trigger table.dom().contains(u)]
            many.uids@.contains(u) <==> table.dom().contains(u)
        &&& DeleteMany::advances(many.uids@, 0, false, table, many, inner)
    }

    /// What follows the work on the rows above the high-water mark.
    pub open spec fn after_new(
        self,
        res: Result<(), SyncError>,
        before: CacheView,
        job: Pull,
        step: Step,
        after: CacheView,
    ) -> bool {
        if res is Err {
            after == before && Self::ends(job, step, res)
        } else {
            self.saves_state(before, job, step, after)
        }
    }

}

impl Pull {
    /// What the stored table was asked for last, given the cached table.
    pub open spec fn pending(self, table: Map<u32, MetaView>) -> TableOp {
        match self.stage {
            PullStage::Purge { many, held } => many.pending(),
            PullStage::Rows(work) => work.pending(table),
            PullStage::Drop { many, stray } => many.pending(),
            PullStage::NewRows(work) => work.pending(table),
            _ => TableOp::Nothing,
        }
    }

    /// How the work starts. Where the mailbox's epoch is not the stored
    /// one, the cache is of no use any more: the high-water mark goes back to
    /// zero and every cached message is forgotten.
    pub open spec fn begins(
        before: CacheView,
        mailbox: Mailbox,
        quick: bool,
        job: Pull,
        step: Step,
        after: CacheView,
    ) -> bool {
        &&& after.table == before.table
        &&& job.pending(after.table) == step_op(step)
        &&& asks_no_new_row(step)
        &&& {
            &&& job.run == (Run { mailbox, quick, last_seen: before.state.last_seen_uid })
            &&& after == (if quick && before.state.uid_validity != mailbox.uid_validity {
                Run::reset(before)
            } else {
                before
            })
            &&& if quick {
                if before.state.uid_validity == mailbox.uid_validity {
                    Run::asks_all(Some(before.state.highest_mod_seq), job, step)
                } else {
                    exists|many: DeleteMany, inner: Step|
                        {
                            &&& #[trigger] Run::purges(before.table, many, inner)
                            &&& match inner {
                                Step::Ask(_) => job.stage == (PullStage::Purge { many, held: None })
                                    && step == inner,
                                Step::Done(_) => Run::asks_all(None, job, step),
                            }
                        }
                }
            } else if before.state.last_seen_uid == 1 {
                &&& job.stage is Finished
                &&& step matches Step::Done(Err(e))
                &&& e.is_other("Invalid range "@ + decimal(1) + ":"@ + decimal(1))
            } else {
                &&& job.stage is Fetch
                &&& step == Step::Ask(
                    Request::FetchUids {
                        first: 1,
                        last: if before.state.last_seen_uid == 0 {
                            None
                        } else {
                            Some(before.state.last_seen_uid)
                        },
                        changedsince: None,
                    },
                )
            }
        }
    }

    /// How the work goes on after a reply.
    pub open spec fn resumes(
        self,
        before: CacheView,
        reply: Reply,
        job: Pull,
        step: Step,
        after: CacheView,
    ) -> bool {
        &&& after.table == if reply is Done {
            apply_op(before.table, self.pending(before.table))
        } else {
            before.table
        }
        &&& job.pending(after.table) == step_op(step)
        &&& row_follows_file(reply, step)
        &&& {
            &&& job.run == self.run
            &&& match self.stage {
                PullStage::Purge { many, held } => exists|next: DeleteMany, inner: Step, mid: CacheView|
                    {
                        &&& #[trigger] many.resumes(before, reply, next, inner, mid)
                        &&& match inner {
                            Step::Ask(_) => after == mid && job.stage == (PullStage::Purge {
                                many: next,
                                held,
                            }) && step == inner,
                            Step::Done(_) => match held {
                                None => after == mid && Run::asks_all(None, job, step),
                                Some(rows) => self.run.starts_rows(rows@, mid, job, step, after),
                            },
                        }
                    },
                PullStage::Fetch => match reply {
                    Reply::Fetched(rows) => {
                        if self.run.quick || before.state.uid_validity == self.run.mailbox.uid_validity {
                            self.run.starts_rows(rows@, before, job, step, after)
                        } else {
                            exists|many: DeleteMany, inner: Step|
                                {
                                    &&& #[trigger] Run::purges(before.table, many, inner)
                                    &&& match inner {
                                        Step::Ask(_) => after == Run::reset(before) && job.stage == (
                                        PullStage::Purge { many, held: Some(rows) }) && step == inner,
                                        Step::Done(_) => self.run.starts_rows(
                                            rows@,
                                            Run::reset(before),
                                            job,
                                            step,
                                            after,
                                        ),
                                    }
                                }
                        }
                    },
                    _ => after == before && Run::fails(reply, job, step),
                },
                PullStage::Rows(work) => exists|next: RowsJob, inner: Step, mid: CacheView|
                    {
                        &&& #[trigger] work.resumes(before, reply, next, inner, mid)
                        &&& match inner {
                            Step::Ask(_) => after == mid && job.stage == PullStage::Rows(next) && step
                                == inner,
                            Step::Done(res) => self.run.after_rows(
                                res,
                                next.fetches@,
                                mid,
                                job,
                                step,
                                after,
                            ),
                        }
                    },
                PullStage::Vanished => match reply {
                    Reply::Vanished(ranges) => exists|uids: Seq<u32>|
                        {
                            &&& ascending(uids)
                            &&& forall|u: u32|
                                #![trigger uids.contains(u)]
                                #![trigger before.table.dom().contains(u)]
                                uids.contains(u) <==> before.table.dom().contains(u) && in_ranges(
                                    ranges@,
                                    u,
                                )
                            &&& #[trigger] self.run.drops(uids, false, before, job, step, after)
                        },
                    _ => after == before && Run::fails(reply, job, step),
                },
                PullStage::Drop { many, stray } => exists|next: DeleteMany, inner: Step, mid: CacheView|
                    {
                        &&& #[trigger] many.resumes(before, reply, next, inner, mid)
                        &&& match inner {
                            Step::Ask(_) => after == mid && job.stage == (PullStage::Drop {
                                many: next,
                                stray,
                            }) && step == inner,
                            Step::Done(_) => self.run.after_drop(
                                stray || next.failed,
                                mid,
                                job,
                                step,
                                after,
                            ),
                        }
                    },
                PullStage::NewFetch => match reply {
                    Reply::Fetched(rows) => exists|work: RowsJob, inner: Step|
                        {
                            &&& #[trigger] RowsJob::advances(
                                rows@,
                                0,
                                false,
                                before.table,
                                work,
                                inner,
                            )
                            &&& match inner {
                                Step::Ask(_) => after == before && job.stage == PullStage::NewRows(work)
                                    && step == inner,
                                Step::Done(res) => self.run.after_new(res, before, job, step, after),
                            }
                        },
                    _ => after == before && Run::fails(reply, job, step),
                },
                PullStage::NewRows(work) => exists|next: RowsJob, inner: Step, mid: CacheView|
                    {
                        &&& #[trigger] work.resumes(before, reply, next, inner, mid)
                        &&& match inner {
                            Step::Ask(_) => after == mid && job.stage == PullStage::NewRows(next)
                                && step == inner,
                            Step::Done(res) => self.run.after_new(res, mid, job, step, after),
                        }
                    },
                PullStage::State => {
                    &&& after == before
                    &&& match reply {
                        Reply::Done => Run::ends(job, step, Ok(())),
                        _ => Run::fails(reply, job, step),
                    }
                },
                PullStage::Finished => {
                    &&& after == before
                    &&& job.stage is Finished
                    &&& step matches Step::Done(Err(e))
                    &&& is_idle_resume(e)
                },
            }
        }
    }
}

impl Run {
    fn finish(self, res: Result<(), SyncError>) -> (r: (Pull, Step))
        ensures
            r.0.run == self,
            Self::ends(r.0, r.1, res),
    {
        (Pull { run: self, stage: PullStage::Finished }, Step::Done(res))
    }

    fn fail(self, reply: Reply) -> (r: (Pull, Step))
        ensures
            r.0.run == self,
            Self::fails(reply, r.0, r.1),
    {
        (Pull { run: self, stage: PullStage::Finished }, Step::Done(Err(failure_of(reply))))
    }

    fn ask_all(self, changedsince: Option<u64>) -> (r: (Pull, Step))
        ensures
            r.0.run == self,
            Self::asks_all(changedsince, r.0, r.1),
    {
        (
            Pull { run: self, stage: PullStage::Fetch },
            Step::Ask(Request::FetchUids { first: 1, last: None, changedsince }),
        )
    }

    fn save_state(self, cache: &mut Cache) -> (r: (Pull, Step))
        ensures
            r.0.run == self,
            self.saves_state(old(cache)@, r.0, r.1, final(cache)@),
    {
        let fields = cache.update_imap_state(&self.mailbox, self.quick);
        (Pull { run: self, stage: PullStage::State }, Step::Ask(Request::SaveState(fields)))
    }

    fn go_after_drop(self, bad: bool, cache: &mut Cache) -> (r: (Pull, Step))
        ensures
            r.0.run == self,
            self.after_drop(bad, old(cache)@, r.0, r.1, final(cache)@),
    {
        if self.quick {
            self.save_state(cache)
        } else if bad {
            self.finish(Err(SyncError::other("Error removing absent UIDs")))
        } else if self.last_seen < u32::MAX {
            (
                Pull { run: self, stage: PullStage::NewFetch },
                Step::Ask(
                    Request::FetchUids {
                        first: self.last_seen + 1,
                        last: None,
                        changedsince: None,
                    },
                ),
            )
        } else {
            self.save_state(cache)
        }
    }

    fn drop_uids(self, uids: Vec<u32>, stray: bool, cache: &mut Cache) -> (r: (Pull, Step))
        ensures
            r.0.run == self,
            self.drops(uids@, stray, old(cache)@, r.0, r.1, final(cache)@),
    {
        let (many, inner) = DeleteMany::begin(cache, uids);
        match inner {
            Step::Ask(req) => (
                Pull { run: self, stage: PullStage::Drop { many, stray } },
                Step::Ask(req),
            ),
            Step::Done(_) => {
                let bad = stray || many.failed;
                let r = self.go_after_drop(bad, cache);
                assert(DeleteMany::advances(uids@, 0, false, old(cache)@.table, many, inner));
                r
            },
        }
    }

    fn go_after_rows(self, res: Result<(), SyncError>, rows: Vec<Fetch>, cache: &mut Cache) -> (r: (
        Pull,
        Step,
    ))
        ensures
            r.0.run == self,
            self.after_rows(res, rows@, old(cache)@, r.0, r.1, final(cache)@),
    {
        if res.is_err() {
            self.finish(res)
        } else if self.quick {
            (Pull { run: self, stage: PullStage::Vanished }, Step::Ask(Request::DrainUnsolicited))
        } else {
            let (uids, stray) = absent_uids(cache, &rows);
            let ghost list = uids@;
            let r = self.drop_uids(uids, stray, cache);
            assert(self.drops(
                list,
                has_stray_row(rows@, old(cache)@.table),
                old(cache)@,
                r.0,
                r.1,
                cache@,
            ));
            r
        }
    }

    fn start_rows(self, rows: Vec<Fetch>, cache: &mut Cache) -> (r: (Pull, Step))
        ensures
            r.0.run == self,
            self.starts_rows(rows@, old(cache)@, r.0, r.1, final(cache)@),
    {
        let (work, inner) = RowsJob::begin(cache, rows);
        match inner {
            Step::Ask(req) => (Pull { run: self, stage: PullStage::Rows(work) }, Step::Ask(req)),
            Step::Done(res) => {
                let RowsJob { fetches, next, err, row } = work;
                let r = self.go_after_rows(res, fetches, cache);
                assert(RowsJob::advances(rows@, 0, false, old(cache)@.table, work, inner));
                r
            },
        }
    }

    fn go_after_new(self, res: Result<(), SyncError>, cache: &mut Cache) -> (r: (Pull, Step))
        ensures
            r.0.run == self,
            self.after_new(res, old(cache)@, r.0, r.1, final(cache)@),
    {
        if res.is_err() {
            self.finish(res)
        } else {
            self.save_state(cache)
        }
    }

    fn purge(cache: &mut Cache) -> (r: (DeleteMany, Step))
        ensures
            Self::purges(old(cache)@.table, r.0, r.1),
            final(cache)@ == Self::reset(old(cache)@),
    {
        let _ = cache.set_last_seen_uid(0);
        DeleteMany::begin(cache, cache.get_known_uids())
    }
}

impl Pull {
    /// Starts the work for a mailbox that was just selected.
    pub fn begin(cache: &mut Cache, mailbox: Mailbox, quick: bool) -> (r: (Pull, Step))
        ensures
            Self::begins(old(cache)@, mailbox, quick, r.0, r.1, final(cache)@),
    {
        let last_seen = cache.get_last_seen_uid();
        let run = Run { mailbox, quick, last_seen };
        if quick {
            if cache.is_valid(&mailbox) {
                run.ask_all(Some(cache.get_highest_mod_seq()))
            } else {
                let (many, inner) = Run::purge(cache);
                match inner {
                    Step::Ask(req) => (
                        Pull { run, stage: PullStage::Purge { many, held: None } },
                        Step::Ask(req),
                    ),
                    Step::Done(_) => {
                        let r = run.ask_all(None);
                        assert(Run::purges(old(cache)@.table, many, inner));
                        r
                    },
                }
            }
        } else {
            let last = if last_seen == 0 {
                None
            } else {
                Some(last_seen)
            };
            match fetch_range(1, last) {
                Err(e) => run.finish(Err(e)),
                Ok(_) => (
                    Pull { run, stage: PullStage::Fetch },
                    Step::Ask(Request::FetchUids { first: 1, last, changedsince: None }),
                ),
            }
        }
    }

    /// Takes the reply to the last request and says what comes next.
    pub fn resume(self, cache: &mut Cache, reply: Reply) -> (r: (Pull, Step))
        ensures
            self.resumes(old(cache)@, reply, r.0, r.1, final(cache)@),
    {
        let Pull { run, stage } = self;
        match stage {
            PullStage::Purge { many, held } => {
                let (next, inner) = many.resume(cache, reply);
                let ghost mid = cache@;
                assert(many.resumes(old(cache)@, reply, next, inner, mid));
                match inner {
                    Step::Ask(req) => (
                        Pull { run, stage: PullStage::Purge { many: next, held } },
                        Step::Ask(req),
                    ),
                    Step::Done(_) => match held {
                        None => run.ask_all(None),
                        Some(rows) => run.start_rows(rows, cache),
                    },
                }
            },
            PullStage::Fetch => match reply {
                Reply::Fetched(rows) => {
                    if run.quick || cache.is_valid(&run.mailbox) {
                        run.start_rows(rows, cache)
                    } else {
                        let (many, inner) = Run::purge(cache);
                        assert(Run::purges(old(cache)@.table, many, inner));
                        match inner {
                            Step::Ask(req) => (
                                Pull { run, stage: PullStage::Purge { many, held: Some(rows) } },
                                Step::Ask(req),
                            ),
                            Step::Done(_) => run.start_rows(rows, cache),
                        }
                    }
                },
                other => run.fail(other),
            },
            PullStage::Rows(work) => {
                let (next, inner) = work.resume(cache, reply);
                let ghost mid = cache@;
                assert(work.resumes(old(cache)@, reply, next, inner, mid));
                match inner {
                    Step::Ask(req) => (Pull { run, stage: PullStage::Rows(next) }, Step::Ask(req)),
                    Step::Done(res) => {
                        let RowsJob { fetches, next: n, err, row } = next;
                        run.go_after_rows(res, fetches, cache)
                    },
                }
            },
            PullStage::Vanished => match reply {
                Reply::Vanished(ranges) => {
                    let known = cache.get_known_uids();
                    let uids = vanished_known(known.as_slice(), ranges.as_slice());
                    let ghost list = uids@;
                    let r = run.drop_uids(uids, false, cache);
                    assert(run.drops(list, false, old(cache)@, r.0, r.1, cache@));
                    r
                },
                other => run.fail(other),
            },
            PullStage::Drop { many, stray } => {
                let (next, inner) = many.resume(cache, reply);
                let ghost mid = cache@;
                assert(many.resumes(old(cache)@, reply, next, inner, mid));
                match inner {
                    Step::Ask(req) => (
                        Pull { run, stage: PullStage::Drop { many: next, stray } },
                        Step::Ask(req),
                    ),
                    Step::Done(_) => {
                        let bad = stray || next.failed;
                        run.go_after_drop(bad, cache)
                    },
                }
            },
            PullStage::NewFetch => match reply {
                Reply::Fetched(rows) => {
                    let (work, inner) = RowsJob::begin(cache, rows);
                    assert(RowsJob::advances(rows@, 0, false, cache@.table, work, inner));
                    match inner {
                        Step::Ask(req) => (
                            Pull { run, stage: PullStage::NewRows(work) },
                            Step::Ask(req),
                        ),
                        Step::Done(res) => run.go_after_new(res, cache),
                    }
                },
                other => run.fail(other),
            },
            PullStage::NewRows(work) => {
                let (next, inner) = work.resume(cache, reply);
                let ghost mid = cache@;
                assert(work.resumes(old(cache)@, reply, next, inner, mid));
                match inner {
                    Step::Ask(req) => (
                        Pull { run, stage: PullStage::NewRows(next) },
                        Step::Ask(req),
                    ),
                    Step::Done(res) => run.go_after_new(res, cache),
                }
            },
            PullStage::State => match reply {
                Reply::Done => run.finish(Ok(())),
                other => run.fail(other),
            },
            PullStage::Finished => (
                Pull { run, stage: PullStage::Finished },
                Step::Done(Err(idle_resume())),
            ),
        }
    }
}

/// The forgetting of the whole cache starts in good order, and with every
/// cached message on its list; where there is nothing to forget, the table
/// is empty.
pub proof fn lemma_purge_begins(table: Map<u32, MetaView>, many: DeleteMany, inner: Step)
    requires
        Run::purges(table, many, inner),
    ensures
        many.wf(),
        many.cleared(table),
        forall|u: u32| table.dom().contains(u) ==> many.uids@.contains(u),
        inner is Done ==> table == Map::<u32, MetaView>::empty(),
{
    lemma_delete_many_begins(many.uids@, table, many, inner);
    if inner is Done {
        assert forall|u: u32| !table.dom().contains(u) by {
            if table.dom().contains(u) {
                assert(many.uids@.contains(u));
                let j = choose|j: int| 0 <= j < many.uids@.len() && many.uids@[j] == u;
                assert(!table.dom().contains(many.uids@[j]));
            }
        }
        assert(table =~= Map::<u32, MetaView>::empty());
    }
}

/// A server that lists every cached message, each once, asks for nothing to
/// be forgotten: after the rows of such a response the table is as before,
/// and the next thing is the question for messages above the high-water
/// mark, or the storing of the state record where no UID can lie above it.
pub proof fn lemma_pull_at_rest(
    run: Run,
    rows: Seq<Fetch>,
    before: CacheView,
    job: Pull,
    step: Step,
    after: CacheView,
)
    requires
        !run.quick,
        run.after_rows(Ok(()), rows, before, job, step, after),
        forall|u: u32| before.table.dom().contains(u) ==> is_listed(rows, u),
        !has_stray_row(rows, before.table),
    ensures
        after.table == before.table,
        run.last_seen < u32::MAX ==> after == before && job.stage is NewFetch && step
            == Step::Ask(
            Request::FetchUids {
                first: (run.last_seen + 1) as u32,
                last: None,
                changedsince: None,
            },
        ),
        run.last_seen == u32::MAX ==> job.stage is State && step == Step::Ask(
            Request::SaveState(after.state),
        ),
{
    let uids = choose|uids: Seq<u32>|
        {
            &&& ascending(uids)
            &&& forall|u: u32|
                #![trigger uids.contains(u)]
                #![trigger before.table.dom().contains(u)]
                uids.contains(u) <==> before.table.dom().contains(u) && !is_listed(rows, u)
            &&& #[trigger] run.drops(
                uids,
                has_stray_row(rows, before.table),
                before,
                job,
                step,
                after,
            )
        };
    if uids.len() > 0 {
        assert(uids.contains(uids[0]));
    }
    let (many, inner) = choose|many: DeleteMany, inner: Step|
        {
            &&& #[trigger] DeleteMany::advances(uids, 0, false, before.table, many, inner)
            &&& match inner {
                Step::Ask(_) => after == before && job.stage == (PullStage::Drop {
                    many,
                    stray: has_stray_row(rows, before.table),
                }) && step == inner,
                Step::Done(_) => run.after_drop(
                    has_stray_row(rows, before.table) || many.failed,
                    before,
                    job,
                    step,
                    after,
                ),
            }
        };
}

/// A new epoch starts on an empty cache: when the forgetting of the whole
/// cache comes to its end and no message failed to go, no cached message is
/// left, whatever follows.
pub proof fn lemma_purge_leaves_nothing(
    pre: Pull,
    before: CacheView,
    reply: Reply,
    post: Pull,
    step: Step,
    after: CacheView,
)
    requires
        pre.resumes(before, reply, post, step, after),
        pre.stage matches PullStage::Purge { many, held } && many.wf() && many.cleared(
            before.table,
        ) && !many.failed && forall|u: u32|
            before.table.dom().contains(u) ==> many.uids@.contains(u),
        reply is Done,
        !(post.stage is Purge),
    ensures
        after.table == Map::<u32, MetaView>::empty(),
{
    match pre.stage {
        PullStage::Purge { many, held } => {
            let (next, inner, mid) = choose|next: DeleteMany, inner: Step, mid: CacheView|
                {
                    &&& #[trigger] many.resumes(before, reply, next, inner, mid)
                    &&& match inner {
                        Step::Ask(_) => after == mid && post.stage == (PullStage::Purge {
                            many: next,
                            held,
                        }) && step == inner,
                        Step::Done(_) => match held {
                            None => after == mid && Run::asks_all(None, post, step),
                            Some(rows) => pre.run.starts_rows(rows@, mid, post, step, after),
                        },
                    }
                };
            lemma_delete_many_keeps_cleared(many, before, reply, next, inner, mid);
            if inner is Done {
                assert(!next.failed);
                lemma_forgetting_all_empties(many, before, reply, next, inner, mid);
            }
        },
        _ => {},
    }
}

} // verus!
