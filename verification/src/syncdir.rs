//! The engine of one mailbox: cycles of synchronisation, and the waiting
//! between them.

use crate::cache::{Cache, CacheView};
use crate::config::{names, Account};
use crate::error::SyncError;
use crate::imap::{check_capabilities, has_atom, is_usable};
use crate::pull::Pull;
use crate::push::{Lists, Push};
use crate::meta::MetaView;
use crate::request::{
    apply_op, failure_of, idle_resume, is_failure_of, is_idle_resume, row_follows_file, step_op,
    table_op, Reply, Request, Step, SyncMessage, TableOp,
};
use vstd::prelude::*;

verus! {

/// The seconds to wait before a failed cycle is tried again.
pub const RETRY_SECONDS: u64 = 10;

/// The seconds for which the watcher of the Maildir gathers events before
/// it reports them.
pub const WATCH_DEBOUNCE_SECONDS: u64 = 10;

/// What the watcher of the Maildir sends for an event of the file system:
/// `MaildirChanged` for a write to a directory, which covers everything that
/// happens to the files in it, and nothing for any other event.
pub fn watch_event(is_write: bool, is_dir: bool) -> (r: Option<SyncMessage>)
    ensures
        r == if is_write && is_dir {
            Some(SyncMessage::MaildirChanged)
        } else {
            None::<SyncMessage>
        },
{
    if is_write && is_dir {
        Some(SyncMessage::MaildirChanged)
    } else {
        None
    }
}

/// What the thread that waits on the server sends when the wait is over: an
/// `ImapError` with the reason if the wait failed, and `ImapChanged` in any
/// case, so that the engine looks at the server again.
pub fn idle_outcome(failure: Option<String>) -> (r: Vec<SyncMessage>)
    ensures
        match failure {
            Some(why) => r@ == seq![SyncMessage::ImapError(why), SyncMessage::ImapChanged],
            None => r@ == seq![SyncMessage::ImapChanged],
        },
{
    let mut out: Vec<SyncMessage> = Vec::new();
    match failure {
        Some(why) => {
            out.push(SyncMessage::ImapError(why));
        },
        None => {},
    }
    out.push(SyncMessage::ImapChanged);
    assert(match failure {
        Some(why) => out@ =~= seq![SyncMessage::ImapError(why), SyncMessage::ImapChanged],
        None => out@ =~= seq![SyncMessage::ImapChanged],
    });
    out
}

/// Where one cycle of synchronisation stands.
#[derive(Debug)]
pub enum Cycle {
    /// The caller was asked to connect and log in.
    Connect,
    /// The server was asked to switch quick resynchronisation on.
    Enable,
    /// The server was asked to select the mailbox.
    Select { quick: bool },
    /// The local side is being brought up to the server.
    Pull(Pull),
    /// The server is being brought up to the local side.
    Push(Push),
    /// The server was told goodbye.
    Logout,
    /// Nothing is pending.
    Finished,
}

impl Cycle {
    /// What the stored table was asked for last, given the cached table.
    pub open spec fn pending(self, table: Map<u32, MetaView>) -> TableOp {
        match self {
            Cycle::Pull(work) => work.pending(table),
            Cycle::Push(work) => work.pending(table),
            _ => TableOp::Nothing,
        }
    }

    /// The cycle ends with the failure that the reply stands for.
    pub open spec fn fails(reply: Reply, job: Cycle, step: Step) -> bool {
        &&& job is Finished
        &&& step matches Step::Done(Err(e))
        &&& is_failure_of(reply, e)
    }

    /// How the cycle goes on after a reply. The server side comes first and
    /// is finished before the local side begins; the first failure ends the
    /// cycle.
    pub open spec fn resumes(
        self,
        before: CacheView,
        reply: Reply,
        job: Cycle,
        step: Step,
        after: CacheView,
    ) -> bool {
        &&& after.table == if reply is Done {
            apply_op(before.table, self.pending(before.table))
        } else {
            before.table
        }
        &&& job.pending(after.table) == step_op(step)
        &&& row_follows_file(reply, step)
        &&& {
            match self {
                Cycle::Connect => {
                    &&& after == before
                    &&& match reply {
                        Reply::Capabilities(atoms) => {
                            if !is_usable(atoms@) {
                                &&& job is Finished
                                &&& step matches Step::Done(Err(e))
                                &&& e is Protocol
                            } else if has_atom(atoms@, "QRESYNC"@) {
                                job is Enable && step == Step::Ask(Request::EnableQresync)
                            } else {
                                job == (Cycle::Select { quick: false }) && step == Step::Ask(
                                    Request::Select,
                                )
                            }
                        },
                        _ => Self::fails(reply, job, step),
                    }
                },
                Cycle::Enable => {
                    &&& after == before
                    &&& match reply {
                        Reply::Done => job == (Cycle::Select { quick: true }) && step == Step::Ask(
                            Request::Select,
                        ),
                        _ => Self::fails(reply, job, step),
                    }
                },
                Cycle::Select { quick } => match reply {
                    Reply::Selected(mailbox) => exists|work: Pull, inner: Step|
                        {
                            &&& #[trigger] Pull::begins(before, mailbox, quick, work, inner, after)
                            &&& match inner {
                                Step::Ask(_) => job == Cycle::Pull(work) && step == inner,
                                Step::Done(_) => job is Finished && step == inner,
                            }
                        },
                    _ => after == before && Self::fails(reply, job, step),
                },
                Cycle::Pull(work) => exists|next: Pull, inner: Step|
                    {
                        &&& #[trigger] work.resumes(before, reply, next, inner, after)
                        &&& match inner {
                            Step::Ask(_) => job == Cycle::Pull(next) && step == inner,
                            Step::Done(Ok(_)) => {
                                &&& job matches Cycle::Push(push)
                                &&& push.stage is List
                                &&& push.lists() == (Lists {
                                    gone: Seq::empty(),
                                    changed: Seq::empty(),
                                    new: Seq::empty(),
                                    refetch: Seq::empty(),
                                })
                                &&& step == Step::Ask(Request::List)
                            },
                            Step::Done(Err(_)) => job is Finished && step == inner,
                        }
                    },
                Cycle::Push(work) => exists|next: Push, inner: Step|
                    {
                        &&& #[trigger] work.resumes(before, reply, next, inner, after)
                        &&& match inner {
                            Step::Ask(_) => job == Cycle::Push(next) && step == inner,
                            Step::Done(Ok(_)) => job is Logout && step == Step::Ask(Request::Logout),
                            Step::Done(Err(_)) => job is Finished && step == inner,
                        }
                    },
                Cycle::Logout => {
                    &&& after == before
                    &&& match reply {
                        Reply::Done => job is Finished && step == Step::Done(Ok(())),
                        _ => Self::fails(reply, job, step),
                    }
                },
                Cycle::Finished => {
                    &&& after == before
                    &&& job is Finished
                    &&& step matches Step::Done(Err(e))
                    &&& is_idle_resume(e)
                },
            }
        }
    }

    /// Starts a cycle: the caller is asked to connect.
    pub fn begin() -> (r: (Cycle, Step))
        ensures
            r.0 is Connect,
            r.1 == Step::Ask(Request::Connect),
    {
        (Cycle::Connect, Step::Ask(Request::Connect))
    }

    /// Takes the reply to the last request and says what comes next.
    pub fn resume(self, cache: &mut Cache, reply: Reply) -> (r: (Cycle, Step))
        ensures
            self.resumes(old(cache)@, reply, r.0, r.1, final(cache)@),
    {
        match self {
            Cycle::Connect => match reply {
                Reply::Capabilities(atoms) => match check_capabilities(atoms.as_slice()) {
                    Err(e) => (Cycle::Finished, Step::Done(Err(e))),
                    Ok(true) => (Cycle::Enable, Step::Ask(Request::EnableQresync)),
                    Ok(false) => (Cycle::Select { quick: false }, Step::Ask(Request::Select)),
                },
                other => (Cycle::Finished, Step::Done(Err(failure_of(other)))),
            },
            Cycle::Enable => match reply {
                Reply::Done => (Cycle::Select { quick: true }, Step::Ask(Request::Select)),
                other => (Cycle::Finished, Step::Done(Err(failure_of(other)))),
            },
            Cycle::Select { quick } => match reply {
                Reply::Selected(mailbox) => {
                    let (work, inner) = Pull::begin(cache, mailbox, quick);
                    assert(Pull::begins(old(cache)@, mailbox, quick, work, inner, cache@));
                    match inner {
                        Step::Ask(req) => (Cycle::Pull(work), Step::Ask(req)),
                        Step::Done(res) => (Cycle::Finished, Step::Done(res)),
                    }
                },
                other => (Cycle::Finished, Step::Done(Err(failure_of(other)))),
            },
            Cycle::Pull(work) => {
                let (next, inner) = work.resume(cache, reply);
                assert(work.resumes(old(cache)@, reply, next, inner, cache@));
                match inner {
                    Step::Ask(req) => (Cycle::Pull(next), Step::Ask(req)),
                    Step::Done(Ok(u)) => {
                        let (push, step) = Push::begin();
                        (Cycle::Push(push), step)
                    },
                    Step::Done(Err(e)) => (Cycle::Finished, Step::Done(Err(e))),
                }
            },
            Cycle::Push(work) => {
                let (next, inner) = work.resume(cache, reply);
                assert(work.resumes(old(cache)@, reply, next, inner, cache@));
                match inner {
                    Step::Ask(req) => (Cycle::Push(next), Step::Ask(req)),
                    Step::Done(Ok(u)) => (Cycle::Logout, Step::Ask(Request::Logout)),
                    Step::Done(Err(e)) => (Cycle::Finished, Step::Done(Err(e))),
                }
            },
            Cycle::Logout => match reply {
                Reply::Done => (Cycle::Finished, Step::Done(Ok(()))),
                other => (Cycle::Finished, Step::Done(Err(failure_of(other)))),
            },
            Cycle::Finished => (Cycle::Finished, Step::Done(Err(idle_resume()))),
        }
    }
}

/// The state of the engine, seen from outside.
#[derive(Clone, Copy, Debug, PartialEq, Eq, Structural)]
pub enum EngineState {
    /// Not started.
    Idle,
    /// A cycle is under way.
    Syncing,
    /// The engine waits for the server or the Maildir to change.
    Waiting,
    /// A cycle failed; the engine waits before it tries again.
    Retrying,
    /// The engine has come to its end.
    Exiting,
}

/// What the engine is busy with.
#[derive(Debug)]
pub enum Stage {
    /// Not started.
    Idle,
    /// A cycle is under way.
    Cycle(Cycle),
    /// The caller was asked to start the thread that waits on the server.
    SpawnIdle,
    /// The caller was asked to start the thread that watches the Maildir.
    SpawnWatch,
    /// The caller was asked to wait for a message.
    Wait,
    /// The caller was asked for a further message, if one is waiting.
    Poll,
    /// The caller was asked to sleep.
    Sleep,
    /// The engine has come to its end.
    Exited,
}

/// The synchroniser of one mailbox: the IMAP side, the Maildir and the cache
/// between them.
#[derive(Debug)]
pub struct SyncDir {
    pub config: Account,
    pub mailbox: String,
    pub cache: Cache,
    /// Whether the thread that waits on the server is running.
    pub idle_armed: bool,
    /// Whether the thread that watches the Maildir is running.
    pub watch_armed: bool,
    pub stage: Stage,
}

impl SyncDir {
    /// What the stored table was asked for last.
    pub open spec fn pending(&self) -> TableOp {
        match self.stage {
            Stage::Cycle(cycle) => cycle.pending(self.cache@.table),
            _ => TableOp::Nothing,
        }
    }

    /// Whether the mailbox is kept under watch after a cycle.
    pub open spec fn spec_should_idle(&self) -> bool {
        self.config.idle is None || names(self.config.idle->0@, self.mailbox@)
    }

    /// The state of the engine.
    pub open spec fn spec_state(&self) -> EngineState {
        match self.stage {
            Stage::Idle => EngineState::Idle,
            Stage::Cycle(_) | Stage::SpawnIdle | Stage::SpawnWatch => EngineState::Syncing,
            Stage::Wait | Stage::Poll => EngineState::Waiting,
            Stage::Sleep => EngineState::Retrying,
            Stage::Exited => EngineState::Exiting,
        }
    }

    /// Nothing but the stage and the watchers changed.
    pub open spec fn same_mailbox(&self, other: &SyncDir) -> bool {
        &&& other.config == self.config
        &&& other.mailbox == self.mailbox
    }

    /// A new cycle begins.
    pub open spec fn starts_cycle(&self, job: &SyncDir, step: Step) -> bool {
        &&& job.stage matches Stage::Cycle(Cycle::Connect)
        &&& step == Step::Ask(Request::Connect)
        &&& job.cache@ == self.cache@
    }

    /// The engine ends with the given result.
    pub open spec fn exits(&self, job: &SyncDir, step: Step, res: Result<(), SyncError>) -> bool {
        &&& job.stage is Exited
        &&& step == Step::Done(res)
        &&& job.cache@ == self.cache@
    }

    /// What follows a failure: a pause before the next attempt, or the end
    /// where the failure is a cancellation.
    pub open spec fn retries(&self, e: SyncError, job: &SyncDir, step: Step) -> bool {
        &&& job.cache@ == self.cache@
        &&& if e is Cancelled {
            job.stage is Exited && step == Step::Done(Err(e))
        } else {
            job.stage is Sleep && step == Step::Ask(Request::Sleep(RETRY_SECONDS))
        }
    }

    /// The watchers are started where they are not running, and then the
    /// engine waits.
    pub open spec fn arms(idle_armed: bool, watch_armed: bool, job: &SyncDir, step: Step) -> bool {
        &&& job.idle_armed == idle_armed
        &&& job.watch_armed == watch_armed
        &&& if !idle_armed {
            job.stage is SpawnIdle && step == Step::Ask(Request::SpawnIdle)
        } else if !watch_armed {
            job.stage is SpawnWatch && step == Step::Ask(Request::SpawnWatch)
        } else {
            job.stage is Wait && step == Step::Ask(Request::Wait)
        }
    }

    /// What a message of the mailbox's threads leads to. `Exit` ends the
    /// engine. After `ImapChanged` the thread that waited on the server is
    /// over. Any other message is only taken note of. Then the engine asks for
    /// the next message that waits already, so that a burst of messages
    /// starts one cycle only.
    pub open spec fn takes_message(&self, msg: SyncMessage, job: &SyncDir, step: Step) -> bool {
        &&& job.cache@ == self.cache@
        &&& job.watch_armed == self.watch_armed
        &&& match msg {
            SyncMessage::Exit => job.stage is Exited && step == Step::Done(Ok(()))
                && job.idle_armed == self.idle_armed,
            SyncMessage::ImapChanged => job.stage is Poll && step == Step::Ask(Request::Poll)
                && !job.idle_armed,
            _ => job.stage is Poll && step == Step::Ask(Request::Poll) && job.idle_armed
                == self.idle_armed,
        }
    }

    /// How the engine goes on after a reply. The cached table changes only
    /// in answer to a reply that says that the work was done, and then by
    /// what the stored table was asked for.
    pub open spec fn syncs(&self, reply: Reply, job: &SyncDir, step: Step) -> bool {
        &&& self.same_mailbox(job)
        &&& job.cache@.table == if reply is Done {
            apply_op(self.cache@.table, self.pending())
        } else {
            self.cache@.table
        }
        &&& job.pending() == step_op(step)
        &&& row_follows_file(reply, step)
        &&& match self.stage {
            Stage::Idle => {
                &&& self.starts_cycle(job, step)
                &&& job.idle_armed == self.idle_armed
                &&& job.watch_armed == self.watch_armed
            },
            Stage::Cycle(cycle) => exists|next: Cycle, inner: Step|
                {
                    &&& #[trigger] cycle.resumes(self.cache@, reply, next, inner, job.cache@)
                    &&& match inner {
                        Step::Ask(_) => {
                            &&& job.stage == Stage::Cycle(next)
                            &&& step == inner
                            &&& job.idle_armed == self.idle_armed
                            &&& job.watch_armed == self.watch_armed
                        },
                        Step::Done(Ok(_)) => {
                            if self.spec_should_idle() {
                                Self::arms(self.idle_armed, self.watch_armed, job, step)
                            } else {
                                &&& job.stage is Exited
                                &&& step == Step::Done(Ok(()))
                                &&& job.idle_armed == self.idle_armed
                                &&& job.watch_armed == self.watch_armed
                            }
                        },
                        Step::Done(Err(e)) => {
                            &&& job.idle_armed == self.idle_armed
                            &&& job.watch_armed == self.watch_armed
                            &&& if e is Cancelled {
                                job.stage is Exited && step == inner
                            } else {
                                job.stage is Sleep && step == Step::Ask(
                                    Request::Sleep(RETRY_SECONDS),
                                )
                            }
                        },
                    }
                },
            Stage::SpawnIdle => match reply {
                Reply::Done => job.cache@ == self.cache@ && Self::arms(
                    true,
                    self.watch_armed,
                    job,
                    step,
                ),
                _ => self.goes_wrong(reply, job, step),
            },
            Stage::SpawnWatch => match reply {
                Reply::Done => job.cache@ == self.cache@ && Self::arms(
                    self.idle_armed,
                    true,
                    job,
                    step,
                ),
                _ => self.goes_wrong(reply, job, step),
            },
            Stage::Wait => match reply {
                Reply::Message(msg) => self.takes_message(msg, job, step),
                _ => self.goes_wrong(reply, job, step),
            },
            Stage::Poll => match reply {
                Reply::Message(msg) => self.takes_message(msg, job, step),
                Reply::Empty => {
                    &&& self.starts_cycle(job, step)
                    &&& job.idle_armed == self.idle_armed
                    &&& job.watch_armed == self.watch_armed
                },
                _ => self.goes_wrong(reply, job, step),
            },
            Stage::Sleep => match reply {
                Reply::Done => {
                    &&& self.starts_cycle(job, step)
                    &&& job.idle_armed == self.idle_armed
                    &&& job.watch_armed == self.watch_armed
                },
                Reply::Message(SyncMessage::Exit) => {
                    &&& self.exits(job, step, Ok(()))
                    &&& job.idle_armed == self.idle_armed
                    &&& job.watch_armed == self.watch_armed
                },
                _ => self.goes_wrong(reply, job, step),
            },
            Stage::Exited => {
                &&& job.stage is Exited
                &&& job.cache@ == self.cache@
                &&& job.idle_armed == self.idle_armed
                &&& job.watch_armed == self.watch_armed
                &&& step matches Step::Done(Err(e))
                &&& is_idle_resume(e)
            },
        }
    }

    /// A reply other than the one hoped for is a failure like any other.
    pub open spec fn goes_wrong(&self, reply: Reply, job: &SyncDir, step: Step) -> bool {
        &&& job.idle_armed == self.idle_armed
        &&& job.watch_armed == self.watch_armed
        &&& exists|e: SyncError| #[trigger] is_failure_of(reply, e) && self.retries(e, job, step)
    }

    /// Makes the synchroniser of a mailbox from the account's description
    /// and the mailbox's cache.
    pub fn new(config: Account, mailbox: String, cache: Cache) -> (r: SyncDir)
        ensures
            r.config == config,
            r.mailbox == mailbox,
            r.cache@ == cache@,
            !r.idle_armed && !r.watch_armed,
            r.spec_state() == EngineState::Idle,
    {
        SyncDir {
            config,
            mailbox,
            cache,
            idle_armed: false,
            watch_armed: false,
            stage: Stage::Idle,
        }
    }

    /// Whether the mailbox is kept under watch after a cycle.
    #[verifier::when_used_as_spec(spec_should_idle)]
    pub fn should_idle(&self) -> (r: bool)
        ensures
            r == self.spec_should_idle(),
    {
        self.config.is_mailbox_idled(self.mailbox.as_str())
    }

    /// The state of the engine.
    #[verifier::when_used_as_spec(spec_state)]
    pub fn state(&self) -> (r: EngineState)
        ensures
            r == self.spec_state(),
    {
        match &self.stage {
            Stage::Idle => EngineState::Idle,
            Stage::Cycle(_) | Stage::SpawnIdle | Stage::SpawnWatch => EngineState::Syncing,
            Stage::Wait | Stage::Poll => EngineState::Waiting,
            Stage::Sleep => EngineState::Retrying,
            Stage::Exited => EngineState::Exiting,
        }
    }

    fn arm(config: Account, mailbox: String, cache: Cache, idle_armed: bool, watch_armed: bool) -> (r:
        (SyncDir, Step))
        ensures
            r.0.config == config,
            r.0.mailbox == mailbox,
            r.0.cache@ == cache@,
            Self::arms(idle_armed, watch_armed, &r.0, r.1),
    {
        if !idle_armed {
            (
                SyncDir { config, mailbox, cache, idle_armed, watch_armed, stage: Stage::SpawnIdle },
                Step::Ask(Request::SpawnIdle),
            )
        } else if !watch_armed {
            (
                SyncDir { config, mailbox, cache, idle_armed, watch_armed, stage: Stage::SpawnWatch },
                Step::Ask(Request::SpawnWatch),
            )
        } else {
            (
                SyncDir { config, mailbox, cache, idle_armed, watch_armed, stage: Stage::Wait },
                Step::Ask(Request::Wait),
            )
        }
    }

    fn retry(
        config: Account,
        mailbox: String,
        cache: Cache,
        idle_armed: bool,
        watch_armed: bool,
        e: SyncError,
    ) -> (r: (SyncDir, Step))
        ensures
            r.0.config == config,
            r.0.mailbox == mailbox,
            r.0.cache@ == cache@,
            r.0.idle_armed == idle_armed,
            r.0.watch_armed == watch_armed,
            if e is Cancelled {
                r.0.stage is Exited && r.1 == Step::Done(Err(e))
            } else {
                r.0.stage is Sleep && r.1 == Step::Ask(Request::Sleep(RETRY_SECONDS))
            },
    {
        if e.retries() {
            (
                SyncDir { config, mailbox, cache, idle_armed, watch_armed, stage: Stage::Sleep },
                Step::Ask(Request::Sleep(RETRY_SECONDS)),
            )
        } else {
            (
                SyncDir { config, mailbox, cache, idle_armed, watch_armed, stage: Stage::Exited },
                Step::Done(Err(e)),
            )
        }
    }

    fn start_cycle(
        config: Account,
        mailbox: String,
        cache: Cache,
        idle_armed: bool,
        watch_armed: bool,
    ) -> (r: (SyncDir, Step))
        ensures
            r.0.config == config,
            r.0.mailbox == mailbox,
            r.0.cache@ == cache@,
            r.0.idle_armed == idle_armed,
            r.0.watch_armed == watch_armed,
            r.0.stage matches Stage::Cycle(Cycle::Connect),
            r.1 == Step::Ask(Request::Connect),
    {
        let (cycle, step) = Cycle::begin();
        (SyncDir { config, mailbox, cache, idle_armed, watch_armed, stage: Stage::Cycle(cycle) }, step)
    }

    fn take_message(
        config: Account,
        mailbox: String,
        cache: Cache,
        idle_armed: bool,
        watch_armed: bool,
        msg: SyncMessage,
    ) -> (r: (SyncDir, Step))
        ensures
            r.0.config == config,
            r.0.mailbox == mailbox,
            r.0.cache@ == cache@,
            r.0.watch_armed == watch_armed,
            match msg {
                SyncMessage::Exit => r.0.stage is Exited && r.1 == Step::Done(Ok(()))
                    && r.0.idle_armed == idle_armed,
                SyncMessage::ImapChanged => r.0.stage is Poll && r.1 == Step::Ask(Request::Poll)
                    && !r.0.idle_armed,
                _ => r.0.stage is Poll && r.1 == Step::Ask(Request::Poll) && r.0.idle_armed
                    == idle_armed,
            },
    {
        match msg {
            SyncMessage::Exit => (
                SyncDir { config, mailbox, cache, idle_armed, watch_armed, stage: Stage::Exited },
                Step::Done(Ok(())),
            ),
            SyncMessage::ImapChanged => (
                SyncDir {
                    config,
                    mailbox,
                    cache,
                    idle_armed: false,
                    watch_armed,
                    stage: Stage::Poll,
                },
                Step::Ask(Request::Poll),
            ),
            _ => (
                SyncDir { config, mailbox, cache, idle_armed, watch_armed, stage: Stage::Poll },
                Step::Ask(Request::Poll),
            ),
        }
    }

    /// Runs the engine one step further. The first call starts the first
    /// cycle, whatever the reply; every later call takes the reply to the
    /// request that the call before it made.
    ///
    /// A cycle that fails is tried again after a pause. After a cycle that
    /// went well the engine ends if the mailbox is not kept under watch;
    /// otherwise it starts the watchers, waits for a message, takes all
    /// messages that wait, and begins the next cycle.
    pub fn sync(self, reply: Reply) -> (r: (SyncDir, Step))
        ensures
            self.syncs(reply, &r.0, r.1),
    {
        let SyncDir { config, mailbox, cache, idle_armed, watch_armed, stage } = self;
        match stage {
            Stage::Idle => Self::start_cycle(config, mailbox, cache, idle_armed, watch_armed),
            Stage::Cycle(cycle) => {
                let mut cache = cache;
                let (next, inner) = cycle.resume(&mut cache, reply);
                let ghost mid = cache@;
                let r = match inner {
                    Step::Ask(req) => (
                        SyncDir {
                            config,
                            mailbox,
                            cache,
                            idle_armed,
                            watch_armed,
                            stage: Stage::Cycle(next),
                        },
                        Step::Ask(req),
                    ),
                    Step::Done(Ok(u)) => {
                        if config.is_mailbox_idled(mailbox.as_str()) {
                            Self::arm(config, mailbox, cache, idle_armed, watch_armed)
                        } else {
                            (
                                SyncDir {
                                    config,
                                    mailbox,
                                    cache,
                                    idle_armed,
                                    watch_armed,
                                    stage: Stage::Exited,
                                },
                                Step::Done(Ok(())),
                            )
                        }
                    },
                    Step::Done(Err(e)) => Self::retry(
                        config,
                        mailbox,
                        cache,
                        idle_armed,
                        watch_armed,
                        e,
                    ),
                };
                assert(r.0.cache@ == mid);
                assert(cycle.resumes(self.cache@, reply, next, inner, r.0.cache@));
                r
            },
            Stage::SpawnIdle => match reply {
                Reply::Done => Self::arm(config, mailbox, cache, true, watch_armed),
                other => {
                    let e = failure_of(other);
                    assert(is_failure_of(reply, e));
                    Self::retry(config, mailbox, cache, idle_armed, watch_armed, e)
                },
            },
            Stage::SpawnWatch => match reply {
                Reply::Done => Self::arm(config, mailbox, cache, idle_armed, true),
                other => {
                    let e = failure_of(other);
                    assert(is_failure_of(reply, e));
                    Self::retry(config, mailbox, cache, idle_armed, watch_armed, e)
                },
            },
            Stage::Wait => match reply {
                Reply::Message(msg) => Self::take_message(
                    config,
                    mailbox,
                    cache,
                    idle_armed,
                    watch_armed,
                    msg,
                ),
                other => {
                    let e = failure_of(other);
                    assert(is_failure_of(reply, e));
                    Self::retry(config, mailbox, cache, idle_armed, watch_armed, e)
                },
            },
            Stage::Poll => match reply {
                Reply::Message(msg) => Self::take_message(
                    config,
                    mailbox,
                    cache,
                    idle_armed,
                    watch_armed,
                    msg,
                ),
                Reply::Empty => Self::start_cycle(config, mailbox, cache, idle_armed, watch_armed),
                other => {
                    let e = failure_of(other);
                    assert(is_failure_of(reply, e));
                    Self::retry(config, mailbox, cache, idle_armed, watch_armed, e)
                },
            },
            Stage::Sleep => match reply {
                Reply::Done => Self::start_cycle(config, mailbox, cache, idle_armed, watch_armed),
                Reply::Message(SyncMessage::Exit) => (
                    SyncDir { config, mailbox, cache, idle_armed, watch_armed, stage: Stage::Exited },
                    Step::Done(Ok(())),
                ),
                other => {
                    let e = failure_of(other);
                    assert(is_failure_of(reply, e));
                    Self::retry(config, mailbox, cache, idle_armed, watch_armed, e)
                },
            },
            Stage::Exited => (
                SyncDir { config, mailbox, cache, idle_armed, watch_armed, stage: Stage::Exited },
                Step::Done(Err(idle_resume())),
            ),
        }
    }
}

/// The engine changes its state only along these lines: it starts into a
/// cycle; from a cycle it goes on to waiting, to a pause before the next
/// attempt, or to its end; from waiting and from a pause it goes into the
/// next cycle or to its end; at its end it stays.
pub proof fn lemma_state_machine(pre: SyncDir, reply: Reply, post: SyncDir, step: Step)
    requires
        pre.syncs(reply, &post, step),
    ensures
        match pre.spec_state() {
            EngineState::Idle => post.spec_state() == EngineState::Syncing,
            EngineState::Syncing => post.spec_state() == EngineState::Syncing || post.spec_state()
                == EngineState::Waiting || post.spec_state() == EngineState::Retrying
                || post.spec_state() == EngineState::Exiting,
            EngineState::Waiting => post.spec_state() == EngineState::Waiting || post.spec_state()
                == EngineState::Syncing || post.spec_state() == EngineState::Retrying
                || post.spec_state() == EngineState::Exiting,
            EngineState::Retrying => post.spec_state() == EngineState::Syncing || post.spec_state()
                == EngineState::Retrying || post.spec_state() == EngineState::Exiting,
            EngineState::Exiting => post.spec_state() == EngineState::Exiting,
        },
        reply matches Reply::Message(SyncMessage::Exit) && (pre.spec_state() == EngineState::Waiting
            || pre.spec_state() == EngineState::Retrying) ==> post.spec_state()
            == EngineState::Exiting && step == Step::Done(Ok(())),
        post.spec_state() == EngineState::Exiting <==> step is Done,
{
}

/// The cache follows the stored table. When the engine has asked for
/// something and is told that it was done, the cached table is what the
/// stored table has become: it holds a new row after an insertion, the new
/// record after an update, no row after a deletion, and is the same after any
/// other request. What failed leaves the cached table as it was.
pub proof fn lemma_cache_mirrors_table(
    e0: SyncDir,
    r0: Reply,
    e1: SyncDir,
    asked: Request,
    reply: Reply,
    e2: SyncDir,
    s2: Step,
)
    requires
        e0.syncs(r0, &e1, Step::Ask(asked)),
        e1.syncs(reply, &e2, s2),
    ensures
        reply is Done ==> e2.cache@.table == apply_op(e1.cache@.table, table_op(asked)),
        !(reply is Done) ==> e2.cache@.table == e1.cache@.table,
{
}

/// The file comes before the row, whatever the engine is busy with: it asks
/// the stored table for a new row only in answer to the Maildir's word that
/// the message was stored, and under the ID that the Maildir gave.
pub proof fn lemma_engine_stores_file_first(pre: SyncDir, reply: Reply, post: SyncDir, step: Step)
    requires
        pre.syncs(reply, &post, step),
        step matches Step::Ask(Request::DbInsert(_)),
    ensures
        reply matches Reply::Stored(id) && step matches Step::Ask(Request::DbInsert(meta))
            && meta@.id == id@,
{
}

} // verus!
