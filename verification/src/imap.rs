//! What the synchroniser says to an IMAP server, and what it reads from the
//! answers.

use crate::db::ascending;
use crate::error::SyncError;
use crate::flags::ImapFlag;
use crate::meta::{Fetch, FetchResult};
use crate::text::{decimal, push_decimal, texts};
use vstd::prelude::*;
use vstd::string::*;

verus! {

/// The counters of a mailbox, as the server reports them when the mailbox is
/// selected.
#[derive(Clone, Copy, Debug, PartialEq, Eq, Structural)]
pub struct Mailbox {
    /// The epoch of the mailbox's UIDs.
    pub uid_validity: u32,
    /// The UID that the next new message will get.
    pub uid_next: u32,
    /// The server's change counter, where it keeps one.
    pub highest_mod_seq: Option<u64>,
}

/// A run of UIDs, both ends included.
#[derive(Clone, Copy, Debug, PartialEq, Eq, Structural)]
pub struct UidRange {
    pub first: u32,
    pub last: u32,
}

/// Whether a list of capability names holds `name`, letter for letter.
pub open spec fn has_atom(atoms: Seq<String>, name: Seq<char>) -> bool {
    exists|i: int| 0 <= i < atoms.len() && (#[trigger] atoms[i])@ == name
}

/// Whether a server with these capabilities can be synchronised with at all:
/// it needs `ENABLE`, `UIDPLUS` and `IDLE`.
pub open spec fn is_usable(atoms: Seq<String>) -> bool {
    has_atom(atoms, "ENABLE"@) && has_atom(atoms, "UIDPLUS"@) && has_atom(atoms, "IDLE"@)
}

/// Whether a list of capability names holds `name`.
pub fn has_capability(atoms: &[String], name: &str) -> (r: bool)
    ensures
        r == has_atom(atoms@, name@),
{
    let wanted = name.to_owned();
    let mut i: usize = 0;
    while i < atoms.len()
        invariant
            wanted@ == name@,
            i <= atoms.len(),
            forall|j: int| 0 <= j < i ==> (#[trigger] atoms[j])@ != name@,
        decreases atoms.len() - i,
    {
        if atoms[i] == wanted {
            return true;
        }
        i = i + 1;
    }
    false
}

/// Judges the capabilities that a server announced after login. A server
/// that lacks `ENABLE`, `UIDPLUS` or `IDLE` is refused; of one that has them
/// the answer says whether it also has `QRESYNC`.
pub fn check_capabilities(atoms: &[String]) -> (r: Result<bool, SyncError>)
    ensures
        is_usable(atoms@) ==> r is Ok && r->Ok_0 == has_atom(atoms@, "QRESYNC"@),
        !is_usable(atoms@) ==> r is Err && r->Err_0 is Protocol,
{
    if has_capability(atoms, "ENABLE") && has_capability(atoms, "UIDPLUS") && has_capability(
        atoms,
        "IDLE",
    ) {
        Ok(has_capability(atoms, "QRESYNC"))
    } else {
        Err(SyncError::Protocol)
    }
}

/// The required capabilities that a server lacks, in the order `ENABLE`,
/// `UIDPLUS`, `IDLE`.
pub fn missing_capabilities(atoms: &[String]) -> (r: Vec<String>)
    ensures
        texts(r@) == (if has_atom(atoms@, "ENABLE"@) {
            Seq::<Seq<char>>::empty()
        } else {
            seq!["ENABLE"@]
        }) + (if has_atom(atoms@, "UIDPLUS"@) {
            Seq::<Seq<char>>::empty()
        } else {
            seq!["UIDPLUS"@]
        }) + (if has_atom(atoms@, "IDLE"@) {
            Seq::<Seq<char>>::empty()
        } else {
            seq!["IDLE"@]
        }),
{
    let mut missing: Vec<String> = Vec::new();
    if !has_capability(atoms, "ENABLE") {
        missing.push("ENABLE".to_owned());
    }
    if !has_capability(atoms, "UIDPLUS") {
        missing.push("UIDPLUS".to_owned());
    }
    if !has_capability(atoms, "IDLE") {
        missing.push("IDLE".to_owned());
    }
    assert(texts(missing@) =~= (if has_atom(atoms@, "ENABLE"@) {
        Seq::<Seq<char>>::empty()
    } else {
        seq!["ENABLE"@]
    }) + (if has_atom(atoms@, "UIDPLUS"@) {
        Seq::<Seq<char>>::empty()
    } else {
        seq!["UIDPLUS"@]
    }) + (if has_atom(atoms@, "IDLE"@) {
        Seq::<Seq<char>>::empty()
    } else {
        seq!["IDLE"@]
    }));
    missing
}

/// The message set that names one UID.
pub fn uid_set(uid: u32) -> (r: String)
    ensures
        r@ == decimal(uid as nat),
{
    let mut s = String::new();
    push_decimal(&mut s, uid as u64);
    assert(s@ =~= decimal(uid as nat));
    s
}

/// Whether a range of UIDs can be asked for: one that is open at the top
/// always, one with an end only if the end lies above the start.
pub open spec fn range_is_valid(first: u32, last: Option<u32>) -> bool {
    match last {
        None => true,
        Some(n) => n > first,
    }
}

/// The message set of a range of UIDs: `first:*` for an open range,
/// `first:last` for a closed one.
pub open spec fn spec_fetch_range(first: u32, last: Option<u32>) -> Seq<char> {
    match last {
        None => decimal(first as nat) + ":*"@,
        Some(n) => decimal(first as nat) + ":"@ + decimal(n as nat),
    }
}

/// The message set of a range of UIDs. A closed range whose end does not lie
/// above its start is refused with the words `Invalid range first:last`.
pub fn fetch_range(first: u32, last: Option<u32>) -> (r: Result<String, SyncError>)
    ensures
        range_is_valid(first, last) ==> r is Ok && r->Ok_0@ == spec_fetch_range(first, last),
        !range_is_valid(first, last) ==> r is Err && r->Err_0.is_other(
            "Invalid range "@ + decimal(first as nat) + ":"@ + decimal(last->0 as nat),
        ),
{
    match last {
        None => {
            let mut s = String::new();
            push_decimal(&mut s, first as u64);
            s.append(":*");
            assert(s@ =~= spec_fetch_range(first, last));
            Ok(s)
        },
        Some(n) => {
            if n > first {
                let mut s = String::new();
                push_decimal(&mut s, first as u64);
                s.append(":");
                push_decimal(&mut s, n as u64);
                assert(s@ =~= spec_fetch_range(first, last));
                Ok(s)
            } else {
                let mut s = String::new();
                s.append("Invalid range ");
                push_decimal(&mut s, first as u64);
                s.append(":");
                push_decimal(&mut s, n as u64);
                assert(s@ =~= "Invalid range "@ + decimal(first as nat) + ":"@ + decimal(
                    n as nat,
                ));
                Err(SyncError::Other(s))
            }
        },
    }
}

/// The data items of a FETCH for metadata; with a change counter, the
/// modifier that asks only for what changed since, and for what vanished.
pub open spec fn spec_fetch_query(changedsince: Option<u64>) -> Seq<char> {
    match changedsince {
        None => "(UID RFC822.SIZE INTERNALDATE FLAGS)"@,
        Some(n) => "(UID RFC822.SIZE INTERNALDATE FLAGS)"@ + " (CHANGEDSINCE "@ + decimal(
            n as nat,
        ) + " VANISHED)"@,
    }
}

/// The data items of a FETCH for metadata.
pub fn fetch_query(changedsince: Option<u64>) -> (r: String)
    ensures
        r@ == spec_fetch_query(changedsince),
{
    let mut s = String::new();
    s.append("(UID RFC822.SIZE INTERNALDATE FLAGS)");
    match changedsince {
        None => {
            assert(s@ =~= spec_fetch_query(changedsince));
        },
        Some(n) => {
            s.append(" (CHANGEDSINCE ");
            push_decimal(&mut s, n);
            s.append(" VANISHED)");
            assert(s@ =~= spec_fetch_query(changedsince));
        },
    }
    s
}

/// The data items of a FETCH for metadata and the whole body, which leaves
/// the message unseen.
pub fn fetch_body_query() -> (r: String)
    ensures
        r@ == "(UID RFC822.SIZE INTERNALDATE FLAGS BODY.PEEK[])"@,
{
    "(UID RFC822.SIZE INTERNALDATE FLAGS BODY.PEEK[])".to_owned()
}

/// The name of a flag as it stands in a command.
pub open spec fn spec_flag_text(flag: ImapFlag) -> Seq<char> {
    match flag {
        ImapFlag::Seen => "\\Seen"@,
        ImapFlag::Answered => "\\Answered"@,
        ImapFlag::Flagged => "\\Flagged"@,
        ImapFlag::Deleted => "\\Deleted"@,
        ImapFlag::Draft => "\\Draft"@,
        ImapFlag::Recent => "\\Recent"@,
        ImapFlag::MayCreate => "\\*"@,
        ImapFlag::Custom(s) => s@,
    }
}

/// The name of a flag as `imap::types::Flag` prints it: a system flag as a
/// backslash and its name, `MayCreate` as `\*`, a keyword as itself.
#[verifier::external_body]
fn flag_text(flag: &ImapFlag) -> (r: String)
    ensures
        r@ == spec_flag_text(*flag),
{
    let f = match flag {
        ImapFlag::Seen => imap::types::Flag::Seen,
        ImapFlag::Answered => imap::types::Flag::Answered,
        ImapFlag::Flagged => imap::types::Flag::Flagged,
        ImapFlag::Deleted => imap::types::Flag::Deleted,
        ImapFlag::Draft => imap::types::Flag::Draft,
        ImapFlag::Recent => imap::types::Flag::Recent,
        ImapFlag::MayCreate => imap::types::Flag::MayCreate,
        ImapFlag::Custom(s) => imap::types::Flag::Custom(s.as_str().into()),
    };
    f.to_string()
}

/// The names of a list of flags with one space between neighbours.
pub open spec fn spec_flag_list(flags: Seq<ImapFlag>) -> Seq<char>
    decreases flags.len(),
{
    if flags.len() == 0 {
        Seq::empty()
    } else if flags.len() == 1 {
        spec_flag_text(flags[0])
    } else {
        spec_flag_list(flags.drop_last()) + " "@ + spec_flag_text(flags.last())
    }
}

/// The argument of a STORE that adds flags (`+FLAGS (..)`) or takes them away
/// (`-FLAGS (..)`).
pub open spec fn spec_store_query(add: bool, flags: Seq<ImapFlag>) -> Seq<char> {
    (if add {
        "+FLAGS ("@
    } else {
        "-FLAGS ("@
    }) + spec_flag_list(flags) + ")"@
}

/// The argument of a STORE that adds or removes the given flags.
pub fn store_query(add: bool, flags: &[ImapFlag]) -> (r: String)
    ensures
        r@ == spec_store_query(add, flags@),
{
    let mut s = String::new();
    if add {
        s.append("+FLAGS (");
    } else {
        s.append("-FLAGS (");
    }
    let ghost head = s@;
    let mut i: usize = 0;
    while i < flags.len()
        invariant
            i <= flags.len(),
            s@ == head + spec_flag_list(flags@.take(i as int)),
        decreases flags.len() - i,
    {
        proof {
            assert(flags@.take(i + 1).drop_last() =~= flags@.take(i as int));
            assert(flags@.take(i + 1).last() == flags@[i as int]);
            assert(flags@.take(i + 1)[0] == flags@[0]);
        }
        if i > 0 {
            s.append(" ");
        }
        let name = flag_text(&flags[i]);
        s.append(name.as_str());
        assert(s@ =~= head + spec_flag_list(flags@.take(i + 1)));
        i = i + 1;
    }
    assert(flags@.take(flags.len() as int) =~= flags@);
    s.append(")");
    s
}

/// The argument of the STORE that marks a message as deleted.
pub fn store_deleted_query() -> (r: String)
    ensures
        r@ == "+FLAGS (\\Deleted)"@,
{
    "+FLAGS (\\Deleted)".to_owned()
}

/// The command that switches quick resynchronisation on.
pub fn enable_qresync_command() -> (r: String)
    ensures
        r@ == "ENABLE QRESYNC"@,
{
    "ENABLE QRESYNC".to_owned()
}

/// The seconds after which a server that stays silent is asked again
/// during IDLE.
pub const IDLE_KEEPALIVE_SECONDS: u64 = 600;

/// One command for the server, with its arguments spelled out.
#[derive(Debug)]
pub enum Command {
    /// `LIST` with a reference name and a pattern.
    List { reference: Option<String>, pattern: Option<String> },
    /// `SELECT` of a mailbox.
    Select(String),
    /// A command that is answered with a plain OK.
    Run(String),
    /// `UID FETCH` of a message set with data items.
    UidFetch { set: String, query: String },
    /// `UID STORE` on a message set.
    UidStore { set: String, query: String },
    /// `UID EXPUNGE` of a message set.
    UidExpunge(String),
    /// `APPEND` of a message to a mailbox.
    Append { mailbox: String, flags: Vec<ImapFlag>, body: Vec<u8> },
    /// `IDLE` until the server reports something, with the seconds between
    /// two signs of life.
    Idle { keepalive: u64 },
}

/// A list of flags without `Recent`, which cannot be given to a message.
pub open spec fn without_recent(flags: Seq<ImapFlag>) -> Seq<ImapFlag>
    decreases flags.len(),
{
    if flags.len() == 0 {
        flags
    } else if flags.last() is Recent {
        without_recent(flags.drop_last())
    } else {
        without_recent(flags.drop_last()).push(flags.last())
    }
}

/// What is known of a session after login: whether the server does quick
/// resynchronisation, and which mailbox is selected.
#[derive(Debug)]
pub struct Imap {
    mailbox: Option<String>,
    qresync: bool,
}

impl Imap {
    /// The selected mailbox.
    pub closed spec fn selected(&self) -> Option<Seq<char>> {
        match self.mailbox {
            Some(m) => Some(m@),
            None => None,
        }
    }

    /// Whether the server does quick resynchronisation.
    pub closed spec fn spec_can_qresync(&self) -> bool {
        self.qresync
    }

    /// The session with a server that announced these capabilities after
    /// login. A server without `ENABLE`, `UIDPLUS` or `IDLE` is refused. No
    /// mailbox is selected yet.
    pub fn new(capabilities: &[String]) -> (r: Result<Imap, SyncError>)
        ensures
            is_usable(capabilities@) ==> r is Ok && r->Ok_0.selected() is None
                && r->Ok_0.spec_can_qresync() == has_atom(capabilities@, "QRESYNC"@),
            !is_usable(capabilities@) ==> r is Err && r->Err_0 is Protocol,
    {
        match check_capabilities(capabilities) {
            Ok(qresync) => Ok(Imap { mailbox: None, qresync }),
            Err(e) => Err(e),
        }
    }

    #[verifier::when_used_as_spec(spec_can_qresync)]
    pub fn can_qresync(&self) -> (r: bool)
        ensures
            r == self.spec_can_qresync(),
    {
        self.qresync
    }

    pub fn enable_qresync(&self) -> (r: Command)
        ensures
            r matches Command::Run(s) && s@ == "ENABLE QRESYNC"@,
    {
        Command::Run(enable_qresync_command())
    }

    pub fn list(&self, reference_name: Option<&str>, mailbox_pattern: Option<&str>) -> (r: Command)
        ensures
            r matches Command::List { reference, pattern } && (match reference_name {
                Some(x) => reference matches Some(y) && y@ == x@,
                None => reference is None,
            }) && (match mailbox_pattern {
                Some(x) => pattern matches Some(y) && y@ == x@,
                None => pattern is None,
            }),
    {
        Command::List {
            reference: match reference_name {
                Some(x) => Some(x.to_owned()),
                None => None,
            },
            pattern: match mailbox_pattern {
                Some(x) => Some(x.to_owned()),
                None => None,
            },
        }
    }

    /// The command that selects a mailbox. The session takes note of the
    /// mailbox only when it is told that the command succeeded.
    pub fn select_mailbox(&self, mailbox: &str) -> (r: Command)
        ensures
            r matches Command::Select(m) && m@ == mailbox@,
    {
        Command::Select(mailbox.to_owned())
    }

    /// Takes note that a mailbox was selected.
    pub fn mailbox_selected(&mut self, mailbox: &str)
        ensures
            final(self).selected() == Some(mailbox@),
            final(self).spec_can_qresync() == old(self).spec_can_qresync(),
    {
        self.mailbox = Some(mailbox.to_owned());
    }

    /// The command that waits for the server to report a change.
    pub fn idle(&self) -> (r: Command)
        ensures
            r == (Command::Idle { keepalive: IDLE_KEEPALIVE_SECONDS }),
    {
        Command::Idle { keepalive: IDLE_KEEPALIVE_SECONDS }
    }

    /// The command that fetches metadata and body of one message.
    pub fn fetch_uid(&self, uid: u32) -> (r: Command)
        ensures
            r matches Command::UidFetch { set, query } && set@ == decimal(uid as nat) && query@
                == "(UID RFC822.SIZE INTERNALDATE FLAGS BODY.PEEK[])"@,
    {
        Command::UidFetch { set: uid_set(uid), query: fetch_body_query() }
    }

    /// The command that fetches the metadata of one message.
    pub fn fetch_uid_meta(&self, uid: u32) -> (r: Command)
        ensures
            r matches Command::UidFetch { set, query } && set@ == decimal(uid as nat) && query@
                == spec_fetch_query(None),
    {
        Command::UidFetch { set: uid_set(uid), query: fetch_query(None) }
    }

    /// The command that fetches the metadata of a range of messages, or of
    /// those among them that changed since a change counter. A closed range
    /// whose end does not lie above its start is refused.
    pub fn fetch_uids(&self, first: u32, last: Option<u32>, changedsince: Option<u64>) -> (r:
        Result<Command, SyncError>)
        ensures
            range_is_valid(first, last) ==> (r matches Ok(Command::UidFetch { set, query }) && set@
                == spec_fetch_range(first, last) && query@ == spec_fetch_query(changedsince)),
            !range_is_valid(first, last) ==> r is Err && r->Err_0.is_other(
                "Invalid range "@ + decimal(first as nat) + ":"@ + decimal(last->0 as nat),
            ),
    {
        match fetch_range(first, last) {
            Ok(set) => Ok(Command::UidFetch { set, query: fetch_query(changedsince) }),
            Err(e) => Err(e),
        }
    }

    pub fn logout(&self) -> (r: Command)
        ensures
            r matches Command::Run(s) && s@ == "LOGOUT"@,
    {
        Command::Run("LOGOUT".to_owned())
    }

    /// The two commands that delete one message: the one that marks it as
    /// deleted, then the one that expunges it. The second is sent only if
    /// the first succeeded.
    pub fn delete_uid(&self, uid: u32) -> (r: (Command, Command))
        ensures
            r.0 matches Command::UidStore { set, query } && set@ == decimal(uid as nat) && query@
                == "+FLAGS (\\Deleted)"@,
            r.1 matches Command::UidExpunge(set) && set@ == decimal(uid as nat),
    {
        (
            Command::UidStore { set: uid_set(uid), query: store_deleted_query() },
            Command::UidExpunge(uid_set(uid)),
        )
    }

    /// The command that uploads a message into the selected mailbox, with
    /// the given flags except `Recent`. Without a selected mailbox there is
    /// nowhere to upload to.
    pub fn append(&self, body: Vec<u8>, flags: &[ImapFlag]) -> (r: Result<Command, SyncError>)
        ensures
            self.selected() is Some ==> (r matches Ok(Command::Append { mailbox, flags: f, body: b })
                && Some(mailbox@) == self.selected() && f@ == without_recent(flags@) && b == body),
            self.selected() is None ==> r is Err && r->Err_0.is_other("No mailbox selected"@),
    {
        match &self.mailbox {
            None => Err(SyncError::other("No mailbox selected")),
            Some(m) => {
                let mut kept: Vec<ImapFlag> = Vec::new();
                let mut i: usize = 0;
                while i < flags.len()
                    invariant
                        i <= flags.len(),
                        kept@ == without_recent(flags@.take(i as int)),
                    decreases flags.len() - i,
                {
                    proof {
                        assert(flags@.take(i + 1).drop_last() =~= flags@.take(i as int));
                    }
                    match &flags[i] {
                        ImapFlag::Recent => {},
                        other => {
                            kept.push(other.clone());
                        },
                    }
                    i = i + 1;
                }
                assert(flags@.take(flags.len() as int) =~= flags@);
                Ok(Command::Append { mailbox: m.clone(), flags: kept, body })
            },
        }
    }

    /// The command that adds flags to a message.
    pub fn add_flags_for_uid(&self, uid: u32, flags: &[ImapFlag]) -> (r: Command)
        ensures
            r matches Command::UidStore { set, query } && set@ == decimal(uid as nat) && query@
                == spec_store_query(true, flags@),
    {
        Command::UidStore { set: uid_set(uid), query: store_query(true, flags) }
    }

    /// The command that takes flags off a message.
    pub fn remove_flags_for_uid(&self, uid: u32, flags: &[ImapFlag]) -> (r: Command)
        ensures
            r matches Command::UidStore { set, query } && set@ == decimal(uid as nat) && query@
                == spec_store_query(false, flags@),
    {
        Command::UidStore { set: uid_set(uid), query: store_query(false, flags) }
    }
}

/// Whether a UID lies in one of the ranges.
pub open spec fn in_ranges(ranges: Seq<UidRange>, uid: u32) -> bool {
    exists|k: int| 0 <= k < ranges.len() && (#[trigger] ranges[k]).first <= uid <= ranges[k].last
}

/// Whether a UID lies in one of the ranges.
pub fn uid_in_ranges(ranges: &[UidRange], uid: u32) -> (r: bool)
    ensures
        r == in_ranges(ranges@, uid),
{
    let mut k: usize = 0;
    while k < ranges.len()
        invariant
            k <= ranges.len(),
            forall|j: int| 0 <= j < k ==> !((#[trigger] ranges[j]).first <= uid <= ranges[j].last),
        decreases ranges.len() - k,
    {
        if ranges[k].first <= uid && uid <= ranges[k].last {
            return true;
        }
        k = k + 1;
    }
    false
}

/// Of the UIDs in `known`, those that the server reported as vanished, in
/// the order of `known`.
pub fn vanished_known(known: &[u32], ranges: &[UidRange]) -> (r: Vec<u32>)
    ensures
        r@ == known@.filter(|u: u32| in_ranges(ranges@, u)),
        forall|u: u32|
            #![trigger r@.contains(u)]
            #![trigger known@.contains(u)]
            r@.contains(u) <==> known@.contains(u) && in_ranges(ranges@, u),
        ascending(known@) ==> ascending(r@),
{
    let mut out: Vec<u32> = Vec::new();
    let mut i: usize = 0;
    proof {
        reveal(Seq::filter);
        assert(known@.take(0) =~= Seq::<u32>::empty());
    }
    while i < known.len()
        invariant
            i <= known.len(),
            out@ == known@.take(i as int).filter(|u: u32| in_ranges(ranges@, u)),
        decreases known.len() - i,
    {
        proof {
            reveal(Seq::filter);
            assert(known@.take(i + 1).drop_last() =~= known@.take(i as int));
            assert(known@.take(i + 1).last() == known@[i as int]);
        }
        if uid_in_ranges(ranges, known[i]) {
            out.push(known[i]);
        }
        i = i + 1;
    }
    assert(known@.take(known.len() as int) =~= known@);
    proof {
        let pred = |u: u32| in_ranges(ranges@, u);
        assert(out@ == known@.filter(pred));
        lemma_filter_contains(known@, pred);
        if ascending(known@) {
            lemma_filter_ascending(known@, pred);
        }
    }
    out
}

/// What is picked from a list holds exactly the picked items of the list.
pub proof fn lemma_filter_contains(s: Seq<u32>, pred: spec_fn(u32) -> bool)
    ensures
        forall|u: u32|
            #![trigger s.filter(pred).contains(u)]
            #![trigger s.contains(u)]
            s.filter(pred).contains(u) <==> s.contains(u) && pred(u),
    decreases s.len(),
{
    reveal(Seq::filter);
    if s.len() > 0 {
        let rest = s.drop_last();
        lemma_filter_contains(rest, pred);
        let f = rest.filter(pred);
        let g = s.filter(pred);
        assert forall|u: u32| g.contains(u) <==> s.contains(u) && pred(u) by {
            if g.contains(u) {
                let i = choose|i: int| 0 <= i < g.len() && g[i] == u;
                if i < f.len() {
                    assert(f[i] == u);
                    assert(f.contains(u));
                    assert(rest.contains(u));
                    let k = choose|k: int| 0 <= k < rest.len() && rest[k] == u;
                    assert(s[k] == u);
                } else {
                    assert(s[s.len() - 1] == u);
                }
            }
            if s.contains(u) && pred(u) {
                let k = choose|k: int| 0 <= k < s.len() && s[k] == u;
                if k < rest.len() {
                    assert(rest[k] == u);
                    assert(rest.contains(u));
                    assert(f.contains(u));
                    let i = choose|i: int| 0 <= i < f.len() && f[i] == u;
                    assert(g[i] == u);
                } else {
                    assert(g[g.len() - 1] == u);
                }
            }
        }
    } else {
        assert(s.filter(pred) =~= Seq::<u32>::empty());
    }
}

/// What is picked from an ascending list is ascending.
pub proof fn lemma_filter_ascending(s: Seq<u32>, pred: spec_fn(u32) -> bool)
    requires
        ascending(s),
    ensures
        ascending(s.filter(pred)),
        forall|i: int|
            0 <= i < s.filter(pred).len() && s.len() > 0 ==> (#[trigger] s.filter(pred)[i])
                <= s.last(),
    decreases s.len(),
{
    reveal(Seq::filter);
    if s.len() > 0 {
        let rest = s.drop_last();
        assert forall|i: int, j: int| 0 <= i < j < rest.len() implies rest[i] < rest[j] by {
            assert(s[i] < s[j]);
        }
        lemma_filter_ascending(rest, pred);
        let f = rest.filter(pred);
        let g = s.filter(pred);
        if rest.len() > 0 {
            assert(rest.last() == s[s.len() - 2]);
            assert(s[s.len() - 2] < s.last());
        }
        assert forall|i: int, j: int| 0 <= i < j < g.len() implies g[i] < g[j] by {
            if j < f.len() {
                assert(f[i] < f[j]);
            } else {
                assert(f[i] <= rest.last());
            }
        }
    }
}

/// The position of the first row that carries UID, size and date and has
/// this UID.
pub fn find_uid_row(fetches: &[Fetch], uid: u32) -> (r: Option<usize>)
    ensures
        match r {
            Some(i) => i < fetches.len() && FetchResult::is_uid_row(&fetches[i as int])
                && fetches[i as int].uid == Some(uid) && forall|j: int|
                0 <= j < i ==> !(FetchResult::is_uid_row(&#[trigger] fetches[j]) && fetches[j].uid
                    == Some(uid)),
            None => forall|j: int|
                0 <= j < fetches.len() ==> !(FetchResult::is_uid_row(&#[trigger] fetches[j])
                    && fetches[j].uid == Some(uid)),
        },
{
    let mut i: usize = 0;
    while i < fetches.len()
        invariant
            i <= fetches.len(),
            forall|j: int|
                0 <= j < i ==> !(FetchResult::is_uid_row(&#[trigger] fetches[j]) && fetches[j].uid
                    == Some(uid)),
        decreases fetches.len() - i,
    {
        match FetchResult::from(&fetches[i]) {
            FetchResult::Uid(res) => {
                if res.uid == uid {
                    return Some(i);
                }
            },
            FetchResult::Other(_) => {},
        }
        i = i + 1;
    }
    None
}

} // verus!
