//! The cache of one mailbox: the table of known messages together with the
//! state record.

use crate::db::{
    ascending, distinct_uids, has_id, is_first_with_id, is_last_with_id, is_listed_in, table_of, Db,
    DbError,
};
use crate::flags::{flags_of_imap, SyncFlags};
use crate::imap::Mailbox;
use crate::meta::{MessageMeta, MetaView, RowView, UidResult};
use crate::statefile::{blank_state, StateFile, StateFileFields};
use vstd::hash_map::StringHashMap;
use vstd::prelude::*;
use vstd::string::*;

verus! {

/// The directory of a mailbox's cache: `cache/<account>/<mailbox>` under
/// the program's directory.
pub open spec fn spec_path(dir: Seq<char>, account: Seq<char>, mailbox: Seq<char>) -> Seq<char> {
    dir + "/cache/"@ + account + "/"@ + mailbox
}

/// The directory of the cache of the given account and mailbox.
pub fn path(dir: &str, account: &str, mailbox: &str) -> (r: String)
    ensures
        r@ == spec_path(dir@, account@, mailbox@),
{
    let mut s = dir.to_owned();
    s.append("/cache/");
    s.append(account);
    s.append("/");
    s.append(mailbox);
    s
}

/// The file of the cache table: `db.sqlite` in the cache's directory.
pub fn db_path(dir: &str, account: &str, mailbox: &str) -> (r: String)
    ensures
        r@ == spec_path(dir@, account@, mailbox@) + "/db.sqlite"@,
{
    let mut s = path(dir, account, mailbox);
    s.append("/db.sqlite");
    s
}

/// The file of the state record: `state` in the cache's directory.
pub fn statefile(dir: &str, account: &str, mailbox: &str) -> (r: String)
    ensures
        r@ == spec_path(dir@, account@, mailbox@) + "/state"@,
{
    let mut s = path(dir, account, mailbox);
    s.append("/state");
    s
}

/// What a cache holds, as mathematical values.
pub struct CacheView {
    /// The known messages by UID.
    pub table: Map<u32, MetaView>,
    /// The state record.
    pub state: StateFileFields,
}

/// The record that a FETCH row gives for a message stored under `id`.
pub open spec fn meta_of_row(id: Seq<char>, row: RowView) -> MetaView {
    MetaView {
        id,
        size: row.size,
        flags: flags_of_imap(row.flags),
        uid: row.uid,
        internal_date_millis: row.internal_date_millis,
    }
}

/// The state record after the server side was synchronised with a mailbox.
/// The change counter is taken over only after a quick synchronisation, and
/// only where the server reported one.
pub open spec fn state_after_imap(
    old: StateFileFields,
    mailbox: Mailbox,
    quick: bool,
    now: i64,
) -> StateFileFields {
    StateFileFields {
        imap_last: now,
        uid_validity: mailbox.uid_validity,
        uid_next: mailbox.uid_next,
        highest_mod_seq: if quick && mailbox.highest_mod_seq is Some {
            mailbox.highest_mod_seq->0
        } else {
            old.highest_mod_seq
        },
        ..old
    }
}

/// The cache of one mailbox.
#[derive(Debug)]
pub struct Cache {
    db: Db,
    state: StateFile,
}

impl View for Cache {
    type V = CacheView;

    closed spec fn view(&self) -> CacheView {
        CacheView { table: self.db@, state: self.state@ }
    }
}

impl Cache {
    /// Opens the cache from what was stored: the table's rows and the state
    /// record, each `None` where nothing was stored yet. Rows that share a
    /// UID are refused.
    pub fn new(rows: Option<Vec<MessageMeta>>, stored: Option<StateFileFields>) -> (r: Result<
        Cache,
        DbError,
    >)
        ensures
            rows is Some && !distinct_uids(rows->0@) ==> r == Err::<Cache, DbError>(
                DbError::UidExists,
            ),
            rows is None || distinct_uids(rows->0@) ==> r is Ok && r->Ok_0@.table == (match rows {
                Some(v) => table_of(v@),
                None => Map::<u32, MetaView>::empty(),
            }) && r->Ok_0@.state == (match stored {
                Some(fields) => fields,
                None => blank_state(),
            }),
    {
        match Db::from_file(rows) {
            Ok(db) => Ok(Cache { db, state: StateFile::new(stored) }),
            Err(e) => Err(e),
        }
    }

    /// Whether the cached UIDs belong to the epoch that the server reports.
    pub fn is_valid(&self, mailbox: &Mailbox) -> (r: bool)
        ensures
            r == (self@.state.uid_validity == mailbox.uid_validity),
    {
        self.state.uid_validity() == mailbox.uid_validity
    }

    /// Records the mailbox's counters at the time `now` and returns the
    /// record to store.
    pub fn update_imap_state_at(&mut self, mailbox: &Mailbox, quick: bool, now: i64) -> (r:
        StateFileFields)
        ensures
            r == state_after_imap(old(self)@.state, *mailbox, quick, now),
            final(self)@ == (CacheView { state: r, ..old(self)@ }),
    {
        let seq = match mailbox.highest_mod_seq {
            Some(n) if quick => n,
            _ => self.state.highest_mod_seq(),
        };
        self.state.update_imap_at(mailbox.uid_validity, mailbox.uid_next, seq, now);
        self.state.fields()
    }

    /// Records the mailbox's counters at the current time and returns the
    /// record to store.
    pub fn update_imap_state(&mut self, mailbox: &Mailbox, quick: bool) -> (r: StateFileFields)
        ensures
            r == state_after_imap(old(self)@.state, *mailbox, quick, r.imap_last),
            final(self)@ == (CacheView { state: r, ..old(self)@ }),
    {
        let seq = match mailbox.highest_mod_seq {
            Some(n) if quick => n,
            _ => self.state.highest_mod_seq(),
        };
        self.state.update_imap(mailbox.uid_validity, mailbox.uid_next, seq);
        self.state.fields()
    }

    pub fn get_last_seen_uid(&self) -> (r: u32)
        ensures
            r == self@.state.last_seen_uid,
    {
        self.state.last_seen_uid()
    }

    pub fn get_highest_mod_seq(&self) -> (r: u64)
        ensures
            r == self@.state.highest_mod_seq,
    {
        self.state.highest_mod_seq()
    }

    /// Sets the high-water mark of UIDs and returns the record to store.
    pub fn set_last_seen_uid(&mut self, uid: u32) -> (r: StateFileFields)
        ensures
            r == (StateFileFields { last_seen_uid: uid, ..old(self)@.state }),
            final(self)@ == (CacheView { state: r, ..old(self)@ }),
    {
        self.state.set_last_seen_uid(uid);
        self.state.fields()
    }

    /// The state record as it stands.
    pub fn state(&self) -> (r: StateFileFields)
        ensures
            r == self@.state,
    {
        self.state.fields()
    }

    /// All cached UIDs, ascending.
    pub fn get_known_uids(&self) -> (r: Vec<u32>)
        ensures
            ascending(r@),
            forall|u: u32|
                #![trigger r@.contains(u)]
                #![trigger self@.table.dom().contains(u)]
                r@.contains(u) <==> self@.table.dom().contains(u),
    {
        self.db.get_uids()
    }

    /// The cached records by Maildir ID; of several with one ID, the one
    /// with the greatest UID.
    pub fn get_known_ids(&self) -> (r: StringHashMap<MessageMeta>)
        ensures
            forall|id: Seq<char>|
                #![trigger r@.contains_key(id)]
                #![trigger has_id(self@.table, id)]
                r@.contains_key(id) <==> has_id(self@.table, id),
            forall|id: Seq<char>| #[trigger]
                r@.contains_key(id) ==> is_last_with_id(self@.table, id, r@[id]@.uid) && r@[id]@
                    == self@.table[r@[id]@.uid],
    {
        self.db.get_ids()
    }

    /// The UIDs, ascending, of the cached messages that an index by Maildir
    /// ID still points to.
    pub fn uids_listed_in(&self, ids: &StringHashMap<MessageMeta>) -> (r: Vec<u32>)
        ensures
            ascending(r@),
            forall|u: u32|
                #![trigger r@.contains(u)]
                #![trigger self@.table.dom().contains(u)]
                r@.contains(u) <==> self@.table.dom().contains(u) && is_listed_in(
                    self@.table[u],
                    ids@,
                ),
    {
        self.db.uids_listed_in(ids)
    }

    /// The number of cached messages.
    pub fn num_entries(&self) -> (r: i64)
        ensures
            self@.table.dom().finite(),
            r == self@.table.dom().len(),
    {
        self.db.num_entries()
    }

    /// Records the time `now` as that of the Maildir side's synchronisation
    /// and returns the record to store.
    pub fn update_maildir_state_at(&mut self, now: i64) -> (r: StateFileFields)
        ensures
            r == (StateFileFields { maildir_last: now, ..old(self)@.state }),
            final(self)@ == (CacheView { state: r, ..old(self)@ }),
    {
        self.state.update_maildir_at(now);
        self.state.fields()
    }

    /// Records the current time as that of the Maildir side's
    /// synchronisation and returns the record to store.
    pub fn update_maildir_state(&mut self) -> (r: StateFileFields)
        ensures
            r == (StateFileFields { maildir_last: r.maildir_last, ..old(self)@.state }),
            final(self)@ == (CacheView { state: r, ..old(self)@ }),
    {
        self.state.update_maildir();
        self.state.fields()
    }

    /// The cached record with this UID.
    pub fn get_uid(&self, uid: u32) -> (r: Result<MessageMeta, DbError>)
        ensures
            match r {
                Ok(m) => self@.table.dom().contains(uid) && m@ == self@.table[uid],
                Err(e) => e == DbError::NoSuchRow && !self@.table.dom().contains(uid),
            },
    {
        self.db.get_uid(uid)
    }

    /// Forgets the message with this UID. A UID that is not cached is no
    /// error.
    pub fn delete_uid(&mut self, uid: u32) -> (r: Result<(), DbError>)
        ensures
            r == Ok::<(), DbError>(()),
            final(self)@ == (CacheView { table: old(self)@.table.remove(uid), ..old(self)@ }),
    {
        self.db.delete_uid(uid)
    }

    /// The cached record with this Maildir ID; of several, the one with the
    /// least UID.
    pub fn get_id(&self, id: &str) -> (r: Result<MessageMeta, DbError>)
        ensures
            match r {
                Ok(m) => is_first_with_id(self@.table, id@, m@.uid) && m@ == self@.table[m@.uid],
                Err(e) => e == DbError::NoSuchRow && !has_id(self@.table, id@),
            },
    {
        self.db.get_id(id)
    }

    /// Caches a message that was stored in the Maildir under `id`, from the
    /// FETCH row that described it. The high-water mark of UIDs rises to the
    /// row's UID where that is greater, and only when the row went in. A UID
    /// that is cached already is refused and nothing changes.
    pub fn add(&mut self, id: &str, uidres: &UidResult) -> (r: Result<MessageMeta, DbError>)
        ensures
            old(self)@.table.dom().contains(uidres.uid) ==> r == Err::<MessageMeta, DbError>(
                DbError::UidExists,
            ) && final(self)@ == old(self)@,
            !old(self)@.table.dom().contains(uidres.uid) ==> r is Ok && r->Ok_0@ == meta_of_row(
                id@,
                uidres@,
            ) && final(self)@ == (CacheView {
                table: old(self)@.table.insert(uidres.uid, meta_of_row(id@, uidres@)),
                state: StateFileFields {
                    last_seen_uid: if uidres.uid > old(self)@.state.last_seen_uid {
                        uidres.uid
                    } else {
                        old(self)@.state.last_seen_uid
                    },
                    ..old(self)@.state
                },
            }),
    {
        let meta = MessageMeta::new(
            id,
            uidres.size,
            SyncFlags::from_imap(uidres.flags),
            uidres.uid,
            uidres.internal_date_millis,
        );
        match self.db.add(&meta) {
            Ok(()) => {
                if uidres.uid > self.state.last_seen_uid() {
                    self.state.set_last_seen_uid(uidres.uid);
                }
                Ok(meta)
            },
            Err(e) => Err(e),
        }
    }

    /// Brings the cached record of the row's UID up to the row: size, date
    /// and flags are taken over, the Maildir ID stays. Without a record of
    /// that UID the call is refused and nothing changes.
    pub fn update(&mut self, uidres: &UidResult) -> (r: Result<MessageMeta, DbError>)
        ensures
            !old(self)@.table.dom().contains(uidres.uid) ==> r == Err::<MessageMeta, DbError>(
                DbError::NoSuchRow,
            ) && final(self)@ == old(self)@,
            old(self)@.table.dom().contains(uidres.uid) ==> r is Ok && r->Ok_0@ == old(
                self,
            )@.table[uidres.uid].updated(uidres@) && final(self)@ == (CacheView {
                table: old(self)@.table.insert(uidres.uid, r->Ok_0@),
                ..old(self)@
            }),
    {
        match self.db.get_uid(uidres.uid) {
            Ok(mut meta) => {
                meta.update(uidres);
                match self.db.update(&meta) {
                    Ok(()) => Ok(meta),
                    Err(e) => Err(e),
                }
            },
            Err(e) => Err(e),
        }
    }
}

/// A message that was added under a fresh UID is found again by that UID,
/// and by its Maildir ID unless a message with a smaller UID has the same ID.
pub proof fn lemma_add_then_lookup(t: Map<u32, MetaView>, m: MetaView)
    requires
        !t.dom().contains(m.uid),
    ensures
        t.insert(m.uid, m).dom().contains(m.uid),
        t.insert(m.uid, m)[m.uid] == m,
        (forall|u: u32| t.dom().contains(u) && (#[trigger] t[u]).id == m.id ==> m.uid < u)
            ==> is_first_with_id(t.insert(m.uid, m), m.id, m.uid) && forall|u: u32|
            is_first_with_id(t.insert(m.uid, m), m.id, u) ==> u == m.uid,
{
    let t2 = t.insert(m.uid, m);
    if forall|u: u32| t.dom().contains(u) && (#[trigger] t[u]).id == m.id ==> m.uid < u {
        assert forall|u: u32| t2.dom().contains(u) && (#[trigger] t2[u]).id == m.id implies m.uid
            <= u by {
            if u != m.uid {
                assert(t.dom().contains(u) && t[u].id == m.id);
            }
        }
        assert forall|u: u32| is_first_with_id(t2, m.id, u) implies u == m.uid by {
            assert(t2.dom().contains(m.uid) && t2[m.uid].id == m.id);
        }
    }
}

/// Deleting a UID twice leaves the table as deleting it once does.
pub proof fn lemma_delete_idempotent(t: Map<u32, MetaView>, uid: u32)
    ensures
        t.remove(uid).remove(uid) == t.remove(uid),
        !t.remove(uid).dom().contains(uid),
{
    assert(t.remove(uid).remove(uid) =~= t.remove(uid));
}

} // verus!
