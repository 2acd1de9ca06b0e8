//! The small record of where the last synchronisation stood.

use vstd::prelude::*;

verus! {

/// The fields of the state record, as they are stored.
#[derive(Clone, Copy, Debug, PartialEq, Eq, Structural)]
pub struct StateFileFields {
    /// The format's version; always 1.
    pub version: u64,
    /// When the server side was last synchronised, in Unix milliseconds.
    pub imap_last: i64,
    /// When the Maildir side was last synchronised, in Unix milliseconds.
    pub maildir_last: i64,
    /// The epoch in which the cached UIDs are valid.
    pub uid_validity: u32,
    /// The UID that the server said it would give out next.
    pub uid_next: u32,
    /// The greatest UID of a message that reached the cache.
    pub last_seen_uid: u32,
    /// The server's change counter after the last quick synchronisation.
    pub highest_mod_seq: u64,
}

/// The record of a mailbox that was never synchronised.
pub open spec fn blank_state() -> StateFileFields {
    StateFileFields {
        version: 1,
        imap_last: 0,
        maildir_last: 0,
        uid_validity: 0,
        uid_next: 0,
        last_seen_uid: 0,
        highest_mod_seq: 0,
    }
}

/// The state record of one mailbox, held in memory. Whoever changes it stores
/// the fields afterwards.
#[derive(Clone, Copy, Debug)]
pub struct StateFile {
    state: StateFileFields,
}

impl View for StateFile {
    type V = StateFileFields;

    closed spec fn view(&self) -> StateFileFields {
        self.state
    }
}

/// The current time in Unix milliseconds, read by
/// `chrono::Utc::now().timestamp_millis()`. Nothing is claimed of the value:
/// it is whatever the machine's clock says. chrono stops the program if the
/// clock stands before 1970.
#[verifier::external_body]
fn now_millis() -> i64 {
    chrono::Utc::now().timestamp_millis()
}

impl StateFile {
    /// The record for a mailbox: the stored fields where there are any, a
    /// blank record where nothing was stored yet.
    pub fn new(stored: Option<StateFileFields>) -> (r: StateFile)
        ensures
            r@ == match stored {
                Some(fields) => fields,
                None => blank_state(),
            },
    {
        match stored {
            Some(state) => StateFile { state },
            None => StateFile::make_new(),
        }
    }

    /// A blank record: version 1 and every counter at zero.
    pub fn make_new() -> (r: StateFile)
        ensures
            r@ == blank_state(),
    {
        StateFile {
            state: StateFileFields {
                version: 1,
                imap_last: 0,
                maildir_last: 0,
                uid_validity: 0,
                uid_next: 0,
                last_seen_uid: 0,
                highest_mod_seq: 0,
            },
        }
    }

    /// Records the server's counters and `now` as the time of the server
    /// side's synchronisation.
    pub fn update_imap_at(
        &mut self,
        uid_validity: u32,
        uid_next: u32,
        highest_mod_seq: u64,
        now: i64,
    )
        ensures
            final(self)@ == (StateFileFields {
                imap_last: now,
                uid_validity,
                uid_next,
                highest_mod_seq,
                ..old(self)@
            }),
    {
        self.state.imap_last = now;
        self.state.uid_validity = uid_validity;
        self.state.uid_next = uid_next;
        self.state.highest_mod_seq = highest_mod_seq;
    }

    /// Records the server's counters with the current time. The time is the
    /// one field of which nothing is known beforehand.
    pub fn update_imap(&mut self, uid_validity: u32, uid_next: u32, highest_mod_seq: u64)
        ensures
            final(self)@ == (StateFileFields {
                imap_last: final(self)@.imap_last,
                uid_validity,
                uid_next,
                highest_mod_seq,
                ..old(self)@
            }),
    {
        let now = now_millis();
        self.update_imap_at(uid_validity, uid_next, highest_mod_seq, now);
    }

    /// Records `now` as the time of the Maildir side's synchronisation.
    pub fn update_maildir_at(&mut self, now: i64)
        ensures
            final(self)@ == (StateFileFields { maildir_last: now, ..old(self)@ }),
    {
        self.state.maildir_last = now;
    }

    /// Records the current time as that of the Maildir side's
    /// synchronisation.
    pub fn update_maildir(&mut self)
        ensures
            final(self)@ == (StateFileFields {
                maildir_last: final(self)@.maildir_last,
                ..old(self)@
            }),
    {
        let now = now_millis();
        self.update_maildir_at(now);
    }

    pub fn set_last_seen_uid(&mut self, uid: u32)
        ensures
            final(self)@ == (StateFileFields { last_seen_uid: uid, ..old(self)@ }),
    {
        self.state.last_seen_uid = uid;
    }

    /// The fields to store.
    pub fn fields(&self) -> (r: StateFileFields)
        ensures
            r == self@,
    {
        self.state
    }

    pub fn uid_validity(&self) -> (r: u32)
        ensures
            r == self@.uid_validity,
    {
        self.state.uid_validity
    }

    pub fn last_seen_uid(&self) -> (r: u32)
        ensures
            r == self@.last_seen_uid,
    {
        self.state.last_seen_uid
    }

    pub fn highest_mod_seq(&self) -> (r: u64)
        ensures
            r == self@.highest_mod_seq,
    {
        self.state.highest_mod_seq
    }
}

} // verus!
