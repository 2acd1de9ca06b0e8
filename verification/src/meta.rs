//! The cached record of one message, and the rows of a FETCH response that
//! it is compared with.

use crate::flags::{flags_of_imap, flags_of_letters, letters_of_flags, FlagValue, ImapFlag, SyncFlags};
use vstd::prelude::*;

verus! {

/// One row of a FETCH response, as plain values.
#[derive(Debug)]
pub struct Fetch {
    /// The message's UID, where the server sent one.
    pub uid: Option<u32>,
    /// The RFC822 size, where the server sent one.
    pub size: Option<u32>,
    /// INTERNALDATE in Unix milliseconds, where the server sent one.
    pub internal_date_millis: Option<i64>,
    /// The message's flags.
    pub flags: Vec<ImapFlag>,
    /// The full body, where it was asked for.
    pub body: Option<Vec<u8>>,
}

/// What a complete FETCH row says of a message, as mathematical values.
pub struct RowView {
    pub uid: u32,
    pub size: u32,
    pub internal_date_millis: i64,
    pub flags: Seq<ImapFlag>,
}

impl Fetch {
    /// What the row says of its message. It has a meaning only for a row that
    /// carries UID, size and internal date.
    pub open spec fn row_view(&self) -> RowView {
        RowView {
            uid: self.uid->0,
            size: self.size->0,
            internal_date_millis: self.internal_date_millis->0,
            flags: self.flags@,
        }
    }
}

/// A FETCH row that carries UID, size and internal date together.
#[derive(Clone, Copy, Debug)]
pub struct UidResult<'a> {
    pub uid: u32,
    pub size: u32,
    pub internal_date_millis: i64,
    pub flags: &'a [ImapFlag],
}

impl<'a> View for UidResult<'a> {
    type V = RowView;

    open spec fn view(&self) -> RowView {
        RowView {
            uid: self.uid,
            size: self.size,
            internal_date_millis: self.internal_date_millis,
            flags: self.flags@,
        }
    }
}

impl<'a> UidResult<'a> {
    pub fn uid(&self) -> (r: u32)
        ensures
            r == self.uid,
    {
        self.uid
    }

    pub fn size(&self) -> (r: u32)
        ensures
            r == self.size,
    {
        self.size
    }

    pub fn internal_date_millis(&self) -> (r: i64)
        ensures
            r == self.internal_date_millis,
    {
        self.internal_date_millis
    }

    pub fn flags(&self) -> (r: &'a [ImapFlag])
        ensures
            r@ == self.flags@,
    {
        self.flags
    }
}

/// A FETCH row, sorted by what it carries.
#[derive(Debug)]
pub enum FetchResult<'a> {
    /// The row has UID, size and internal date.
    Uid(UidResult<'a>),
    /// The row lacks one of them; it is of no use to the synchroniser.
    Other(&'a Fetch),
}

impl<'a> FetchResult<'a> {
    /// Whether a row carries UID, size and internal date together.
    pub open spec fn is_uid_row(fetch: &Fetch) -> bool {
        fetch.uid is Some && fetch.size is Some && fetch.internal_date_millis is Some
    }

    /// Sorts a row: `Uid` with the row's values if UID, size and internal
    /// date are all there, `Other` with the row itself if one is missing.
    pub fn from(fetch: &'a Fetch) -> (r: FetchResult<'a>)
        ensures
            Self::is_uid_row(fetch) ==> (r matches FetchResult::Uid(u) && u@ == fetch.row_view()),
            !Self::is_uid_row(fetch) ==> r == FetchResult::Other(fetch),
    {
        match (fetch.uid, fetch.size, fetch.internal_date_millis) {
            (Some(uid), Some(size), Some(internal_date_millis)) => FetchResult::Uid(
                UidResult { uid, size, internal_date_millis, flags: fetch.flags.as_slice() },
            ),
            _ => FetchResult::Other(fetch),
        }
    }
}

/// What a cached record holds, as mathematical values.
pub struct MetaView {
    pub id: Seq<char>,
    pub size: u32,
    pub flags: Set<FlagValue>,
    pub uid: u32,
    pub internal_date_millis: i64,
}

/// The cached state of one message: its server UID, its Maildir ID, and the
/// size, date and flags that the server last reported.
#[derive(Debug)]
pub struct MessageMeta {
    id: String,
    size: u32,
    flags: SyncFlags,
    uid: u32,
    internal_date_millis: i64,
}

impl View for MessageMeta {
    type V = MetaView;

    closed spec fn view(&self) -> MetaView {
        MetaView {
            id: self.id@,
            size: self.size,
            flags: self.flags@,
            uid: self.uid,
            internal_date_millis: self.internal_date_millis,
        }
    }
}

impl Clone for MessageMeta {
    fn clone(&self) -> (r: MessageMeta)
        ensures
            r == *self,
            r@ == self@,
    {
        MessageMeta {
            id: self.id.clone(),
            size: self.size,
            flags: self.flags,
            uid: self.uid,
            internal_date_millis: self.internal_date_millis,
        }
    }
}

impl MetaView {
    /// Whether the record agrees with a FETCH row in UID, size, date and
    /// flags.
    pub open spec fn is_equal(self, row: RowView) -> bool {
        self.uid == row.uid && self.size == row.size && self.internal_date_millis
            == row.internal_date_millis && self.flags == flags_of_imap(row.flags)
    }

    /// Whether size or date moved, so that the body has to be fetched again.
    pub open spec fn needs_refetch(self, row: RowView) -> bool {
        self.size != row.size || self.internal_date_millis != row.internal_date_millis
    }

    /// Whether the row newly reports the message as seen.
    pub open spec fn needs_move_from_new_to_cur(self, row: RowView) -> bool {
        !self.flags.contains(FlagValue::Seen) && flags_of_imap(row.flags).contains(FlagValue::Seen)
    }

    /// The record after it took UID, size, date and flags from a FETCH row.
    /// The Maildir ID stays.
    pub open spec fn updated(self, row: RowView) -> MetaView {
        MetaView {
            id: self.id,
            size: row.size,
            flags: flags_of_imap(row.flags),
            uid: row.uid,
            internal_date_millis: row.internal_date_millis,
        }
    }
}

impl MessageMeta {
    pub fn new(id: &str, size: u32, flags: SyncFlags, uid: u32, internal_date_millis: i64) -> (r:
        MessageMeta)
        ensures
            r@ == (MetaView { id: id@, size, flags: flags@, uid, internal_date_millis }),
    {
        MessageMeta { id: id.to_owned(), size, flags, uid, internal_date_millis }
    }

    /// Builds a record from the columns of a table row; the flags column is
    /// a Maildir flag string.
    pub fn from_fields(
        uid: u32,
        size: u32,
        internal_date_millis: i64,
        flags: String,
        id: String,
    ) -> (r: MessageMeta)
        ensures
            r@ == (MetaView {
                id: id@,
                size,
                flags: flags_of_letters(flags@),
                uid,
                internal_date_millis,
            }),
    {
        MessageMeta {
            id,
            size,
            flags: SyncFlags::from_maildir_string(flags.as_str()),
            uid,
            internal_date_millis,
        }
    }

    /// Takes UID, size, date and flags from a FETCH row.
    pub fn update(&mut self, uidres: &UidResult)
        ensures
            final(self)@ == old(self)@.updated(uidres@),
    {
        self.uid = uidres.uid;
        self.size = uidres.size;
        self.internal_date_millis = uidres.internal_date_millis;
        self.flags = SyncFlags::from_imap(uidres.flags);
    }

    /// Whether a list of IMAP flags names exactly the cached flags.
    pub fn flags_equal(&self, flags: &[ImapFlag]) -> (r: bool)
        ensures
            r == (self@.flags == flags_of_imap(flags@)),
    {
        let other = SyncFlags::from_imap(flags);
        let diff = self.flags.diff(other);
        let r = diff.add.empty() && diff.sub.empty();
        proof {
            if r {
                assert forall|f: FlagValue|
                    self.flags@.contains(f) == other@.contains(f) by {
                    assert(!other@.difference(self.flags@).contains(f));
                    assert(!self.flags@.difference(other@).contains(f));
                }
                assert(self.flags@ =~= other@);
            }
            if self.flags@ == other@ {
                assert(other@.difference(self.flags@) =~= Set::<FlagValue>::empty());
                assert(self.flags@.difference(other@) =~= Set::<FlagValue>::empty());
            }
        }
        r
    }

    pub fn is_equal(&self, uidres: &UidResult) -> (r: bool)
        ensures
            r == self@.is_equal(uidres@),
    {
        self.uid == uidres.uid && self.size == uidres.size && self.internal_date_millis
            == uidres.internal_date_millis && self.flags_equal(uidres.flags)
    }

    pub fn needs_refetch(&self, uidres: &UidResult) -> (r: bool)
        ensures
            r == self@.needs_refetch(uidres@),
    {
        self.size != uidres.size || self.internal_date_millis != uidres.internal_date_millis
    }

    pub fn needs_move_from_new_to_cur(&self, uidres: &UidResult) -> (r: bool)
        ensures
            r == self@.needs_move_from_new_to_cur(uidres@),
    {
        !self.flags.contains(FlagValue::Seen) && SyncFlags::from_imap(uidres.flags).contains(
            FlagValue::Seen,
        )
    }

    pub fn uid(&self) -> (r: u32)
        ensures
            r == self@.uid,
    {
        self.uid
    }

    pub fn id(&self) -> (r: &str)
        ensures
            r@ == self@.id,
    {
        self.id.as_str()
    }

    /// Whether the record's Maildir ID is `id`.
    pub fn has_id(&self, id: &String) -> (r: bool)
        ensures
            r == (self@.id == id@),
    {
        self.id == *id
    }

    /// The cached flags as a Maildir flag string.
    pub fn flags(&self) -> (r: String)
        ensures
            r@ == letters_of_flags(self@.flags),
    {
        self.flags.to_maildir_string()
    }

    /// The cached flags as a set.
    pub fn sync_flags(&self) -> (r: SyncFlags)
        ensures
            r@ == self@.flags,
    {
        self.flags
    }

    pub fn size(&self) -> (r: u32)
        ensures
            r == self@.size,
    {
        self.size
    }

    pub fn internal_date_millis(&self) -> (r: i64)
        ensures
            r == self@.internal_date_millis,
    {
        self.internal_date_millis
    }
}

} // verus!
