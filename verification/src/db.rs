//! The cache table: one record per message, keyed by UID, found again by
//! Maildir ID.

use crate::meta::{MessageMeta, MetaView};
use vstd::hash_map::StringHashMap;
use vstd::prelude::*;

verus! {

/// Why a table operation was refused.
#[derive(Clone, Copy, Debug, PartialEq, Eq, Structural)]
pub enum DbError {
    /// A row with this UID is already there.
    UidExists,
    /// No row answers the query.
    NoSuchRow,
}

/// The rows in ascending order of UID.
pub closed spec fn sorted(rows: Seq<MessageMeta>) -> bool {
    forall|i: int, j: int| 0 <= i < j < rows.len() ==> (#[trigger] rows[i])@.uid < (
    #[trigger] rows[j])@.uid
}

/// No two rows share a UID.
pub open spec fn distinct_uids(rows: Seq<MessageMeta>) -> bool {
    forall|i: int, j: int|
        0 <= i < j < rows.len() ==> (#[trigger] rows[i])@.uid != (#[trigger] rows[j])@.uid
}

/// Whether some record of the table has this Maildir ID.
pub open spec fn has_id(t: Map<u32, MetaView>, id: Seq<char>) -> bool {
    exists|u: u32| t.dom().contains(u) && (#[trigger] t[u]).id == id
}

/// `uid` is the least UID whose record has this Maildir ID.
pub open spec fn is_first_with_id(t: Map<u32, MetaView>, id: Seq<char>, uid: u32) -> bool {
    &&& t.dom().contains(uid)
    &&& t[uid].id == id
    &&& forall|u: u32| t.dom().contains(u) && (#[trigger] t[u]).id == id ==> uid <= u
}

/// `uid` is the greatest UID whose record has this Maildir ID.
pub open spec fn is_last_with_id(t: Map<u32, MetaView>, id: Seq<char>, uid: u32) -> bool {
    &&& t.dom().contains(uid)
    &&& t[uid].id == id
    &&& forall|u: u32| t.dom().contains(u) && (#[trigger] t[u]).id == id ==> u <= uid
}

/// Whether an index by Maildir ID points to this record: the record's ID is
/// a key, and the record under it has the same UID.
pub open spec fn is_listed_in(m: MetaView, ids: Map<Seq<char>, MessageMeta>) -> bool {
    ids.contains_key(m.id) && ids[m.id]@.uid == m.uid
}

/// Strictly ascending numbers.
pub open spec fn ascending(s: Seq<u32>) -> bool {
    forall|i: int, j: int| 0 <= i < j < s.len() ==> s[i] < s[j]
}

/// Whether some row has this UID.
pub open spec fn has_row(rows: Seq<MessageMeta>, uid: u32) -> bool {
    exists|i: int| 0 <= i < rows.len() && (#[trigger] rows[i])@.uid == uid
}

/// The table that a list of rows with distinct UIDs stands for.
pub open spec fn table_of(rows: Seq<MessageMeta>) -> Map<u32, MetaView> {
    Map::new(
        |u: u32| has_row(rows, u),
        |u: u32| rows[choose|i: int| 0 <= i < rows.len() && (#[trigger] rows[i])@.uid == u]@,
    )
}

/// In a sorted list each row is the table's entry for its UID.
proof fn lemma_row(rows: Seq<MessageMeta>, i: int)
    requires
        sorted(rows),
        0 <= i < rows.len(),
    ensures
        table_of(rows).dom().contains(rows[i]@.uid),
        table_of(rows)[rows[i]@.uid] == rows[i]@,
{
    let u = rows[i]@.uid;
    let k = choose|k: int| 0 <= k < rows.len() && (#[trigger] rows[k])@.uid == u;
    if k < i {
        assert(rows[k]@.uid < rows[i]@.uid);
    }
    if i < k {
        assert(rows[i]@.uid < rows[k]@.uid);
    }
}

/// In a list of distinct UIDs each row is the table's entry for its UID.
proof fn lemma_row_distinct(rows: Seq<MessageMeta>, i: int)
    requires
        distinct_uids(rows),
        0 <= i < rows.len(),
    ensures
        table_of(rows).dom().contains(rows[i]@.uid),
        table_of(rows)[rows[i]@.uid] == rows[i]@,
{
    let u = rows[i]@.uid;
    let k = choose|k: int| 0 <= k < rows.len() && (#[trigger] rows[k])@.uid == u;
    if k < i {
        assert(rows[k]@.uid != rows[i]@.uid);
    }
    if i < k {
        assert(rows[i]@.uid != rows[k]@.uid);
    }
}

/// A UID of the table belongs to some row.
proof fn lemma_index(rows: Seq<MessageMeta>, u: u32) -> (i: int)
    requires
        sorted(rows),
        table_of(rows).dom().contains(u),
    ensures
        0 <= i < rows.len(),
        rows[i]@.uid == u,
        table_of(rows)[u] == rows[i]@,
{
    let i = choose|i: int| 0 <= i < rows.len() && (#[trigger] rows[i])@.uid == u;
    lemma_row(rows, i);
    i
}

/// In a sorted list the UID of a row is at least the row's position.
proof fn lemma_uid_bound(rows: Seq<MessageMeta>, i: int)
    requires
        sorted(rows),
        0 <= i < rows.len(),
    ensures
        rows[i]@.uid >= i,
    decreases i,
{
    if i > 0 {
        lemma_uid_bound(rows, i - 1);
        assert(rows[i - 1]@.uid < rows[i]@.uid);
    }
}

/// The UIDs of a sorted list are as many as its rows.
proof fn lemma_count(rows: Seq<MessageMeta>)
    requires
        sorted(rows),
    ensures
        table_of(rows).dom().finite(),
        table_of(rows).dom().len() == rows.len(),
        rows.len() <= 0x1_0000_0000,
{
    let uids = rows.map_values(|m: MessageMeta| m@.uid);
    assert forall|i: int, j: int| 0 <= i < uids.len() && 0 <= j < uids.len() && i != j implies uids[i]
        != uids[j] by {
        if i < j {
            assert(rows[i]@.uid < rows[j]@.uid);
        } else {
            assert(rows[j]@.uid < rows[i]@.uid);
        }
    }
    uids.unique_seq_to_set();
    assert forall|u: u32| uids.to_set().contains(u) == table_of(rows).dom().contains(u) by {
        if uids.to_set().contains(u) {
            let i = choose|i: int| 0 <= i < uids.len() && uids[i] == u;
            assert(rows[i]@.uid == u);
        }
        if table_of(rows).dom().contains(u) {
            let i = lemma_index(rows, u);
            assert(uids[i] == u);
        }
    }
    assert(uids.to_set() =~= table_of(rows).dom());
    vstd::seq_lib::seq_to_set_is_finite(uids);
    if rows.len() > 0 {
        lemma_uid_bound(rows, rows.len() - 1);
    }
}

/// The table of messages that the synchroniser knows, held in memory.
///
/// The view is a map from UID to record. Where an answer depends on an order
/// of rows, it is the ascending order of UID.
#[derive(Debug)]
pub struct Db {
    rows: Vec<MessageMeta>,
}

impl View for Db {
    type V = Map<u32, MetaView>;

    closed spec fn view(&self) -> Map<u32, MetaView> {
        table_of(self.rows@)
    }
}

impl Db {
    #[verifier::type_invariant]
    closed spec fn inv(&self) -> bool {
        sorted(self.rows@)
    }

    /// An empty table.
    pub fn new() -> (db: Db)
        ensures
            db@ == Map::<u32, MetaView>::empty(),
    {
        let db = Db { rows: Vec::new() };
        assert(db@ =~= Map::<u32, MetaView>::empty());
        db
    }

    /// The number of rows with a UID below `uid`, and whether a row with
    /// `uid` follows them.
    fn find(&self, uid: u32) -> (r: (usize, bool))
        ensures
            r.0 <= self.rows.len(),
            forall|j: int| 0 <= j < r.0 ==> (#[trigger] self.rows[j])@.uid < uid,
            forall|j: int| r.0 <= j < self.rows.len() ==> (#[trigger] self.rows[j])@.uid >= uid,
            r.1 == self@.dom().contains(uid),
            r.1 ==> r.0 < self.rows.len() && self.rows[r.0 as int]@.uid == uid,
    {
        proof {
            use_type_invariant(self);
        }
        let mut lo: usize = 0;
        let mut hi: usize = self.rows.len();
        while lo < hi
            invariant
                sorted(self.rows@),
                lo <= hi <= self.rows.len(),
                forall|j: int| 0 <= j < lo ==> (#[trigger] self.rows[j])@.uid < uid,
                forall|j: int| hi <= j < self.rows.len() ==> (#[trigger] self.rows[j])@.uid >= uid,
            decreases hi - lo,
        {
            let mid = lo + (hi - lo) / 2;
            if self.rows[mid].uid() < uid {
                assert forall|j: int| 0 <= j < mid + 1 implies (#[trigger] self.rows[j])@.uid
                    < uid by {
                    if j < mid {
                        assert(self.rows[j]@.uid < self.rows[mid as int]@.uid);
                    }
                }
                lo = mid + 1;
            } else {
                assert forall|j: int| mid <= j < self.rows.len() implies (
                #[trigger] self.rows[j])@.uid >= uid by {
                    if mid < j {
                        assert(self.rows[mid as int]@.uid < self.rows[j]@.uid);
                    }
                }
                hi = mid;
            }
        }
        let i = lo;
        let found = i < self.rows.len() && self.rows[i].uid() == uid;
        proof {
            if found {
                lemma_row(self.rows@, i as int);
            }
            if self@.dom().contains(uid) {
                let k = lemma_index(self.rows@, uid);
                if k > i {
                    assert(self.rows[i as int]@.uid < self.rows[k]@.uid);
                }
            }
        }
        (i, found)
    }

    /// Inserts a record. A table that already has a row with the record's UID
    /// refuses it and stays as it is.
    pub fn add(&mut self, meta: &MessageMeta) -> (r: Result<(), DbError>)
        ensures
            old(self)@.dom().contains(meta@.uid) ==> r == Err::<(), DbError>(DbError::UidExists)
                && final(self)@ == old(self)@,
            !old(self)@.dom().contains(meta@.uid) ==> r == Ok::<(), DbError>(()) && final(self)@
                == old(self)@.insert(meta@.uid, meta@),
    {
        let (p, found) = self.find(meta.uid());
        if found {
            return Err(DbError::UidExists);
        }
        proof {
            use_type_invariant(&*self);
        }
        let ghost before = self.rows@;
        let mut rows: Vec<MessageMeta> = Vec::new();
        core::mem::swap(&mut self.rows, &mut rows);
        rows.insert(p, meta.clone());
        proof {
            let after = rows@;
            assert(after == before.insert(p as int, *meta));
            assert forall|i: int, j: int| 0 <= i < j < after.len() implies (#[trigger] after[i])@.uid
                < (#[trigger] after[j])@.uid by {
                let bi = if i < p { i } else { i - 1 };
                let bj = if j < p { j } else { j - 1 };
                if i != p && j != p {
                    assert(before[bi]@.uid < before[bj]@.uid);
                } else if i == p {
                    assert(after[j] == before[bj]);
                } else {
                    assert(after[i] == before[bi]);
                }
            }
            assert(sorted(after));
            assert forall|u: u32| #[trigger]
                table_of(after).dom().contains(u) == table_of(before).insert(
                    meta@.uid,
                    meta@,
                ).dom().contains(u) by {
                if table_of(after).dom().contains(u) {
                    let i = lemma_index(after, u);
                    if i != p {
                        let bi = if i < p { i } else { i - 1 };
                        assert(after[i] == before[bi]);
                        lemma_row(before, bi);
                    }
                }
                if table_of(before).dom().contains(u) {
                    let i = lemma_index(before, u);
                    let ai = if i < p { i } else { i + 1 };
                    assert(after[ai] == before[i]);
                    lemma_row(after, ai);
                }
                if u == meta@.uid {
                    assert(after[p as int] == *meta);
                    lemma_row(after, p as int);
                }
            }
            assert forall|u: u32| #[trigger] table_of(after).dom().contains(u) implies table_of(
                after,
            )[u] == table_of(before).insert(meta@.uid, meta@)[u] by {
                let i = lemma_index(after, u);
                if i != p {
                    let bi = if i < p { i } else { i - 1 };
                    assert(after[i] == before[bi]);
                    lemma_row(before, bi);
                } else {
                    assert(after[p as int] == *meta);
                }
            }
            assert(table_of(after) =~= table_of(before).insert(meta@.uid, meta@));
        }
        core::mem::swap(&mut self.rows, &mut rows);
        Ok(())
    }

    /// Overwrites the row that has the record's UID. A table without such a
    /// row refuses and stays as it is.
    pub fn update(&mut self, meta: &MessageMeta) -> (r: Result<(), DbError>)
        ensures
            old(self)@.dom().contains(meta@.uid) ==> r == Ok::<(), DbError>(()) && final(self)@
                == old(self)@.insert(meta@.uid, meta@),
            !old(self)@.dom().contains(meta@.uid) ==> r == Err::<(), DbError>(
                DbError::NoSuchRow,
            ) && final(self)@ == old(self)@,
    {
        let (p, found) = self.find(meta.uid());
        if !found {
            return Err(DbError::NoSuchRow);
        }
        proof {
            use_type_invariant(&*self);
        }
        let ghost before = self.rows@;
        let mut rows: Vec<MessageMeta> = Vec::new();
        core::mem::swap(&mut self.rows, &mut rows);
        rows.set(p, meta.clone());
        proof {
            let after = rows@;
            assert forall|i: int, j: int| 0 <= i < j < after.len() implies (#[trigger] after[i])@.uid
                < (#[trigger] after[j])@.uid by {
                assert(before[i]@.uid < before[j]@.uid);
            }
            assert forall|u: u32| #[trigger]
                table_of(after).dom().contains(u) == table_of(before).insert(
                    meta@.uid,
                    meta@,
                ).dom().contains(u) by {
                if table_of(after).dom().contains(u) {
                    let i = lemma_index(after, u);
                    lemma_row(before, i);
                }
                if table_of(before).dom().contains(u) {
                    let i = lemma_index(before, u);
                    lemma_row(after, i);
                }
                lemma_row(after, p as int);
            }
            assert forall|u: u32| #[trigger] table_of(after).dom().contains(u) implies table_of(
                after,
            )[u] == table_of(before).insert(meta@.uid, meta@)[u] by {
                let i = lemma_index(after, u);
                lemma_row(before, i);
            }
            assert(table_of(after) =~= table_of(before).insert(meta@.uid, meta@));
        }
        core::mem::swap(&mut self.rows, &mut rows);
        Ok(())
    }

    /// Removes the row with this UID, if there is one. A UID that the table
    /// does not hold is no error.
    pub fn delete_uid(&mut self, uid: u32) -> (r: Result<(), DbError>)
        ensures
            r == Ok::<(), DbError>(()),
            final(self)@ == old(self)@.remove(uid),
    {
        let (p, found) = self.find(uid);
        if !found {
            assert(self@ =~= self@.remove(uid));
            return Ok(());
        }
        proof {
            use_type_invariant(&*self);
        }
        let ghost before = self.rows@;
        let mut rows: Vec<MessageMeta> = Vec::new();
        core::mem::swap(&mut self.rows, &mut rows);
        let _ = rows.remove(p);
        proof {
            let after = rows@;
            assert(after == before.remove(p as int));
            assert forall|i: int, j: int| 0 <= i < j < after.len() implies (#[trigger] after[i])@.uid
                < (#[trigger] after[j])@.uid by {
                let bi = if i < p { i } else { i + 1 };
                let bj = if j < p { j } else { j + 1 };
                assert(after[i] == before[bi]);
                assert(after[j] == before[bj]);
                assert(before[bi]@.uid < before[bj]@.uid);
            }
            assert forall|u: u32| #[trigger]
                table_of(after).dom().contains(u) == table_of(before).remove(uid).dom().contains(
                    u,
                ) by {
                if table_of(after).dom().contains(u) {
                    let i = lemma_index(after, u);
                    let bi = if i < p { i } else { i + 1 };
                    assert(after[i] == before[bi]);
                    lemma_row(before, bi);
                    if bi < p {
                        assert(before[bi]@.uid < before[p as int]@.uid);
                    } else {
                        assert(before[p as int]@.uid < before[bi]@.uid);
                    }
                }
                if table_of(before).dom().contains(u) && u != uid {
                    let i = lemma_index(before, u);
                    let ai = if i < p { i } else { i - 1 };
                    assert(after[ai] == before[i]);
                    lemma_row(after, ai);
                }
            }
            assert forall|u: u32| #[trigger] table_of(after).dom().contains(u) implies table_of(
                after,
            )[u] == table_of(before).remove(uid)[u] by {
                let i = lemma_index(after, u);
                let bi = if i < p { i } else { i + 1 };
                assert(after[i] == before[bi]);
                lemma_row(before, bi);
            }
            assert(table_of(after) =~= table_of(before).remove(uid));
        }
        core::mem::swap(&mut self.rows, &mut rows);
        Ok(())
    }

    /// The number of rows.
    pub fn num_entries(&self) -> (r: i64)
        ensures
            self@.dom().finite(),
            r == self@.dom().len(),
    {
        proof {
            use_type_invariant(self);
            lemma_count(self.rows@);
        }
        self.rows.len() as i64
    }

    /// The number of rows, as a size to reserve for them.
    pub fn expected_entries(&self) -> (r: usize)
        ensures
            self@.dom().finite(),
            r == self@.dom().len(),
    {
        proof {
            use_type_invariant(self);
            lemma_count(self.rows@);
        }
        self.rows.len()
    }

    /// All UIDs of the table, ascending.
    pub fn get_uids(&self) -> (r: Vec<u32>)
        ensures
            ascending(r@),
            forall|u: u32|
                #![trigger r@.contains(u)]
                #![trigger self@.dom().contains(u)]
                r@.contains(u) <==> self@.dom().contains(u),
    {
        proof {
            use_type_invariant(self);
        }
        let mut v: Vec<u32> = Vec::new();
        let mut i: usize = 0;
        while i < self.rows.len()
            invariant
                i <= self.rows.len(),
                v@.len() == i,
                forall|j: int| 0 <= j < i ==> v@[j] == (#[trigger] self.rows[j])@.uid,
            decreases self.rows.len() - i,
        {
            v.push(self.rows[i].uid());
            i = i + 1;
        }
        proof {
            assert forall|a: int, b: int| 0 <= a < b < v@.len() implies v@[a] < v@[b] by {
                assert(self.rows[a]@.uid < self.rows[b]@.uid);
            }
            assert forall|u: u32| v@.contains(u) <==> self@.dom().contains(u) by {
                if v@.contains(u) {
                    let j = choose|j: int| 0 <= j < v@.len() && v@[j] == u;
                    lemma_row(self.rows@, j);
                }
                if self@.dom().contains(u) {
                    let j = lemma_index(self.rows@, u);
                    assert(v@[j] == u);
                }
            }
        }
        v
    }

    /// The record with this UID.
    pub fn get_uid(&self, uid: u32) -> (r: Result<MessageMeta, DbError>)
        ensures
            match r {
                Ok(m) => self@.dom().contains(uid) && m@ == self@[uid],
                Err(e) => e == DbError::NoSuchRow && !self@.dom().contains(uid),
            },
    {
        proof {
            use_type_invariant(self);
        }
        let (p, found) = self.find(uid);
        if found {
            proof {
                lemma_row(self.rows@, p as int);
            }
            Ok(self.rows[p].clone())
        } else {
            Err(DbError::NoSuchRow)
        }
    }

    /// The record with this Maildir ID; of several, the one with the least
    /// UID.
    pub fn get_id(&self, id: &str) -> (r: Result<MessageMeta, DbError>)
        ensures
            match r {
                Ok(m) => is_first_with_id(self@, id@, m@.uid) && m@ == self@[m@.uid],
                Err(e) => e == DbError::NoSuchRow && !has_id(self@, id@),
            },
    {
        proof {
            use_type_invariant(self);
        }
        let wanted = id.to_owned();
        let mut i: usize = 0;
        while i < self.rows.len()
            invariant
                sorted(self.rows@),
                wanted@ == id@,
                i <= self.rows.len(),
                forall|j: int| 0 <= j < i ==> (#[trigger] self.rows[j])@.id != id@,
            decreases self.rows.len() - i,
        {
            if self.rows[i].has_id(&wanted) {
                proof {
                    let first = self.rows[i as int]@.uid;
                    lemma_row(self.rows@, i as int);
                    assert forall|u: u32|
                        self@.dom().contains(u) && (#[trigger] self@[u]).id == id@ implies first
                        <= u by {
                        let k = lemma_index(self.rows@, u);
                        if k > i {
                            assert(self.rows[i as int]@.uid < self.rows[k]@.uid);
                        }
                    }
                }
                return Ok(self.rows[i].clone());
            }
            i = i + 1;
        }
        proof {
            if has_id(self@, id@) {
                let u = choose|u: u32| self@.dom().contains(u) && (#[trigger] self@[u]).id == id@;
                let k = lemma_index(self.rows@, u);
                assert(self.rows[k]@.id != id@);
            }
        }
        Err(DbError::NoSuchRow)
    }

    /// The records by Maildir ID; of several with one ID, the one with the
    /// greatest UID.
    pub fn get_ids(&self) -> (r: StringHashMap<MessageMeta>)
        ensures
            forall|id: Seq<char>|
                #![trigger r@.contains_key(id)]
                #![trigger has_id(self@, id)]
                r@.contains_key(id) <==> has_id(self@, id),
            forall|id: Seq<char>| #[trigger]
                r@.contains_key(id) ==> is_last_with_id(self@, id, r@[id]@.uid) && r@[id]@
                    == self@[r@[id]@.uid],
    {
        proof {
            use_type_invariant(self);
        }
        let mut h: StringHashMap<MessageMeta> = StringHashMap::with_capacity(self.rows.len());
        let mut i: usize = 0;
        while i < self.rows.len()
            invariant
                sorted(self.rows@),
                i <= self.rows.len(),
                forall|id: Seq<char>| #[trigger]
                    h@.contains_key(id) ==> exists|j: int|
                        0 <= j < i && (#[trigger] self.rows[j])@ == h@[id]@ && h@[id]@.id == id
                            && forall|k: int|
                            j < k < i ==> (#[trigger] self.rows[k])@.id != id,
                forall|j: int| 0 <= j < i ==> h@.contains_key((#[trigger] self.rows[j])@.id),
            decreases self.rows.len() - i,
        {
            let ghost before = h@;
            let row = self.rows[i].clone();
            let key = row.id().to_owned();
            h.insert(key, row);
            proof {
                let this = self.rows[i as int]@.id;
                assert forall|id: Seq<char>| #[trigger] h@.contains_key(id) implies exists|j: int|
                    0 <= j < i + 1 && (#[trigger] self.rows[j])@ == h@[id]@ && h@[id]@.id == id
                        && forall|k: int|
                        j < k < i + 1 ==> (#[trigger] self.rows[k])@.id != id by {
                    if id == this {
                        assert(self.rows[i as int]@ == h@[id]@);
                    } else {
                        assert(before.contains_key(id));
                        let j = choose|j: int|
                            0 <= j < i && (#[trigger] self.rows[j])@ == before[id]@
                                && before[id]@.id == id && forall|k: int|
                                j < k < i ==> (#[trigger] self.rows[k])@.id != id;
                        assert(self.rows[j]@ == h@[id]@);
                    }
                }
            }
            i = i + 1;
        }
        proof {
            assert forall|id: Seq<char>| h@.contains_key(id) <==> has_id(self@, id) by {
                if h@.contains_key(id) {
                    let j = choose|j: int|
                        0 <= j < i && (#[trigger] self.rows[j])@ == h@[id]@ && h@[id]@.id == id
                            && forall|k: int|
                            j < k < i ==> (#[trigger] self.rows[k])@.id != id;
                    lemma_row(self.rows@, j);
                    assert(self@[self.rows[j]@.uid].id == id);
                }
                if has_id(self@, id) {
                    let u = choose|u: u32| self@.dom().contains(u) && (#[trigger] self@[u]).id == id;
                    let k = lemma_index(self.rows@, u);
                    assert(h@.contains_key(self.rows[k]@.id));
                }
            }
            assert forall|id: Seq<char>| #[trigger] h@.contains_key(id) implies is_last_with_id(
                self@,
                id,
                h@[id]@.uid,
            ) && h@[id]@ == self@[h@[id]@.uid] by {
                let j = choose|j: int|
                    0 <= j < i && (#[trigger] self.rows[j])@ == h@[id]@ && h@[id]@.id == id
                        && forall|k: int|
                        j < k < i ==> (#[trigger] self.rows[k])@.id != id;
                lemma_row(self.rows@, j);
                assert forall|u: u32|
                    self@.dom().contains(u) && (#[trigger] self@[u]).id == id implies u
                    <= h@[id]@.uid by {
                    let k = lemma_index(self.rows@, u);
                    if k > j {
                        assert(self.rows[k]@.id != id);
                    } else if k < j {
                        assert(self.rows[k]@.uid < self.rows[j]@.uid);
                    }
                }
            }
        }
        h
    }

    /// The UIDs, ascending, of the rows that an index by Maildir ID still
    /// points to: those whose ID is a key of the index with a record of the
    /// same UID.
    pub fn uids_listed_in(&self, ids: &StringHashMap<MessageMeta>) -> (r: Vec<u32>)
        ensures
            ascending(r@),
            forall|u: u32|
                #![trigger r@.contains(u)]
                #![trigger self@.dom().contains(u)]
                r@.contains(u) <==> self@.dom().contains(u) && is_listed_in(self@[u], ids@),
    {
        proof {
            use_type_invariant(self);
        }
        let mut v: Vec<u32> = Vec::new();
        let mut i: usize = 0;
        while i < self.rows.len()
            invariant
                sorted(self.rows@),
                i <= self.rows.len(),
                ascending(v@),
                forall|x: int| 0 <= x < v@.len() ==> i > 0 && v@[x] <= self.rows[i - 1]@.uid,
                forall|u: u32|
                    v@.contains(u) <==> exists|j: int|
                        0 <= j < i && (#[trigger] self.rows[j])@.uid == u && is_listed_in(
                            self.rows[j]@,
                            ids@,
                        ),
            decreases self.rows.len() - i,
        {
            let row = &self.rows[i];
            let hit = match ids.get(row.id()) {
                Some(m) => m.uid() == row.uid(),
                None => false,
            };
            let ghost before = v@;
            if hit {
                v.push(row.uid());
            }
            proof {
                if i > 0 {
                    assert(self.rows[i - 1]@.uid < self.rows[i as int]@.uid);
                }
                assert forall|a: int, b: int| 0 <= a < b < v@.len() implies v@[a] < v@[b] by {
                    if b == before.len() {
                        assert(before[a] <= self.rows[i - 1]@.uid);
                    } else {
                        assert(before[a] < before[b]);
                    }
                }
                assert forall|u: u32|
                    v@.contains(u) <==> exists|j: int|
                        0 <= j < i + 1 && (#[trigger] self.rows[j])@.uid == u && is_listed_in(
                            self.rows[j]@,
                            ids@,
                        ) by {
                    if v@.contains(u) {
                        let x = choose|x: int| 0 <= x < v@.len() && v@[x] == u;
                        if x < before.len() {
                            assert(before[x] == u);
                            assert(before.contains(u));
                        } else {
                            assert(self.rows[i as int]@.uid == u);
                        }
                    }
                    if exists|j: int|
                        0 <= j < i + 1 && (#[trigger] self.rows[j])@.uid == u && is_listed_in(
                            self.rows[j]@,
                            ids@,
                        ) {
                        let j = choose|j: int|
                            0 <= j < i + 1 && (#[trigger] self.rows[j])@.uid == u && is_listed_in(
                                self.rows[j]@,
                                ids@,
                            );
                        if j < i {
                            assert(before.contains(u));
                            let x = choose|x: int| 0 <= x < before.len() && before[x] == u;
                            assert(v@[x] == u);
                        } else {
                            assert(v@[before.len() as int] == u);
                        }
                    }
                }
            }
            i = i + 1;
        }
        proof {
            assert forall|u: u32|
                v@.contains(u) <==> self@.dom().contains(u) && is_listed_in(self@[u], ids@) by {
                if v@.contains(u) {
                    let j = choose|j: int|
                        0 <= j < i && (#[trigger] self.rows[j])@.uid == u && is_listed_in(
                            self.rows[j]@,
                            ids@,
                        );
                    lemma_row(self.rows@, j);
                }
                if self@.dom().contains(u) && is_listed_in(self@[u], ids@) {
                    let j = lemma_index(self.rows@, u);
                    assert(self.rows[j]@.uid == u && is_listed_in(self.rows[j]@, ids@));
                }
            }
        }
        v
    }

    /// Opens the table from what its file held: `None` where there was no
    /// file yet, which gives an empty table. Rows that share a UID are refused.
    pub fn from_file(stored: Option<Vec<MessageMeta>>) -> (r: Result<Db, DbError>)
        ensures
            stored is None ==> r is Ok && r->Ok_0@ == Map::<u32, MetaView>::empty(),
            stored is Some && distinct_uids(stored->0@) ==> r is Ok && r->Ok_0@ == table_of(
                stored->0@,
            ),
            stored is Some && !distinct_uids(stored->0@) ==> r == Err::<Db, DbError>(
                DbError::UidExists,
            ),
    {
        let mut db = Db::new();
        let rows = match stored {
            None => {
                return Ok(db);
            },
            Some(rows) => rows,
        };
        let mut i: usize = 0;
        while i < rows.len()
            invariant
                stored == Some(rows),
                i <= rows.len(),
                distinct_uids(rows@.take(i as int)),
                db@ == table_of(rows@.take(i as int)),
            decreases rows.len() - i,
        {
            let ghost a = rows@.take(i as int);
            let ghost b = rows@.take(i + 1);
            let res = db.add(&rows[i]);
            if res.is_err() {
                proof {
                    let uid = rows[i as int]@.uid;
                    let k = choose|k: int| 0 <= k < a.len() && (#[trigger] a[k])@.uid == uid;
                    assert(rows@[k] == a[k]);
                    assert(rows@[k]@.uid == rows@[i as int]@.uid);
                }
                return Err(DbError::UidExists);
            }
            proof {
                assert forall|x: int, y: int| 0 <= x < y < b.len() implies (#[trigger] b[x])@.uid != (
                #[trigger] b[y])@.uid by {
                    assert(b[x] == a[x] || x == i);
                    if y < i {
                        assert(a[x]@.uid != a[y]@.uid);
                    } else {
                        assert(a[x]@.uid == b[x]@.uid);
                        assert(has_row(a, a[x]@.uid));
                    }
                }
                assert forall|u: u32| #[trigger]
                    table_of(b).dom().contains(u) == db@.dom().contains(u) by {
                    if has_row(b, u) {
                        let k = choose|k: int| 0 <= k < b.len() && (#[trigger] b[k])@.uid == u;
                        if k < i {
                            assert(a[k] == b[k]);
                        }
                    }
                    if has_row(a, u) {
                        let k = choose|k: int| 0 <= k < a.len() && (#[trigger] a[k])@.uid == u;
                        assert(a[k] == b[k]);
                    }
                    assert(b[i as int]@.uid == rows[i as int]@.uid);
                }
                assert forall|u: u32| #[trigger] table_of(b).dom().contains(u) implies table_of(
                    b,
                )[u] == db@[u] by {
                    let k = choose|k: int| 0 <= k < b.len() && (#[trigger] b[k])@.uid == u;
                    lemma_row_distinct(b, k);
                    if k < i {
                        assert(a[k] == b[k]);
                        lemma_row_distinct(a, k);
                    }
                }
                assert(table_of(b) =~= db@);
            }
            i = i + 1;
        }
        assert(rows@.take(rows.len() as int) =~= rows@);
        Ok(db)
    }
}

} // verus!
