//! What the synchroniser reads off a Maildir: its entries, and how they
//! differ from the cache.

use crate::error::SyncError;
use crate::flags::letters_of_flags;
use crate::meta::{MessageMeta, MetaView};
use crate::text::texts;
use vstd::hash_map::StringHashMap;
use vstd::prelude::*;
use vstd::string::*;

verus! {

/// One message file of a Maildir, as a listing of `new/` or `cur/` shows it.
#[derive(Debug)]
pub struct MailEntry {
    /// The Maildir ID: the file name without its flag suffix.
    pub id: String,
    /// The flag letters of the file name.
    pub flags: String,
    /// The file's size; `None` where the file system would not tell.
    pub size: Option<u64>,
}

/// A message file that was looked up by its ID.
#[derive(Debug)]
pub struct IdResult {
    flags: String,
    size: u64,
    path: String,
}

impl IdResult {
    pub closed spec fn spec_flags(&self) -> Seq<char> {
        self.flags@
    }

    pub closed spec fn spec_size(&self) -> u64 {
        self.size
    }

    pub closed spec fn spec_path(&self) -> Seq<char> {
        self.path@
    }

    pub fn new(flags: String, size: u64, path: String) -> (r: IdResult)
        ensures
            r.spec_flags() == flags@,
            r.spec_size() == size,
            r.spec_path() == path@,
    {
        IdResult { flags, size, path }
    }

    /// The flag letters of the file name.
    pub fn flags(&self) -> (r: &str)
        ensures
            r@ == self.spec_flags(),
    {
        self.flags.as_str()
    }

    /// The file's size in bytes.
    pub fn size(&self) -> (r: u64)
        ensures
            r == self.spec_size(),
    {
        self.size
    }

    /// Where the file lies.
    pub fn path(&self) -> (r: &str)
        ensures
            r@ == self.spec_path(),
    {
        self.path.as_str()
    }
}

/// The directory of a mailbox's Maildir: `<account>/<mailbox>` under the
/// root of the Maildirs. In it lie `new/`, `cur/` and `tmp/`.
pub fn mailbox_path(root: &str, account: &str, mailbox: &str) -> (r: String)
    ensures
        r@ == root@ + "/"@ + account@ + "/"@ + mailbox@,
{
    let mut s = root.to_owned();
    s.append("/");
    s.append(account);
    s.append("/");
    s.append(mailbox);
    s
}

/// Whether a message with these flags is stored straight into `cur/`: it is
/// if the flags say that it was seen.
pub fn stores_in_cur(flags: &str) -> (r: bool)
    ensures
        r == flags@.contains('S'),
{
    let n = flags.unicode_len();
    let mut i: usize = 0;
    while i < n
        invariant
            n == flags@.len(),
            i <= n,
            forall|j: int| 0 <= j < i ==> flags@[j] != 'S',
        decreases n - i,
    {
        if flags.get_char(i) == 'S' {
            return true;
        }
        i = i + 1;
    }
    false
}

/// Whether a file agrees with the cached record of its message: same size,
/// same flag string. `None` where the file's size is unknown.
pub open spec fn spec_meta_equal(entry: MailEntry, meta: MetaView) -> Option<bool> {
    match entry.size {
        None => None,
        Some(size) => Some(size == meta.size && entry.flags@ == letters_of_flags(meta.flags)),
    }
}

/// Compares a file with the cached record of its message. The file's size
/// is checked first, then its flag string; a file whose size is unknown
/// cannot be compared.
pub fn meta_equal(maildir_meta: &MailEntry, cache_meta: &MessageMeta) -> (r: Result<
    bool,
    SyncError,
>)
    ensures
        match spec_meta_equal(*maildir_meta, cache_meta@) {
            Some(b) => r is Ok && r->Ok_0 == b,
            None => r is Err && r->Err_0 is Maildir,
        },
{
    match maildir_meta.size {
        None => Err(SyncError::Maildir),
        Some(size) => {
            if size != cache_meta.size() as u64 {
                return Ok(false);
            }
            let cached = cache_meta.flags();
            Ok(maildir_meta.flags == cached)
        },
    }
}

/// How a Maildir differs from the cache.
pub struct Updates {
    /// IDs of files that the cache does not know, in the listing's order.
    pub new: Seq<Seq<char>>,
    /// IDs of files that differ from their cached record, in the listing's
    /// order.
    pub changed: Seq<Seq<char>>,
    /// The cached records for which no file was met.
    pub left: Map<Seq<char>, MessageMeta>,
    /// Whether a file that had to be compared had no known size. From then
    /// on nothing changes any more.
    pub failed: bool,
}

/// The differences after one more file of the listing.
pub open spec fn scan_step(u: Updates, entry: MailEntry) -> Updates {
    if u.failed {
        u
    } else if u.left.contains_key(entry.id@) {
        match spec_meta_equal(entry, u.left[entry.id@]@) {
            None => Updates { failed: true, ..u },
            Some(true) => Updates { left: u.left.remove(entry.id@), ..u },
            Some(false) => Updates {
                changed: u.changed.push(entry.id@),
                left: u.left.remove(entry.id@),
                ..u
            },
        }
    } else {
        Updates { new: u.new.push(entry.id@), ..u }
    }
}

/// The differences between a listing and the cached records, found by going
/// through the listing file by file. A file whose ID is cached is compared
/// with its record and takes the record off the map; a file whose ID is not,
/// or no longer, on the map is new.
pub open spec fn scan(entries: Seq<MailEntry>, cache: Map<Seq<char>, MessageMeta>) -> Updates
    decreases entries.len(),
{
    if entries.len() == 0 {
        Updates { new: Seq::empty(), changed: Seq::empty(), left: cache, failed: false }
    } else {
        scan_step(scan(entries.drop_last(), cache), entries.last())
    }
}

/// What a Maildir holds, as a listing of its directories shows it.
#[derive(Debug)]
pub struct Maildir {
    /// The message files: those of `new/` first, then those of `cur/`.
    pub entries: Vec<MailEntry>,
    /// How many of the files lie in `new/`.
    pub in_new: usize,
}

impl Maildir {
    /// The files that lie in `new/`.
    pub open spec fn new_entries(&self) -> Seq<MailEntry> {
        if self.in_new <= self.entries@.len() {
            self.entries@.take(self.in_new as int)
        } else {
            self.entries@
        }
    }

    /// Whether a file with this ID lies in `new/`.
    pub open spec fn has_in_new(&self, id: Seq<char>) -> bool {
        exists|i: int|
            0 <= i < self.new_entries().len() && (#[trigger] self.new_entries()[i]).id@ == id
    }

    /// The listing made of the files of `new/` and the files of `cur/`.
    pub fn listing(new: Vec<MailEntry>, cur: Vec<MailEntry>) -> (r: Maildir)
        ensures
            r.entries@ == new@ + cur@,
            r.in_new == new@.len(),
            r.new_entries() == new@,
    {
        let mut entries = new;
        let mut cur = cur;
        let in_new = entries.len();
        entries.append(&mut cur);
        assert(entries@.take(in_new as int) =~= new@);
        Maildir { entries, in_new }
    }

    /// Compares the Maildir (`new/` first, then `cur/`) with the cached
    /// records by ID. Returns the IDs of the new files and of the changed
    /// files; `cache` keeps the records whose files are gone. Stops at the
    /// first file that has to be compared and has no known size.
    pub fn get_updates(&self, cache: &mut StringHashMap<MessageMeta>) -> (r: Result<
        (Vec<String>, Vec<String>),
        SyncError,
    >)
        ensures
            final(cache)@ == scan(self.entries@, old(cache)@).left,
            match r {
                Ok((new, changed)) => {
                    &&& !scan(self.entries@, old(cache)@).failed
                    &&& texts(new@) == scan(self.entries@, old(cache)@).new
                    &&& texts(changed@) == scan(self.entries@, old(cache)@).changed
                },
                Err(e) => e is Maildir && scan(self.entries@, old(cache)@).failed,
            },
    {
        let entries = &self.entries;
        let mut new: Vec<String> = Vec::new();
        let mut changed: Vec<String> = Vec::new();
        let mut i: usize = 0;
        assert(texts(new@) =~= Seq::<Seq<char>>::empty());
        assert(texts(changed@) =~= Seq::<Seq<char>>::empty());
        while i < entries.len()
            invariant
                entries@ == self.entries@,
                i <= entries.len(),
                !scan(entries@.take(i as int), old(cache)@).failed,
                texts(new@) == scan(entries@.take(i as int), old(cache)@).new,
                texts(changed@) == scan(entries@.take(i as int), old(cache)@).changed,
                cache@ == scan(entries@.take(i as int), old(cache)@).left,
            decreases entries.len() - i,
        {
            let entry = &entries[i];
            proof {
                assert(entries@.take(i + 1).drop_last() =~= entries@.take(i as int));
                assert(entries@.take(i + 1).last() == entries@[i as int]);
            }
            let known = match cache.get(entry.id.as_str()) {
                Some(cache_meta) => Some(meta_equal(entry, cache_meta)),
                None => None,
            };
            match known {
                Some(Err(e)) => {
                    proof {
                        lemma_scan_failed(entries@, old(cache)@, i + 1);
                    }
                    return Err(e);
                },
                Some(Ok(same)) => {
                    if !same {
                        let ghost c0 = changed@;
                        changed.push(entry.id.clone());
                        assert(texts(changed@) =~= texts(c0).push(entry.id@));
                    }
                    cache.remove(entry.id.as_str());
                },
                None => {
                    let ghost n0 = new@;
                    new.push(entry.id.clone());
                    assert(texts(new@) =~= texts(n0).push(entry.id@));
                },
            }
            i = i + 1;
        }
        assert(entries@.take(entries.len() as int) =~= entries@);
        Ok((new, changed))
    }

    /// Determines whether a message with this ID lies in `new/`.
    pub fn message_is_in_new(&self, id: &str) -> (r: bool)
        ensures
            r == self.has_in_new(id@),
    {
        let wanted = id.to_owned();
        let n = if self.in_new <= self.entries.len() {
            self.in_new
        } else {
            self.entries.len()
        };
        let mut i: usize = 0;
        while i < n
            invariant
                wanted@ == id@,
                n <= self.entries.len(),
                n == self.new_entries().len(),
                i <= n,
                forall|j: int| 0 <= j < i ==> (#[trigger] self.new_entries()[j]).id@ != id@,
            decreases n - i,
        {
            assert(self.new_entries()[i as int] == self.entries@[i as int]);
            if self.entries[i].id == wanted {
                return true;
            }
            i = i + 1;
        }
        false
    }
}

/// Once a scan has failed on the first `k` files it has failed on all of
/// them, with the same records left.
proof fn lemma_scan_failed(entries: Seq<MailEntry>, cache: Map<Seq<char>, MessageMeta>, k: int)
    requires
        0 <= k <= entries.len(),
        scan(entries.take(k), cache).failed,
    ensures
        scan(entries, cache) == scan(entries.take(k), cache),
    decreases entries.len() - k,
{
    if k == entries.len() {
        assert(entries.take(k) =~= entries);
    } else {
        assert(entries.take(k + 1).drop_last() =~= entries.take(k));
        lemma_scan_failed(entries, cache, k + 1);
    }
}

/// The IDs of the listing are all different.
pub open spec fn distinct_ids(entries: Seq<MailEntry>) -> bool {
    forall|i: int, j: int|
        0 <= i < j < entries.len() ==> (#[trigger] entries[i]).id@ != (#[trigger] entries[j]).id@
}

/// Every file of the listing is the file of a cached record and agrees with
/// it.
pub open spec fn all_cached(entries: Seq<MailEntry>, cache: Map<Seq<char>, MessageMeta>) -> bool {
    forall|i: int|
        0 <= i < entries.len() ==> cache.contains_key((#[trigger] entries[i]).id@)
            && spec_meta_equal(entries[i], cache[entries[i].id@]@) == Some(true)
}

/// A listing that shows each cached message once, and as the cache knows
/// it, differs from the cache in nothing: the comparison finds no new file
/// and no changed file, and takes every file's record off the map.
pub proof fn lemma_scan_agreeing(entries: Seq<MailEntry>, cache: Map<Seq<char>, MessageMeta>)
    requires
        distinct_ids(entries),
        all_cached(entries, cache),
    ensures
        !scan(entries, cache).failed,
        scan(entries, cache).new == Seq::<Seq<char>>::empty(),
        scan(entries, cache).changed == Seq::<Seq<char>>::empty(),
        forall|id: Seq<char>|
            scan(entries, cache).left.contains_key(id) <==> cache.contains_key(id) && !exists|
                i: int,
            | 0 <= i < entries.len() && (#[trigger] entries[i]).id@ == id,
        forall|id: Seq<char>| #[trigger]
            scan(entries, cache).left.contains_key(id) ==> scan(entries, cache).left[id]
                == cache[id],
    decreases entries.len(),
{
    if entries.len() > 0 {
        let head = entries.drop_last();
        let last = entries.last();
        assert forall|i: int, j: int| 0 <= i < j < head.len() implies (#[trigger] head[i]).id@ != (
        #[trigger] head[j]).id@ by {
            assert(head[i] == entries[i] && head[j] == entries[j]);
        }
        assert forall|i: int| 0 <= i < head.len() implies cache.contains_key(
            (#[trigger] head[i]).id@,
        ) && spec_meta_equal(head[i], cache[head[i].id@]@) == Some(true) by {
            assert(head[i] == entries[i]);
        }
        lemma_scan_agreeing(head, cache);
        let before = scan(head, cache);
        let after = scan(entries, cache);
        assert(entries[entries.len() - 1] == last);
        assert(!(exists|i: int| 0 <= i < head.len() && (#[trigger] head[i]).id@ == last.id@)) by {
            if exists|i: int| 0 <= i < head.len() && (#[trigger] head[i]).id@ == last.id@ {
                let i = choose|i: int| 0 <= i < head.len() && (#[trigger] head[i]).id@ == last.id@;
                assert(head[i] == entries[i]);
                assert(entries[i].id@ != entries[entries.len() - 1].id@);
            }
        }
        assert(before.left.contains_key(last.id@));
        assert(before.left[last.id@] == cache[last.id@]);
        assert(after == (Updates { left: before.left.remove(last.id@), ..before }));
        assert forall|id: Seq<char>|
            after.left.contains_key(id) <==> cache.contains_key(id) && !exists|i: int|
                0 <= i < entries.len() && (#[trigger] entries[i]).id@ == id by {
            if exists|i: int| 0 <= i < entries.len() && (#[trigger] entries[i]).id@ == id {
                let i = choose|i: int| 0 <= i < entries.len() && (#[trigger] entries[i]).id@ == id;
                if i < head.len() {
                    assert(head[i].id@ == id);
                }
            }
            if exists|i: int| 0 <= i < head.len() && (#[trigger] head[i]).id@ == id {
                let i = choose|i: int| 0 <= i < head.len() && (#[trigger] head[i]).id@ == id;
                assert(entries[i].id@ == id);
            }
        }
    }
}

} // verus!
