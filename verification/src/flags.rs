//! Message flags: the five Maildir letters and their IMAP counterparts.

use vstd::prelude::*;
use vstd::string::*;

verus! {

/// One slot of a flag set: a Maildir flag, or the mark of an empty slot.
#[derive(Clone, Copy, Debug, PartialEq, Eq, Structural)]
pub enum FlagValue {
    NoFlag,
    Draft,
    Flagged,
    Replied,
    Seen,
    Trashed,
}

impl FlagValue {
    /// The Maildir letter of a flag; an empty slot has none.
    pub open spec fn spec_letter(self) -> Option<char> {
        match self {
            FlagValue::NoFlag => None,
            FlagValue::Draft => Some('D'),
            FlagValue::Flagged => Some('F'),
            FlagValue::Replied => Some('R'),
            FlagValue::Seen => Some('S'),
            FlagValue::Trashed => Some('T'),
        }
    }

    /// The flag that a character of a Maildir flag string stands for.
    pub open spec fn spec_of_letter(c: char) -> FlagValue {
        if c == 'D' {
            FlagValue::Draft
        } else if c == 'F' {
            FlagValue::Flagged
        } else if c == 'R' {
            FlagValue::Replied
        } else if c == 'S' {
            FlagValue::Seen
        } else if c == 'T' {
            FlagValue::Trashed
        } else {
            FlagValue::NoFlag
        }
    }

    #[verifier::when_used_as_spec(spec_letter)]
    pub fn letter(self) -> (r: Option<char>)
        ensures
            r == self.spec_letter(),
    {
        match self {
            FlagValue::NoFlag => None,
            FlagValue::Draft => Some('D'),
            FlagValue::Flagged => Some('F'),
            FlagValue::Replied => Some('R'),
            FlagValue::Seen => Some('S'),
            FlagValue::Trashed => Some('T'),
        }
    }

    #[verifier::when_used_as_spec(spec_of_letter)]
    pub fn of_letter(c: char) -> (r: FlagValue)
        ensures
            r == FlagValue::spec_of_letter(c),
    {
        if c == 'D' {
            FlagValue::Draft
        } else if c == 'F' {
            FlagValue::Flagged
        } else if c == 'R' {
            FlagValue::Replied
        } else if c == 'S' {
            FlagValue::Seen
        } else if c == 'T' {
            FlagValue::Trashed
        } else {
            FlagValue::NoFlag
        }
    }
}

/// A flag as an IMAP server names it.
#[derive(Debug)]
pub enum ImapFlag {
    Seen,
    Answered,
    Flagged,
    Deleted,
    Draft,
    Recent,
    MayCreate,
    /// A keyword that is none of the system flags.
    Custom(String),
}

impl Clone for ImapFlag {
    fn clone(&self) -> (r: ImapFlag)
        ensures
            r == *self,
    {
        match self {
            ImapFlag::Seen => ImapFlag::Seen,
            ImapFlag::Answered => ImapFlag::Answered,
            ImapFlag::Flagged => ImapFlag::Flagged,
            ImapFlag::Deleted => ImapFlag::Deleted,
            ImapFlag::Draft => ImapFlag::Draft,
            ImapFlag::Recent => ImapFlag::Recent,
            ImapFlag::MayCreate => ImapFlag::MayCreate,
            ImapFlag::Custom(s) => ImapFlag::Custom(s.clone()),
        }
    }
}

impl ImapFlag {
    /// The Maildir flag that an IMAP flag maps to; `NoFlag` for one that the
    /// Maildir cannot hold.
    pub open spec fn spec_flag_value(&self) -> FlagValue {
        match *self {
            ImapFlag::Seen => FlagValue::Seen,
            ImapFlag::Answered => FlagValue::Replied,
            ImapFlag::Flagged => FlagValue::Flagged,
            ImapFlag::Deleted => FlagValue::Trashed,
            ImapFlag::Draft => FlagValue::Draft,
            _ => FlagValue::NoFlag,
        }
    }

    #[verifier::when_used_as_spec(spec_flag_value)]
    pub fn flag_value(&self) -> (r: FlagValue)
        ensures
            r == self.spec_flag_value(),
    {
        match self {
            ImapFlag::Seen => FlagValue::Seen,
            ImapFlag::Answered => FlagValue::Replied,
            ImapFlag::Flagged => FlagValue::Flagged,
            ImapFlag::Deleted => FlagValue::Trashed,
            ImapFlag::Draft => FlagValue::Draft,
            _ => FlagValue::NoFlag,
        }
    }
}

/// The Maildir flags that a list of IMAP flags names.
pub open spec fn flags_of_imap(flags: Seq<ImapFlag>) -> Set<FlagValue> {
    Set::new(
        |f: FlagValue|
            f != FlagValue::NoFlag && exists|i: int|
                0 <= i < flags.len() && (#[trigger] flags[i]).spec_flag_value() == f,
    )
}

/// The Maildir flags that the characters of a flag string name. Characters
/// other than the five letters count for nothing.
pub open spec fn flags_of_letters(s: Seq<char>) -> Set<FlagValue> {
    Set::new(
        |f: FlagValue|
            f != FlagValue::NoFlag && exists|i: int|
                0 <= i < s.len() && FlagValue::spec_of_letter(#[trigger] s[i]) == f,
    )
}

/// One letter if the flag is a member, nothing otherwise.
pub open spec fn letter_if(flags: Set<FlagValue>, f: FlagValue, c: char) -> Seq<char> {
    if flags.contains(f) {
        seq![c]
    } else {
        Seq::empty()
    }
}

/// The flag string of a set: its letters in the fixed order `DFRST`.
pub open spec fn letters_of_flags(flags: Set<FlagValue>) -> Seq<char> {
    letter_if(flags, FlagValue::Draft, 'D') + letter_if(flags, FlagValue::Flagged, 'F')
        + letter_if(flags, FlagValue::Replied, 'R') + letter_if(flags, FlagValue::Seen, 'S')
        + letter_if(flags, FlagValue::Trashed, 'T')
}

/// One IMAP flag if the Maildir flag is a member, nothing otherwise.
pub open spec fn imap_if(flags: Set<FlagValue>, f: FlagValue, i: ImapFlag) -> Seq<ImapFlag> {
    if flags.contains(f) {
        seq![i]
    } else {
        Seq::empty()
    }
}

/// The IMAP flags of a set, in the order of the letters `DFRST`.
pub open spec fn imap_of_flags(flags: Set<FlagValue>) -> Seq<ImapFlag> {
    imap_if(flags, FlagValue::Draft, ImapFlag::Draft) + imap_if(
        flags,
        FlagValue::Flagged,
        ImapFlag::Flagged,
    ) + imap_if(flags, FlagValue::Replied, ImapFlag::Answered) + imap_if(
        flags,
        FlagValue::Seen,
        ImapFlag::Seen,
    ) + imap_if(flags, FlagValue::Trashed, ImapFlag::Deleted)
}

/// The five Maildir flags, none of them an empty slot.
pub open spec fn all_flags() -> Set<FlagValue> {
    set![
        FlagValue::Draft,
        FlagValue::Flagged,
        FlagValue::Replied,
        FlagValue::Seen,
        FlagValue::Trashed
    ]
}

/// A set of message flags, one slot for each of the five letters `DFRST`.
#[derive(Clone, Copy, Debug)]
pub struct SyncFlags {
    draft: bool,
    flagged: bool,
    replied: bool,
    seen: bool,
    trashed: bool,
}

impl View for SyncFlags {
    type V = Set<FlagValue>;

    /// The flags that are set. An empty slot is never a member.
    closed spec fn view(&self) -> Set<FlagValue> {
        Set::new(
            |f: FlagValue|
                match f {
                    FlagValue::NoFlag => false,
                    FlagValue::Draft => self.draft,
                    FlagValue::Flagged => self.flagged,
                    FlagValue::Replied => self.replied,
                    FlagValue::Seen => self.seen,
                    FlagValue::Trashed => self.trashed,
                },
        )
    }
}

/// The result of comparing an older flag set with a newer one.
#[derive(Clone, Copy, Debug)]
pub struct SyncFlagsDiff {
    /// Flags that the newer set has and the older lacks.
    pub add: SyncFlags,
    /// Flags that the older set has and the newer lacks.
    pub sub: SyncFlags,
}

impl SyncFlagsDiff {
    pub fn new() -> (d: SyncFlagsDiff)
        ensures
            d.add@ == Set::<FlagValue>::empty(),
            d.sub@ == Set::<FlagValue>::empty(),
    {
        SyncFlagsDiff { add: SyncFlags::new(), sub: SyncFlags::new() }
    }
}

impl SyncFlags {
    /// What every flag set is made of: some of the five flags.
    pub proof fn lemma_view(self)
        ensures
            self@.subset_of(all_flags()),
            self@.finite(),
            !self@.contains(FlagValue::NoFlag),
    {
        assert(self@.subset_of(all_flags()));
        vstd::set_lib::lemma_len_subset(self@, all_flags());
    }

    /// Two flag sets with the same members are the same value.
    pub proof fn lemma_ext(self, other: SyncFlags)
        requires
            self@ == other@,
        ensures
            self == other,
    {
        assert(self.draft == self@.contains(FlagValue::Draft));
        assert(self.flagged == self@.contains(FlagValue::Flagged));
        assert(self.replied == self@.contains(FlagValue::Replied));
        assert(self.seen == self@.contains(FlagValue::Seen));
        assert(self.trashed == self@.contains(FlagValue::Trashed));
        assert(other.draft == other@.contains(FlagValue::Draft));
        assert(other.flagged == other@.contains(FlagValue::Flagged));
        assert(other.replied == other@.contains(FlagValue::Replied));
        assert(other.seen == other@.contains(FlagValue::Seen));
        assert(other.trashed == other@.contains(FlagValue::Trashed));
    }

    /// The set with no flag.
    pub fn new() -> (r: SyncFlags)
        ensures
            r@ == Set::<FlagValue>::empty(),
    {
        let r = SyncFlags {
            draft: false,
            flagged: false,
            replied: false,
            seen: false,
            trashed: false,
        };
        assert(r@ =~= Set::<FlagValue>::empty());
        r
    }

    /// The set with one more member; an empty slot adds nothing.
    pub fn with(self, flag: FlagValue) -> (r: SyncFlags)
        ensures
            r@ == if flag == FlagValue::NoFlag {
                self@
            } else {
                self@.insert(flag)
            },
    {
        let mut r = self;
        match flag {
            FlagValue::NoFlag => {},
            FlagValue::Draft => {
                r.draft = true;
            },
            FlagValue::Flagged => {
                r.flagged = true;
            },
            FlagValue::Replied => {
                r.replied = true;
            },
            FlagValue::Seen => {
                r.seen = true;
            },
            FlagValue::Trashed => {
                r.trashed = true;
            },
        }
        assert(r@ =~= if flag == FlagValue::NoFlag {
            self@
        } else {
            self@.insert(flag)
        });
        r
    }

    /// Reads a Maildir flag string. Each of the letters `DFRST` sets its flag,
    /// wherever and however often it stands; every other character is passed
    /// over.
    pub fn from_maildir_string(s: &str) -> (r: SyncFlags)
        ensures
            r@ == flags_of_letters(s@),
    {
        let n = s.unicode_len();
        let mut r = SyncFlags::new();
        let mut i: usize = 0;
        while i < n
            invariant
                n == s@.len(),
                i <= n,
                r@ == flags_of_letters(s@.take(i as int)),
            decreases n - i,
        {
            let c = s.get_char(i);
            r = r.with(FlagValue::of_letter(c));
            proof {
                let a = s@.take(i as int);
                let b = s@.take(i + 1);
                assert(b[i as int] == c);
                assert forall|f: FlagValue| #[trigger]
                    r@.contains(f) == flags_of_letters(b).contains(f) by {
                    if flags_of_letters(a).contains(f) {
                        let k = choose|k: int|
                            0 <= k < a.len() && FlagValue::spec_of_letter(#[trigger] a[k]) == f;
                        assert(b[k] == a[k]);
                    }
                    if flags_of_letters(b).contains(f) {
                        let k = choose|k: int|
                            0 <= k < b.len() && FlagValue::spec_of_letter(#[trigger] b[k]) == f;
                        if k < i {
                            assert(a[k] == b[k]);
                        }
                    }
                }
                assert(r@ =~= flags_of_letters(b));
            }
            i = i + 1;
        }
        assert(s@.take(n as int) =~= s@);
        r
    }

    /// Reads a list of IMAP flags. The five flags that a Maildir can hold are
    /// set; `Recent`, keywords and the rest are dropped.
    pub fn from_imap(flags: &[ImapFlag]) -> (r: SyncFlags)
        ensures
            r@ == flags_of_imap(flags@),
    {
        let mut r = SyncFlags::new();
        let mut i: usize = 0;
        while i < flags.len()
            invariant
                i <= flags.len(),
                r@ == flags_of_imap(flags@.take(i as int)),
            decreases flags.len() - i,
        {
            r = r.with(flags[i].flag_value());
            proof {
                let a = flags@.take(i as int);
                let b = flags@.take(i + 1);
                assert(b[i as int] == flags@[i as int]);
                assert forall|f: FlagValue| #[trigger]
                    r@.contains(f) == flags_of_imap(b).contains(f) by {
                    if flags_of_imap(a).contains(f) {
                        let k = choose|k: int|
                            0 <= k < a.len() && (#[trigger] a[k]).spec_flag_value() == f;
                        assert(b[k] == a[k]);
                    }
                    if flags_of_imap(b).contains(f) {
                        let k = choose|k: int|
                            0 <= k < b.len() && (#[trigger] b[k]).spec_flag_value() == f;
                        if k < i {
                            assert(a[k] == b[k]);
                        }
                    }
                }
                assert(r@ =~= flags_of_imap(b));
            }
            i = i + 1;
        }
        assert(flags@.take(flags.len() as int) =~= flags@);
        r
    }

    /// The Maildir flag string: the letters of the flags that are set, in the
    /// order `DFRST`.
    pub fn to_maildir_string(&self) -> (r: String)
        ensures
            r@ == letters_of_flags(self@),
    {
        proof {
            reveal_strlit("D");
            reveal_strlit("F");
            reveal_strlit("R");
            reveal_strlit("S");
            reveal_strlit("T");
        }
        let mut s = String::new();
        if self.draft {
            s.append("D");
        }
        if self.flagged {
            s.append("F");
        }
        if self.replied {
            s.append("R");
        }
        if self.seen {
            s.append("S");
        }
        if self.trashed {
            s.append("T");
        }
        assert(s@ =~= letters_of_flags(self@));
        s
    }

    /// The IMAP flags of the set in the order `DFRST`, or `None` where no
    /// flag is set. `Recent` is never among them.
    pub fn as_imap_flags(&self) -> (r: Option<Vec<ImapFlag>>)
        ensures
            match r {
                Some(v) => v@ == imap_of_flags(self@) && v@.len() > 0,
                None => self@ == Set::<FlagValue>::empty(),
            },
    {
        let mut v: Vec<ImapFlag> = Vec::new();
        if self.draft {
            v.push(ImapFlag::Draft);
        }
        if self.flagged {
            v.push(ImapFlag::Flagged);
        }
        if self.replied {
            v.push(ImapFlag::Answered);
        }
        if self.seen {
            v.push(ImapFlag::Seen);
        }
        if self.trashed {
            v.push(ImapFlag::Deleted);
        }
        assert(v@ =~= imap_of_flags(self@));
        if v.len() > 0 {
            Some(v)
        } else {
            assert(self@ =~= Set::<FlagValue>::empty());
            None
        }
    }

    /// Whether a slot holds `other`. For `NoFlag` this asks whether any slot
    /// is empty.
    pub fn contains(&self, other: FlagValue) -> (r: bool)
        ensures
            other != FlagValue::NoFlag ==> r == self@.contains(other),
            other == FlagValue::NoFlag ==> r == (self@ != all_flags()),
    {
        match other {
            FlagValue::NoFlag => {
                let full = self.draft && self.flagged && self.replied && self.seen
                    && self.trashed;
                proof {
                    if full {
                        assert(self@ =~= all_flags());
                    } else {
                        assert(all_flags().contains(FlagValue::Draft));
                        assert(all_flags().contains(FlagValue::Flagged));
                        assert(all_flags().contains(FlagValue::Replied));
                        assert(all_flags().contains(FlagValue::Seen));
                        assert(all_flags().contains(FlagValue::Trashed));
                    }
                }
                !full
            },
            FlagValue::Draft => self.draft,
            FlagValue::Flagged => self.flagged,
            FlagValue::Replied => self.replied,
            FlagValue::Seen => self.seen,
            FlagValue::Trashed => self.trashed,
        }
    }

    /// Whether no flag is set.
    pub fn empty(&self) -> (r: bool)
        ensures
            r == (self@ == Set::<FlagValue>::empty()),
    {
        let r = !self.draft && !self.flagged && !self.replied && !self.seen && !self.trashed;
        proof {
            if r {
                assert(self@ =~= Set::<FlagValue>::empty());
            } else {
                assert(self@.contains(FlagValue::Draft) || self@.contains(FlagValue::Flagged)
                    || self@.contains(FlagValue::Replied) || self@.contains(FlagValue::Seen)
                    || self@.contains(FlagValue::Trashed));
            }
        }
        r
    }

    /// Compares `self`, the older set, with `other`, the newer one, slot by
    /// slot: what only the newer has is to add, what only the older has is to
    /// take away.
    pub fn diff(&self, other: SyncFlags) -> (d: SyncFlagsDiff)
        ensures
            d.add@ == other@.difference(self@),
            d.sub@ == self@.difference(other@),
    {
        let d = SyncFlagsDiff {
            add: SyncFlags {
                draft: !self.draft && other.draft,
                flagged: !self.flagged && other.flagged,
                replied: !self.replied && other.replied,
                seen: !self.seen && other.seen,
                trashed: !self.trashed && other.trashed,
            },
            sub: SyncFlags {
                draft: self.draft && !other.draft,
                flagged: self.flagged && !other.flagged,
                replied: self.replied && !other.replied,
                seen: self.seen && !other.seen,
                trashed: self.trashed && !other.trashed,
            },
        };
        assert(d.add@ =~= other@.difference(self@));
        assert(d.sub@ =~= self@.difference(other@));
        d
    }
}

impl SyncFlags {
    /// The flag set with the given members. An empty slot among them counts
    /// for nothing.
    pub closed spec fn of_set(set: Set<FlagValue>) -> SyncFlags {
        SyncFlags {
            draft: set.contains(FlagValue::Draft),
            flagged: set.contains(FlagValue::Flagged),
            replied: set.contains(FlagValue::Replied),
            seen: set.contains(FlagValue::Seen),
            trashed: set.contains(FlagValue::Trashed),
        }
    }

    /// The flag set made of a set of flags has these flags and no others.
    pub proof fn lemma_of_set(set: Set<FlagValue>)
        requires
            !set.contains(FlagValue::NoFlag),
        ensures
            Self::of_set(set)@ == set,
    {
        assert(Self::of_set(set)@ =~= set);
    }
}

impl<'a> From<&'a str> for SyncFlags {
    /// Reads a Maildir flag string.
    fn from(s: &'a str) -> (r: SyncFlags) {
        let r = SyncFlags::from_maildir_string(s);
        proof {
            SyncFlags::lemma_of_set(flags_of_letters(s@));
            r.lemma_ext(SyncFlags::of_set(flags_of_letters(s@)));
        }
        r
    }
}

impl<'a> vstd::std_specs::convert::FromSpecImpl<&'a str> for SyncFlags {
    open spec fn obeys_from_spec() -> bool {
        true
    }

    open spec fn from_spec(s: &'a str) -> SyncFlags {
        SyncFlags::of_set(flags_of_letters(s@))
    }
}

impl<'a> From<&'a [ImapFlag]> for SyncFlags {
    /// Reads a list of IMAP flags.
    fn from(flags: &'a [ImapFlag]) -> (r: SyncFlags) {
        let r = SyncFlags::from_imap(flags);
        proof {
            SyncFlags::lemma_of_set(flags_of_imap(flags@));
            r.lemma_ext(SyncFlags::of_set(flags_of_imap(flags@)));
        }
        r
    }
}

impl<'a> vstd::std_specs::convert::FromSpecImpl<&'a [ImapFlag]> for SyncFlags {
    open spec fn obeys_from_spec() -> bool {
        true
    }

    open spec fn from_spec(flags: &'a [ImapFlag]) -> SyncFlags {
        SyncFlags::of_set(flags_of_imap(flags@))
    }
}

/// The Maildir flag string for a list of IMAP flags.
pub fn maildir_flags_from_imap(inflags: &[ImapFlag]) -> (r: String)
    ensures
        r@ == letters_of_flags(flags_of_imap(inflags@)),
{
    SyncFlags::from_imap(inflags).to_maildir_string()
}

/// A sequence of at most one item holds that item and no other.
proof fn lemma_one_or_none<A>(present: bool, item: A, x: A)
    ensures
        (if present {
            seq![item]
        } else {
            Seq::empty()
        }).contains(x) <==> (present && x == item),
{
    if present {
        assert(seq![item][0] == item);
    }
}

/// What the concatenation of five sequences holds.
proof fn lemma_concat5_contains<A>(a: Seq<A>, b: Seq<A>, c: Seq<A>, d: Seq<A>, e: Seq<A>, x: A)
    ensures
        (a + b + c + d + e).contains(x) <==> a.contains(x) || b.contains(x) || c.contains(x)
            || d.contains(x) || e.contains(x),
{
    vstd::seq_lib::lemma_seq_concat_contains_all_elements(a, b, x);
    vstd::seq_lib::lemma_seq_concat_contains_all_elements(a + b, c, x);
    vstd::seq_lib::lemma_seq_concat_contains_all_elements(a + b + c, d, x);
    vstd::seq_lib::lemma_seq_concat_contains_all_elements(a + b + c + d, e, x);
}

/// The characters of a flag string are the letters of the flags in the set.
pub proof fn lemma_letters_contains(flags: Set<FlagValue>, c: char)
    ensures
        letters_of_flags(flags).contains(c) <==> FlagValue::spec_of_letter(c) != FlagValue::NoFlag
            && flags.contains(FlagValue::spec_of_letter(c)),
{
    lemma_one_or_none(flags.contains(FlagValue::Draft), 'D', c);
    lemma_one_or_none(flags.contains(FlagValue::Flagged), 'F', c);
    lemma_one_or_none(flags.contains(FlagValue::Replied), 'R', c);
    lemma_one_or_none(flags.contains(FlagValue::Seen), 'S', c);
    lemma_one_or_none(flags.contains(FlagValue::Trashed), 'T', c);
    lemma_concat5_contains(
        letter_if(flags, FlagValue::Draft, 'D'),
        letter_if(flags, FlagValue::Flagged, 'F'),
        letter_if(flags, FlagValue::Replied, 'R'),
        letter_if(flags, FlagValue::Seen, 'S'),
        letter_if(flags, FlagValue::Trashed, 'T'),
        c,
    );
}

/// The items of the IMAP list of a set are the IMAP names of its flags.
pub proof fn lemma_imap_contains(flags: Set<FlagValue>, x: ImapFlag)
    ensures
        imap_of_flags(flags).contains(x) <==> x.spec_flag_value() != FlagValue::NoFlag
            && flags.contains(x.spec_flag_value()),
{
    lemma_one_or_none(flags.contains(FlagValue::Draft), ImapFlag::Draft, x);
    lemma_one_or_none(flags.contains(FlagValue::Flagged), ImapFlag::Flagged, x);
    lemma_one_or_none(flags.contains(FlagValue::Replied), ImapFlag::Answered, x);
    lemma_one_or_none(flags.contains(FlagValue::Seen), ImapFlag::Seen, x);
    lemma_one_or_none(flags.contains(FlagValue::Trashed), ImapFlag::Deleted, x);
    lemma_concat5_contains(
        imap_if(flags, FlagValue::Draft, ImapFlag::Draft),
        imap_if(flags, FlagValue::Flagged, ImapFlag::Flagged),
        imap_if(flags, FlagValue::Replied, ImapFlag::Answered),
        imap_if(flags, FlagValue::Seen, ImapFlag::Seen),
        imap_if(flags, FlagValue::Trashed, ImapFlag::Deleted),
        x,
    );
}

/// Writing a flag set as a Maildir string and reading the string back gives
/// the same set.
pub proof fn lemma_maildir_string_round_trip(f: SyncFlags)
    ensures
        flags_of_letters(letters_of_flags(f@)) == f@,
{
    f.lemma_view();
    let s = letters_of_flags(f@);
    assert forall|g: FlagValue| #[trigger] flags_of_letters(s).contains(g) == f@.contains(g) by {
        if f@.contains(g) {
            let c = g.spec_letter()->0;
            assert(FlagValue::spec_of_letter(c) == g);
            lemma_letters_contains(f@, c);
            let k = choose|k: int| 0 <= k < s.len() && s[k] == c;
            assert(FlagValue::spec_of_letter(s[k]) == g);
        }
        if flags_of_letters(s).contains(g) {
            let k = choose|k: int|
                0 <= k < s.len() && FlagValue::spec_of_letter(#[trigger] s[k]) == g;
            assert(s.contains(s[k]));
            lemma_letters_contains(f@, s[k]);
        }
    }
    assert(flags_of_letters(s) =~= f@);
}

/// Writing a flag set as a list of IMAP flags and reading the list back gives
/// the same set.
pub proof fn lemma_imap_round_trip(f: SyncFlags)
    ensures
        flags_of_imap(imap_of_flags(f@)) == f@,
{
    f.lemma_view();
    let s = imap_of_flags(f@);
    assert forall|g: FlagValue| #[trigger] flags_of_imap(s).contains(g) == f@.contains(g) by {
        if f@.contains(g) {
            let x = match g {
                FlagValue::Draft => ImapFlag::Draft,
                FlagValue::Flagged => ImapFlag::Flagged,
                FlagValue::Replied => ImapFlag::Answered,
                FlagValue::Seen => ImapFlag::Seen,
                _ => ImapFlag::Deleted,
            };
            assert(x.spec_flag_value() == g);
            lemma_imap_contains(f@, x);
            let k = choose|k: int| 0 <= k < s.len() && s[k] == x;
            assert(s[k].spec_flag_value() == g);
        }
        if flags_of_imap(s).contains(g) {
            let k = choose|k: int| 0 <= k < s.len() && (#[trigger] s[k]).spec_flag_value() == g;
            assert(s.contains(s[k]));
            lemma_imap_contains(f@, s[k]);
        }
    }
    assert(flags_of_imap(s) =~= f@);
}

/// A flag set differs from itself in nothing.
pub proof fn lemma_diff_self(f: SyncFlags)
    ensures
        f@.difference(f@) == Set::<FlagValue>::empty(),
{
    assert(f@.difference(f@) =~= Set::<FlagValue>::empty());
}

/// Applying a difference to the older set gives the newer one: what is to
/// add, joined with the older flags less what is to take away.
pub proof fn lemma_diff_apply(f: SyncFlags, g: SyncFlags)
    ensures
        g@.difference(f@).union(f@.difference(f@.difference(g@))) == g@,
{
    assert(g@.difference(f@).union(f@.difference(f@.difference(g@))) =~= g@);
}

} // verus!
