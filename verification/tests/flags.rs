use runt::flags::{maildir_flags_from_imap, FlagValue, ImapFlag, SyncFlags, SyncFlagsDiff};

const ALL: [FlagValue; 5] = [
    FlagValue::Draft,
    FlagValue::Flagged,
    FlagValue::Replied,
    FlagValue::Seen,
    FlagValue::Trashed,
];

fn subset(bits: u8) -> SyncFlags {
    let mut f = SyncFlags::new();
    for (i, flag) in ALL.iter().enumerate() {
        if bits & (1 << i) != 0 {
            f = f.with(*flag);
        }
    }
    f
}

fn members(f: &SyncFlags) -> Vec<FlagValue> {
    ALL.iter().filter(|x| f.contains(**x)).cloned().collect()
}

#[test]
fn maildir_string_is_canonical() {
    let f = SyncFlags::from_maildir_string("TSRFD");
    assert_eq!(f.to_maildir_string(), "DFRST");
}

#[test]
fn unknown_letters_are_dropped() {
    let f = SyncFlags::from_maildir_string("xSy,2:üS");
    assert_eq!(f.to_maildir_string(), "S");
    assert!(f.contains(FlagValue::Seen));
    assert!(!f.contains(FlagValue::Draft));
}

#[test]
fn imap_flags_map_to_letters() {
    let flags = vec![
        ImapFlag::Seen,
        ImapFlag::Recent,
        ImapFlag::Custom("$Junk".to_string()),
        ImapFlag::MayCreate,
        ImapFlag::Answered,
        ImapFlag::Deleted,
    ];
    assert_eq!(maildir_flags_from_imap(&flags), "RST");
    assert_eq!(maildir_flags_from_imap(&[ImapFlag::Draft, ImapFlag::Flagged]), "DF");
    assert_eq!(maildir_flags_from_imap(&[]), "");
}

#[test]
fn every_subset_survives_the_maildir_string() {
    for bits in 0..32u8 {
        let f = subset(bits);
        let s = f.to_maildir_string();
        let g = SyncFlags::from_maildir_string(&s);
        assert_eq!(members(&g), members(&f));
        assert_eq!(g.to_maildir_string(), s);
        assert_eq!(s.len(), bits.count_ones() as usize);
    }
}

#[test]
fn every_subset_survives_the_imap_list() {
    for bits in 0..32u8 {
        let f = subset(bits);
        match f.as_imap_flags() {
            None => assert_eq!(bits, 0),
            Some(list) => {
                assert_ne!(bits, 0);
                assert_eq!(list.len(), bits.count_ones() as usize);
                let g = SyncFlags::from_imap(&list);
                assert_eq!(members(&g), members(&f));
                assert!(!list.iter().any(|x| matches!(x, ImapFlag::Recent)));
            }
        }
    }
}

#[test]
fn a_set_differs_from_itself_in_nothing() {
    for bits in 0..32u8 {
        let f = subset(bits);
        let d = f.diff(f);
        assert!(d.add.empty());
        assert!(d.sub.empty());
    }
}

#[test]
fn applying_a_difference_gives_the_newer_set() {
    for a in 0..32u8 {
        for b in 0..32u8 {
            let f = subset(a);
            let g = subset(b);
            let d = f.diff(g);
            let mut out = SyncFlags::new();
            for x in ALL.iter() {
                if d.add.contains(*x) || (f.contains(*x) && !d.sub.contains(*x)) {
                    out = out.with(*x);
                }
            }
            assert_eq!(members(&out), members(&g));
            assert_eq!(d.add.to_maildir_string(), subset(b & !a).to_maildir_string());
            assert_eq!(d.sub.to_maildir_string(), subset(a & !b).to_maildir_string());
        }
    }
}

#[test]
fn diff_is_slot_by_slot() {
    let older = SyncFlags::from_maildir_string("FS");
    let newer = SyncFlags::from_maildir_string("RS");
    let d = older.diff(newer);
    assert_eq!(d.add.to_maildir_string(), "R");
    assert_eq!(d.sub.to_maildir_string(), "F");
}

#[test]
fn a_new_diff_is_empty() {
    let d = SyncFlagsDiff::new();
    assert!(d.add.empty() && d.sub.empty());
}

#[test]
fn contains_no_flag_asks_for_an_empty_slot() {
    assert!(SyncFlags::new().contains(FlagValue::NoFlag));
    assert!(subset(0b01111).contains(FlagValue::NoFlag));
    assert!(!subset(0b11111).contains(FlagValue::NoFlag));
    assert!(SyncFlags::new().with(FlagValue::NoFlag).empty());
}

#[test]
fn imap_order_follows_the_letters() {
    let f = SyncFlags::from_imap(&[ImapFlag::Deleted, ImapFlag::Seen, ImapFlag::Draft]);
    let list = f.as_imap_flags().unwrap();
    assert!(matches!(list[0], ImapFlag::Draft));
    assert!(matches!(list[1], ImapFlag::Seen));
    assert!(matches!(list[2], ImapFlag::Deleted));
    let g = SyncFlags::from_maildir_string("R");
    assert!(matches!(g.as_imap_flags().unwrap()[0], ImapFlag::Answered));
}

#[test]
fn letters_and_flags() {
    assert_eq!(FlagValue::Draft.letter(), Some('D'));
    assert_eq!(FlagValue::Trashed.letter(), Some('T'));
    assert_eq!(FlagValue::NoFlag.letter(), None);
    assert_eq!(FlagValue::of_letter('R'), FlagValue::Replied);
    assert_eq!(FlagValue::of_letter('r'), FlagValue::NoFlag);
    assert_eq!(ImapFlag::Answered.flag_value(), FlagValue::Replied);
    assert_eq!(ImapFlag::Recent.flag_value(), FlagValue::NoFlag);
}

#[test]
fn flag_sets_convert_from_strings_and_lists() {
    let a = SyncFlags::from("xTD");
    assert_eq!(a.to_maildir_string(), "DT");
    let list = [ImapFlag::Flagged, ImapFlag::Recent, ImapFlag::Seen];
    let b = SyncFlags::from(&list[..]);
    assert_eq!(b.to_maildir_string(), "FS");
    let c: SyncFlags = "R".into();
    assert!(c.contains(FlagValue::Replied));
    assert!(SyncFlags::from("").empty());
}
