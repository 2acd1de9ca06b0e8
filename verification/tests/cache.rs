use runt::cache::{db_path, path, statefile, Cache};
use runt::db::{Db, DbError};
use runt::flags::{ImapFlag, SyncFlags};
use runt::imap::Mailbox;
use runt::meta::{Fetch, FetchResult, MessageMeta, UidResult};
use runt::statefile::{StateFile, StateFileFields};

fn meta(uid: u32, id: &str, size: u32, flags: &str) -> MessageMeta {
    MessageMeta::new(id, size, SyncFlags::from_maildir_string(flags), uid, 1000 + uid as i64)
}

fn same(a: &MessageMeta, b: &MessageMeta) -> bool {
    a.uid() == b.uid()
        && a.id() == b.id()
        && a.size() == b.size()
        && a.flags() == b.flags()
        && a.internal_date_millis() == b.internal_date_millis()
}

fn row<'a>(uid: u32, size: u32, date: i64, flags: &'a [ImapFlag]) -> UidResult<'a> {
    UidResult { uid, size, internal_date_millis: date, flags }
}

#[test]
fn a_message_added_is_found_by_uid_and_by_id() {
    let mut db = Db::new();
    let m = meta(7, "abc", 100, "FS");
    assert_eq!(db.add(&m), Ok(()));
    assert!(same(&db.get_uid(7).unwrap(), &m));
    assert!(same(&db.get_id("abc").unwrap(), &m));
    assert_eq!(db.num_entries(), 1);
}

#[test]
fn a_second_row_with_the_same_uid_is_refused() {
    let mut db = Db::new();
    db.add(&meta(7, "abc", 100, "")).unwrap();
    assert_eq!(db.add(&meta(7, "other", 1, "S")), Err(DbError::UidExists));
    assert_eq!(db.num_entries(), 1);
    assert_eq!(db.get_uid(7).unwrap().id(), "abc");
}

#[test]
fn update_overwrites_and_fails_if_absent() {
    let mut db = Db::new();
    db.add(&meta(7, "abc", 100, "")).unwrap();
    assert_eq!(db.update(&meta(7, "abc", 101, "S")), Ok(()));
    let m = db.get_uid(7).unwrap();
    assert_eq!(m.size(), 101);
    assert_eq!(m.flags(), "S");
    assert_eq!(db.update(&meta(8, "x", 1, "")), Err(DbError::NoSuchRow));
    assert_eq!(db.num_entries(), 1);
}

#[test]
fn deleting_twice_is_as_deleting_once() {
    let mut db = Db::new();
    db.add(&meta(1, "a", 1, "")).unwrap();
    db.add(&meta(2, "b", 1, "")).unwrap();
    assert_eq!(db.delete_uid(1), Ok(()));
    assert_eq!(db.get_uids(), vec![2]);
    assert_eq!(db.delete_uid(1), Ok(()));
    assert_eq!(db.get_uids(), vec![2]);
    assert_eq!(db.get_uid(1).err(), Some(DbError::NoSuchRow));
}

#[test]
fn uids_come_ascending_whatever_the_order_of_insertion() {
    let mut db = Db::new();
    for uid in [5u32, 1, 9, 3, 7, 2, 8] {
        db.add(&meta(uid, &format!("id{}", uid), uid, "")).unwrap();
    }
    assert_eq!(db.get_uids(), vec![1, 2, 3, 5, 7, 8, 9]);
    assert_eq!(db.num_entries(), 7);
    assert_eq!(db.expected_entries(), 7);
    db.delete_uid(5).unwrap();
    assert_eq!(db.get_uids(), vec![1, 2, 3, 7, 8, 9]);
    for uid in [1u32, 2, 3, 7, 8, 9] {
        assert_eq!(db.get_uid(uid).unwrap().id(), format!("id{}", uid));
    }
    assert!(db.get_uid(5).is_err());
    assert!(db.get_uid(0).is_err());
    assert!(db.get_uid(10).is_err());
}

#[test]
fn of_two_rows_with_one_id_the_lookup_takes_the_first_and_the_index_the_last() {
    let mut db = Db::new();
    db.add(&meta(9, "twin", 9, "")).unwrap();
    db.add(&meta(4, "twin", 4, "")).unwrap();
    db.add(&meta(6, "single", 6, "")).unwrap();
    assert_eq!(db.get_id("twin").unwrap().uid(), 4);
    let ids = db.get_ids();
    assert_eq!(ids.len(), 2);
    assert_eq!(ids.get("twin").unwrap().uid(), 9);
    assert_eq!(ids.get("single").unwrap().uid(), 6);
    assert!(ids.get("none").is_none());
    assert_eq!(db.uids_listed_in(&ids), vec![6, 9]);
    assert_eq!(db.get_id("none").err(), Some(DbError::NoSuchRow));
}

#[test]
fn a_table_opens_from_its_rows() {
    let db = Db::from_file(None).unwrap();
    assert_eq!(db.num_entries(), 0);
    let db = Db::from_file(Some(vec![meta(3, "c", 1, ""), meta(1, "a", 1, "")])).unwrap();
    assert_eq!(db.get_uids(), vec![1, 3]);
    assert_eq!(db.get_uid(3).unwrap().id(), "c");
    let twice = Db::from_file(Some(vec![meta(3, "c", 1, ""), meta(3, "d", 1, "")]));
    assert_eq!(twice.err(), Some(DbError::UidExists));
}

#[test]
fn the_cache_raises_the_high_water_mark_only_upwards() {
    let mut cache = Cache::new(None, None).unwrap();
    assert_eq!(cache.get_last_seen_uid(), 0);
    let flags = [ImapFlag::Seen];
    let m = cache.add("a", &row(5, 10, 77, &flags)).unwrap();
    assert_eq!(m.uid(), 5);
    assert_eq!(m.id(), "a");
    assert_eq!(m.size(), 10);
    assert_eq!(m.internal_date_millis(), 77);
    assert_eq!(m.flags(), "S");
    assert_eq!(cache.get_last_seen_uid(), 5);
    cache.add("b", &row(3, 10, 77, &[])).unwrap();
    assert_eq!(cache.get_last_seen_uid(), 5);
    assert_eq!(cache.add("c", &row(5, 1, 1, &[])).err(), Some(DbError::UidExists));
    assert_eq!(cache.get_last_seen_uid(), 5);
    assert_eq!(cache.get_known_uids(), vec![3, 5]);
    assert_eq!(cache.num_entries(), 2);
    assert!(same(&cache.get_uid(5).unwrap(), &m));
    assert!(same(&cache.get_id("a").unwrap(), &m));
}

#[test]
fn the_cache_updates_a_row_from_a_fetch_row() {
    let mut cache = Cache::new(Some(vec![meta(5, "a", 10, "")]), None).unwrap();
    let flags = [ImapFlag::Flagged, ImapFlag::Custom("x".to_string())];
    let m = cache.update(&row(5, 11, 99, &flags)).unwrap();
    assert_eq!(m.id(), "a");
    assert_eq!(m.size(), 11);
    assert_eq!(m.internal_date_millis(), 99);
    assert_eq!(m.flags(), "F");
    assert!(same(&cache.get_uid(5).unwrap(), &m));
    assert_eq!(cache.update(&row(6, 1, 1, &[])).err(), Some(DbError::NoSuchRow));
    assert_eq!(cache.delete_uid(5), Ok(()));
    assert_eq!(cache.delete_uid(5), Ok(()));
    assert!(cache.get_known_uids().is_empty());
}

#[test]
fn the_cache_is_valid_for_the_stored_epoch_only() {
    let mut cache = Cache::new(None, None).unwrap();
    let mailbox = Mailbox { uid_validity: 10, uid_next: 4, highest_mod_seq: Some(33) };
    assert!(!cache.is_valid(&mailbox));
    let fields = cache.update_imap_state_at(&mailbox, false, 1234);
    assert_eq!(
        fields,
        StateFileFields {
            version: 1,
            imap_last: 1234,
            maildir_last: 0,
            uid_validity: 10,
            uid_next: 4,
            last_seen_uid: 0,
            highest_mod_seq: 0,
        }
    );
    assert!(cache.is_valid(&mailbox));
    assert_eq!(cache.get_highest_mod_seq(), 0);
    let fields = cache.update_imap_state_at(&mailbox, true, 1235);
    assert_eq!(fields.highest_mod_seq, 33);
    assert_eq!(cache.get_highest_mod_seq(), 33);
    let silent = Mailbox { uid_validity: 11, uid_next: 5, highest_mod_seq: None };
    let fields = cache.update_imap_state_at(&silent, true, 1236);
    assert_eq!(fields.highest_mod_seq, 33);
    assert_eq!(fields.uid_validity, 11);
    assert!(!cache.is_valid(&mailbox));
    let fields = cache.update_maildir_state_at(99);
    assert_eq!(fields.maildir_last, 99);
    assert_eq!(fields.imap_last, 1236);
    assert_eq!(cache.state(), fields);
    let fields = cache.set_last_seen_uid(8);
    assert_eq!(fields.last_seen_uid, 8);
    assert_eq!(cache.get_last_seen_uid(), 8);
}

#[test]
fn the_clock_only_moves_the_time_fields() {
    let mut cache = Cache::new(None, None).unwrap();
    let mailbox = Mailbox { uid_validity: 10, uid_next: 4, highest_mod_seq: Some(33) };
    let a = cache.update_imap_state(&mailbox, true);
    assert!(a.imap_last > 1_600_000_000_000);
    assert_eq!(a, StateFileFields { imap_last: a.imap_last, ..cache.update_imap_state_at(&mailbox, true, a.imap_last) });
    let b = cache.update_maildir_state();
    assert!(b.maildir_last >= a.imap_last);
    assert_eq!(StateFileFields { maildir_last: 0, ..b }, StateFileFields { maildir_last: 0, ..a });
}

#[test]
fn a_state_record_starts_blank_or_from_what_was_stored() {
    let blank = StateFile::new(None);
    assert_eq!(
        blank.fields(),
        StateFileFields {
            version: 1,
            imap_last: 0,
            maildir_last: 0,
            uid_validity: 0,
            uid_next: 0,
            last_seen_uid: 0,
            highest_mod_seq: 0,
        }
    );
    assert_eq!(StateFile::make_new().fields(), blank.fields());
    let stored = StateFileFields {
        version: 1,
        imap_last: 5,
        maildir_last: 6,
        uid_validity: 7,
        uid_next: 8,
        last_seen_uid: 9,
        highest_mod_seq: 10,
    };
    let mut state = StateFile::new(Some(stored));
    assert_eq!(state.fields(), stored);
    assert_eq!(state.uid_validity(), 7);
    assert_eq!(state.last_seen_uid(), 9);
    assert_eq!(state.highest_mod_seq(), 10);
    state.set_last_seen_uid(12);
    assert_eq!(state.fields(), StateFileFields { last_seen_uid: 12, ..stored });
    state.update_imap_at(1, 2, 3, 4);
    assert_eq!(
        state.fields(),
        StateFileFields {
            version: 1,
            imap_last: 4,
            maildir_last: 6,
            uid_validity: 1,
            uid_next: 2,
            last_seen_uid: 12,
            highest_mod_seq: 3,
        }
    );
    state.update_maildir_at(44);
    assert_eq!(state.fields().maildir_last, 44);
    let before = state.fields();
    state.update_imap(9, 9, 9);
    assert!(state.fields().imap_last > 1_600_000_000_000);
    assert_eq!(state.fields().uid_validity, 9);
    assert_eq!(state.fields().maildir_last, before.maildir_last);
    state.update_maildir();
    assert!(state.fields().maildir_last > 1_600_000_000_000);
}

#[test]
fn a_fetch_row_is_sorted_by_what_it_carries() {
    let full = Fetch {
        uid: Some(3),
        size: Some(9),
        internal_date_millis: Some(-5),
        flags: vec![ImapFlag::Seen],
        body: None,
    };
    match FetchResult::from(&full) {
        FetchResult::Uid(u) => {
            assert_eq!(u.uid(), 3);
            assert_eq!(u.size(), 9);
            assert_eq!(u.internal_date_millis(), -5);
            assert_eq!(u.flags().len(), 1);
        }
        FetchResult::Other(_) => panic!("a complete row"),
    }
    for missing in 0..3 {
        let part = Fetch {
            uid: if missing == 0 { None } else { Some(3) },
            size: if missing == 1 { None } else { Some(9) },
            internal_date_millis: if missing == 2 { None } else { Some(1) },
            flags: vec![],
            body: Some(vec![1]),
        };
        assert!(matches!(FetchResult::from(&part), FetchResult::Other(_)));
    }
}

#[test]
fn a_record_is_compared_with_a_fetch_row() {
    let m = meta(5, "a", 10, "F");
    let flagged = [ImapFlag::Flagged];
    let seen = [ImapFlag::Flagged, ImapFlag::Seen];
    let date = m.internal_date_millis();
    assert!(m.is_equal(&row(5, 10, date, &flagged)));
    assert!(m.is_equal(&row(5, 10, date, &[ImapFlag::Recent, ImapFlag::Flagged])));
    assert!(!m.is_equal(&row(6, 10, date, &flagged)));
    assert!(!m.is_equal(&row(5, 11, date, &flagged)));
    assert!(!m.is_equal(&row(5, 10, date + 1, &flagged)));
    assert!(!m.is_equal(&row(5, 10, date, &seen)));
    assert!(m.flags_equal(&flagged));
    assert!(!m.flags_equal(&[]));
    assert!(!m.needs_refetch(&row(5, 10, date, &seen)));
    assert!(m.needs_refetch(&row(5, 11, date, &flagged)));
    assert!(m.needs_refetch(&row(5, 10, date - 1, &flagged)));
    assert!(m.needs_move_from_new_to_cur(&row(5, 10, date, &seen)));
    assert!(!m.needs_move_from_new_to_cur(&row(5, 10, date, &flagged)));
    let s = meta(5, "a", 10, "S");
    assert!(!s.needs_move_from_new_to_cur(&row(5, 10, date, &seen)));
    let mut n = meta(5, "keep", 10, "F");
    n.update(&row(6, 20, 30, &seen));
    assert_eq!(n.uid(), 6);
    assert_eq!(n.size(), 20);
    assert_eq!(n.internal_date_millis(), 30);
    assert_eq!(n.flags(), "FS");
    assert_eq!(n.id(), "keep");
    assert!(n.has_id(&"keep".to_string()));
    assert_eq!(n.sync_flags().to_maildir_string(), "FS");
    let f = MessageMeta::from_fields(1, 2, 3, "zSD".to_string(), "id".to_string());
    assert_eq!(f.uid(), 1);
    assert_eq!(f.size(), 2);
    assert_eq!(f.internal_date_millis(), 3);
    assert_eq!(f.flags(), "DS");
    assert_eq!(f.id(), "id");
}

#[test]
fn the_cache_lies_under_the_account_and_the_mailbox() {
    assert_eq!(path("/home/me/.runt", "work", "INBOX"), "/home/me/.runt/cache/work/INBOX");
    assert_eq!(
        db_path("/home/me/.runt", "work", "INBOX"),
        "/home/me/.runt/cache/work/INBOX/db.sqlite"
    );
    assert_eq!(statefile("/home/me/.runt", "work", "INBOX"), "/home/me/.runt/cache/work/INBOX/state");
    assert_eq!(statefile("", "a", "b"), "/cache/a/b/state");
}
