use runt::error::SyncError;
use runt::flags::ImapFlag;
use runt::imap::{
    check_capabilities, enable_qresync_command, fetch_body_query, fetch_query, fetch_range,
    find_uid_row, has_capability, missing_capabilities, store_deleted_query, store_query,
    uid_in_ranges, uid_set, vanished_known, Command, Imap, UidRange,
};
use runt::text::push_decimal;
use runt::meta::Fetch;
use runt::request::{Reply, Request, Step};
use runt::verbs::{Expunger, Replace};

fn caps(names: &[&str]) -> Vec<String> {
    names.iter().map(|s| s.to_string()).collect()
}

fn fetch(uid: Option<u32>, flags: Vec<ImapFlag>) -> Fetch {
    Fetch { uid, size: Some(1), internal_date_millis: Some(1), flags, body: None }
}

#[test]
fn numbers_are_written_in_decimal() {
    assert_eq!(uid_set(0), "0");
    assert_eq!(uid_set(7), "7");
    assert_eq!(uid_set(10), "10");
    assert_eq!(uid_set(4294967295), "4294967295");
    let mut s = "n=".to_string();
    push_decimal(&mut s, 18446744073709551615);
    assert_eq!(s, "n=18446744073709551615");
    for n in [1u32, 9, 11, 99, 100, 101, 12345, 1000000] {
        assert_eq!(uid_set(n), format!("{}", n));
    }
}

#[test]
fn ranges_are_open_or_closed() {
    assert_eq!(fetch_range(1, None).unwrap(), "1:*");
    assert_eq!(fetch_range(43, None).unwrap(), "43:*");
    assert_eq!(fetch_range(1, Some(42)).unwrap(), "1:42");
    match fetch_range(1, Some(1)) {
        Err(SyncError::Other(msg)) => assert_eq!(msg, "Invalid range 1:1"),
        _ => panic!("a range must rise"),
    }
    match fetch_range(9, Some(3)) {
        Err(SyncError::Other(msg)) => assert_eq!(msg, "Invalid range 9:3"),
        _ => panic!("a range must rise"),
    }
}

#[test]
fn queries_are_spelled_as_the_server_wants_them() {
    assert_eq!(fetch_query(None), "(UID RFC822.SIZE INTERNALDATE FLAGS)");
    assert_eq!(
        fetch_query(Some(715194045007)),
        "(UID RFC822.SIZE INTERNALDATE FLAGS) (CHANGEDSINCE 715194045007 VANISHED)"
    );
    assert_eq!(fetch_body_query(), "(UID RFC822.SIZE INTERNALDATE FLAGS BODY.PEEK[])");
    assert_eq!(store_deleted_query(), "+FLAGS (\\Deleted)");
    assert_eq!(enable_qresync_command(), "ENABLE QRESYNC");
}

#[test]
fn store_queries_name_the_flags() {
    assert_eq!(store_query(true, &[ImapFlag::Seen]), "+FLAGS (\\Seen)");
    assert_eq!(
        store_query(false, &[ImapFlag::Answered, ImapFlag::Flagged]),
        "-FLAGS (\\Answered \\Flagged)"
    );
    assert_eq!(
        store_query(
            true,
            &[
                ImapFlag::Draft,
                ImapFlag::Deleted,
                ImapFlag::Recent,
                ImapFlag::MayCreate,
                ImapFlag::Custom("$Forwarded".to_string()),
            ]
        ),
        "+FLAGS (\\Draft \\Deleted \\Recent \\* $Forwarded)"
    );
    assert_eq!(store_query(true, &[]), "+FLAGS ()");
}

#[test]
fn capabilities_are_matched_letter_for_letter() {
    let all = caps(&["IMAP4rev1", "ENABLE", "UIDPLUS", "IDLE", "QRESYNC"]);
    assert!(has_capability(&all, "IDLE"));
    assert!(!has_capability(&all, "idle"));
    assert_eq!(check_capabilities(&all).unwrap(), true);
    assert!(missing_capabilities(&all).is_empty());
    let slow = caps(&["UIDPLUS", "IDLE", "ENABLE"]);
    assert_eq!(check_capabilities(&slow).unwrap(), false);
    let poor = caps(&["UIDPLUS", "QRESYNC"]);
    assert!(matches!(check_capabilities(&poor), Err(SyncError::Protocol)));
    assert_eq!(missing_capabilities(&poor), caps(&["ENABLE", "IDLE"]));
    assert_eq!(missing_capabilities(&[]), caps(&["ENABLE", "UIDPLUS", "IDLE"]));
    assert!(matches!(check_capabilities(&caps(&["ENABLE", "IDLE"])), Err(SyncError::Protocol)));
    assert!(matches!(check_capabilities(&caps(&["ENABLE", "UIDPLUS"])), Err(SyncError::Protocol)));
}

#[test]
fn vanished_uids_are_those_that_were_known() {
    let ranges = [UidRange { first: 3, last: 5 }, UidRange { first: 9, last: 9 }];
    assert!(uid_in_ranges(&ranges, 3));
    assert!(uid_in_ranges(&ranges, 5));
    assert!(uid_in_ranges(&ranges, 9));
    assert!(!uid_in_ranges(&ranges, 2));
    assert!(!uid_in_ranges(&ranges, 6));
    assert!(!uid_in_ranges(&[], 6));
    assert_eq!(vanished_known(&[1, 2, 4, 5, 8, 9, 12], &ranges), vec![4, 5, 9]);
    assert_eq!(vanished_known(&[1, 2], &ranges), Vec::<u32>::new());
    let wide = [UidRange { first: 1, last: u32::MAX }];
    assert_eq!(vanished_known(&[7, 70], &wide), vec![7, 70]);
    let upside_down = [UidRange { first: 5, last: 3 }];
    assert_eq!(vanished_known(&[3, 4, 5], &upside_down), Vec::<u32>::new());
}

#[test]
fn the_row_of_a_uid_is_the_first_complete_one() {
    let rows = vec![
        fetch(None, vec![]),
        Fetch { uid: Some(7), size: None, internal_date_millis: Some(1), flags: vec![], body: None },
        fetch(Some(8), vec![]),
        fetch(Some(7), vec![ImapFlag::Seen]),
        fetch(Some(7), vec![]),
    ];
    assert_eq!(find_uid_row(&rows, 7), Some(3));
    assert_eq!(find_uid_row(&rows, 8), Some(2));
    assert_eq!(find_uid_row(&rows, 9), None);
    assert_eq!(find_uid_row(&[], 9), None);
}

#[test]
fn a_message_is_marked_and_then_expunged() {
    let (job, step) = Expunger::begin(4);
    assert!(matches!(step, Step::Ask(Request::StoreDeleted(4))));
    let (job, step) = job.resume(Reply::Done);
    assert!(matches!(step, Step::Ask(Request::Expunge(4))));
    let (job, step) = job.resume(Reply::Done);
    assert!(matches!(step, Step::Done(Ok(()))));
    assert_eq!(job, Expunger::Finished);
    let (_, step) = job.resume(Reply::Done);
    assert!(matches!(step, Step::Done(Err(SyncError::Other(_)))));

    let (job, _) = Expunger::begin(4);
    let (job, step) = job.resume(Reply::Failed(SyncError::Network));
    assert!(matches!(step, Step::Done(Err(SyncError::Network))));
    assert_eq!(job, Expunger::Finished);
    let (job, _) = Expunger::begin(4);
    let (job, _) = job.resume(Reply::Done);
    let (_, step) = job.resume(Reply::Empty);
    match step {
        Step::Done(Err(SyncError::Other(msg))) => assert_eq!(msg, "unexpected reply"),
        _ => panic!("a reply of the wrong kind is a failure"),
    }
}

#[test]
fn a_body_is_replaced_by_append_then_delete() {
    let (job, step) = Replace::begin(7, b"new".to_vec());
    assert!(matches!(step, Step::Ask(Request::FetchUidMeta(7))));
    let rows = vec![
        fetch(Some(6), vec![ImapFlag::Draft]),
        fetch(Some(7), vec![ImapFlag::Seen, ImapFlag::Custom("k".to_string())]),
    ];
    let (job, step) = job.resume(Reply::Fetched(rows));
    match step {
        Step::Ask(Request::Append { body, flags }) => {
            assert_eq!(body, b"new".to_vec());
            assert_eq!(flags.len(), 2);
            assert!(matches!(flags[0], ImapFlag::Seen));
            assert!(matches!(&flags[1], ImapFlag::Custom(k) if k == "k"));
        }
        _ => panic!("the new body goes up first"),
    }
    let (job, step) = job.resume(Reply::Done);
    assert!(matches!(step, Step::Ask(Request::StoreDeleted(7))));
    let (job, step) = job.resume(Reply::Done);
    assert!(matches!(step, Step::Ask(Request::Expunge(7))));
    let (job, step) = job.resume(Reply::Done);
    assert!(matches!(step, Step::Done(Ok(()))));
    assert!(matches!(job, Replace::Finished));
}

#[test]
fn a_failed_append_ends_the_replacement() {
    let (job, _) = Replace::begin(7, b"new".to_vec());
    let (job, _) = job.resume(Reply::Fetched(vec![fetch(Some(7), vec![])]));
    let (job, step) = job.resume(Reply::Failed(SyncError::Network));
    assert!(matches!(step, Step::Done(Err(SyncError::Network))));
    assert!(matches!(job, Replace::Finished));
    let (_, step) = job.resume(Reply::Done);
    assert!(matches!(step, Step::Done(Err(_))));
}

#[test]
fn a_message_that_the_server_lacks_cannot_be_replaced() {
    let (job, _) = Replace::begin(7, b"new".to_vec());
    let (job, step) = job.resume(Reply::Fetched(vec![fetch(Some(8), vec![]), fetch(None, vec![])]));
    match step {
        Step::Done(Err(SyncError::Other(msg))) => assert_eq!(msg, "UID 7 not found on server"),
        _ => panic!("nothing to replace"),
    }
    assert!(matches!(job, Replace::Finished));
    let (job, _) = Replace::begin(7, b"new".to_vec());
    let (_, step) = job.resume(Reply::Failed(SyncError::Protocol));
    assert!(matches!(step, Step::Done(Err(SyncError::Protocol))));
}

#[test]
fn a_session_builds_its_commands() {
    assert!(matches!(Imap::new(&caps(&["IDLE"])), Err(SyncError::Protocol)));
    let slow = Imap::new(&caps(&["ENABLE", "UIDPLUS", "IDLE"])).unwrap();
    assert!(!slow.can_qresync());
    let mut imap = Imap::new(&caps(&["ENABLE", "UIDPLUS", "IDLE", "QRESYNC"])).unwrap();
    assert!(imap.can_qresync());
    assert!(matches!(imap.enable_qresync(), Command::Run(s) if s == "ENABLE QRESYNC"));
    assert!(matches!(imap.logout(), Command::Run(s) if s == "LOGOUT"));
    assert!(matches!(imap.idle(), Command::Idle { keepalive: 600 }));
    match imap.list(None, Some("*")) {
        Command::List { reference: None, pattern: Some(p) } => assert_eq!(p, "*"),
        _ => panic!("a listing of everything"),
    }
    match imap.list(Some("a"), None) {
        Command::List { reference: Some(r), pattern: None } => assert_eq!(r, "a"),
        _ => panic!("a listing under a reference"),
    }
    match imap.fetch_uid(42) {
        Command::UidFetch { set, query } => {
            assert_eq!(set, "42");
            assert_eq!(query, "(UID RFC822.SIZE INTERNALDATE FLAGS BODY.PEEK[])");
        }
        _ => panic!("a fetch"),
    }
    match imap.fetch_uid_meta(42) {
        Command::UidFetch { set, query } => {
            assert_eq!(set, "42");
            assert_eq!(query, "(UID RFC822.SIZE INTERNALDATE FLAGS)");
        }
        _ => panic!("a fetch"),
    }
    match imap.fetch_uids(1, None, Some(9)).unwrap() {
        Command::UidFetch { set, query } => {
            assert_eq!(set, "1:*");
            assert_eq!(query, "(UID RFC822.SIZE INTERNALDATE FLAGS) (CHANGEDSINCE 9 VANISHED)");
        }
        _ => panic!("a fetch"),
    }
    match imap.fetch_uids(3, Some(8), None).unwrap() {
        Command::UidFetch { set, query } => {
            assert_eq!(set, "3:8");
            assert_eq!(query, "(UID RFC822.SIZE INTERNALDATE FLAGS)");
        }
        _ => panic!("a fetch"),
    }
    assert!(matches!(imap.fetch_uids(3, Some(3), None), Err(SyncError::Other(m)) if m == "Invalid range 3:3"));
    match imap.delete_uid(7) {
        (Command::UidStore { set, query }, Command::UidExpunge(gone)) => {
            assert_eq!(set, "7");
            assert_eq!(query, "+FLAGS (\\Deleted)");
            assert_eq!(gone, "7");
        }
        _ => panic!("mark, then expunge"),
    }
    match imap.add_flags_for_uid(7, &[ImapFlag::Seen, ImapFlag::Draft]) {
        Command::UidStore { set, query } => {
            assert_eq!(set, "7");
            assert_eq!(query, "+FLAGS (\\Seen \\Draft)");
        }
        _ => panic!("a store"),
    }
    match imap.remove_flags_for_uid(7, &[ImapFlag::Flagged]) {
        Command::UidStore { set, query } => {
            assert_eq!(set, "7");
            assert_eq!(query, "-FLAGS (\\Flagged)");
        }
        _ => panic!("a store"),
    }

    match imap.append(b"x".to_vec(), &[]) {
        Err(SyncError::Other(m)) => assert_eq!(m, "No mailbox selected"),
        _ => panic!("nowhere to upload to"),
    }
    assert!(matches!(imap.select_mailbox("INBOX"), Command::Select(m) if m == "INBOX"));
    assert!(imap.append(b"x".to_vec(), &[]).is_err());
    imap.mailbox_selected("INBOX");
    assert!(imap.can_qresync());
    let flags = [ImapFlag::Recent, ImapFlag::Seen, ImapFlag::Recent, ImapFlag::Custom("k".to_string())];
    match imap.append(b"body".to_vec(), &flags).unwrap() {
        Command::Append { mailbox, flags, body } => {
            assert_eq!(mailbox, "INBOX");
            assert_eq!(body, b"body".to_vec());
            assert_eq!(flags.len(), 2);
            assert!(matches!(flags[0], ImapFlag::Seen));
            assert!(matches!(&flags[1], ImapFlag::Custom(k) if k == "k"));
        }
        _ => panic!("an upload"),
    }
}
