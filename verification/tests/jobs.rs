use runt::cache::Cache;
use runt::error::SyncError;
use runt::flags::{ImapFlag, SyncFlags};
use runt::imap::{Mailbox, UidRange};
use runt::local::{DeleteLocal, DeleteMany};
use runt::maildir::{IdResult, MailEntry, Maildir};
use runt::meta::{Fetch, MessageMeta};
use runt::pull::{absent_uids, Pull, PullStage};
use runt::push::{note_outcome, ChangeJob, GoneJob, NewJob, Outcome, Push, PushStage};
use runt::request::{failure_of, idle_resume, unexpected, Reply, Request, Step};
use runt::rows::{plan_row, Download, RowJob, RowPlan, RowsJob};

fn meta(uid: u32, id: &str, size: u32, flags: &str) -> MessageMeta {
    MessageMeta::new(id, size, SyncFlags::from_maildir_string(flags), uid, 1000)
}

fn cache(rows: Vec<MessageMeta>) -> Cache {
    Cache::new(Some(rows), None).unwrap()
}

fn row(uid: u32, size: u32, flags: Vec<ImapFlag>) -> Fetch {
    Fetch { uid: Some(uid), size: Some(size), internal_date_millis: Some(1000), flags, body: None }
}

fn full(uid: u32, body: &[u8], flags: Vec<ImapFlag>) -> Fetch {
    Fetch {
        uid: Some(uid),
        size: Some(body.len() as u32),
        internal_date_millis: Some(1000),
        flags,
        body: Some(body.to_vec()),
    }
}

fn text(e: &SyncError) -> String {
    match e {
        SyncError::Other(m) => m.clone(),
        other => format!("{:?}", other),
    }
}

#[test]
fn failures_have_their_words() {
    assert_eq!(text(&unexpected()), "unexpected reply");
    assert_eq!(text(&idle_resume()), "nothing is pending");
    assert!(matches!(failure_of(Reply::Failed(SyncError::Db)), SyncError::Db));
    assert_eq!(text(&failure_of(Reply::Done)), "unexpected reply");
    assert_eq!(text(&SyncError::other("x")), "x");
    assert!(SyncError::Network.retries());
    assert!(SyncError::other("x").retries());
    assert!(!SyncError::Cancelled.retries());
}

#[test]
fn a_row_is_planned_by_what_the_cache_holds() {
    let c = cache(vec![meta(5, "a", 10, "F")]);
    let other = Fetch { uid: Some(5), size: None, internal_date_millis: Some(1), flags: vec![], body: None };
    assert_eq!(plan_row(&c, &other), RowPlan::Skip);
    assert_eq!(plan_row(&c, &row(5, 10, vec![ImapFlag::Flagged])), RowPlan::Keep);
    assert_eq!(plan_row(&c, &row(5, 11, vec![ImapFlag::Flagged])), RowPlan::Refetch);
    assert_eq!(plan_row(&c, &row(5, 11, vec![ImapFlag::Seen])), RowPlan::Refetch);
    assert_eq!(plan_row(&c, &row(5, 10, vec![])), RowPlan::Flags { seen: false });
    assert_eq!(
        plan_row(&c, &row(5, 10, vec![ImapFlag::Flagged, ImapFlag::Seen])),
        RowPlan::Flags { seen: true }
    );
    assert_eq!(plan_row(&c, &row(6, 10, vec![])), RowPlan::Download);
    let late = Fetch { internal_date_millis: Some(1001), ..row(5, 10, vec![ImapFlag::Flagged]) };
    assert_eq!(plan_row(&c, &late), RowPlan::Refetch);
}

#[test]
fn rows_that_agree_with_the_cache_ask_for_nothing() {
    let c = cache(vec![meta(5, "a", 10, "F"), meta(6, "b", 1, "")]);
    let rows = vec![
        row(5, 10, vec![ImapFlag::Flagged, ImapFlag::Recent]),
        Fetch { uid: None, size: None, internal_date_millis: None, flags: vec![], body: None },
        row(6, 1, vec![]),
    ];
    let (job, step) = RowsJob::begin(&c, rows);
    assert!(matches!(step, Step::Done(Ok(()))));
    assert_eq!(job.next, 3);
    assert!(!job.err);
    let mut c = c;
    let (_, step) = job.resume(&mut c, Reply::Done);
    match step {
        Step::Done(Err(e)) => assert_eq!(text(&e), "nothing is pending"),
        _ => panic!("nothing was asked"),
    }
}

#[test]
fn a_failed_row_is_noted_and_the_next_one_goes_on() {
    let mut c = cache(vec![]);
    let (job, step) = RowsJob::begin(&c, vec![row(5, 3, vec![]), row(6, 3, vec![ImapFlag::Seen])]);
    assert!(matches!(step, Step::Ask(Request::FetchUid(5))));
    assert_eq!(job.next, 1);
    let (job, step) = job.resume(&mut c, Reply::Failed(SyncError::Network));
    assert!(matches!(step, Step::Ask(Request::FetchUid(6))));
    assert!(job.err);
    assert_eq!(job.next, 2);
    let (job, step) = job.resume(&mut c, Reply::Fetched(vec![full(6, b"abc", vec![ImapFlag::Seen])]));
    match step {
        Step::Ask(Request::SaveMessage { body, letters }) => {
            assert_eq!(body, b"abc".to_vec());
            assert_eq!(letters, "S");
        }
        _ => panic!("the body goes to the Maildir"),
    }
    let (job, step) = job.resume(&mut c, Reply::Stored("id6".to_string()));
    match step {
        Step::Ask(Request::DbInsert(m)) => {
            assert_eq!(m.uid(), 6);
            assert_eq!(m.id(), "id6");
            assert_eq!(m.size(), 3);
            assert_eq!(m.flags(), "S");
        }
        _ => panic!("the row follows the file"),
    }
    assert!(c.get_uid(6).is_err());
    let (job, step) = job.resume(&mut c, Reply::Done);
    assert!(matches!(step, Step::Ask(Request::SaveState(f)) if f.last_seen_uid == 6));
    assert_eq!(c.get_uid(6).unwrap().id(), "id6");
    assert_eq!(c.get_last_seen_uid(), 6);
    let (job, step) = job.resume(&mut c, Reply::Done);
    match step {
        Step::Done(Err(e)) => assert_eq!(text(&e), "Cache failed"),
        _ => panic!("one failure tells of them all"),
    }
    assert!(job.err);
    assert!(matches!(job.row, RowJob::Finished));
}

#[test]
fn a_download_can_end_early() {
    let mut c = cache(vec![]);
    let (job, step) = Download::begin(9);
    assert!(matches!(step, Step::Ask(Request::FetchUid(9))));
    let (job, step) = job.resume(&mut c, Reply::Fetched(vec![]));
    assert!(matches!(step, Step::Done(Ok(()))));
    assert!(matches!(job, Download::Finished));

    let (job, _) = Download::begin(9);
    let (_, step) = job.resume(&mut c, Reply::Fetched(vec![row(9, 1, vec![])]));
    assert!(matches!(step, Step::Done(Err(SyncError::Protocol))));

    let (job, _) = Download::begin(9);
    let bare = Fetch { uid: None, ..full(9, b"x", vec![]) };
    let (job, step) = job.resume(&mut c, Reply::Fetched(vec![bare]));
    assert!(matches!(step, Step::Ask(Request::SaveMessage { .. })));
    let (_, step) = job.resume(&mut c, Reply::Stored("id".to_string()));
    assert!(matches!(step, Step::Done(Err(SyncError::Protocol))));

    let mut known = cache(vec![meta(9, "old", 1, "")]);
    let (job, _) = Download::begin(9);
    let (job, _) = job.resume(&mut known, Reply::Fetched(vec![full(9, b"x", vec![])]));
    let (_, step) = job.resume(&mut known, Reply::Stored("id".to_string()));
    assert!(matches!(step, Step::Done(Err(SyncError::Db))));
    assert_eq!(known.get_uid(9).unwrap().id(), "old");

    let (job, _) = Download::begin(9);
    let (job, _) = job.resume(&mut c, Reply::Fetched(vec![full(9, b"x", vec![])]));
    let (job, step) = job.resume(&mut c, Reply::Failed(SyncError::Maildir));
    assert!(matches!(step, Step::Done(Err(SyncError::Maildir))));
    assert!(matches!(job, Download::Finished));
    assert!(c.get_known_uids().is_empty());
}

#[test]
fn a_download_of_two_rows_stores_both() {
    let mut c = cache(vec![meta(20, "high", 1, "")]);
    let _ = c.set_last_seen_uid(20);
    let (job, _) = Download::begin(9);
    let rows = vec![full(9, b"one", vec![]), full(10, b"two!", vec![ImapFlag::Draft])];
    let (job, step) = job.resume(&mut c, Reply::Fetched(rows));
    assert!(matches!(step, Step::Ask(Request::SaveMessage { letters, .. }) if letters == ""));
    let (job, _) = job.resume(&mut c, Reply::Stored("a".to_string()));
    let (job, step) = job.resume(&mut c, Reply::Done);
    assert!(matches!(step, Step::Ask(Request::SaveMessage { letters, .. }) if letters == "D"));
    let (job, step) = job.resume(&mut c, Reply::Stored("b".to_string()));
    assert!(matches!(step, Step::Ask(Request::DbInsert(m)) if m.uid() == 10 && m.size() == 4));
    let (job, step) = job.resume(&mut c, Reply::Failed(SyncError::Db));
    assert!(matches!(step, Step::Done(Err(SyncError::Db))));
    assert!(matches!(job, Download::Finished));
    assert_eq!(c.get_known_uids(), vec![9, 20]);
    assert_eq!(c.get_last_seen_uid(), 20);
}

#[test]
fn forgetting_a_message_tolerates_a_missing_file() {
    let mut c = cache(vec![meta(5, "a", 1, "")]);
    let (job, step) = DeleteLocal::begin(&c, 7);
    assert!(matches!(step, Step::Done(Ok(()))));
    assert_eq!(job, DeleteLocal::Finished);
    let (job, step) = DeleteLocal::begin(&c, 5);
    assert!(matches!(step, Step::Ask(Request::DeleteMessage(id)) if id == "a"));
    let (job, step) = job.resume(&mut c, Reply::Failed(SyncError::Maildir));
    assert!(matches!(step, Step::Ask(Request::DbDelete(5))));
    assert_eq!(c.get_known_uids(), vec![5]);
    let (job, step) = job.resume(&mut c, Reply::Done);
    assert!(matches!(step, Step::Done(Ok(()))));
    assert_eq!(job, DeleteLocal::Finished);
    assert!(c.get_known_uids().is_empty());

    let mut c = cache(vec![meta(5, "a", 1, "")]);
    let (job, _) = DeleteLocal::begin(&c, 5);
    let (job, _) = job.resume(&mut c, Reply::Done);
    let (_, step) = job.resume(&mut c, Reply::Failed(SyncError::Db));
    assert!(matches!(step, Step::Done(Err(SyncError::Db))));
    assert_eq!(c.get_known_uids(), vec![5]);
}

#[test]
fn forgetting_many_goes_on_after_a_failure() {
    let mut c = cache(vec![meta(1, "a", 1, ""), meta(3, "c", 1, ""), meta(4, "d", 1, "")]);
    let (job, step) = DeleteMany::begin(&c, vec![2, 3, 1, 9]);
    assert!(matches!(step, Step::Ask(Request::DeleteMessage(id)) if id == "c"));
    assert_eq!(job.next, 2);
    let (job, _) = job.resume(&mut c, Reply::Done);
    let (job, step) = job.resume(&mut c, Reply::Failed(SyncError::Db));
    assert!(matches!(step, Step::Ask(Request::DeleteMessage(id)) if id == "a"));
    assert!(job.failed);
    let (job, _) = job.resume(&mut c, Reply::Done);
    let (job, step) = job.resume(&mut c, Reply::Done);
    assert!(matches!(step, Step::Done(Ok(()))));
    assert!(job.failed);
    assert_eq!(job.next, 4);
    assert_eq!(c.get_known_uids(), vec![3, 4]);
    let (job, step) = DeleteMany::begin(&c, vec![]);
    assert!(matches!(step, Step::Done(Ok(()))));
    assert!(!job.failed);
}

#[test]
fn absent_uids_are_the_cached_ones_that_no_row_names() {
    let c = cache(vec![meta(1, "a", 1, ""), meta(2, "b", 1, ""), meta(3, "c", 1, "")]);
    let (gone, stray) = absent_uids(&c, &vec![row(1, 1, vec![]), row(3, 1, vec![])]);
    assert_eq!(gone, vec![2]);
    assert!(!stray);
    let (gone, stray) = absent_uids(&c, &vec![]);
    assert_eq!(gone, vec![1, 2, 3]);
    assert!(!stray);
    let (gone, stray) = absent_uids(&c, &vec![row(3, 1, vec![]), row(7, 1, vec![])]);
    assert_eq!(gone, vec![1, 2]);
    assert!(stray);
    let (gone, stray) = absent_uids(&c, &vec![row(2, 1, vec![]), row(2, 1, vec![])]);
    assert_eq!(gone, vec![1, 3]);
    assert!(stray);
    let part = Fetch { size: None, ..row(2, 1, vec![]) };
    let (gone, stray) = absent_uids(&c, &vec![part]);
    assert_eq!(gone, vec![1, 2, 3]);
    assert!(!stray);
}

#[test]
fn a_row_that_the_cache_cannot_account_for_fails_the_slow_path() {
    let mut c = cache(vec![meta(5, "a", 1, "")]);
    let _ = c.set_last_seen_uid(5);
    let mailbox = Mailbox { uid_validity: 0, uid_next: 6, highest_mod_seq: None };
    let (job, step) = Pull::begin(&mut c, mailbox, false);
    assert!(matches!(
        step,
        Step::Ask(Request::FetchUids { first: 1, last: Some(5), changedsince: None })
    ));
    assert_eq!(job.run.last_seen, 5);
    let (job, step) = job.resume(&mut c, Reply::Fetched(vec![row(5, 1, vec![]), row(5, 1, vec![])]));
    match step {
        Step::Done(Err(e)) => assert_eq!(text(&e), "Error removing absent UIDs"),
        _ => panic!("a row twice is a row too many"),
    }
    assert!(matches!(job.stage, PullStage::Finished));
    assert_eq!(c.get_known_uids(), vec![5]);
}

#[test]
fn the_slow_path_asks_no_further_where_no_uid_can_follow() {
    let mut c = cache(vec![meta(u32::MAX, "a", 1, "")]);
    let _ = c.set_last_seen_uid(u32::MAX);
    let mailbox = Mailbox { uid_validity: 0, uid_next: 1, highest_mod_seq: Some(4) };
    let (job, _) = Pull::begin(&mut c, mailbox, false);
    let (job, step) = job.resume(&mut c, Reply::Fetched(vec![row(u32::MAX, 1, vec![])]));
    assert!(matches!(step, Step::Ask(Request::SaveState(f)) if f.uid_next == 1 && f.highest_mod_seq == 0));
    let (job, step) = job.resume(&mut c, Reply::Done);
    assert!(matches!(step, Step::Done(Ok(()))));
    assert!(matches!(job.stage, PullStage::Finished));
}

#[test]
fn vanished_messages_are_forgotten_on_the_quick_path() {
    let mut c = cache(vec![meta(5, "a", 1, ""), meta(6, "b", 1, ""), meta(9, "c", 1, "")]);
    let mailbox = Mailbox { uid_validity: 0, uid_next: 10, highest_mod_seq: Some(44) };
    let (job, step) = Pull::begin(&mut c, mailbox, true);
    assert!(matches!(
        step,
        Step::Ask(Request::FetchUids { first: 1, last: None, changedsince: Some(0) })
    ));
    let (job, step) = job.resume(&mut c, Reply::Fetched(vec![]));
    assert!(matches!(step, Step::Ask(Request::DrainUnsolicited)));
    let ranges = vec![UidRange { first: 6, last: 8 }, UidRange { first: 100, last: 200 }];
    let (job, step) = job.resume(&mut c, Reply::Vanished(ranges));
    assert!(matches!(step, Step::Ask(Request::DeleteMessage(id)) if id == "b"));
    let (job, step) = job.resume(&mut c, Reply::Failed(SyncError::Maildir));
    assert!(matches!(step, Step::Ask(Request::DbDelete(6))));
    let (job, step) = job.resume(&mut c, Reply::Failed(SyncError::Db));
    assert!(matches!(step, Step::Ask(Request::SaveState(f)) if f.highest_mod_seq == 44));
    let (_, step) = job.resume(&mut c, Reply::Done);
    assert!(matches!(step, Step::Done(Ok(()))));
    assert_eq!(c.get_known_uids(), vec![5, 6, 9]);
    assert_eq!(c.get_highest_mod_seq(), 44);
}

#[test]
fn the_outcome_of_a_file_moves_the_refetch_list() {
    assert_eq!(note_outcome(vec![1, 2], Outcome::Untouched), vec![1, 2]);
    assert_eq!(note_outcome(vec![1, 2], Outcome::Touched(3)), vec![1, 2, 3]);
    assert_eq!(note_outcome(vec![1, 2], Outcome::Touched(1)), vec![1, 2]);
    assert_eq!(note_outcome(vec![1, 2, 1], Outcome::Replaced(1)), vec![2]);
    assert_eq!(note_outcome(vec![1, 2], Outcome::Replaced(3)), vec![1, 2]);
    assert_eq!(note_outcome(vec![], Outcome::Touched(3)), vec![3]);
}

#[test]
fn a_changed_file_sends_its_flags_and_its_body() {
    let mut c = cache(vec![meta(5, "a", 10, "FS")]);
    let (job, step) = ChangeJob::begin(&c, "a");
    assert!(matches!(step, Step::Ask(Request::Stat(id)) if id == "a"));
    let found = IdResult::new("RS".to_string(), 12, "/m/cur/a:2,RS".to_string());
    let (job, step) = job.resume(&mut c, "a", Reply::Found(found));
    assert!(matches!(step, Step::Ask(Request::AddFlags { uid: 5, flags }) if matches!(flags[..], [ImapFlag::Answered])));
    let (job, step) = job.resume(&mut c, "a", Reply::Done);
    assert!(matches!(step, Step::Ask(Request::RemoveFlags { uid: 5, flags }) if matches!(flags[..], [ImapFlag::Flagged])));
    let (job, step) = job.resume(&mut c, "a", Reply::Done);
    assert!(matches!(step, Step::Ask(Request::ReadBody(p)) if p == "/m/cur/a:2,RS"));
    let (job, step) = job.resume(&mut c, "a", Reply::Body(b"twelve bytes".to_vec()));
    assert!(matches!(step, Step::Ask(Request::FetchUidMeta(5))));
    let (job, step) = job.resume(&mut c, "a", Reply::Fetched(vec![row(5, 10, vec![ImapFlag::Seen])]));
    assert!(matches!(step, Step::Ask(Request::Append { .. })));
    let (job, step) = job.resume(&mut c, "a", Reply::Done);
    assert!(matches!(step, Step::Ask(Request::StoreDeleted(5))));
    let (job, step) = job.resume(&mut c, "a", Reply::Done);
    assert!(matches!(step, Step::Ask(Request::Expunge(5))));
    let (job, step) = job.resume(&mut c, "a", Reply::Done);
    assert!(matches!(step, Step::Ask(Request::DeleteMessage(id)) if id == "a"));
    let (job, step) = job.resume(&mut c, "a", Reply::Done);
    assert!(matches!(step, Step::Ask(Request::DbDelete(5))));
    assert_eq!(c.get_known_uids(), vec![5]);
    let (job, step) = job.resume(&mut c, "a", Reply::Done);
    assert!(matches!(step, Step::Done(Ok(()))));
    assert!(matches!(job, ChangeJob::Finished(Outcome::Replaced(5))));
    assert!(c.get_known_uids().is_empty());
}

#[test]
fn a_changed_file_with_nothing_to_send_leaves_the_server_alone() {
    let mut c = cache(vec![meta(5, "a", 10, "FS")]);
    let (job, _) = ChangeJob::begin(&c, "a");
    let found = IdResult::new("SF".to_string(), 10, "p".to_string());
    let (job, step) = job.resume(&mut c, "a", Reply::Found(found));
    assert!(matches!(step, Step::Done(Ok(()))));
    assert!(matches!(job, ChangeJob::Finished(Outcome::Untouched)));

    let (job, _) = ChangeJob::begin(&c, "a");
    let found = IdResult::new("S".to_string(), 10, "p".to_string());
    let (job, step) = job.resume(&mut c, "a", Reply::Found(found));
    assert!(matches!(step, Step::Ask(Request::RemoveFlags { uid: 5, .. })));
    let (job, step) = job.resume(&mut c, "a", Reply::Done);
    assert!(matches!(step, Step::Done(Ok(()))));
    assert!(matches!(job, ChangeJob::Finished(Outcome::Touched(5))));

    let (job, step) = ChangeJob::begin(&c, "unknown");
    assert!(matches!(step, Step::Done(Err(SyncError::Db))));
    assert!(matches!(job, ChangeJob::Finished(Outcome::Untouched)));
}

#[test]
fn a_new_file_is_uploaded_and_then_deleted() {
    let (job, step) = NewJob::begin("n");
    assert!(matches!(step, Step::Ask(Request::Stat(id)) if id == "n"));
    let found = IdResult::new("TD".to_string(), 3, "/m/new/n".to_string());
    let (job, step) = job.resume("n", Reply::Found(found));
    assert!(matches!(step, Step::Ask(Request::ReadBody(p)) if p == "/m/new/n"));
    let (job, step) = job.resume("n", Reply::Body(b"abc".to_vec()));
    match step {
        Step::Ask(Request::Append { body, flags }) => {
            assert_eq!(body, b"abc".to_vec());
            assert!(matches!(flags[..], [ImapFlag::Draft, ImapFlag::Deleted]));
        }
        _ => panic!("the file goes up"),
    }
    let (job, step) = job.resume("n", Reply::Done);
    assert!(matches!(step, Step::Ask(Request::DeleteMessage(id)) if id == "n"));
    let (job, step) = job.resume("n", Reply::Done);
    assert!(matches!(step, Step::Done(Ok(()))));
    assert!(matches!(job, NewJob::Finished));

    let (job, _) = NewJob::begin("n");
    let (job, _) = job.resume("n", Reply::Found(IdResult::new("".to_string(), 3, "p".to_string())));
    let (job, step) = job.resume("n", Reply::Body(vec![]));
    assert!(matches!(step, Step::Ask(Request::Append { flags, .. }) if flags.is_empty()));
    let (job, step) = job.resume("n", Reply::Failed(SyncError::Network));
    assert!(matches!(step, Step::Done(Err(SyncError::Network))));
    assert!(matches!(job, NewJob::Finished));
}

#[test]
fn a_message_without_a_file_is_deleted_on_the_server_first() {
    let mut c = cache(vec![meta(5, "a", 1, "")]);
    let (job, step) = GoneJob::begin(5);
    assert!(matches!(step, Step::Ask(Request::StoreDeleted(5))));
    let (job, step) = job.resume(&mut c, 5, Reply::Done);
    assert!(matches!(step, Step::Ask(Request::Expunge(5))));
    let (job, step) = job.resume(&mut c, 5, Reply::Done);
    assert!(matches!(step, Step::Ask(Request::DbDelete(5))));
    assert_eq!(job, GoneJob::Row);
    assert_eq!(c.get_known_uids(), vec![5]);
    let (job, step) = job.resume(&mut c, 5, Reply::Done);
    assert!(matches!(step, Step::Done(Ok(()))));
    assert_eq!(job, GoneJob::Finished);
    assert!(c.get_known_uids().is_empty());

    let mut c = cache(vec![meta(5, "a", 1, "")]);
    let (job, _) = GoneJob::begin(5);
    let (job, step) = job.resume(&mut c, 5, Reply::Failed(SyncError::Network));
    assert!(matches!(step, Step::Done(Err(SyncError::Network))));
    assert_eq!(job, GoneJob::Finished);
    assert_eq!(c.get_known_uids(), vec![5]);
}

#[test]
fn a_push_goes_through_its_parts_in_order() {
    let mut c = cache(vec![meta(5, "kept", 1, ""), meta(6, "lost", 1, ""), meta(7, "bent", 1, "")]);
    let (job, step) = Push::begin();
    assert!(matches!(step, Step::Ask(Request::List)));
    let listing = Maildir::listing(
        vec![MailEntry { id: "fresh".to_string(), flags: "".to_string(), size: Some(2) }],
        vec![
            MailEntry { id: "kept".to_string(), flags: "".to_string(), size: Some(1) },
            MailEntry { id: "bent".to_string(), flags: "F".to_string(), size: Some(1) },
        ],
    );
    let (job, step) = job.resume(&mut c, Reply::Listed(listing));
    assert!(matches!(step, Step::Ask(Request::StoreDeleted(6))));
    assert_eq!(job.gone, vec![6]);
    assert_eq!(job.changed, vec!["bent".to_string()]);
    assert_eq!(job.new, vec!["fresh".to_string()]);
    assert!(job.refetch.is_empty());
    assert!(matches!(job.stage, PushStage::Gone(_)));
    let (job, _) = job.resume(&mut c, Reply::Done);
    let (job, _) = job.resume(&mut c, Reply::Done);
    let (job, step) = job.resume(&mut c, Reply::Done);
    assert!(matches!(step, Step::Ask(Request::Stat(id)) if id == "bent"));
    assert_eq!(c.get_known_uids(), vec![5, 7]);
    let found = IdResult::new("F".to_string(), 1, "p".to_string());
    let (job, step) = job.resume(&mut c, Reply::Found(found));
    assert!(matches!(step, Step::Ask(Request::AddFlags { uid: 7, .. })));
    let (job, step) = job.resume(&mut c, Reply::Done);
    assert!(matches!(step, Step::Ask(Request::Stat(id)) if id == "fresh"));
    assert_eq!(job.refetch, vec![7]);
    let (job, _) = job.resume(&mut c, Reply::Found(IdResult::new("".to_string(), 2, "q".to_string())));
    let (job, _) = job.resume(&mut c, Reply::Body(b"hi".to_vec()));
    let (job, _) = job.resume(&mut c, Reply::Done);
    let (job, step) = job.resume(&mut c, Reply::Done);
    assert!(matches!(step, Step::Ask(Request::FetchUidMeta(7))));
    let (job, step) = job.resume(&mut c, Reply::Fetched(vec![row(7, 1, vec![ImapFlag::Flagged])]));
    assert!(matches!(step, Step::Ask(Request::DbUpdate(m)) if m.uid() == 7 && m.flags() == "F"));
    let (job, step) = job.resume(&mut c, Reply::Done);
    assert!(matches!(step, Step::Ask(Request::SetFlags { id, letters }) if id == "bent" && letters == "F"));
    let (job, step) = job.resume(&mut c, Reply::Done);
    assert!(matches!(step, Step::Ask(Request::SaveState(_))));
    assert!(c.state().maildir_last > 0);
    let (job, step) = job.resume(&mut c, Reply::Done);
    assert!(matches!(step, Step::Done(Ok(()))));
    assert!(matches!(job.stage, PushStage::Finished));
    assert_eq!(job.refetch, vec![7]);
    assert_eq!(c.get_uid(7).unwrap().flags(), "F");
}

#[test]
fn a_listing_that_cannot_be_compared_ends_the_push() {
    let mut c = cache(vec![meta(5, "kept", 1, "")]);
    let (job, _) = Push::begin();
    let listing = Maildir::listing(
        vec![],
        vec![MailEntry { id: "kept".to_string(), flags: "".to_string(), size: None }],
    );
    let (job, step) = job.resume(&mut c, Reply::Listed(listing));
    assert!(matches!(step, Step::Done(Err(SyncError::Maildir))));
    assert!(matches!(job.stage, PushStage::Finished));
    let (job, _) = Push::begin();
    let (_, step) = job.resume(&mut c, Reply::Failed(SyncError::Maildir));
    assert!(matches!(step, Step::Done(Err(SyncError::Maildir))));
}

#[test]
fn a_seen_message_moves_only_if_it_lies_in_new() {
    let mut c = cache(vec![meta(5, "a", 1, "")]);
    let fetch = row(5, 1, vec![ImapFlag::Seen]);
    let (job, step) = RowJob::begin(&c, &fetch);
    assert!(matches!(step, Step::Ask(Request::DbUpdate(m)) if m.flags() == "S" && m.id() == "a"));
    let (job, step) = job.resume(&mut c, &fetch, Reply::Done);
    assert!(matches!(step, Step::Ask(Request::ListNew)));
    assert_eq!(c.get_uid(5).unwrap().flags(), "S");
    let elsewhere = Maildir::listing(
        vec![MailEntry { id: "b".to_string(), flags: "".to_string(), size: Some(1) }],
        vec![],
    );
    let (job, step) = job.resume(&mut c, &fetch, Reply::Listed(elsewhere));
    assert!(matches!(step, Step::Ask(Request::SetFlags { id, letters }) if id == "a" && letters == "S"));
    let (job, step) = job.resume(&mut c, &fetch, Reply::Failed(SyncError::Maildir));
    assert!(matches!(step, Step::Done(Err(SyncError::Maildir))));
    assert!(matches!(job, RowJob::Finished));

    let mut c = cache(vec![meta(5, "a", 1, "")]);
    let (job, _) = RowJob::begin(&c, &fetch);
    let (job, _) = job.resume(&mut c, &fetch, Reply::Done);
    let there = Maildir::listing(
        vec![MailEntry { id: "a".to_string(), flags: "".to_string(), size: Some(1) }],
        vec![],
    );
    let (job, step) = job.resume(&mut c, &fetch, Reply::Listed(there));
    assert!(matches!(step, Step::Ask(Request::MoveToCur { id, letters }) if id == "a" && letters == "S"));
    let (job, step) = job.resume(&mut c, &fetch, Reply::Done);
    assert!(matches!(step, Step::Done(Ok(()))));
    assert!(matches!(job, RowJob::Finished));
}

#[test]
fn a_moved_size_forgets_and_downloads_again() {
    let mut c = cache(vec![meta(5, "a", 1, "")]);
    let fetch = row(5, 2, vec![]);
    let (job, step) = RowJob::begin(&c, &fetch);
    assert!(matches!(step, Step::Ask(Request::DeleteMessage(id)) if id == "a"));
    let (job, step) = job.resume(&mut c, &fetch, Reply::Done);
    assert!(matches!(step, Step::Ask(Request::DbDelete(5))));
    let (job, step) = job.resume(&mut c, &fetch, Reply::Done);
    assert!(matches!(step, Step::Ask(Request::FetchUid(5))));
    assert!(c.get_known_uids().is_empty());
    let (job, step) = job.resume(&mut c, &fetch, Reply::Fetched(vec![full(5, b"xy", vec![])]));
    assert!(matches!(step, Step::Ask(Request::SaveMessage { .. })));
    let (job, _) = job.resume(&mut c, &fetch, Reply::Stored("b".to_string()));
    let (job, step) = job.resume(&mut c, &fetch, Reply::Done);
    assert!(matches!(step, Step::Ask(Request::SaveState(_))));
    let (job, step) = job.resume(&mut c, &fetch, Reply::Done);
    assert!(matches!(step, Step::Done(Ok(()))));
    assert!(matches!(job, RowJob::Finished));
    assert_eq!(c.get_uid(5).unwrap().id(), "b");
    assert_eq!(c.get_uid(5).unwrap().size(), 2);
}
