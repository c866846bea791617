use bichon::error::{BichonError, ErrorCode};
use bichon::reconcile::{
    collect_fetch_outcomes, find_intersecting_mailboxes, find_missing_mailboxes,
    find_orphan_mailboxes, mailboxes_to_fetch, needs_rebuild, plan_incremental_sync, uid_delta,
    FetchOutcome, MailBox,
};

fn mb(id: u64, name: &str, exists: u32, uid_validity: Option<u32>) -> MailBox {
    MailBox {
        id,
        account_id: 1,
        name: name.to_string(),
        exists,
        uid_validity,
        uid_next: None,
    }
}

fn names(v: &[MailBox]) -> Vec<&str> {
    v.iter().map(|m| m.name.as_str()).collect()
}

#[test]
fn missing_mailboxes_are_remote_only_names_in_remote_order() {
    let local = vec![mb(1, "INBOX", 3, Some(1)), mb(2, "Sent", 0, Some(1))];
    let remote = vec![
        mb(10, "Trash", 2, Some(1)),
        mb(11, "INBOX", 4, Some(1)),
        mb(12, "Archive", 1, Some(1)),
    ];
    let missing = find_missing_mailboxes(&local, &remote);
    assert_eq!(names(&missing), vec!["Trash", "Archive"]);
    assert_eq!(missing[0].id, 10);
    let orphans = find_orphan_mailboxes(&local, &remote);
    assert_eq!(names(&orphans), vec!["Sent"]);
}

#[test]
fn intersecting_pairs_follow_remote_order() {
    let local = vec![mb(1, "INBOX", 3, Some(1)), mb(2, "Sent", 0, Some(1))];
    let remote = vec![mb(11, "Sent", 5, Some(2)), mb(12, "Junk", 1, None), mb(13, "INBOX", 4, Some(1))];
    let pairs = find_intersecting_mailboxes(&local, &remote);
    assert_eq!(pairs.len(), 2);
    assert_eq!((pairs[0].0.id, pairs[0].1.id), (2, 11));
    assert_eq!((pairs[1].0.id, pairs[1].1.id), (1, 13));
    assert!(needs_rebuild(&pairs[0].0, &pairs[0].1));
    assert!(!needs_rebuild(&pairs[1].0, &pairs[1].1));
}

#[test]
fn reconciling_empty_lists() {
    let none: Vec<MailBox> = Vec::new();
    let remote = vec![mb(1, "INBOX", 1, None)];
    assert_eq!(find_missing_mailboxes(&none, &remote).len(), 1);
    assert!(find_missing_mailboxes(&remote, &none).is_empty());
    assert!(find_intersecting_mailboxes(&none, &remote).is_empty());
}

#[test]
fn initial_sync_skips_empty_mailboxes() {
    let remote = vec![mb(1, "INBOX", 3, Some(1)), mb(2, "Sent", 0, Some(1)), mb(3, "Trash", 2, Some(1))];
    let plan = mailboxes_to_fetch(&remote);
    assert_eq!(names(&plan), vec!["INBOX", "Trash"]);
    let outcomes: Vec<FetchOutcome> = plan.iter().map(|m| FetchOutcome::Done(m.exists as usize)).collect();
    assert_eq!(collect_fetch_outcomes(&outcomes).unwrap(), 5);
}

#[test]
fn first_failed_fetch_decides() {
    let outcomes = vec![
        FetchOutcome::Done(3),
        FetchOutcome::Failed(BichonError::new(ErrorCode::NetworkError, "socket closed".to_string())),
        FetchOutcome::Aborted("panicked".to_string()),
    ];
    let err = collect_fetch_outcomes(&outcomes).unwrap_err();
    assert_eq!(err.code, ErrorCode::NetworkError);
    assert_eq!(err.message, "socket closed");
    let aborted = vec![FetchOutcome::Aborted("join error".to_string()), FetchOutcome::Done(1)];
    assert_eq!(collect_fetch_outcomes(&aborted).unwrap_err().code, ErrorCode::InternalError);
    let saturating = vec![FetchOutcome::Done(usize::MAX), FetchOutcome::Done(1)];
    assert_eq!(collect_fetch_outcomes(&saturating).unwrap(), usize::MAX);
}

#[test]
fn incremental_plan_splits_by_uid_validity() {
    let local = vec![mb(1, "INBOX", 3, Some(1)), mb(2, "Sent", 1, Some(7)), mb(3, "Old", 1, Some(1))];
    let remote = vec![mb(11, "Sent", 2, Some(8)), mb(12, "New", 4, Some(1)), mb(13, "INBOX", 5, Some(1))];
    let plan = plan_incremental_sync(&local, &remote);
    assert_eq!(plan.rebuild.len(), 1);
    assert_eq!((plan.rebuild[0].0.id, plan.rebuild[0].1.id), (2, 11));
    assert_eq!(plan.delta.len(), 1);
    assert_eq!((plan.delta[0].0.id, plan.delta[0].1.id), (1, 13));
    assert_eq!(names(&plan.added), vec!["New"]);
    assert_eq!(names(&plan.removed), vec!["Old"]);
}

#[test]
fn uid_delta_fetches_new_and_deletes_gone() {
    let (fetch, delete) = uid_delta(&vec![1, 2, 3, 5], &vec![2, 3, 4, 6]);
    assert_eq!(fetch, vec![4, 6]);
    assert_eq!(delete, vec![1, 5]);
    let (fetch, delete) = uid_delta(&vec![], &vec![9]);
    assert_eq!((fetch, delete), (vec![9], vec![]));
}

#[test]
fn repeated_remote_names_are_returned_once() {
    let none: Vec<MailBox> = Vec::new();
    let remote = vec![mb(1, "INBOX", 1, None), mb(2, "INBOX", 2, None), mb(3, "Sent", 0, None), mb(4, "Sent", 0, None)];
    let missing = find_missing_mailboxes(&none, &remote);
    assert_eq!(names(&missing), vec!["INBOX", "Sent"]);
    assert_eq!(missing[0].id, 1);
    assert_eq!(missing[1].id, 3);
    let local = vec![mb(9, "Sent", 0, None)];
    assert_eq!(names(&find_missing_mailboxes(&local, &remote)), vec!["INBOX"]);
}
