use bichon::running_state::{AccountRunningState, MailboxBatchProgress, ERROR_COUNT_PER_ACCOUNT};

fn state_1000() -> AccountRunningState {
    AccountRunningState {
        account_id: 1000u64,
        last_incremental_sync_start: 1000,
        last_incremental_sync_end: Some(2000),
        errors: Vec::new(),
        ..Default::default()
    }
}

fn progress_of(state: &AccountRunningState, folder: &str) -> Option<MailboxBatchProgress> {
    let entries = state.progress.as_ref()?;
    entries.iter().rev().find(|e| e.folder == folder).map(|e| e.progress)
}

#[test]
fn test_insert_single_error() {
    let mut account_state = state_1000();
    account_state.append_error_log(String::from("Error 1"));
    assert_eq!(account_state.errors.len(), 1);
    assert_eq!(account_state.errors[0].error, "Error 1");
}

#[test]
fn test_insert_multiple_errors() {
    let mut account_state = state_1000();
    for i in 1..=5 {
        account_state.append_error_log(format!("Error {}", i));
    }
    assert_eq!(account_state.errors.len(), 5);
    assert_eq!(account_state.errors[4].error, "Error 5");
}

#[test]
fn test_error_limit_exceeded() {
    let mut account_state = state_1000();
    for i in 1..=35 {
        account_state.append_error_log(format!("Error {}", i));
    }
    assert_eq!(account_state.errors.len(), ERROR_COUNT_PER_ACCOUNT);
    assert_eq!(account_state.errors[0].error, "Error 6");
    assert_eq!(account_state.errors[29].error, "Error 35");
}

#[test]
fn test_insert_error_after_limit() {
    let mut account_state = state_1000();
    for i in 1..=30 {
        account_state.append_error_log(format!("Error {}", i));
    }
    account_state.append_error_log(String::from("Error 31"));
    assert_eq!(account_state.errors.len(), ERROR_COUNT_PER_ACCOUNT);
    assert_eq!(account_state.errors[0].error, "Error 2");
    assert_eq!(account_state.errors[29].error, "Error 31");
}

#[test]
fn error_overflow_keeps_last_thirty() {
    let mut state = AccountRunningState::add(7);
    for i in 1..=35 {
        state.append_error_at(format!("error {}", i), 100 + i);
    }
    assert_eq!(state.errors.len(), 30);
    assert_eq!(state.errors[0].error, "error 6");
    assert_eq!(state.errors[0].at, 106);
    assert_eq!(state.errors[29].error, "error 35");
}

#[test]
fn error_ring_at_capacity_keeps_everything() {
    let mut state = AccountRunningState::add(7);
    for i in 1..=30 {
        state.append_error_at(format!("e{}", i), i);
    }
    assert_eq!(state.errors.len(), 30);
    assert_eq!(state.errors[0].error, "e1");
}

#[test]
fn fresh_state_has_no_progress_and_no_errors() {
    let state = AccountRunningState::add(42);
    assert_eq!(state.account_id, 42);
    assert_eq!(state.last_incremental_sync_start, 0);
    assert!(state.errors.is_empty());
    assert!(!state.is_initial_sync_completed);
    assert!(state.progress.is_none());
}

#[test]
fn progress_advances_and_completes() {
    let mut state = AccountRunningState::add(1);
    state.set_initial_current_syncing_folder("INBOX".to_string(), 4);
    assert_eq!(progress_of(&state, "INBOX"), Some(MailboxBatchProgress { total_batches: 4, current_batch: 0 }));
    state.set_current_sync_batch_number("INBOX".to_string(), 2);
    assert_eq!(progress_of(&state, "INBOX"), Some(MailboxBatchProgress { total_batches: 4, current_batch: 2 }));
    state.set_initial_current_syncing_folder("Sent".to_string(), 3);
    state.set_folder_initial_sync_completed("INBOX".to_string());
    assert_eq!(progress_of(&state, "INBOX"), Some(MailboxBatchProgress { total_batches: 4, current_batch: 4 }));
    assert_eq!(progress_of(&state, "Sent"), Some(MailboxBatchProgress { total_batches: 3, current_batch: 0 }));
    assert_eq!(state.progress.as_ref().unwrap().len(), 2);
}

#[test]
fn batch_number_for_unknown_folder_starts_with_zero_total() {
    let mut state = AccountRunningState::add(1);
    state.set_current_sync_batch_number("Archive".to_string(), 3);
    assert_eq!(progress_of(&state, "Archive"), Some(MailboxBatchProgress { total_batches: 0, current_batch: 0 }));
    state.set_folder_initial_sync_completed("Drafts".to_string());
    assert_eq!(progress_of(&state, "Drafts"), Some(MailboxBatchProgress { total_batches: 0, current_batch: 0 }));
}

#[test]
fn milestones_are_stamped() {
    let mut state = AccountRunningState::add(1);
    state.set_initial_sync_start(10);
    state.set_initial_sync_failed(20);
    assert_eq!(state.initial_sync_start_time, Some(10));
    assert_eq!(state.initial_sync_failed_time, Some(20));
    assert!(!state.is_initial_sync_completed);
    state.set_initial_sync_completed(30);
    assert!(state.is_initial_sync_completed);
    assert_eq!(state.initial_sync_end_time, Some(30));
    state.set_incremental_sync_end(40);
    state.set_incremental_sync_start(50);
    assert_eq!(state.last_incremental_sync_start, 50);
    assert_eq!(state.last_incremental_sync_end, None);
    state.set_incremental_sync_end(60);
    assert_eq!(state.last_incremental_sync_end, Some(60));
}

#[test]
fn batch_number_never_moves_backwards_or_past_total() {
    let mut state = AccountRunningState::add(1);
    state.set_initial_current_syncing_folder("INBOX".to_string(), 5);
    state.set_current_sync_batch_number("INBOX".to_string(), 3);
    state.set_current_sync_batch_number("INBOX".to_string(), 1);
    assert_eq!(progress_of(&state, "INBOX"), Some(MailboxBatchProgress { total_batches: 5, current_batch: 3 }));
    state.set_current_sync_batch_number("INBOX".to_string(), 9);
    assert_eq!(progress_of(&state, "INBOX"), Some(MailboxBatchProgress { total_batches: 5, current_batch: 5 }));
}
