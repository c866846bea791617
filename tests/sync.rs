use bichon::account::{AccountModel, AuthConfig, AuthType, FetchMode, ImapConfig};
use bichon::error::ErrorCode;
use bichon::running_state::AccountRunningState;
use bichon::reconcile::{collect_fetch_outcomes, mailboxes_to_fetch, FetchOutcome, MailBox};
use bichon::sync::{
    begin_sync_pass, decide_tick, determine_sync_type, finish_incremental_sync,
    finish_initial_sync, is_time_for_incremental_sync, pass_for, SyncPass, SyncType, TickAction, WarnThrottle,
    DISABLED_WARN_INTERVAL_MS, OAUTH2_WARN_INTERVAL_MS,
};

fn account(interval: Option<i64>) -> AccountModel {
    AccountModel {
        id: 9,
        email: "a@example.com".to_string(),
        enabled: true,
        imap: None,
        sync_interval_min: interval,
        date_since: None,
    }
}

fn oauth2_account() -> AccountModel {
    let mut a = account(Some(5));
    a.imap = Some(ImapConfig {
        host: "imap.example.com".to_string(),
        port: 993,
        auth: AuthConfig { auth_type: AuthType::OAuth2, password: None },
        ..Default::default()
    });
    a
}

#[test]
fn incremental_due_only_after_interval() {
    assert!(!is_time_for_incremental_sync(300_000, 0, 5));
    assert!(is_time_for_incremental_sync(300_001, 0, 5));
    assert!(is_time_for_incremental_sync(i64::MAX, i64::MIN, i64::MAX) == false);
    assert!(is_time_for_incremental_sync(i64::MAX, i64::MIN, 1));
}

#[test]
fn no_state_means_initial_sync() {
    assert_eq!(determine_sync_type(&account(Some(5)), &None, 123).unwrap(), SyncType::InitialSync);
    assert_eq!(determine_sync_type(&account(None), &None, 123).unwrap(), SyncType::InitialSync);
}

#[test]
fn missing_interval_is_misconfiguration() {
    let state = Some(AccountRunningState::add(9));
    let err = determine_sync_type(&account(None), &state, 1_000_000).unwrap_err();
    assert_eq!(err.code, ErrorCode::InvalidParameter);
}

#[test]
fn skip_then_incremental() {
    let acc = account(Some(5));
    let t0: i64 = 1_700_000_000_000;
    let first = determine_sync_type(&acc, &None, t0).unwrap();
    assert_eq!(first, SyncType::InitialSync);
    let state = begin_sync_pass(acc.id, None, first, t0);
    assert_eq!(state.as_ref().unwrap().last_incremental_sync_start, t0);

    let t1 = t0 + 60_000;
    let second = determine_sync_type(&acc, &state, t1).unwrap();
    assert_eq!(second, SyncType::SkipSync);
    let state = begin_sync_pass(acc.id, state, second, t1);
    assert_eq!(state.as_ref().unwrap().last_incremental_sync_start, t0);

    let t2 = t0 + 360_000;
    let third = determine_sync_type(&acc, &state, t2).unwrap();
    assert_eq!(third, SyncType::IncrementalSync);
    let state = begin_sync_pass(acc.id, state, third, t2);
    assert_eq!(state.as_ref().unwrap().last_incremental_sync_start, t2);
    assert_eq!(state.as_ref().unwrap().last_incremental_sync_end, None);
}

#[test]
fn disabled_account_warns_once_per_ten_minutes() {
    let mut acc = account(Some(5));
    acc.enabled = false;
    let acc = Some(acc);
    let mut disabled = WarnThrottle::new(DISABLED_WARN_INTERVAL_MS);
    let mut oauth = WarnThrottle::new(OAUTH2_WARN_INTERVAL_MS);
    let t0: i64 = 1_700_000_000_000;
    let mut warnings = 0;
    for k in 0..60 {
        let action = decide_tick(&acc, true, &mut disabled, &mut oauth, t0 + k * 10_000);
        match action {
            TickAction::Disabled { warn } => {
                if warn {
                    warnings += 1;
                }
            }
            other => panic!("unexpected {:?}", other),
        }
    }
    assert_eq!(warnings, 1);
    let action = decide_tick(&acc, true, &mut disabled, &mut oauth, t0 + 600_000);
    assert_eq!(action, TickAction::Disabled { warn: true });
}

#[test]
fn oauth2_without_token_returns_early() {
    let acc = Some(oauth2_account());
    let mut disabled = WarnThrottle::new(DISABLED_WARN_INTERVAL_MS);
    let mut oauth = WarnThrottle::new(OAUTH2_WARN_INTERVAL_MS);
    let t0: i64 = 1_700_000_000_000;
    let a = decide_tick(&acc, false, &mut disabled, &mut oauth, t0);
    assert_eq!(a, TickAction::OAuth2NotAuthorized { warn: true });
    let b = decide_tick(&acc, false, &mut disabled, &mut oauth, t0 + 1_000);
    assert_eq!(b, TickAction::OAuth2NotAuthorized { warn: false });
    let c = decide_tick(&acc, true, &mut disabled, &mut oauth, t0 + 2_000);
    assert_eq!(c, TickAction::RunSync);
}

#[test]
fn missing_account_aborts_and_enabled_account_syncs() {
    let mut disabled = WarnThrottle::new(DISABLED_WARN_INTERVAL_MS);
    let mut oauth = WarnThrottle::new(OAUTH2_WARN_INTERVAL_MS);
    assert_eq!(decide_tick(&None, true, &mut disabled, &mut oauth, 5), TickAction::AccountMissing);
    assert_eq!(decide_tick(&Some(account(Some(5))), false, &mut disabled, &mut oauth, 5), TickAction::RunSync);
}

fn remote(id: u64, name: &str, exists: u32) -> MailBox {
    MailBox { id, account_id: 9, name: name.to_string(), exists, uid_validity: Some(1), uid_next: None }
}

#[test]
fn initial_sync_empty_mailboxes_skipped() {
    let acc = account(Some(5));
    let t0: i64 = 1_700_000_000_000;
    let sync_type = determine_sync_type(&acc, &None, t0).unwrap();
    assert_eq!(sync_type, SyncType::InitialSync);
    let mut state = begin_sync_pass(acc.id, None, sync_type, t0).unwrap();
    let mailboxes = vec![remote(1, "INBOX", 3), remote(2, "Sent", 0), remote(3, "Trash", 2)];
    let plan = mailboxes_to_fetch(&mailboxes);
    assert_eq!(plan.iter().map(|m| m.name.as_str()).collect::<Vec<_>>(), vec!["INBOX", "Trash"]);
    let outcomes: Vec<FetchOutcome> = plan.iter().map(|m| FetchOutcome::Done(m.exists as usize)).collect();
    let stored = collect_fetch_outcomes(&outcomes);
    assert_eq!(stored.as_ref().unwrap(), &5);
    finish_initial_sync(&mut state, stored.is_ok(), t0 + 5_000);
    assert!(state.is_initial_sync_completed);
    assert_eq!(state.initial_sync_end_time, Some(t0 + 5_000));
    assert_eq!(state.initial_sync_start_time, Some(t0));
}

#[test]
fn failed_initial_sync_is_retried() {
    let acc = account(Some(5));
    let mut state = begin_sync_pass(9, None, SyncType::InitialSync, 0).unwrap();
    finish_initial_sync(&mut state, false, 77);
    assert!(!state.is_initial_sync_completed);
    assert_eq!(state.initial_sync_failed_time, Some(77));
    let later = Some(state);
    let next = determine_sync_type(&acc, &later, 300_001).unwrap();
    assert_eq!(next, SyncType::IncrementalSync);
    assert_eq!(pass_for(next, later.as_ref().unwrap().is_initial_sync_completed), SyncPass::InitialBuild);
    assert_eq!(pass_for(SyncType::IncrementalSync, true), SyncPass::Incremental);
    assert_eq!(pass_for(SyncType::SkipSync, false), SyncPass::Idle);
}

#[test]
fn incremental_end_is_stamped_only_on_success() {
    let mut state = begin_sync_pass(9, Some(AccountRunningState::add(9)), SyncType::IncrementalSync, 100).unwrap();
    finish_incremental_sync(&mut state, Some("mailbox INBOX failed".to_string()), 150);
    assert_eq!(state.last_incremental_sync_end, None);
    assert_eq!(state.errors.len(), 1);
    assert_eq!(state.errors[0].error, "mailbox INBOX failed");
    finish_incremental_sync(&mut state, None, 200);
    assert_eq!(state.last_incremental_sync_end, Some(200));
}

#[test]
fn builds_fetch_since_the_configured_date() {
    let mut acc = account(Some(5));
    assert_eq!(acc.fetch_mode(), FetchMode::Full);
    acc.date_since = Some("01-Jan-2024".to_string());
    assert_eq!(acc.fetch_mode(), FetchMode::Since("01-Jan-2024".to_string()));
}
