use bichon::account::{AuthConfig, AuthType, Encryption, ImapConfig};
use bichon::error::{BichonError, ErrorCode};
use bichon::periodic::{PeriodicTask, TaskAction, TaskEvent};
use bichon::release::{Release, ReleaseNotification};

#[test]
fn first_tick_is_discarded_unless_run_immediately() {
    let task = PeriodicTask::new("oauth2-pending-task-cleaner");
    assert_eq!(task.name, "oauth2-pending-task-cleaner");
    let mut s = PeriodicTask::start_state(false, false);
    assert_eq!(PeriodicTask::on_event(&mut s, TaskEvent::Tick), TaskAction::Ignore);
    assert_eq!(PeriodicTask::on_event(&mut s, TaskEvent::Tick), TaskAction::RunTask);
    assert_eq!(PeriodicTask::on_event(&mut s, TaskEvent::Cancel), TaskAction::Ignore);
    assert_eq!(PeriodicTask::on_event(&mut s, TaskEvent::Shutdown), TaskAction::Stop);
    assert_eq!(PeriodicTask::on_event(&mut s, TaskEvent::Tick), TaskAction::Stop);
}

#[test]
fn cancellable_task_runs_immediately_and_stops_on_cancel() {
    let mut s = PeriodicTask::start_state(true, true);
    assert_eq!(PeriodicTask::on_event(&mut s, TaskEvent::Tick), TaskAction::RunTask);
    assert_eq!(PeriodicTask::on_event(&mut s, TaskEvent::Cancel), TaskAction::Stop);
    assert!(s.stopped);
}

#[test]
fn release_notification_compares_tags() {
    let release = Release {
        tag_name: "v1.2.3".to_string(),
        published_at: "2025-01-01".to_string(),
        body: String::new(),
        html_url: String::new(),
    };
    assert!(ReleaseNotification::from_release(release.clone(), "v1.2.2").is_newer);
    assert!(!ReleaseNotification::from_release(release, "v1.2.3").is_newer);
    let failed = ReleaseNotification::failed("offline".to_string());
    assert!(failed.latest.is_none() && !failed.is_newer);
}

#[test]
fn passwords_are_encrypted_and_required() {
    let config = ImapConfig {
        host: "imap.example.com".to_string(),
        port: 993,
        encryption: Encryption::Ssl,
        auth: AuthConfig { auth_type: AuthType::Password, password: Some("hunter2".to_string()) },
        use_proxy: Some(3),
    };
    assert!(config.auth.validate().is_ok());
    let enc = config.clone().try_encrypt_password(|p: &String| Ok(p.chars().rev().collect())).unwrap();
    assert_eq!(enc.auth.password.as_deref(), Some("2retnuh"));
    assert_eq!(enc.host, "imap.example.com");
    assert_eq!(enc.use_proxy, Some(3));
    let failing = config
        .clone()
        .try_encrypt_password(|_: &String| Err(BichonError::new(ErrorCode::InternalError, "no key".to_string())));
    assert_eq!(failing.unwrap_err().code, ErrorCode::InternalError);
    let no_password = AuthConfig { auth_type: AuthType::Password, password: None };
    assert!(no_password.validate().is_err());
    assert_eq!(no_password.clone().encrypt(|_: &String| Ok("x".to_string())).unwrap(), no_password);
    assert!(AuthConfig { auth_type: AuthType::OAuth2, password: None }.validate().is_ok());
    assert_eq!(Encryption::from(true), Encryption::Ssl);
    assert_eq!(Encryption::from(false), Encryption::Unencrypted);
}
