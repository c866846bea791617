use bichon::account::{AuthConfig, AuthType, Encryption, ImapConfig};
use bichon::error::ErrorCode;
use bichon::paginate::{paginate_vec, DataPage};
use bichon::token::{
    list_account_tokens, AccessControl, AccessToken, AccessTokenCreateRequest,
    AccessTokenUpdateRequest, AccountInfo, RateLimit,
};
use bichon::web::{error_code_for, log_cost, log_level_for, HttpErrorKind, LogLevel};

fn imap(host: &str, port: u16) -> ImapConfig {
    ImapConfig {
        host: host.to_string(),
        port,
        encryption: Encryption::Ssl,
        auth: AuthConfig { auth_type: AuthType::Password, password: Some("secret".to_string()) },
        use_proxy: None,
    }
}

#[test]
fn framework_errors_map_to_the_taxonomy() {
    assert_eq!(error_code_for(HttpErrorKind::NotFound, false), Some(ErrorCode::ResourceNotFound));
    assert_eq!(error_code_for(HttpErrorKind::ParseJson, false), Some(ErrorCode::InvalidParameter));
    assert_eq!(error_code_for(HttpErrorKind::MethodNotAllowed, true), Some(ErrorCode::MethodNotAllowed));
    assert_eq!(error_code_for(HttpErrorKind::Authorization, false), Some(ErrorCode::PermissionDenied));
    assert_eq!(error_code_for(HttpErrorKind::Other, true), Some(ErrorCode::InternalError));
    assert_eq!(error_code_for(HttpErrorKind::Other, false), None);
}

#[test]
fn request_logs_cost_by_status() {
    assert_eq!(log_cost(503), 1);
    assert_eq!(log_cost(404), 3);
    assert_eq!(log_cost(200), 5);
    assert_eq!(log_level_for(500), LogLevel::Error);
    assert_eq!(log_level_for(499), LogLevel::Warn);
    assert_eq!(log_level_for(399), LogLevel::Info);
}

#[test]
fn imap_config_invariants() {
    assert!(imap("imap.example-mail.com", 993).validate().is_ok());
    assert_eq!(imap("", 993).validate().unwrap_err().code, ErrorCode::InvalidParameter);
    assert_eq!(imap("imap example.com", 993).validate().unwrap_err().code, ErrorCode::InvalidParameter);
    assert_eq!(imap(&"a".repeat(254), 993).validate().unwrap_err().code, ErrorCode::InvalidParameter);
    assert!(imap(&"a".repeat(253), 993).validate().is_ok());
    assert_eq!(imap("imap.example.com", 0).validate().unwrap_err().code, ErrorCode::InvalidParameter);
    let mut no_password = imap("imap.example.com", 993);
    no_password.auth.password = None;
    assert_eq!(no_password.validate().unwrap_err().code, ErrorCode::InvalidParameter);
}

#[test]
fn data_page_carries_the_page() {
    let page = paginate_vec(&vec![1u64, 2, 3], Some(2), Some(2)).unwrap();
    let data: DataPage<u64> = DataPage::from(page);
    assert_eq!(data.current_page, Some(2));
    assert_eq!(data.items, vec![3]);
    assert_eq!(data.total_pages, Some(2));
    assert_eq!(data.total_items, 3);
}

#[test]
fn tokens_of_an_account_are_listed_in_order() {
    let info = |id: u64| AccountInfo { id, email: format!("{}@x.org", id) };
    let all = vec![
        AccessToken::new("a".to_string(), vec![info(1)], None, None, 0),
        AccessToken::new("b".to_string(), vec![info(2), info(1)], None, None, 0),
        AccessToken::new("c".to_string(), vec![info(3)], None, None, 0),
    ];
    let listed: Vec<String> = list_account_tokens(all, 1).into_iter().map(|t| t.token).collect();
    assert_eq!(listed, vec!["a".to_string(), "b".to_string()]);
}

#[test]
fn token_requests_are_validated() {
    let accept_all = |_: &String| true;
    let create = AccessTokenCreateRequest { accounts: vec![1], description: None, acl: None };
    assert!(create.validate(accept_all, &vec![]).is_ok());
    assert_eq!(create.validate(accept_all, &vec![1]).unwrap_err().code, ErrorCode::InvalidParameter);
    let bad_limit = AccessTokenCreateRequest {
        accounts: vec![1],
        description: None,
        acl: Some(AccessControl { ip_whitelist: None, rate_limit: Some(RateLimit { interval: 0, quota: 3 }) }),
    };
    assert_eq!(bad_limit.validate(accept_all, &vec![]).unwrap_err().code, ErrorCode::InvalidParameter);
    let empty_accounts = AccessTokenUpdateRequest { accounts: Some(vec![]), description: None, acl: None };
    assert_eq!(empty_accounts.validate(accept_all, &vec![]).unwrap_err().code, ErrorCode::InvalidParameter);
    let description_only = AccessTokenUpdateRequest { accounts: None, description: Some("d".to_string()), acl: None };
    assert!(description_only.validate(accept_all, &vec![]).is_ok());
}
