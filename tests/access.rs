use bichon::auth::{
    authorize_access, context_from_lookup, extract_client_context, AclVerdict, ClientContext,
    ContextStep,
};
use bichon::error::{BichonError, ErrorCode};
use bichon::token::{
    replenish_period_nanos, validate_account_ids, AccessControl, AccessToken, AccessTokenUpdateRequest, AccountInfo,
    RateLimit,
};

fn info(id: u64) -> AccountInfo {
    AccountInfo { id, email: format!("u{}@example.com", id) }
}

fn token_with(acl: Option<AccessControl>) -> AccessToken {
    AccessToken::new("tok".to_string(), vec![info(1), info(2)], None, acl, 100)
}

fn strict_acl() -> AccessControl {
    AccessControl {
        ip_whitelist: Some(vec!["10.0.0.1".to_string()]),
        rate_limit: Some(RateLimit { interval: 60, quota: 1 }),
    }
}

#[test]
fn root_token_bypasses_acl() {
    let root = Some("root-secret".to_string());
    let step = extract_client_context(true, Some("192.168.1.9".to_string()), Some("root-secret".to_string()), &root).unwrap();
    let ctx = match step {
        ContextStep::Ready(ctx) => ctx,
        other => panic!("unexpected {:?}", other),
    };
    assert!(ctx.is_root);
    assert_eq!(authorize_access(&ctx, true).unwrap(), AclVerdict::Allowed);
    assert!(ctx.require_root(true).is_ok());
    assert!(ctx.require_account_access(true, 99).is_ok());
}

#[test]
fn other_bearers_are_looked_up() {
    let root = Some("root-secret".to_string());
    let step = extract_client_context(true, Some("10.0.0.1".to_string()), Some("tok".to_string()), &root).unwrap();
    match step {
        ContextStep::LookupToken { ip_addr, token } => {
            assert_eq!(ip_addr, "10.0.0.1");
            assert_eq!(token, "tok");
        }
        other => panic!("unexpected {:?}", other),
    }
    let missing = context_from_lookup(
        "10.0.0.1".to_string(),
        Err(BichonError::new(ErrorCode::ResourceNotFound, "Token not exist.".to_string())),
    );
    assert_eq!(missing.unwrap_err().code, ErrorCode::PermissionDenied);
}

#[test]
fn credentials_are_required_under_enforcement() {
    let root = None;
    assert_eq!(extract_client_context(true, None, Some("x".to_string()), &root).unwrap_err().code, ErrorCode::InvalidParameter);
    assert_eq!(extract_client_context(true, Some("1.1.1.1".to_string()), None, &root).unwrap_err().code, ErrorCode::PermissionDenied);
    match extract_client_context(false, None, None, &root).unwrap() {
        ContextStep::Ready(ctx) => {
            assert!(!ctx.is_root);
            assert_eq!(authorize_access(&ctx, false).unwrap(), AclVerdict::Allowed);
        }
        other => panic!("unexpected {:?}", other),
    }
}

#[test]
fn token_acl_is_enforced() {
    let listed = context_from_lookup("10.0.0.1".to_string(), Ok(token_with(Some(strict_acl())))).unwrap();
    assert_eq!(authorize_access(&listed, true).unwrap(), AclVerdict::RateCheck(RateLimit { interval: 60, quota: 1 }));
    let unlisted = context_from_lookup("10.0.0.2".to_string(), Ok(token_with(Some(strict_acl())))).unwrap();
    assert_eq!(authorize_access(&unlisted, true).unwrap_err().code, ErrorCode::PermissionDenied);
    let plain = context_from_lookup("10.0.0.2".to_string(), Ok(token_with(None))).unwrap();
    assert_eq!(authorize_access(&plain, true).unwrap(), AclVerdict::Allowed);
    let anonymous = ClientContext::default();
    assert_eq!(authorize_access(&anonymous, true).unwrap_err().code, ErrorCode::PermissionDenied);
}

#[test]
fn account_access_follows_the_token() {
    let ctx = context_from_lookup("10.0.0.1".to_string(), Ok(token_with(None))).unwrap();
    assert!(ctx.require_account_access(true, 2).is_ok());
    assert_eq!(ctx.require_account_access(true, 3).unwrap_err().code, ErrorCode::PermissionDenied);
    assert!(ctx.require_account_access(false, 3).is_ok());
    assert_eq!(ctx.require_root(true).unwrap_err().code, ErrorCode::PermissionDenied);
    assert_eq!(ctx.accessible_accounts(true).unwrap().unwrap().len(), 2);
    assert!(ctx.accessible_accounts(false).unwrap().is_none());
}

#[test]
fn access_control_validation() {
    let is_ip = |s: &String| s.split('.').count() == 4 && s.split('.').all(|p| p.parse::<u8>().is_ok());
    assert!(strict_acl().validate(is_ip).is_ok());
    let bad_ip = AccessControl { ip_whitelist: Some(vec!["not-an-ip".to_string()]), rate_limit: None };
    assert_eq!(bad_ip.validate(is_ip).unwrap_err().code, ErrorCode::InvalidParameter);
    let zero_quota = AccessControl { ip_whitelist: None, rate_limit: Some(RateLimit { interval: 1, quota: 0 }) };
    assert_eq!(zero_quota.validate(is_ip).unwrap_err().code, ErrorCode::InvalidParameter);
    let zero_interval = AccessControl { ip_whitelist: None, rate_limit: Some(RateLimit { interval: 0, quota: 1 }) };
    assert_eq!(zero_interval.validate(is_ip).unwrap_err().code, ErrorCode::InvalidParameter);
}

#[test]
fn token_accounts_are_granted_withdrawn_and_replaced() {
    let mut t = token_with(None);
    t.grant_account_access(info(2), 200);
    assert_eq!(t.accounts.len(), 2);
    t.grant_account_access(info(3), 300);
    assert!(t.can_access_account(3));
    assert_eq!(t.updated_at, 300);
    t.cleanup_account(1, 400);
    assert!(!t.can_access_account(1));
    assert_eq!(t.accounts.iter().map(|a| a.id).collect::<Vec<_>>(), vec![2, 3]);
    let request = AccessTokenUpdateRequest { accounts: Some(vec![5]), description: Some("ci".to_string()), acl: None };
    assert!(!request.should_skip_update());
    t.apply_update(request, vec![info(5)], 500);
    assert_eq!(t.description.as_deref(), Some("ci"));
    assert_eq!(t.accounts, vec![info(5)]);
    assert_eq!(t.updated_at, 500);
    assert!(AccessTokenUpdateRequest { accounts: None, description: None, acl: None }.should_skip_update());
    t.try_update_access_timestamp(600);
    assert_eq!(t.last_access_at, 600);
}

#[test]
fn account_lists_are_checked() {
    assert!(validate_account_ids(&vec![1, 2], &vec![]).is_ok());
    assert_eq!(validate_account_ids(&vec![], &vec![]).unwrap_err().code, ErrorCode::InvalidParameter);
    assert_eq!(validate_account_ids(&vec![1, 9], &vec![9]).unwrap_err().code, ErrorCode::InvalidParameter);
}

#[test]
fn token_accounts_are_an_ordered_set_by_id() {
    let t = AccessToken::new("t".to_string(), vec![info(3), info(1), AccountInfo { id: 3, email: "dup@x.org".to_string() }], None, None, 0);
    assert_eq!(t.accounts.iter().map(|a| a.id).collect::<Vec<_>>(), vec![1, 3]);
    assert_eq!(t.accounts[1].email, "u3@example.com");
    let mut t = t;
    t.grant_account_access(info(2), 5);
    assert_eq!(t.accounts.iter().map(|a| a.id).collect::<Vec<_>>(), vec![1, 2, 3]);
    t.grant_account_access(AccountInfo { id: 2, email: "other@x.org".to_string() }, 6);
    assert_eq!(t.accounts[1], info(2));
}

#[test]
fn limiter_period_spreads_the_interval_over_the_quota() {
    assert_eq!(replenish_period_nanos(RateLimit { interval: 60, quota: 4 }), Some(15_000_000_000));
    assert_eq!(replenish_period_nanos(RateLimit { interval: 1, quota: 3 }), Some(333_333_333));
    assert_eq!(replenish_period_nanos(RateLimit { interval: 0, quota: 3 }), None);
    assert_eq!(replenish_period_nanos(RateLimit { interval: 5, quota: 0 }), None);
    assert_eq!(replenish_period_nanos(RateLimit { interval: u64::MAX, quota: 1 }), None);
}
