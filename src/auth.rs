use vstd::prelude::*;

use crate::error::{BichonError, BichonResult, ErrorCode};
use crate::token::{grants, AccessControl, AccessToken, AccountInfo, RateLimit};

verus! {

/// Who is making a request.
#[derive(Clone, Debug, Default)]
pub struct ClientContext {
    /// Client address, in canonical form.
    pub ip_addr: Option<String>,
    /// The token presented, when it is not the root token.
    pub access_token: Option<AccessToken>,
    pub is_root: bool,
}

/// First step of reading a request's credentials.
#[derive(Debug)]
pub enum ContextStep {
    /// The context is settled.
    Ready(ClientContext),
    /// The bearer is not the root token: look it up (and record its use).
    LookupToken { ip_addr: String, token: String },
}

/// Outcome of the access checks of a request.
#[derive(Clone, Copy, Debug, PartialEq, Eq, Structural)]
pub enum AclVerdict {
    /// The request may proceed.
    Allowed,
    /// The request may proceed if the token's rate limiter admits it.
    RateCheck(RateLimit),
}

/// `ip` is one of the whitelisted addresses.
pub open spec fn ip_listed(whitelist: Seq<String>, ip: Seq<char>) -> bool {
    exists|i: int| 0 <= i < whitelist.len() && whitelist[i]@ == ip
}

/// The token's access control, if any.
pub open spec fn acl_of(ctx: ClientContext) -> Option<AccessControl> {
    match ctx.access_token {
        Some(t) => t.acl,
        None => None,
    }
}

/// The request passes the token's address whitelist (or has none to pass).
pub open spec fn whitelist_passes(ctx: ClientContext) -> bool {
    match acl_of(ctx) {
        Some(acl) => match (ctx.ip_addr, acl.ip_whitelist) {
            (Some(ip), Some(wl)) => ip_listed(wl@, ip@),
            _ => true,
        },
        None => true,
    }
}

/// Access checks of a request as a function of its context: the error code
/// on refusal, else the verdict.
pub open spec fn authorize_spec(ctx: ClientContext, enforce: bool) -> Result<AclVerdict, ErrorCode> {
    if !(!enforce || ctx.is_root || ctx.access_token is Some) {
        Err(ErrorCode::PermissionDenied)
    } else if !whitelist_passes(ctx) {
        Err(ErrorCode::PermissionDenied)
    } else {
        match acl_of(ctx) {
            Some(acl) => match acl.rate_limit {
                Some(rl) => Ok(AclVerdict::RateCheck(rl)),
                None => Ok(AclVerdict::Allowed),
            },
            None => Ok(AclVerdict::Allowed),
        }
    }
}

/// A result seen through its error code.
pub open spec fn with_code<T>(r: BichonResult<T>) -> Result<T, ErrorCode> {
    match r {
        Ok(v) => Ok(v),
        Err(e) => Err(e.code),
    }
}

fn permission_denied(message: &str) -> (r: BichonError)
    ensures
        r.code == ErrorCode::PermissionDenied,
{
    BichonError::new(ErrorCode::PermissionDenied, message.to_string())
}

impl ClientContext {
    /// Root-only operations: allowed when enforcement is off or for root.
    pub fn require_root(&self, enforce: bool) -> (r: BichonResult<()>)
        ensures
            r is Ok <==> (!enforce || self.is_root),
            r matches Err(e) ==> e.code == ErrorCode::PermissionDenied,
    {
        if !enforce || self.is_root {
            Ok(())
        } else {
            Err(permission_denied("Root access required"))
        }
    }

    /// Operations for any authenticated caller.
    pub fn require_authorized(&self, enforce: bool) -> (r: BichonResult<()>)
        ensures
            r is Ok <==> (!enforce || self.is_root || self.access_token is Some),
            r matches Err(e) ==> e.code == ErrorCode::PermissionDenied,
    {
        if !enforce || self.is_root || self.access_token.is_some() {
            Ok(())
        } else {
            Err(permission_denied("Authorization required"))
        }
    }

    /// Operations on account `account_id`: root, or a token that grants it.
    pub fn require_account_access(&self, enforce: bool, account_id: u64) -> (r: BichonResult<()>)
        ensures
            r is Ok <==> (!enforce || self.is_root || (self.access_token matches Some(t) && grants(
                t.accounts@,
                account_id,
            ))),
            r matches Err(e) ==> e.code == ErrorCode::PermissionDenied,
    {
        if !enforce || self.is_root {
            return Ok(());
        }
        match &self.access_token {
            Some(token) => {
                if token.can_access_account(account_id) {
                    Ok(())
                } else {
                    Err(permission_denied("No permission to access the requested email account"))
                }
            },
            None => Err(permission_denied("No permission to access the requested email account")),
        }
    }

    /// The accounts the caller may see: all (`None`) for root or without
    /// enforcement, else those of the token.
    pub fn accessible_accounts(&self, enforce: bool) -> (r: BichonResult<Option<&Vec<AccountInfo>>>)
        ensures
            (!enforce || self.is_root) ==> r is Ok && r->Ok_0 is None,
            (enforce && !self.is_root && self.access_token is Some) ==> r is Ok && r->Ok_0
                == Some(&self.access_token->0.accounts),
            (enforce && !self.is_root && self.access_token is None) ==> r is Err && r->Err_0.code
                == ErrorCode::PermissionDenied,
    {
        if !enforce || self.is_root {
            Ok(None)
        } else {
            match &self.access_token {
                Some(token) => Ok(Some(&token.accounts)),
                None => Err(permission_denied("Missing access token")),
            }
        }
    }
}

/// The first step of reading a request's credentials, as a function of
/// them: the error code on refusal, else the step.
pub open spec fn context_spec(
    enforce: bool,
    ip_addr: Option<String>,
    bearer: Option<String>,
    root_token: Option<String>,
) -> Result<ContextStep, ErrorCode> {
    if !enforce {
        Ok(ContextStep::Ready(ClientContext { ip_addr: None, access_token: None, is_root: false }))
    } else if ip_addr is None {
        Err(ErrorCode::InvalidParameter)
    } else if bearer is None {
        Err(ErrorCode::PermissionDenied)
    } else if root_token is Some && bearer->0@ == root_token->0@ {
        Ok(ContextStep::Ready(ClientContext { ip_addr, access_token: None, is_root: true }))
    } else {
        Ok(ContextStep::LookupToken { ip_addr: ip_addr->0, token: bearer->0 })
    }
}

/// Reads a request's credentials. Without enforcement every request gets an
/// empty context. Otherwise the client address must be known
/// (`InvalidParameter`) and a bearer presented (`PermissionDenied`); the
/// root token yields a root context, any other bearer must be looked up.
pub fn extract_client_context(
    enforce: bool,
    ip_addr: Option<String>,
    bearer: Option<String>,
    root_token: &Option<String>,
) -> (r: BichonResult<ContextStep>)
    ensures
        with_code(r) == context_spec(enforce, ip_addr, bearer, *root_token),
{
    if !enforce {
        return Ok(ContextStep::Ready(ClientContext { ip_addr: None, access_token: None, is_root: false }));
    }
    let ip = match ip_addr {
        Some(ip) => ip,
        None => {
            return Err(
                BichonError::new(
                    ErrorCode::InvalidParameter,
                    "Failed to parse client IP address".to_string(),
                ),
            );
        },
    };
    let token = match bearer {
        Some(t) => t,
        None => {
            return Err(permission_denied("Valid access token not found"));
        },
    };
    match root_token {
        Some(root) => {
            if *root == token {
                return Ok(
                    ContextStep::Ready(
                        ClientContext { ip_addr: Some(ip), access_token: None, is_root: true },
                    ),
                );
            }
        },
        None => {},
    }
    Ok(ContextStep::LookupToken { ip_addr: ip, token })
}

/// Settles the context of a non-root bearer from its lookup: an unknown
/// token is refused with `PermissionDenied`.
pub fn context_from_lookup(ip_addr: String, found: BichonResult<AccessToken>) -> (r: BichonResult<
    ClientContext,
>)
    ensures
        found is Ok ==> r is Ok && r->Ok_0 == (ClientContext {
            ip_addr: Some(ip_addr),
            access_token: Some(found->Ok_0),
            is_root: false,
        }),
        found is Err ==> r is Err && r->Err_0.code == ErrorCode::PermissionDenied,
{
    match found {
        Ok(token) => Ok(ClientContext { ip_addr: Some(ip_addr), access_token: Some(token), is_root: false }),
        Err(_) => Err(permission_denied("Invalid access token")),
    }
}

/// Whether `ip` is one of the whitelisted addresses (string equality).
fn ip_in_whitelist(whitelist: &Vec<String>, ip: &String) -> (r: bool)
    ensures
        r == ip_listed(whitelist@, ip@),
{
    let mut k: usize = 0;
    while k < whitelist.len()
        invariant
            0 <= k <= whitelist.len(),
            forall|i: int| 0 <= i < k ==> #[trigger] whitelist@[i]@ != ip@,
        decreases whitelist.len() - k,
    {
        if whitelist[k] == *ip {
            return true;
        }
        k = k + 1;
    }
    false
}

/// The access checks of a request: it must be authorized; a token's address
/// whitelist must list the client; a token with a rate limit must then pass
/// its limiter (`RateCheck`). Root and requests without enforcement have no
/// token and pass.
pub fn authorize_access(ctx: &ClientContext, enforce: bool) -> (r: BichonResult<AclVerdict>)
    ensures
        with_code(r) == authorize_spec(*ctx, enforce),
{
    match ctx.require_authorized(enforce) {
        Ok(()) => {},
        Err(e) => {
            return Err(e);
        },
    }
    match &ctx.access_token {
        Some(token) => match &token.acl {
            Some(acl) => {
                match (&ctx.ip_addr, &acl.ip_whitelist) {
                    (Some(ip), Some(wl)) => {
                        if !ip_in_whitelist(wl, ip) {
                            return Err(permission_denied("IP not in whitelist"));
                        }
                    },
                    _ => {},
                }
                match acl.rate_limit {
                    Some(rl) => Ok(AclVerdict::RateCheck(rl)),
                    None => Ok(AclVerdict::Allowed),
                }
            },
            None => Ok(AclVerdict::Allowed),
        },
        None => Ok(AclVerdict::Allowed),
    }
}

/// The refusal of a request that its token's rate limiter rejected.
pub fn rate_limited(message: String) -> (r: BichonError)
    ensures
        r.code == ErrorCode::TooManyRequest,
        r.message == message,
{
    BichonError::new(ErrorCode::TooManyRequest, message)
}

/// Root bypass: with enforcement on, a request from a known address that
/// presents the root token gets a root context, and that context passes
/// every access check, whatever access control any token carries.
pub proof fn lemma_root_bypass(ip_addr: String, root_token: String, bearer: String)
    requires
        bearer@ == root_token@,
    ensures
        context_spec(true, Some(ip_addr), Some(bearer), Some(root_token)) matches Ok(
            ContextStep::Ready(ctx),
        ) && ctx.is_root && authorize_spec(ctx, true) == Ok::<AclVerdict, ErrorCode>(
            AclVerdict::Allowed,
        ),
{
}

} // verus!
