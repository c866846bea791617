use vstd::prelude::*;

use crate::error::{BichonError, BichonResult, ErrorCode};

verus! {

/// An account that a token grants access to.
#[derive(Debug, PartialEq, Eq, Hash)]
pub struct AccountInfo {
    pub id: u64,
    pub email: String,
}

impl Clone for AccountInfo {
    fn clone(&self) -> (r: Self)
        ensures
            r == *self,
    {
        AccountInfo { id: self.id, email: self.email.clone() }
    }
}

/// Request quota of a token: at most `quota` requests per `interval` seconds.
#[derive(Clone, Copy, Debug, PartialEq, Eq, Structural)]
pub struct RateLimit {
    pub interval: u64,
    pub quota: u32,
}

/// Optional access restrictions of a token.
#[derive(Clone, Debug, PartialEq, Eq)]
pub struct AccessControl {
    /// Client addresses allowed to use the token, in canonical form.
    pub ip_whitelist: Option<Vec<String>>,
    pub rate_limit: Option<RateLimit>,
}

/// A bearer token with the accounts it may access.
#[derive(Clone, Debug, PartialEq, Eq)]
pub struct AccessToken {
    pub token: String,
    /// Accounts the token grants access to; no two share an id.
    pub accounts: Vec<AccountInfo>,
    pub created_at: i64,
    pub updated_at: i64,
    pub description: Option<String>,
    pub last_access_at: i64,
    pub acl: Option<AccessControl>,
}

/// Some account of `accounts` has id `id`.
pub open spec fn grants(accounts: Seq<AccountInfo>, id: u64) -> bool {
    exists|i: int| 0 <= i < accounts.len() && accounts[i].id == id
}

/// The accounts are in strictly increasing id order: an ordered set keyed by id.
pub open spec fn ids_ordered(accounts: Seq<AccountInfo>) -> bool {
    forall|i: int, j: int| 0 <= i < j < accounts.len() ==> accounts[i].id < accounts[j].id
}

/// `accounts` without the accounts of id `id`, in order.
pub open spec fn without_account(accounts: Seq<AccountInfo>, id: u64) -> Seq<AccountInfo>
    decreases accounts.len(),
{
    if accounts.len() == 0 {
        Seq::empty()
    } else {
        let rest = without_account(accounts.drop_last(), id);
        if accounts.last().id == id {
            rest
        } else {
            rest.push(accounts.last())
        }
    }
}

/// A rate limit is usable: a window of at least a second and a quota of at
/// least one request.
pub open spec fn rate_limit_valid(r: RateLimit) -> bool {
    r.interval >= 1 && r.quota >= 1
}

/// `is_ip_address` accepted `s`.
pub open spec fn accepted_by<F: Fn(&String) -> bool>(is_ip_address: F, s: String) -> bool {
    is_ip_address.ensures((&s,), true)
}

/// `is_ip_address` refused `s`.
pub open spec fn refused_by<F: Fn(&String) -> bool>(is_ip_address: F, s: String) -> bool {
    is_ip_address.ensures((&s,), false)
}

/// Some whitelisted address was refused by `is_ip_address`.
pub open spec fn some_refused<F: Fn(&String) -> bool>(
    is_ip_address: F,
    whitelist: Option<Vec<String>>,
) -> bool {
    match whitelist {
        Some(wl) => exists|i: int| 0 <= i < wl.len() && refused_by(is_ip_address, #[trigger] wl@[i]),
        None => false,
    }
}

/// A rate limit is configured and unusable.
pub open spec fn rate_limit_refused(rate_limit: Option<RateLimit>) -> bool {
    match rate_limit {
        Some(rl) => !rate_limit_valid(rl),
        None => false,
    }
}

/// The access control, when given, has a refused address or an unusable
/// rate limit.
pub open spec fn acl_refused<F: Fn(&String) -> bool>(
    is_ip_address: F,
    acl: Option<AccessControl>,
) -> bool {
    match acl {
        Some(a) => some_refused(is_ip_address, a.ip_whitelist) || rate_limit_refused(a.rate_limit),
        None => false,
    }
}

/// Inserts `account` before the first account with a larger id; nothing
/// changes when its id is already granted.
fn insert_account(accounts: &mut Vec<AccountInfo>, account: AccountInfo)
    ensures
        grants(old(accounts)@, account.id) ==> final(accounts)@ == old(accounts)@,
        !grants(old(accounts)@, account.id) ==> exists|k: int|
            0 <= k <= old(accounts).len() && final(accounts)@ == old(accounts)@.insert(k, account),
        ids_ordered(old(accounts)@) ==> ids_ordered(final(accounts)@),
        forall|x: u64| grants(final(accounts)@, x) == (grants(old(accounts)@, x) || x == account.id),
        forall|m: int|
            0 <= m < final(accounts).len() ==> old(accounts)@.contains(#[trigger] final(accounts)@[m])
                || final(accounts)@[m] == account,
{
    let ghost before = accounts@;
    let mut present = false;
    let mut j: usize = 0;
    while j < accounts.len()
        invariant
            accounts@ == before,
            0 <= j <= accounts.len(),
            present == exists|i: int| 0 <= i < j && before[i].id == account.id,
        decreases accounts.len() - j,
    {
        if accounts[j].id == account.id {
            present = true;
        }
        j = j + 1;
    }
    if present {
        return;
    }
    let mut k: usize = 0;
    while k < accounts.len() && accounts[k].id < account.id
        invariant
            accounts@ == before,
            0 <= k <= accounts.len(),
            forall|i: int| 0 <= i < k ==> #[trigger] before[i].id < account.id,
        decreases accounts.len() - k,
    {
        k = k + 1;
    }
    accounts.insert(k, account);
    let ghost after = accounts@;
    assert(after == before.insert(k as int, account));
    assert forall|x: u64| grants(after, x) == (grants(before, x) || x == account.id) by {
        if grants(before, x) {
            let i = choose|i: int| 0 <= i < before.len() && before[i].id == x;
            if i < k {
                assert(after[i] == before[i]);
            } else {
                assert(after[i + 1] == before[i]);
            }
        }
        if x == account.id {
            assert(after[k as int] == account);
        }
        if grants(after, x) {
            let i = choose|i: int| 0 <= i < after.len() && after[i].id == x;
            if i < k {
                assert(after[i] == before[i]);
            } else if i > k {
                assert(after[i] == before[i - 1]);
            }
        }
    }
    assert forall|m: int| 0 <= m < after.len() implies before.contains(#[trigger] after[m])
        || after[m] == account by {
        if m < k {
            assert(after[m] == before[m]);
        } else if m > k {
            assert(after[m] == before[m - 1]);
        }
    }
    proof {
        if ids_ordered(before) {
            assert forall|a: int, b: int| 0 <= a < b < after.len() implies after[a].id < after[b].id by {
                if k < before.len() {
                    assert(before[k as int].id != account.id);
                    assert(before[k as int].id >= account.id);
                }
                if b < k {
                    assert(after[a] == before[a] && after[b] == before[b]);
                } else if b == k {
                    assert(after[a] == before[a]);
                } else if a < k {
                    assert(after[a] == before[a] && after[b] == before[b - 1]);
                    assert(before[k as int].id <= before[b - 1].id);
                } else if a == k {
                    assert(after[b] == before[b - 1]);
                    assert(before[k as int].id <= before[b - 1].id);
                } else {
                    assert(after[a] == before[a - 1] && after[b] == before[b - 1]);
                }
            }
        }
    }
}

/// The accounts of `accounts` as an ordered set by id: sorted, one per id
/// (the first one given for an id is kept).
pub fn normalize_accounts(accounts: &Vec<AccountInfo>) -> (r: Vec<AccountInfo>)
    ensures
        ids_ordered(r@),
        forall|x: u64| grants(r@, x) == grants(accounts@, x),
        forall|m: int| 0 <= m < r.len() ==> accounts@.contains(#[trigger] r@[m]),
{
    let mut r: Vec<AccountInfo> = Vec::new();
    let mut i: usize = 0;
    while i < accounts.len()
        invariant
            0 <= i <= accounts.len(),
            ids_ordered(r@),
            forall|x: u64| grants(r@, x) == grants(accounts@.subrange(0, i as int), x),
            forall|m: int| 0 <= m < r.len() ==> accounts@.contains(#[trigger] r@[m]),
        decreases accounts.len() - i,
    {
        let ghost prev = r@;
        let a = accounts[i].clone();
        insert_account(&mut r, a);
        assert forall|x: u64| grants(r@, x) == grants(accounts@.subrange(0, i + 1), x) by {
            let sub = accounts@.subrange(0, i + 1);
            if grants(sub, x) {
                let j = choose|j: int| 0 <= j < sub.len() && sub[j].id == x;
                if j < i {
                    assert(accounts@.subrange(0, i as int)[j] == sub[j]);
                }
            }
            if grants(accounts@.subrange(0, i as int), x) {
                let j = choose|j: int| 0 <= j < i && accounts@.subrange(0, i as int)[j].id == x;
                assert(sub[j] == accounts@.subrange(0, i as int)[j]);
            }
            if x == accounts@[i as int].id {
                assert(sub[i as int] == accounts@[i as int]);
            }
        }
        assert forall|m: int| 0 <= m < r.len() implies accounts@.contains(#[trigger] r@[m]) by {
            if prev.contains(r@[m]) {
                let w = choose|w: int| 0 <= w < prev.len() && prev[w] == r@[m];
                assert(accounts@.contains(prev[w]));
            } else {
                assert(r@[m] == accounts@[i as int]);
            }
        }
        i = i + 1;
    }
    assert(accounts@.subrange(0, i as int) =~= accounts@);
    r
}

impl AccessControl {
    /// Checks the restrictions: each whitelisted address must be accepted by
    /// `is_ip_address`, and a rate limit must be usable. Fails with
    /// `InvalidParameter`.
    pub fn validate<F: Fn(&String) -> bool>(&self, is_ip_address: F) -> (r: BichonResult<()>)
        requires
            forall|s: &String| is_ip_address.requires((s,)),
        ensures
            r is Ok ==> (self.ip_whitelist matches Some(wl) ==> forall|i: int|
                0 <= i < wl.len() ==> accepted_by(is_ip_address, #[trigger] wl@[i])),
            r is Ok ==> (self.rate_limit matches Some(rl) ==> rate_limit_valid(rl)),
            r is Err ==> r->Err_0.code == ErrorCode::InvalidParameter,
            r is Err ==> some_refused(is_ip_address, self.ip_whitelist) || rate_limit_refused(
                self.rate_limit,
            ),
    {
        match &self.ip_whitelist {
            Some(wl) => {
                let mut k: usize = 0;
                while k < wl.len()
                    invariant
                        0 <= k <= wl.len(),
                        self.ip_whitelist == Some(*wl),
                        forall|s: &String| is_ip_address.requires((s,)),
                        forall|i: int| 0 <= i < k ==> accepted_by(is_ip_address, #[trigger] wl@[i]),
                    decreases wl.len() - k,
                {
                    let ok = is_ip_address(&wl[k]);
                    if !ok {
                        assert(refused_by(is_ip_address, wl@[k as int]));
                        assert(some_refused(is_ip_address, self.ip_whitelist));
                        return Err(
                            BichonError::new(
                                ErrorCode::InvalidParameter,
                                "Invalid IP address in whitelist".to_string(),
                            ),
                        );
                    }
                    k = k + 1;
                }
            },
            None => {},
        }
        match self.rate_limit {
            Some(rl) => {
                if rl.interval < 1 {
                    return Err(
                        BichonError::new(
                            ErrorCode::InvalidParameter,
                            "Rate limit interval must be at least 1 second".to_string(),
                        ),
                    );
                }
                if rl.quota < 1 {
                    return Err(
                        BichonError::new(
                            ErrorCode::InvalidParameter,
                            "Rate limit quota must be at least 1".to_string(),
                        ),
                    );
                }
            },
            None => {},
        }
        Ok(())
    }
}

impl AccessToken {
    /// The token's accounts form an ordered set keyed by id.
    pub open spec fn wf(&self) -> bool {
        ids_ordered(self.accounts@)
    }

    /// A token created at `now`, never used yet, granting the given accounts
    /// as an ordered set by id.
    pub fn new(
        token: String,
        accounts: Vec<AccountInfo>,
        description: Option<String>,
        acl: Option<AccessControl>,
        now: i64,
    ) -> (r: Self)
        ensures
            r.wf(),
            forall|x: u64| grants(r.accounts@, x) == grants(accounts@, x),
            forall|m: int| 0 <= m < r.accounts.len() ==> accounts@.contains(#[trigger] r.accounts@[m]),
            r.token == token,
            r.created_at == now,
            r.updated_at == now,
            r.description == description,
            r.last_access_at == 0,
            r.acl == acl,
    {
        AccessToken {
            token,
            accounts: normalize_accounts(&accounts),
            created_at: now,
            updated_at: now,
            description,
            last_access_at: 0,
            acl,
        }
    }

    /// Whether the token grants access to account `account_id`.
    pub fn can_access_account(&self, account_id: u64) -> (r: bool)
        ensures
            r == grants(self.accounts@, account_id),
    {
        let mut k: usize = 0;
        while k < self.accounts.len()
            invariant
                0 <= k <= self.accounts.len(),
                forall|i: int| 0 <= i < k ==> #[trigger] self.accounts@[i].id != account_id,
            decreases self.accounts.len() - k,
        {
            if self.accounts[k].id == account_id {
                return true;
            }
            k = k + 1;
        }
        false
    }

    /// Records a use of the token at `now`.
    pub fn try_update_access_timestamp(&mut self, now: i64)
        ensures
            *final(self) == (AccessToken { last_access_at: now, ..*old(self) }),
    {
        self.last_access_at = now;
    }

    /// Grants access to `account` at `now`, inserting it at its place by
    /// id; a token that already grants its account id keeps its accounts as
    /// they were.
    pub fn grant_account_access(&mut self, account: AccountInfo, now: i64)
        ensures
            grants(old(self).accounts@, account.id) ==> final(self).accounts@ == old(
                self,
            ).accounts@,
            !grants(old(self).accounts@, account.id) ==> exists|k: int|
                0 <= k <= old(self).accounts.len() && final(self).accounts@ == old(
                    self,
                ).accounts@.insert(k, account),
            forall|x: u64| grants(final(self).accounts@, x) == (grants(old(self).accounts@, x) || x
                == account.id),
            old(self).wf() ==> final(self).wf(),
            final(self).updated_at == now,
            final(self).token == old(self).token,
            final(self).acl == old(self).acl,
            final(self).description == old(self).description,
    {
        insert_account(&mut self.accounts, account);
        self.updated_at = now;
    }

    /// Withdraws access to account `account_id` at `now`.
    pub fn cleanup_account(&mut self, account_id: u64, now: i64)
        ensures
            final(self).accounts@ == without_account(old(self).accounts@, account_id),
            !grants(final(self).accounts@, account_id),
            old(self).wf() ==> final(self).wf(),
            final(self).updated_at == now,
            final(self).token == old(self).token,
            final(self).acl == old(self).acl,
            final(self).description == old(self).description,
    {
        let ghost before = self.accounts@;
        let mut kept: Vec<AccountInfo> = Vec::new();
        let mut k: usize = 0;
        while k < self.accounts.len()
            invariant
                self.accounts@ == before,
                0 <= k <= before.len(),
                kept@ == without_account(before.subrange(0, k as int), account_id),
                forall|i: int| 0 <= i < kept.len() ==> #[trigger] kept@[i].id != account_id,
                forall|m: int|
                    0 <= m < kept.len() ==> exists|j: int| 0 <= j < k && #[trigger] kept@[m] == before[j],
                ids_ordered(before) ==> ids_ordered(kept@),
            decreases before.len() - k,
        {
            assert(before.subrange(0, k + 1).drop_last() =~= before.subrange(0, k as int));
            if self.accounts[k].id != account_id {
                let ghost prev = kept@;
                kept.push(self.accounts[k].clone());
                assert forall|m: int| 0 <= m < kept.len() implies exists|j: int|
                    0 <= j < k + 1 && #[trigger] kept@[m] == before[j] by {
                    if m < prev.len() {
                        assert(kept@[m] == prev[m]);
                    } else {
                        assert(kept@[m] == before[k as int]);
                    }
                }
                proof {
                    if ids_ordered(before) {
                        assert forall|a: int, b: int| 0 <= a < b < kept.len() implies kept@[a].id
                            < kept@[b].id by {
                            assert(kept@[a] == prev[a]);
                            let ja = choose|j: int| 0 <= j < k && prev[a] == before[j];
                            if b < prev.len() {
                                assert(kept@[b] == prev[b]);
                            } else {
                                assert(kept@[b] == before[k as int]);
                            }
                        }
                    }
                }
            }
            k = k + 1;
        }
        assert(before.subrange(0, k as int) =~= before);
        self.accounts = kept;
        self.updated_at = now;
    }

    /// Applies an update request at `now`: a given description and access
    /// control replace the current ones, and when the request names accounts
    /// the token grants exactly `account_infos` (the named accounts as
    /// looked up).
    pub fn apply_update(
        &mut self,
        request: AccessTokenUpdateRequest,
        account_infos: Vec<AccountInfo>,
        now: i64,
    )
        ensures
            final(self).description == if request.description is Some {
                request.description
            } else {
                old(self).description
            },
            final(self).acl == if request.acl is Some {
                request.acl
            } else {
                old(self).acl
            },
            request.accounts is None ==> final(self).accounts == old(self).accounts,
            request.accounts is Some ==> forall|x: u64| grants(final(self).accounts@, x) == grants(
                account_infos@,
                x,
            ),
            request.accounts is Some ==> forall|m: int|
                0 <= m < final(self).accounts.len() ==> account_infos@.contains(
                    #[trigger] final(self).accounts@[m],
                ),
            (request.accounts is Some || old(self).wf()) ==> final(self).wf(),
            final(self).updated_at == now,
            final(self).token == old(self).token,
            final(self).created_at == old(self).created_at,
            final(self).last_access_at == old(self).last_access_at,
    {
        let AccessTokenUpdateRequest { accounts, description, acl } = request;
        if description.is_some() {
            self.description = description;
        }
        if accounts.is_some() {
            self.accounts = normalize_accounts(&account_infos);
        }
        if acl.is_some() {
            self.acl = acl;
        }
        self.updated_at = now;
    }
}

/// The tokens of `all`, in order, that grant account `id`.
pub open spec fn tokens_granting(all: Seq<AccessToken>, id: u64) -> Seq<AccessToken>
    decreases all.len(),
{
    if all.len() == 0 {
        Seq::empty()
    } else {
        let rest = tokens_granting(all.drop_last(), id);
        if grants(all.last().accounts@, id) {
            rest.push(all.last())
        } else {
            rest
        }
    }
}

/// The tokens that grant access to account `account_id`, in listing order.
pub fn list_account_tokens(all: Vec<AccessToken>, account_id: u64) -> (r: Vec<AccessToken>)
    ensures
        r@ == tokens_granting(all@, account_id),
{
    let ghost whole = all@;
    let mut rest = all;
    let mut out: Vec<AccessToken> = Vec::new();
    let mut k: usize = 0;
    let len = rest.len();
    while k < len
        invariant
            len == whole.len(),
            0 <= k <= len,
            rest@ == whole.subrange(k as int, whole.len() as int),
            out@ == tokens_granting(whole.subrange(0, k as int), account_id),
        decreases len - k,
    {
        assert(whole.subrange(0, k + 1).drop_last() =~= whole.subrange(0, k as int));
        assert(rest@[0] == whole[k as int]);
        let t = rest.remove(0);
        assert(rest@ =~= whole.subrange(k + 1, whole.len() as int));
        if t.can_access_account(account_id) {
            out.push(t);
        }
        k = k + 1;
    }
    assert(whole.subrange(0, k as int) =~= whole);
    out
}

/// The time (ns) in which a token's limiter regains one request: the
/// interval spread evenly over the quota. None for an unusable limit, or a
/// period too long to hold.
pub fn replenish_period_nanos(limit: RateLimit) -> (r: Option<u64>)
    ensures
        !rate_limit_valid(limit) ==> r is None,
        rate_limit_valid(limit) && limit.interval * 1_000_000_000 / limit.quota as int <= u64::MAX
            ==> r == Some((limit.interval * 1_000_000_000 / limit.quota as int) as u64),
        rate_limit_valid(limit) && limit.interval * 1_000_000_000 / limit.quota as int > u64::MAX
            ==> r is None,
{
    if limit.interval < 1 || limit.quota < 1 {
        return None;
    }
    let nanos = (limit.interval as u128) * 1_000_000_000u128;
    let period = nanos / (limit.quota as u128);
    if period > u64::MAX as u128 {
        None
    } else {
        Some(period as u64)
    }
}

/// A request to create a token.
#[derive(Clone, Debug, Default, PartialEq, Eq)]
pub struct AccessTokenCreateRequest {
    /// Ids of the accounts the token grants access to.
    pub accounts: Vec<u64>,
    pub description: Option<String>,
    pub acl: Option<AccessControl>,
}

/// A request to change a token; absent fields are left as they are.
#[derive(Clone, Debug, Default, PartialEq, Eq)]
pub struct AccessTokenUpdateRequest {
    pub accounts: Option<Vec<u64>>,
    pub description: Option<String>,
    pub acl: Option<AccessControl>,
}

impl AccessTokenCreateRequest {
    /// Checks a creation request: its access control (addresses judged by
    /// `is_ip_address`), then its account list, of which `missing` holds the
    /// ids that were not found. Fails with `InvalidParameter`.
    pub fn validate<F: Fn(&String) -> bool>(&self, is_ip_address: F, missing: &Vec<u64>) -> (r:
        BichonResult<()>)
        requires
            forall|s: &String| is_ip_address.requires((s,)),
        ensures
            r is Ok ==> self.accounts.len() > 0 && missing.len() == 0,
            r is Ok ==> (self.acl matches Some(acl) ==> !rate_limit_refused(acl.rate_limit)),
            r is Err ==> acl_refused(is_ip_address, self.acl) || !(self.accounts.len() > 0
                && missing.len() == 0),
            r matches Err(e) ==> e.code == ErrorCode::InvalidParameter,
    {
        match &self.acl {
            Some(acl) => {
                match acl.validate(is_ip_address) {
                    Ok(()) => {},
                    Err(e) => {
                        return Err(e);
                    },
                }
            },
            None => {},
        }
        validate_account_ids(&self.accounts, missing)
    }
}

impl AccessTokenUpdateRequest {
    /// Checks an update request: its access control (addresses judged by
    /// `is_ip_address`), then, when it names accounts, its account list, of
    /// which `missing` holds the ids that were not found. Fails with
    /// `InvalidParameter`.
    pub fn validate<F: Fn(&String) -> bool>(&self, is_ip_address: F, missing: &Vec<u64>) -> (r:
        BichonResult<()>)
        requires
            forall|s: &String| is_ip_address.requires((s,)),
        ensures
            r is Ok ==> (self.accounts matches Some(a) ==> a.len() > 0 && missing.len() == 0),
            r is Ok ==> (self.acl matches Some(acl) ==> !rate_limit_refused(acl.rate_limit)),
            r is Err ==> acl_refused(is_ip_address, self.acl) || (self.accounts matches Some(a)
                && !(a.len() > 0 && missing.len() == 0)),
            r matches Err(e) ==> e.code == ErrorCode::InvalidParameter,
    {
        match &self.acl {
            Some(acl) => {
                match acl.validate(is_ip_address) {
                    Ok(()) => {},
                    Err(e) => {
                        return Err(e);
                    },
                }
            },
            None => {},
        }
        match &self.accounts {
            Some(accounts) => validate_account_ids(accounts, missing),
            None => Ok(()),
        }
    }

    /// The request changes nothing.
    pub fn should_skip_update(&self) -> (r: bool)
        ensures
            r == (self.description is None && self.accounts is None && self.acl is None),
    {
        self.description.is_none() && self.accounts.is_none() && self.acl.is_none()
    }
}

/// Checks a request's account list against the accounts that exist:
/// `missing` holds the requested ids that were not found. Fails with
/// `InvalidParameter` when the list is empty or names a missing account.
pub fn validate_account_ids(accounts: &Vec<u64>, missing: &Vec<u64>) -> (r: BichonResult<()>)
    ensures
        r is Ok <==> (accounts.len() > 0 && missing.len() == 0),
        r matches Err(e) ==> e.code == ErrorCode::InvalidParameter,
{
    if accounts.len() == 0 {
        return Err(
            BichonError::new(
                ErrorCode::InvalidParameter,
                "Account list cannot be empty. Please provide at least one valid account ID.".to_string(),
            ),
        );
    }
    if missing.len() > 0 {
        return Err(
            BichonError::new(
                ErrorCode::InvalidParameter,
                "Some account IDs were not found. Please provide valid account IDs.".to_string(),
            ),
        );
    }
    Ok(())
}

} // verus!
