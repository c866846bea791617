use vstd::prelude::*;

verus! {

/// The OAuth2 app id under which user-supplied tokens are stored; the
/// service never refreshes them.
pub const EXTERNAL_OAUTH_APP_ID: u64 = 0;

/// A token idle for more than this long (ms) is refreshed.
pub const REFRESH_AFTER_MS: i64 = 2700000;

/// A pending authorization older than this (ms) has expired.
pub const PENDING_EXPIRATION_MS: i64 = 86400000;

/// Seconds between two runs of the token refresh task.
pub const REFRESH_TASK_INTERVAL_SECS: u64 = 60;

/// Seconds between two sweeps of expired pending authorizations.
pub const CLEAN_TASK_INTERVAL_SECS: u64 = 21600;

/// A persisted OAuth2 access token of an account.
#[derive(Debug, PartialEq, Eq)]
pub struct OAuth2AccessToken {
    pub account_id: u64,
    pub oauth2_id: u64,
    pub access_token: String,
    pub refresh_token: Option<String>,
    /// Last refresh (epoch ms).
    pub updated_at: i64,
}

impl Clone for OAuth2AccessToken {
    fn clone(&self) -> (r: Self)
        ensures
            r == *self,
    {
        OAuth2AccessToken {
            account_id: self.account_id,
            oauth2_id: self.oauth2_id,
            access_token: self.access_token.clone(),
            refresh_token: match &self.refresh_token {
                Some(t) => Some(t.clone()),
                None => None,
            },
            updated_at: self.updated_at,
        }
    }
}

/// The token is due for refresh at `now`: idle too long, and not user-supplied.
pub open spec fn refresh_due(t: OAuth2AccessToken, now: int) -> bool {
    now - t.updated_at > REFRESH_AFTER_MS && t.oauth2_id != EXTERNAL_OAUTH_APP_ID
}

/// The tokens of `tokens`, in order, that are due for refresh at `now`.
pub open spec fn refresh_targets(tokens: Seq<OAuth2AccessToken>, now: int) -> Seq<OAuth2AccessToken>
    decreases tokens.len(),
{
    if tokens.len() == 0 {
        Seq::empty()
    } else {
        let rest = refresh_targets(tokens.drop_last(), now);
        if refresh_due(tokens.last(), now) {
            rest.push(tokens.last())
        } else {
            rest
        }
    }
}

/// The singleton task that refreshes idle OAuth2 tokens.
pub struct OAuth2RefreshTask;

impl OAuth2RefreshTask {
    /// Whether `token` is due for refresh at `now`.
    pub fn needs_refresh(token: &OAuth2AccessToken, now: i64) -> (r: bool)
        ensures
            r == refresh_due(*token, now as int),
    {
        (now as i128) - (token.updated_at as i128) > REFRESH_AFTER_MS as i128 && token.oauth2_id
            != EXTERNAL_OAUTH_APP_ID
    }

    /// The tokens that one run of the task refreshes, in listing order.
    pub fn select_tokens(tokens: &Vec<OAuth2AccessToken>, now: i64) -> (r: Vec<OAuth2AccessToken>)
        ensures
            r@ == refresh_targets(tokens@, now as int),
    {
        let mut out: Vec<OAuth2AccessToken> = Vec::new();
        let mut k: usize = 0;
        while k < tokens.len()
            invariant
                0 <= k <= tokens.len(),
                out@ == refresh_targets(tokens@.subrange(0, k as int), now as int),
            decreases tokens.len() - k,
        {
            assert(tokens@.subrange(0, k + 1).drop_last() =~= tokens@.subrange(0, k as int));
            if Self::needs_refresh(&tokens[k], now) {
                out.push(tokens[k].clone());
            }
            k = k + 1;
        }
        assert(tokens@.subrange(0, k as int) =~= tokens@);
        out
    }
}

/// OAuth2 refresh selection: the refresh targets are exactly the listed
/// tokens idle for more than the refresh delay whose app is not the external
/// one; an externally supplied token is never among them.
pub proof fn lemma_refresh_selection(tokens: Seq<OAuth2AccessToken>, now: int)
    ensures
        forall|k: int|
            0 <= k < refresh_targets(tokens, now).len() ==> {
                let t = #[trigger] refresh_targets(tokens, now)[k];
                &&& tokens.contains(t)
                &&& now - t.updated_at > REFRESH_AFTER_MS
                &&& t.oauth2_id != EXTERNAL_OAUTH_APP_ID
            },
        forall|i: int|
            0 <= i < tokens.len() && #[trigger] refresh_due(tokens[i], now) ==> refresh_targets(
                tokens,
                now,
            ).contains(tokens[i]),
    decreases tokens.len(),
{
    if tokens.len() > 0 {
        let init = tokens.drop_last();
        lemma_refresh_selection(init, now);
        let rest = refresh_targets(init, now);
        let out = refresh_targets(tokens, now);
        assert forall|k: int| 0 <= k < out.len() implies {
            let t = #[trigger] out[k];
            &&& tokens.contains(t)
            &&& now - t.updated_at > REFRESH_AFTER_MS
            &&& t.oauth2_id != EXTERNAL_OAUTH_APP_ID
        } by {
            if k < rest.len() {
                assert(out[k] == rest[k]);
                let w = choose|w: int| 0 <= w < init.len() && init[w] == rest[k];
                assert(tokens[w] == init[w]);
            } else {
                assert(tokens[tokens.len() - 1] == out[k]);
            }
        }
        assert forall|i: int|
            0 <= i < tokens.len() && #[trigger] refresh_due(tokens[i], now) implies out.contains(
            tokens[i],
        ) by {
            if i < tokens.len() - 1 {
                assert(init[i] == tokens[i]);
                assert(rest.contains(init[i]));
                let w = choose|w: int| 0 <= w < rest.len() && rest[w] == init[i];
                assert(out[w] == rest[w]);
            } else {
                assert(out[out.len() - 1] == tokens.last());
            }
        }
    }
}

/// A PKCE/CSRF record of an authorization that a user has yet to complete.
#[derive(Debug, Default, PartialEq, Eq)]
pub struct OAuth2PendingEntity {
    pub oauth2_id: u64,
    pub account_id: u64,
    /// CSRF state parameter; the record's key.
    pub state: String,
    /// PKCE code verifier for the code exchange.
    pub code_verifier: String,
    /// Creation time (epoch ms).
    pub created_at: i64,
}

impl Clone for OAuth2PendingEntity {
    fn clone(&self) -> (r: Self)
        ensures
            r == *self,
    {
        OAuth2PendingEntity {
            oauth2_id: self.oauth2_id,
            account_id: self.account_id,
            state: self.state.clone(),
            code_verifier: self.code_verifier.clone(),
            created_at: self.created_at,
        }
    }
}

/// The pending authorization has expired at `now`.
pub open spec fn pending_expired(p: OAuth2PendingEntity, now: int) -> bool {
    now - p.created_at > PENDING_EXPIRATION_MS
}

/// The states of the records of `all`, in order, that have expired at `now`.
pub open spec fn expired_states(all: Seq<OAuth2PendingEntity>, now: int) -> Seq<Seq<char>>
    decreases all.len(),
{
    if all.len() == 0 {
        Seq::empty()
    } else {
        let rest = expired_states(all.drop_last(), now);
        if pending_expired(all.last(), now) {
            rest.push(all.last().state@)
        } else {
            rest
        }
    }
}

/// What reading the stored record `found` at `now` yields.
pub open spec fn pending_lookup_spec(found: Option<OAuth2PendingEntity>, now: int) -> PendingLookup {
    match found {
        None => PendingLookup::Missing,
        Some(p) => if pending_expired(p, now) {
            PendingLookup::Expired
        } else {
            PendingLookup::Found(p)
        },
    }
}

/// A read of `state` from the pending records `store` at `now`: what it
/// returns, and the records it leaves (an expired record is deleted).
pub open spec fn pending_read(
    store: Map<Seq<char>, OAuth2PendingEntity>,
    state: Seq<char>,
    now: int,
) -> (Option<OAuth2PendingEntity>, Map<Seq<char>, OAuth2PendingEntity>) {
    let found = if store.contains_key(state) {
        Some(store[state])
    } else {
        None
    };
    match pending_lookup_spec(found, now) {
        PendingLookup::Found(p) => (Some(p), store),
        PendingLookup::Expired => (None, store.remove(state)),
        PendingLookup::Missing => (None, store),
    }
}

/// What reading a pending authorization yields.
#[derive(Debug)]
pub enum PendingLookup {
    /// A live record.
    Found(OAuth2PendingEntity),
    /// The record has expired: report it missing and delete it.
    Expired,
    /// No record.
    Missing,
}

impl OAuth2PendingEntity {
    /// A record of an authorization started at `now`.
    pub fn new(oauth2_id: u64, account_id: u64, state: String, code_verifier: String, now: i64) -> (r:
        Self)
        ensures
            r == (OAuth2PendingEntity { oauth2_id, account_id, state, code_verifier, created_at: now }),
    {
        OAuth2PendingEntity { oauth2_id, account_id, state, code_verifier, created_at: now }
    }

    /// Whether the record has expired at `now`.
    pub fn is_expired(&self, now: i64) -> (r: bool)
        ensures
            r == pending_expired(*self, now as int),
    {
        (now as i128) - (self.created_at as i128) > PENDING_EXPIRATION_MS as i128
    }

    /// What `get(state)` returns for the stored record `found`: a live
    /// record, or `Expired` (reported missing, and deleted by the caller).
    pub fn get(found: Option<OAuth2PendingEntity>, now: i64) -> (r: PendingLookup)
        ensures
            r == pending_lookup_spec(found, now as int),
    {
        match found {
            None => PendingLookup::Missing,
            Some(p) => {
                if p.is_expired(now) {
                    PendingLookup::Expired
                } else {
                    PendingLookup::Found(p)
                }
            },
        }
    }

    /// The states of the records that a sweep at `now` deletes: all expired ones.
    pub fn clean(all: &Vec<OAuth2PendingEntity>, now: i64) -> (r: Vec<String>)
        ensures
            r@.map_values(|s: String| s@) == expired_states(all@, now as int),
    {
        let mut out: Vec<String> = Vec::new();
        let mut k: usize = 0;
        while k < all.len()
            invariant
                0 <= k <= all.len(),
                out@.map_values(|s: String| s@) == expired_states(all@.subrange(0, k as int), now as int),
            decreases all.len() - k,
        {
            assert(all@.subrange(0, k + 1).drop_last() =~= all@.subrange(0, k as int));
            if all[k].is_expired(now) {
                let ghost before = out@;
                out.push(all[k].state.clone());
                assert(out@.map_values(|s: String| s@) =~= before.map_values(|s: String| s@).push(
                    all@[k as int].state@,
                ));
            }
            k = k + 1;
        }
        assert(all@.subrange(0, k as int) =~= all@);
        out
    }
}

/// OAuth2 pending TTL on reads: reading a record older than a day returns
/// nothing and deletes it, other records untouched; a younger record is
/// returned and nothing changes.
pub proof fn lemma_pending_read_ttl(
    store: Map<Seq<char>, OAuth2PendingEntity>,
    state: Seq<char>,
    now: int,
)
    requires
        store.contains_key(state),
    ensures
        now - store[state].created_at > PENDING_EXPIRATION_MS ==> {
            &&& pending_read(store, state, now).0 is None
            &&& pending_read(store, state, now).1 == store.remove(state)
        },
        now - store[state].created_at <= PENDING_EXPIRATION_MS ==> pending_read(store, state, now)
            == (Some(store[state]), store),
{
}

/// Some record of `all` has expired at `now` and has state `s`.
pub open spec fn is_expired_state(all: Seq<OAuth2PendingEntity>, now: int, s: Seq<char>) -> bool {
    exists|i: int| 0 <= i < all.len() && pending_expired(all[i], now) && all[i].state@ == s
}

/// OAuth2 pending TTL on sweeps: a sweep deletes exactly the expired records.
pub proof fn lemma_pending_ttl(all: Seq<OAuth2PendingEntity>, now: int)
    ensures
        forall|i: int|
            0 <= i < all.len() && #[trigger] pending_expired(all[i], now) ==> expired_states(
                all,
                now,
            ).contains(all[i].state@),
        forall|k: int|
            0 <= k < expired_states(all, now).len() ==> is_expired_state(
                all,
                now,
                #[trigger] expired_states(all, now)[k],
            ),
    decreases all.len(),
{
    if all.len() > 0 {
        let init = all.drop_last();
        lemma_pending_ttl(init, now);
        let rest = expired_states(init, now);
        let out = expired_states(all, now);
        assert forall|i: int|
            0 <= i < all.len() && #[trigger] pending_expired(all[i], now) implies out.contains(
            all[i].state@,
        ) by {
            if i < all.len() - 1 {
                assert(init[i] == all[i]);
                assert(pending_expired(init[i], now));
                let w = choose|w: int| 0 <= w < rest.len() && rest[w] == init[i].state@;
                assert(out[w] == rest[w]);
            } else {
                assert(out[out.len() - 1] == all.last().state@);
            }
        }
        assert forall|k: int| 0 <= k < out.len() implies is_expired_state(all, now, #[trigger] out[k]) by {
            if k < rest.len() {
                assert(out[k] == rest[k]);
                assert(is_expired_state(init, now, rest[k]));
                let w = choose|w: int|
                    0 <= w < init.len() && pending_expired(init[w], now) && init[w].state@
                        == rest[k];
                assert(all[w] == init[w]);
                assert(pending_expired(all[w], now) && all[w].state@ == out[k]);
            } else {
                let last = all.len() - 1;
                assert(all[last] == all.last());
                assert(pending_expired(all.last(), now));
                assert(out[k] == all.last().state@);
                assert(pending_expired(all[last], now) && all[last].state@ == out[k]);
            }
        }
        assert(out == expired_states(all, now));
    } else {
        assert(expired_states(all, now).len() == 0);
    }
}

/// OAuth2 pending TTL on sweeps, over the store: when `all` lists the
/// records of a store keyed by state, deleting the states that `clean`
/// returns removes every expired record and keeps every live one unchanged.
pub proof fn lemma_sweep_keeps_live(
    store: Map<Seq<char>, OAuth2PendingEntity>,
    all: Seq<OAuth2PendingEntity>,
    now: int,
)
    requires
        forall|i: int|
            0 <= i < all.len() ==> #[trigger] store.contains_key(all[i].state@) && store[all[i].state@]
                == all[i],
        forall|key: Seq<char>|
            #[trigger] store.contains_key(key) ==> exists|i: int| 0 <= i < all.len() && all[i].state@ == key,
    ensures
        forall|key: Seq<char>|
            #[trigger] store.contains_key(key) ==> (expired_states(all, now).contains(key)
                <==> pending_expired(store[key], now)),
        forall|key: Seq<char>|
            #[trigger] store.remove_keys(expired_states(all, now).to_set()).contains_key(key) <==> (
            store.contains_key(key) && !pending_expired(store[key], now)),
{
    lemma_pending_ttl(all, now);
    assert forall|key: Seq<char>| #[trigger] store.contains_key(key) implies (expired_states(
        all,
        now,
    ).contains(key) <==> pending_expired(store[key], now)) by {
        let i = choose|i: int| 0 <= i < all.len() && all[i].state@ == key;
        assert(store.contains_key(all[i].state@));
        if expired_states(all, now).contains(key) {
            let k = choose|k: int|
                0 <= k < expired_states(all, now).len() && expired_states(all, now)[k] == key;
            assert(is_expired_state(all, now, expired_states(all, now)[k]));
            let j = choose|j: int|
                0 <= j < all.len() && pending_expired(all[j], now) && all[j].state@ == key;
            assert(store.contains_key(all[j].state@));
        }
        if pending_expired(store[key], now) {
            assert(pending_expired(all[i], now));
        }
    }
    assert forall|key: Seq<char>| #[trigger] store.remove_keys(
        expired_states(all, now).to_set(),
    ).contains_key(key) <==> (store.contains_key(key) && !pending_expired(store[key], now)) by {
        if store.contains_key(key) {
            assert(expired_states(all, now).to_set().contains(key) == expired_states(
                all,
                now,
            ).contains(key));
        }
    }
}

/// The periodic task that sweeps expired pending authorizations.
pub struct OAuth2CleanTask;

} // verus!
