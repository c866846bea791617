use vstd::prelude::*;

use crate::account::AccountModel;
use crate::error::{BichonError, BichonResult, ErrorCode};
use crate::running_state::{ring_push, AccountError, AccountRunningState};

verus! {

/// Milliseconds in a minute.
pub const MS_PER_MINUTE: i64 = 60000;

/// Least time between two "account disabled" warnings.
pub const DISABLED_WARN_INTERVAL_MS: i64 = 600000;

/// Least time between two "OAuth2 authorization missing" warnings.
pub const OAUTH2_WARN_INTERVAL_MS: i64 = 300000;

/// The kind of pass a sync tick performs.
#[derive(Clone, Copy, Debug, PartialEq, Eq, Structural)]
pub enum SyncType {
    /// Initial sync, used when fetching all messages for the first time.
    InitialSync,
    /// Incremental synchronization, fetching what changed since the last pass.
    IncrementalSync,
    /// Skip synchronization, when it is not yet time for the next pass.
    SkipSync,
}

/// More than `interval_min` minutes have passed between `last` and `now`.
pub open spec fn incremental_due(now: int, last: int, interval_min: int) -> bool {
    now - last > interval_min * MS_PER_MINUTE
}

/// Whether more than `sync_interval_min` minutes have passed since the last
/// incremental sync started.
pub fn is_time_for_incremental_sync(now: i64, last_incremental_sync_at: i64, sync_interval_min: i64) -> (r:
    bool)
    ensures
        r == incremental_due(now as int, last_incremental_sync_at as int, sync_interval_min as int),
{
    (now as i128) - (last_incremental_sync_at as i128) > (sync_interval_min as i128) * 60000i128
}

/// The sync type owed to an account with running state `state` at `now`.
pub open spec fn sync_type_spec(state: Option<AccountRunningState>, now: int, interval_min: int) -> SyncType {
    match state {
        None => SyncType::InitialSync,
        Some(s) => if incremental_due(now, s.last_incremental_sync_start as int, interval_min) {
            SyncType::IncrementalSync
        } else {
            SyncType::SkipSync
        },
    }
}

/// Decides the pass of a sync tick: `InitialSync` when the account has no
/// running state yet (the caller then creates it), else `IncrementalSync`
/// when the account's interval has elapsed since the last incremental start,
/// else `SkipSync`. An account with running state but no interval configured
/// is misconfigured and fails with `InvalidParameter`.
pub fn determine_sync_type(
    account: &AccountModel,
    state: &Option<AccountRunningState>,
    now: i64,
) -> (r: BichonResult<SyncType>)
    ensures
        state is None ==> r is Ok && r->Ok_0 == SyncType::InitialSync,
        state is Some && account.sync_interval_min is None ==> r is Err && r->Err_0.code
            == ErrorCode::InvalidParameter,
        state is Some && account.sync_interval_min is Some ==> r is Ok && r->Ok_0
            == sync_type_spec(*state, now as int, account.sync_interval_min->0 as int),
{
    match state {
        None => Ok(SyncType::InitialSync),
        Some(info) => match account.sync_interval_min {
            None => Err(
                BichonError::new(
                    ErrorCode::InvalidParameter,
                    "account has no sync interval configured".to_string(),
                ),
            ),
            Some(m) => {
                if is_time_for_incremental_sync(now, info.last_incremental_sync_start, m) {
                    Ok(SyncType::IncrementalSync)
                } else {
                    Ok(SyncType::SkipSync)
                }
            },
        },
    }
}

/// The running state at the start of a pass of type `sync_type` at `now`.
/// A first pass creates the state; initial and incremental passes both stamp
/// the incremental start, from which the next pass is timed; a skipped pass
/// changes nothing.
pub fn begin_sync_pass(account_id: u64, state: Option<AccountRunningState>, sync_type: SyncType, now: i64) -> (r:
    Option<AccountRunningState>)
    ensures
        sync_type == SyncType::SkipSync ==> r == state,
        sync_type == SyncType::InitialSync && state is Some ==> r == Some(
            AccountRunningState {
                initial_sync_start_time: Some(now),
                last_incremental_sync_start: now,
                last_incremental_sync_end: None,
                ..state->0
            },
        ),
        sync_type == SyncType::IncrementalSync && state is Some ==> r == Some(
            AccountRunningState {
                last_incremental_sync_start: now,
                last_incremental_sync_end: None,
                ..state->0
            },
        ),
        sync_type != SyncType::SkipSync && state is None ==> r is Some && {
            let s = r->0;
            &&& s.account_id == account_id
            &&& s.last_incremental_sync_start == now
            &&& s.last_incremental_sync_end is None
            &&& s.errors@.len() == 0
            &&& !s.is_initial_sync_completed
            &&& s.progress is None
            &&& s.initial_sync_start_time == if sync_type == SyncType::InitialSync {
                Some(now)
            } else {
                None
            }
            &&& s.initial_sync_end_time is None
            &&& s.initial_sync_failed_time is None
        },
{
    match sync_type {
        SyncType::SkipSync => state,
        SyncType::InitialSync => {
            let mut s = match state {
                Some(s) => s,
                None => AccountRunningState::add(account_id),
            };
            s.set_initial_sync_start(now);
            s.set_incremental_sync_start(now);
            Some(s)
        },
        SyncType::IncrementalSync => {
            let mut s = match state {
                Some(s) => s,
                None => AccountRunningState::add(account_id),
            };
            s.set_incremental_sync_start(now);
            Some(s)
        },
    }
}

/// The work of a sync pass.
#[derive(Clone, Copy, Debug, PartialEq, Eq, Structural)]
pub enum SyncPass {
    /// Build every mailbox from scratch (or resume a failed build).
    InitialBuild,
    /// Reconcile mailboxes and apply deltas.
    Incremental,
    /// Nothing to do this tick.
    Idle,
}

/// The work of a pass of type `sync_type` for an account whose initial sync
/// is `initial_completed`: an incremental pass over an account whose initial
/// sync never completed resumes that initial sync instead.
pub fn pass_for(sync_type: SyncType, initial_completed: bool) -> (r: SyncPass)
    ensures
        sync_type == SyncType::InitialSync ==> r == SyncPass::InitialBuild,
        sync_type == SyncType::IncrementalSync ==> r == if initial_completed {
            SyncPass::Incremental
        } else {
            SyncPass::InitialBuild
        },
        sync_type == SyncType::SkipSync ==> r == SyncPass::Idle,
{
    match sync_type {
        SyncType::InitialSync => SyncPass::InitialBuild,
        SyncType::IncrementalSync => {
            if initial_completed {
                SyncPass::Incremental
            } else {
                SyncPass::InitialBuild
            }
        },
        SyncType::SkipSync => SyncPass::Idle,
    }
}

/// Records how an initial sync ended at `now`: success marks it completed
/// with its end time; failure stamps the failure time and leaves it
/// incomplete, so that the next tick retries it.
pub fn finish_initial_sync(state: &mut AccountRunningState, succeeded: bool, now: i64)
    ensures
        succeeded ==> *final(state) == (AccountRunningState {
            is_initial_sync_completed: true,
            initial_sync_end_time: Some(now),
            ..*old(state)
        }),
        !succeeded ==> *final(state) == (AccountRunningState {
            initial_sync_failed_time: Some(now),
            ..*old(state)
        }),
{
    if succeeded {
        state.set_initial_sync_completed(now);
    } else {
        state.set_initial_sync_failed(now);
    }
}

/// Records how an incremental pass ended at `now`: a full success stamps
/// its end; a failure appends `failure` to the error ring and leaves the end
/// unstamped.
pub fn finish_incremental_sync(state: &mut AccountRunningState, failure: Option<String>, now: i64)
    ensures
        failure is None ==> *final(state) == (AccountRunningState {
            last_incremental_sync_end: Some(now),
            ..*old(state)
        }),
        failure is Some ==> final(state).errors@ == ring_push(
            old(state).errors@,
            AccountError { error: failure->0, at: now },
        ),
        failure is Some ==> *final(state) == (AccountRunningState {
            errors: final(state).errors,
            ..*old(state)
        }),
{
    match failure {
        None => state.set_incremental_sync_end(now),
        Some(message) => state.append_error_at(message, now),
    }
}

/// A warning that is emitted at most once per interval.
#[derive(Clone, Copy, Debug, PartialEq, Eq, Structural)]
pub struct WarnThrottle {
    /// When the warning was last emitted (epoch ms).
    pub last_warn_ms: i64,
    /// Least time between two warnings (ms).
    pub interval_ms: i64,
}

impl WarnThrottle {
    /// A throttle that has never warned.
    pub fn new(interval_ms: i64) -> (r: WarnThrottle)
        ensures
            r.last_warn_ms == 0,
            r.interval_ms == interval_ms,
    {
        WarnThrottle { last_warn_ms: 0, interval_ms }
    }

    /// Whether to warn at `now`: the interval has elapsed since the last
    /// warning. A warning is recorded as emitted at `now`.
    pub fn should_warn(&mut self, now: i64) -> (r: bool)
        ensures
            r == (now - old(self).last_warn_ms >= old(self).interval_ms),
            final(self).interval_ms == old(self).interval_ms,
            final(self).last_warn_ms == if r {
                now
            } else {
                old(self).last_warn_ms
            },
            r == warns(*old(self), now as int),
            *final(self) == after_ask(*old(self), now),
    {
        if (now as i128) - (self.last_warn_ms as i128) >= self.interval_ms as i128 {
            self.last_warn_ms = now;
            true
        } else {
            false
        }
    }
}

/// The throttle `t` lets a warning through at `now`.
pub open spec fn warns(t: WarnThrottle, now: int) -> bool {
    now - t.last_warn_ms >= t.interval_ms
}

/// The throttle after being asked at `now`.
pub open spec fn after_ask(t: WarnThrottle, now: i64) -> WarnThrottle {
    if warns(t, now as int) {
        WarnThrottle { last_warn_ms: now, ..t }
    } else {
        t
    }
}

/// The throttle after being asked at each of `times`, in order.
pub open spec fn throttle_after(t: WarnThrottle, times: Seq<i64>) -> WarnThrottle
    decreases times.len(),
{
    if times.len() == 0 {
        t
    } else {
        after_ask(throttle_after(t, times.drop_last()), times.last())
    }
}

/// Asked at each of `times` in order, the throttle warns at the `k`-th.
pub open spec fn warned_at(t: WarnThrottle, times: Seq<i64>, k: int) -> bool {
    warns(throttle_after(t, times.subrange(0, k)), times[k] as int)
}

proof fn lemma_throttle_interval(t: WarnThrottle, times: Seq<i64>)
    ensures
        throttle_after(t, times).interval_ms == t.interval_ms,
    decreases times.len(),
{
    if times.len() > 0 {
        lemma_throttle_interval(t, times.drop_last());
    }
}

/// After a warning at the `a`-th time, the last recorded warning is never
/// earlier than that time.
proof fn lemma_last_warn_after(t: WarnThrottle, times: Seq<i64>, a: int, k: int)
    requires
        0 <= a < k <= times.len(),
        warned_at(t, times, a),
        t.interval_ms >= 0,
    ensures
        throttle_after(t, times.subrange(0, k)).last_warn_ms >= times[a],
    decreases k,
{
    assert(times.subrange(0, k).drop_last() =~= times.subrange(0, k - 1));
    assert(times.subrange(0, k).last() == times[k - 1]);
    if k > a + 1 {
        lemma_last_warn_after(t, times, a, k - 1);
        lemma_throttle_interval(t, times.subrange(0, k - 1));
    }
}

/// Warnings from one throttle are at least its interval apart: asked at any
/// sequence of times, if it warns at the `a`-th and at a later `b`-th time,
/// those times are at least the interval apart. So at most one warning falls
/// in any window shorter than the interval.
pub proof fn lemma_warn_at_most_once_per_interval(t: WarnThrottle, times: Seq<i64>, a: int, b: int)
    requires
        0 <= a < b < times.len(),
        t.interval_ms >= 0,
        warned_at(t, times, a),
        warned_at(t, times, b),
    ensures
        times[b] - times[a] >= t.interval_ms,
{
    lemma_last_warn_after(t, times, a, b);
    lemma_throttle_interval(t, times.subrange(0, b));
}

/// What a sync tick does for one account.
#[derive(Clone, Copy, Debug, PartialEq, Eq, Structural)]
pub enum TickAction {
    /// The account no longer exists: the tick aborts.
    AccountMissing,
    /// The account is disabled: no IMAP traffic; `warn` says whether to log.
    Disabled { warn: bool },
    /// The account signs in with OAuth2 and has no access token: no IMAP
    /// traffic; `warn` says whether to log.
    OAuth2NotAuthorized { warn: bool },
    /// Run the sync engine.
    RunSync,
}

/// Decides what a sync tick does. `oauth2_token_present` is consulted only
/// for accounts that sign in with OAuth2.
pub fn decide_tick(
    account: &Option<AccountModel>,
    oauth2_token_present: bool,
    disabled_warn: &mut WarnThrottle,
    oauth2_warn: &mut WarnThrottle,
    now: i64,
) -> (r: TickAction)
    ensures
        account is None ==> r == TickAction::AccountMissing,
        account matches Some(a) ==> {
            &&& !a.enabled ==> r == TickAction::Disabled {
                warn: now - old(disabled_warn).last_warn_ms >= old(disabled_warn).interval_ms,
            }
            &&& a.enabled && a.uses_oauth2_spec() && !oauth2_token_present ==> r
                == TickAction::OAuth2NotAuthorized {
                warn: now - old(oauth2_warn).last_warn_ms >= old(oauth2_warn).interval_ms,
            }
            &&& a.enabled && !(a.uses_oauth2_spec() && !oauth2_token_present) ==> r
                == TickAction::RunSync
        },
        r matches TickAction::Disabled { warn } ==> final(disabled_warn).last_warn_ms == if warn {
            now
        } else {
            old(disabled_warn).last_warn_ms
        },
        r is Disabled ==> *final(disabled_warn) == after_ask(*old(disabled_warn), now),
        !(r is Disabled) ==> *final(disabled_warn) == *old(disabled_warn),
        r matches TickAction::OAuth2NotAuthorized { warn } ==> final(oauth2_warn).last_warn_ms
            == if warn {
            now
        } else {
            old(oauth2_warn).last_warn_ms
        },
        r is OAuth2NotAuthorized ==> *final(oauth2_warn) == after_ask(*old(oauth2_warn), now),
        !(r is OAuth2NotAuthorized) ==> *final(oauth2_warn) == *old(oauth2_warn),
        final(disabled_warn).interval_ms == old(disabled_warn).interval_ms,
        final(oauth2_warn).interval_ms == old(oauth2_warn).interval_ms,
{
    match account {
        None => TickAction::AccountMissing,
        Some(a) => {
            if !a.enabled {
                let warn = disabled_warn.should_warn(now);
                TickAction::Disabled { warn }
            } else if a.uses_oauth2() && !oauth2_token_present {
                let warn = oauth2_warn.should_warn(now);
                TickAction::OAuth2NotAuthorized { warn }
            } else {
                TickAction::RunSync
            }
        },
    }
}

} // verus!
