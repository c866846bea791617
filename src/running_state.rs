use vstd::prelude::*;

use crate::clock::utc_now;

verus! {

/// Capacity of the per-account error ring.
pub const ERROR_COUNT_PER_ACCOUNT: usize = 30;

/// Batch progress of the initial sync of one mailbox.
#[derive(Clone, Copy, Debug, Default, PartialEq, Eq, Structural)]
pub struct MailboxBatchProgress {
    pub total_batches: u32,
    pub current_batch: u32,
}

/// The batch progress recorded for one mailbox, keyed by its name.
#[derive(Debug)]
pub struct FolderProgress {
    pub folder: String,
    pub progress: MailboxBatchProgress,
}

impl Clone for FolderProgress {
    fn clone(&self) -> (r: Self)
        ensures
            r == *self,
    {
        FolderProgress { folder: self.folder.clone(), progress: self.progress }
    }
}

/// One recorded sync failure and when it was recorded (epoch ms).
#[derive(Debug)]
pub struct AccountError {
    pub error: String,
    pub at: i64,
}

impl Clone for AccountError {
    fn clone(&self) -> (r: Self)
        ensures
            r == *self,
    {
        AccountError { error: self.error.clone(), at: self.at }
    }
}

/// Per-account sync progress, incremental timestamps, capped error ring and
/// initial-sync milestones. Timestamps are epoch milliseconds.
#[derive(Clone, Debug)]
pub struct AccountRunningState {
    pub account_id: u64,
    pub last_incremental_sync_start: i64,
    pub last_incremental_sync_end: Option<i64>,
    pub errors: Vec<AccountError>,
    pub is_initial_sync_completed: bool,
    /// Batch progress per mailbox, one entry per mailbox name (see `wf`);
    /// `progress_view` is the map it stands for.
    pub progress: Option<Vec<FolderProgress>>,
    pub initial_sync_start_time: Option<i64>,
    pub initial_sync_end_time: Option<i64>,
    pub initial_sync_failed_time: Option<i64>,
}

/// The last `n` elements of `s` (all of `s` when it is shorter).
pub open spec fn keep_last<T>(s: Seq<T>, n: nat) -> Seq<T> {
    if s.len() > n {
        s.subrange(s.len() - n, s.len() as int)
    } else {
        s
    }
}

/// The error ring after appending `e`: the oldest entries beyond capacity are dropped.
pub open spec fn ring_push(ring: Seq<AccountError>, e: AccountError) -> Seq<AccountError> {
    keep_last(ring.push(e), ERROR_COUNT_PER_ACCOUNT as nat)
}

/// The error ring after appending each of `inputs` in order.
pub open spec fn ring_push_all(ring: Seq<AccountError>, inputs: Seq<AccountError>) -> Seq<
    AccountError,
>
    decreases inputs.len(),
{
    if inputs.len() == 0 {
        ring
    } else {
        ring_push(ring_push_all(ring, inputs.drop_last()), inputs.last())
    }
}

/// The progress map that a list of entries stands for: a later entry for a
/// name replaces an earlier one.
pub open spec fn progress_map(p: Seq<FolderProgress>) -> Map<Seq<char>, MailboxBatchProgress>
    decreases p.len(),
{
    if p.len() == 0 {
        Map::empty()
    } else {
        progress_map(p.drop_last()).insert(p.last().folder@, p.last().progress)
    }
}

/// The progress recorded for `name`, or none.
pub open spec fn progress_lookup(m: Map<Seq<char>, MailboxBatchProgress>, name: Seq<char>) -> Option<
    MailboxBatchProgress,
> {
    if m.dom().contains(name) {
        Some(m[name])
    } else {
        None
    }
}

/// Total batches already known for `name` (0 when the mailbox has no entry).
pub open spec fn known_total(m: Map<Seq<char>, MailboxBatchProgress>, name: Seq<char>) -> u32 {
    match progress_lookup(m, name) {
        Some(p) => p.total_batches,
        None => 0,
    }
}

/// No two entries are for the same mailbox.
pub open spec fn distinct_folders(p: Seq<FolderProgress>) -> bool {
    forall|i: int, j: int|
        0 <= i < p.len() && 0 <= j < p.len() && i != j ==> p[i].folder@ != p[j].folder@
}

/// Batches already committed for `name` (0 when the mailbox has no entry).
pub open spec fn known_current(m: Map<Seq<char>, MailboxBatchProgress>, name: Seq<char>) -> u32 {
    match progress_lookup(m, name) {
        Some(p) => p.current_batch,
        None => 0,
    }
}

/// The batch count after reporting `n`: never behind `current`, never
/// beyond `total`.
pub open spec fn advanced_batch(current: u32, total: u32, n: u32) -> u32 {
    let forward = if n > current {
        n
    } else {
        current
    };
    if forward > total {
        total
    } else {
        forward
    }
}

/// Appends `e` to the ring and drops the oldest entries beyond capacity.
fn push_capped(errors: &mut Vec<AccountError>, e: AccountError)
    ensures
        final(errors)@ == ring_push(old(errors)@, e),
{
    let ghost full = old(errors)@.push(e);
    errors.push(e);
    let ghost mut dropped: int = 0;
    while errors.len() > ERROR_COUNT_PER_ACCOUNT
        invariant
            0 <= dropped <= full.len(),
            errors@ == full.subrange(dropped, full.len() as int),
            full.len() > ERROR_COUNT_PER_ACCOUNT ==> dropped <= full.len()
                - ERROR_COUNT_PER_ACCOUNT,
            full.len() <= ERROR_COUNT_PER_ACCOUNT ==> dropped == 0,
        decreases errors.len(),
    {
        errors.remove(0);
        proof {
            dropped = dropped + 1;
        }
    }
    assert(errors@ =~= ring_push(old(errors)@, e));
}

/// Writes `value` as the progress of `folder`, leaving every other mailbox's
/// entry as it was.
fn put_progress(entries: &mut Vec<FolderProgress>, folder: String, value: MailboxBatchProgress)
    ensures
        progress_map(final(entries)@) == progress_map(old(entries)@).insert(folder@, value),
        distinct_folders(old(entries)@) ==> distinct_folders(final(entries)@),
{
    let ghost old_entries = entries@;
    let mut kept: Vec<FolderProgress> = Vec::new();
    let mut i: usize = 0;
    while i < entries.len()
        invariant
            entries@ == old_entries,
            0 <= i <= entries.len(),
            progress_map(kept@) == progress_map(old_entries.subrange(0, i as int)).remove(folder@),
            forall|m: int| 0 <= m < kept.len() ==> #[trigger] kept@[m].folder@ != folder@,
            forall|m: int|
                0 <= m < kept.len() ==> exists|j: int| 0 <= j < i && #[trigger] kept@[m] == old_entries[j],
            distinct_folders(old_entries) ==> distinct_folders(kept@),
        decreases entries.len() - i,
    {
        let e = entries[i].clone();
        let ghost before = old_entries.subrange(0, i as int);
        assert(old_entries.subrange(0, i + 1).drop_last() =~= before);
        if e.folder == folder {
            assert(progress_map(kept@) =~= progress_map(old_entries.subrange(0, i + 1)).remove(
                folder@,
            ));
        } else {
            let ghost kept_before = kept@;
            kept.push(e);
            assert(kept@.drop_last() =~= kept_before);
            assert(progress_map(kept@) =~= progress_map(old_entries.subrange(0, i + 1)).remove(
                folder@,
            ));
            assert forall|m: int| 0 <= m < kept.len() implies exists|j: int|
                0 <= j < i + 1 && #[trigger] kept@[m] == old_entries[j] by {
                if m < kept.len() - 1 {
                    assert(kept@[m] == kept_before[m]);
                } else {
                    assert(kept@[m] == old_entries[i as int]);
                }
            }
            proof {
                if distinct_folders(old_entries) {
                    assert forall|a: int, b: int|
                        0 <= a < kept.len() && 0 <= b < kept.len() && a != b implies kept@[a].folder@
                        != kept@[b].folder@ by {
                        let last = kept.len() - 1;
                        if a == last || b == last {
                            let other = if a == last {
                                b
                            } else {
                                a
                            };
                            assert(kept@[other] == kept_before[other]);
                            let j = choose|j: int| 0 <= j < i && kept_before[other] == old_entries[j];
                            assert(old_entries[j].folder@ != old_entries[i as int].folder@);
                        } else {
                            assert(kept@[a] == kept_before[a] && kept@[b] == kept_before[b]);
                        }
                    }
                }
            }
        }
        i = i + 1;
    }
    assert(old_entries.subrange(0, i as int) =~= old_entries);
    let ghost kept_before = kept@;
    kept.push(FolderProgress { folder, progress: value });
    assert(kept@.drop_last() =~= kept_before);
    assert(progress_map(kept@) =~= progress_map(old_entries).insert(folder@, value));
    assert(distinct_folders(old_entries) ==> distinct_folders(kept@)) by {
        if distinct_folders(old_entries) {
            assert forall|a: int, b: int|
                0 <= a < kept.len() && 0 <= b < kept.len() && a != b implies kept@[a].folder@
                != kept@[b].folder@ by {
                if a < kept.len() - 1 && b < kept.len() - 1 {
                    assert(kept@[a] == kept_before[a] && kept@[b] == kept_before[b]);
                } else if a < kept.len() - 1 {
                    assert(kept@[a] == kept_before[a]);
                } else {
                    assert(kept@[b] == kept_before[b]);
                }
            }
        }
    }
    *entries = kept;
}

impl Default for AccountRunningState {
    fn default() -> (r: Self)
        ensures
            r.is_fresh(0),
    {
        AccountRunningState::add(0)
    }
}

impl AccountRunningState {
    /// This is the state that a first sync tick creates for `account_id`.
    pub open spec fn is_fresh(&self, account_id: u64) -> bool {
        &&& self.account_id == account_id
        &&& self.last_incremental_sync_start == 0
        &&& self.last_incremental_sync_end is None
        &&& self.errors@ == Seq::<AccountError>::empty()
        &&& !self.is_initial_sync_completed
        &&& self.progress is None
        &&& self.initial_sync_start_time is None
        &&& self.initial_sync_end_time is None
        &&& self.initial_sync_failed_time is None
    }

    /// The state is well formed: the error ring is within its capacity and
    /// the progress holds at most one entry per mailbox.
    pub open spec fn wf(&self) -> bool {
        &&& self.errors@.len() <= ERROR_COUNT_PER_ACCOUNT
        &&& match self.progress {
            Some(p) => distinct_folders(p@),
            None => true,
        }
    }

    /// The progress map of this state (empty when none was ever recorded).
    pub open spec fn progress_view(&self) -> Map<Seq<char>, MailboxBatchProgress> {
        match self.progress {
            Some(p) => progress_map(p@),
            None => Map::empty(),
        }
    }

    /// All fields of `self` and `other` but the progress agree.
    pub open spec fn same_but_progress(&self, other: &AccountRunningState) -> bool {
        &&& self.account_id == other.account_id
        &&& self.last_incremental_sync_start == other.last_incremental_sync_start
        &&& self.last_incremental_sync_end == other.last_incremental_sync_end
        &&& self.errors@ == other.errors@
        &&& self.is_initial_sync_completed == other.is_initial_sync_completed
        &&& self.initial_sync_start_time == other.initial_sync_start_time
        &&& self.initial_sync_end_time == other.initial_sync_end_time
        &&& self.initial_sync_failed_time == other.initial_sync_failed_time
    }

    /// Builds the state of an account that has never been synced: no
    /// incremental sync yet, no errors, initial sync not completed.
    pub fn add(account_id: u64) -> (r: AccountRunningState)
        ensures
            r.is_fresh(account_id),
            r.wf(),
    {
        AccountRunningState {
            account_id,
            last_incremental_sync_start: 0,
            last_incremental_sync_end: None,
            errors: Vec::new(),
            is_initial_sync_completed: false,
            progress: None,
            initial_sync_start_time: None,
            initial_sync_end_time: None,
            initial_sync_failed_time: None,
        }
    }

    /// Records the start of the initial sync at `now`.
    pub fn set_initial_sync_start(&mut self, now: i64)
        ensures
            *final(self) == (AccountRunningState {
                initial_sync_start_time: Some(now),
                ..*old(self)
            }),
            old(self).wf() ==> final(self).wf(),
    {
        self.initial_sync_start_time = Some(now);
    }

    /// Marks the initial sync completed at `now`.
    pub fn set_initial_sync_completed(&mut self, now: i64)
        ensures
            *final(self) == (AccountRunningState {
                is_initial_sync_completed: true,
                initial_sync_end_time: Some(now),
                ..*old(self)
            }),
            old(self).wf() ==> final(self).wf(),
    {
        self.is_initial_sync_completed = true;
        self.initial_sync_end_time = Some(now);
    }

    /// Records a failed initial sync at `now`; the completion flag is left as
    /// it was, so the next tick retries.
    pub fn set_initial_sync_failed(&mut self, now: i64)
        ensures
            *final(self) == (AccountRunningState {
                initial_sync_failed_time: Some(now),
                ..*old(self)
            }),
            old(self).wf() ==> final(self).wf(),
    {
        self.initial_sync_failed_time = Some(now);
    }

    /// Records the start of an incremental pass at `now` and clears its end.
    pub fn set_incremental_sync_start(&mut self, now: i64)
        ensures
            *final(self) == (AccountRunningState {
                last_incremental_sync_start: now,
                last_incremental_sync_end: None,
                ..*old(self)
            }),
            old(self).wf() ==> final(self).wf(),
    {
        self.last_incremental_sync_start = now;
        self.last_incremental_sync_end = None;
    }

    /// Records the successful end of an incremental pass at `now`.
    pub fn set_incremental_sync_end(&mut self, now: i64)
        ensures
            *final(self) == (AccountRunningState {
                last_incremental_sync_end: Some(now),
                ..*old(self)
            }),
            old(self).wf() ==> final(self).wf(),
    {
        self.last_incremental_sync_end = Some(now);
    }

    /// Writes `value` as the progress of `folder`.
    fn put_folder_progress(&mut self, folder: String, value: MailboxBatchProgress)
        ensures
            final(self).progress_view() == old(self).progress_view().insert(folder@, value),
            final(self).progress is Some,
            final(self).same_but_progress(old(self)),
            old(self).wf() ==> final(self).wf(),
    {
        let mut entries = match self.progress.take() {
            Some(p) => p,
            None => Vec::new(),
        };
        put_progress(&mut entries, folder, value);
        self.progress = Some(entries);
    }

    /// Starts the initial sync of `folder` with `total_sync_batches` batches
    /// and no batch done yet.
    pub fn set_initial_current_syncing_folder(
        &mut self,
        current_syncing_folder: String,
        total_sync_batches: u32,
    )
        ensures
            final(self).progress_view() == old(self).progress_view().insert(
                current_syncing_folder@,
                MailboxBatchProgress { total_batches: total_sync_batches, current_batch: 0 },
            ),
            final(self).same_but_progress(old(self)),
            old(self).wf() ==> final(self).wf(),
    {
        let value = MailboxBatchProgress { total_batches: total_sync_batches, current_batch: 0 };
        self.put_folder_progress(current_syncing_folder, value);
    }

    /// Sets the number of batches of `folder` committed so far, keeping its
    /// total (0 when the mailbox had no entry).
    pub fn set_current_sync_batch_number(&mut self, syncing_folder: String, batch_number: u32)
        ensures
            final(self).progress_view() == old(self).progress_view().insert(
                syncing_folder@,
                MailboxBatchProgress {
                    total_batches: known_total(old(self).progress_view(), syncing_folder@),
                    current_batch: advanced_batch(
                        known_current(old(self).progress_view(), syncing_folder@),
                        known_total(old(self).progress_view(), syncing_folder@),
                        batch_number,
                    ),
                },
            ),
            final(self).progress_view().contains_key(syncing_folder@),
            final(self).same_but_progress(old(self)),
            old(self).wf() ==> final(self).wf(),
    {
        let known = self.progress_of(&syncing_folder);
        let (total, current) = match known {
            Some(p) => (p.total_batches, p.current_batch),
            None => (0, 0),
        };
        let forward = if batch_number > current {
            batch_number
        } else {
            current
        };
        let capped = if forward > total {
            total
        } else {
            forward
        };
        let value = MailboxBatchProgress { total_batches: total, current_batch: capped };
        self.put_folder_progress(syncing_folder, value);
    }

    /// Marks the initial sync of `folder` complete: its current batch becomes
    /// its total.
    pub fn set_folder_initial_sync_completed(&mut self, syncing_folder: String)
        ensures
            final(self).progress_view() == old(self).progress_view().insert(
                syncing_folder@,
                MailboxBatchProgress {
                    total_batches: known_total(old(self).progress_view(), syncing_folder@),
                    current_batch: known_total(old(self).progress_view(), syncing_folder@),
                },
            ),
            final(self).same_but_progress(old(self)),
            old(self).wf() ==> final(self).wf(),
    {
        let total = match self.progress_of(&syncing_folder) {
            Some(p) => p.total_batches,
            None => 0,
        };
        let value = MailboxBatchProgress { total_batches: total, current_batch: total };
        self.put_folder_progress(syncing_folder, value);
    }

    /// Total batches recorded for `folder` (0 when it has no entry).
    fn progress_of(&self, folder: &String) -> (r: Option<MailboxBatchProgress>)
        ensures
            r == progress_lookup(self.progress_view(), folder@),
    {
        match &self.progress {
            None => None,
            Some(entries) => {
                let mut found: Option<MailboxBatchProgress> = None;
                let mut i: usize = 0;
                while i < entries.len()
                    invariant
                        0 <= i <= entries.len(),
                        found == progress_lookup(
                            progress_map(entries@.subrange(0, i as int)),
                            folder@,
                        ),
                    decreases entries.len() - i,
                {
                    assert(entries@.subrange(0, i + 1).drop_last() =~= entries@.subrange(
                        0,
                        i as int,
                    ));
                    if entries[i].folder == *folder {
                        found = Some(entries[i].progress);
                    }
                    i = i + 1;
                }
                assert(entries@.subrange(0, i as int) =~= entries@);
                found
            },
        }
    }

    /// Appends `error`, recorded at `at`, to the error ring; when the ring
    /// exceeds its capacity the oldest entries are dropped.
    pub fn append_error_at(&mut self, error: String, at: i64)
        ensures
            final(self).errors@ == ring_push(old(self).errors@, AccountError { error, at }),
            final(self).errors.len() <= ERROR_COUNT_PER_ACCOUNT,
            *final(self) == (AccountRunningState { errors: final(self).errors, ..*old(self) }),
            old(self).wf() ==> final(self).wf(),
    {
        push_capped(&mut self.errors, AccountError { error, at });
    }

    /// Appends `error`, stamped with the current time, to the error ring.
    pub fn append_error_log(&mut self, error: String)
        ensures
            appended(old(self).errors@, final(self).errors@, error),
            final(self).errors.len() <= ERROR_COUNT_PER_ACCOUNT,
            *final(self) == (AccountRunningState { errors: final(self).errors, ..*old(self) }),
            old(self).wf() ==> final(self).wf(),
    {
        let now = utc_now();
        self.append_error_at(error, now);
    }
}

/// Appending each of a sequence of errors, in order, to a ring that holds at
/// most its capacity leaves the last entries of the ring followed by the
/// inputs, capped to capacity.
proof fn lemma_ring_push_all_keeps_last(ring: Seq<AccountError>, inputs: Seq<AccountError>)
    requires
        ring.len() <= ERROR_COUNT_PER_ACCOUNT,
    ensures
        ring_push_all(ring, inputs) == keep_last(ring + inputs, ERROR_COUNT_PER_ACCOUNT as nat),
    decreases inputs.len(),
{
    let cap = ERROR_COUNT_PER_ACCOUNT as nat;
    if inputs.len() == 0 {
        assert(ring + inputs =~= ring);
    } else {
        let init = inputs.drop_last();
        lemma_ring_push_all_keeps_last(ring, init);
        let prev = ring + init;
        assert(ring + inputs =~= prev.push(inputs.last()));
        assert(keep_last(keep_last(prev, cap).push(inputs.last()), cap) =~= keep_last(
            prev.push(inputs.last()),
            cap,
        ));
    }
}

/// Error ring bound: appending more errors than the ring holds to a fresh
/// state leaves exactly as many entries as the capacity, and they are the
/// last inputs in insertion order.
pub proof fn lemma_error_ring_bound(inputs: Seq<AccountError>)
    requires
        inputs.len() > ERROR_COUNT_PER_ACCOUNT,
    ensures
        ring_push_all(Seq::empty(), inputs).len() == ERROR_COUNT_PER_ACCOUNT,
        ring_push_all(Seq::empty(), inputs) == inputs.subrange(
            inputs.len() - ERROR_COUNT_PER_ACCOUNT,
            inputs.len() as int,
        ),
{
    lemma_ring_push_all_keeps_last(Seq::empty(), inputs);
    assert(Seq::<AccountError>::empty() + inputs =~= inputs);
}

/// `next` is the ring `prev` after appending `message`, stamped with some time.
pub open spec fn appended(prev: Seq<AccountError>, next: Seq<AccountError>, message: String) -> bool {
    exists|e: AccountError| e.error == message && next == #[trigger] ring_push(prev, e)
}

/// The messages of the ring's entries, in order.
pub open spec fn messages(ring: Seq<AccountError>) -> Seq<String> {
    ring.map_values(|e: AccountError| e.error)
}

proof fn lemma_messages_push(ring: Seq<AccountError>, e: AccountError)
    ensures
        messages(ring_push(ring, e)) == keep_last(
            messages(ring).push(e.error),
            ERROR_COUNT_PER_ACCOUNT as nat,
        ),
{
    let s = ring.push(e);
    assert(messages(s) =~= messages(ring).push(e.error));
    if s.len() > ERROR_COUNT_PER_ACCOUNT {
        assert(messages(s.subrange(s.len() - ERROR_COUNT_PER_ACCOUNT, s.len() as int)) =~= messages(
            s,
        ).subrange(s.len() - ERROR_COUNT_PER_ACCOUNT, s.len() as int));
    }
}

#[verifier::rlimit(60)]
proof fn lemma_error_log_prefix(states: Seq<AccountRunningState>, inputs: Seq<String>, k: int)
    requires
        states.len() == inputs.len() + 1,
        0 <= k <= inputs.len(),
        states[0].errors@.len() == 0,
        forall|j: int|
            1 <= j < states.len() ==> appended(
                states[j - 1].errors@,
                #[trigger] states[j].errors@,
                inputs[j - 1],
            ),
    ensures
        messages(states[k].errors@) == keep_last(
            inputs.subrange(0, k),
            ERROR_COUNT_PER_ACCOUNT as nat,
        ),
    decreases k,
{
    let cap = ERROR_COUNT_PER_ACCOUNT as nat;
    if k == 0 {
        assert(messages(states[0].errors@) =~= inputs.subrange(0, 0));
    } else {
        lemma_error_log_prefix(states, inputs, k - 1);
        assert(appended(states[k - 1].errors@, states[k].errors@, inputs[k - 1]));
        let e = choose|e: AccountError|
            e.error == inputs[k - 1] && states[k].errors@ == #[trigger] ring_push(
                states[k - 1].errors@,
                e,
            );
        lemma_messages_push(states[k - 1].errors@, e);
        let prev = inputs.subrange(0, k - 1);
        assert(inputs.subrange(0, k) =~= prev.push(inputs[k - 1]));
        assert(keep_last(keep_last(prev, cap).push(inputs[k - 1]), cap) =~= keep_last(
            prev.push(inputs[k - 1]),
            cap,
        ));
    }
}

/// Error ring bound over calls of `append_error_log`: starting from an empty
/// ring, when each state comes from the one before by appending the next
/// input (stamped with whatever time), after more inputs than the capacity
/// the ring holds exactly the capacity's worth of entries, the last inputs
/// in insertion order.
#[verifier::rlimit(60)]
pub proof fn lemma_error_log_keeps_last_inputs(
    states: Seq<AccountRunningState>,
    inputs: Seq<String>,
)
    requires
        states.len() == inputs.len() + 1,
        inputs.len() > ERROR_COUNT_PER_ACCOUNT,
        states[0].errors@.len() == 0,
        forall|j: int|
            1 <= j < states.len() ==> appended(
                states[j - 1].errors@,
                #[trigger] states[j].errors@,
                inputs[j - 1],
            ),
    ensures
        states.last().errors@.len() == ERROR_COUNT_PER_ACCOUNT,
        forall|i: int|
            0 <= i < ERROR_COUNT_PER_ACCOUNT ==> #[trigger] states.last().errors@[i].error
                == inputs[inputs.len() - ERROR_COUNT_PER_ACCOUNT + i],
{
    let n = inputs.len() as int;
    lemma_error_log_prefix(states, inputs, n);
    assert(inputs.subrange(0, n) =~= inputs);
    let last = states.last().errors@;
    assert(messages(last).len() == last.len());
    assert forall|i: int| 0 <= i < ERROR_COUNT_PER_ACCOUNT implies #[trigger] last[i].error
        == inputs[n - ERROR_COUNT_PER_ACCOUNT + i] by {
        assert(messages(last)[i] == last[i].error);
    }
}

/// Progress monotonicity. For a mailbox whose progress is within its total
/// (or that has no entry yet): reporting any batch number never moves its
/// current batch backwards nor past its total, and completing its initial
/// sync makes the current batch equal the total. Other mailboxes are
/// untouched in both cases.
pub proof fn lemma_progress_monotone(
    before: AccountRunningState,
    advanced: AccountRunningState,
    completed: AccountRunningState,
    folder: Seq<char>,
    n: u32,
)
    requires
        known_current(before.progress_view(), folder) <= known_total(before.progress_view(), folder),
        advanced.progress_view() == before.progress_view().insert(
            folder,
            MailboxBatchProgress {
                total_batches: known_total(before.progress_view(), folder),
                current_batch: advanced_batch(
                    known_current(before.progress_view(), folder),
                    known_total(before.progress_view(), folder),
                    n,
                ),
            },
        ),
        completed.progress_view() == before.progress_view().insert(
            folder,
            MailboxBatchProgress {
                total_batches: known_total(before.progress_view(), folder),
                current_batch: known_total(before.progress_view(), folder),
            },
        ),
    ensures
        advanced.progress_view()[folder].current_batch >= known_current(
            before.progress_view(),
            folder,
        ),
        advanced.progress_view()[folder].current_batch <= advanced.progress_view()[folder].total_batches,
        advanced.progress_view()[folder].total_batches == known_total(before.progress_view(), folder),
        completed.progress_view()[folder].current_batch
            == completed.progress_view()[folder].total_batches,
        completed.progress_view()[folder].total_batches == known_total(
            before.progress_view(),
            folder,
        ),
        advanced.progress_view().remove(folder) == before.progress_view().remove(folder),
        completed.progress_view().remove(folder) == before.progress_view().remove(folder),
{
    assert(completed.progress_view().remove(folder) =~= before.progress_view().remove(folder));
    assert(advanced.progress_view().remove(folder) =~= before.progress_view().remove(folder));
}

} // verus!
