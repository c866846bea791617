use vstd::prelude::*;

use ahash::{AHashMap, AHashSet, RandomState};

use crate::error::{BichonError, BichonResult, ErrorCode};

verus! {

#[verifier::external_type_specification]
#[verifier::external_body]
pub struct ExRandomState(RandomState);

#[verifier::external_type_specification]
#[verifier::external_body]
#[verifier::reject_recursive_types(T)]
#[verifier::reject_recursive_types(S)]
pub struct ExAHashSet<T, S>(AHashSet<T, S>);

#[verifier::external_type_specification]
#[verifier::external_body]
#[verifier::reject_recursive_types(K)]
#[verifier::reject_recursive_types(V)]
#[verifier::reject_recursive_types(S)]
pub struct ExAHashMap<K, V, S>(AHashMap<K, V, S>);

/// The names that a set of mailbox names holds.
pub uninterp spec fn name_set_view(s: AHashSet<String>) -> Set<Seq<char>>;

/// What a map from mailbox name to list position holds.
pub uninterp spec fn name_index_view(m: AHashMap<String, usize>) -> Map<Seq<char>, usize>;

/// Relies on `AHashSet::new`: a new set is empty.
#[verifier::external_body]
fn new_name_set() -> (r: AHashSet<String>)
    ensures
        name_set_view(r) == Set::<Seq<char>>::empty(),
{
    AHashSet::new()
}

/// Relies on `HashSet::insert` (reached through `AHashSet`'s `Deref`): the
/// name is in the set afterwards and nothing else changes.
#[verifier::external_body]
fn insert_name(s: &mut AHashSet<String>, name: String)
    ensures
        name_set_view(*final(s)) == name_set_view(*old(s)).insert(name@),
{
    s.insert(name);
}

/// Relies on `HashSet::contains`: membership by string equality.
#[verifier::external_body]
fn contains_name(s: &AHashSet<String>, name: &String) -> (r: bool)
    ensures
        r == name_set_view(*s).contains(name@),
{
    s.contains(name)
}

/// Relies on `AHashMap::new`: a new map is empty.
#[verifier::external_body]
fn new_name_index() -> (r: AHashMap<String, usize>)
    ensures
        name_index_view(r).dom().is_empty(),
{
    AHashMap::new()
}

/// Relies on `AHashMap::insert`: the name now maps to `pos`, replacing any
/// earlier position; other names keep theirs.
#[verifier::external_body]
fn insert_name_index(m: &mut AHashMap<String, usize>, name: String, pos: usize)
    ensures
        name_index_view(*final(m)) == name_index_view(*old(m)).insert(name@, pos),
{
    m.insert(name, pos);
}

/// Relies on `AHashMap::get`: the position stored for the name, if any.
#[verifier::external_body]
fn get_name_index(m: &AHashMap<String, usize>, name: &String) -> (r: Option<usize>)
    ensures
        r is Some <==> name_index_view(*m).contains_key(name@),
        r is Some ==> r->0 == name_index_view(*m)[name@],
{
    m.get(name).copied()
}

/// A mailbox of an account, as last observed on the server.
#[derive(Debug, PartialEq, Eq)]
pub struct MailBox {
    pub id: u64,
    pub account_id: u64,
    pub name: String,
    /// Remote message count at last observation.
    pub exists: u32,
    pub uid_validity: Option<u32>,
    pub uid_next: Option<u32>,
}

impl Clone for MailBox {
    fn clone(&self) -> (r: Self)
        ensures
            r == *self,
    {
        MailBox {
            id: self.id,
            account_id: self.account_id,
            name: self.name.clone(),
            exists: self.exists,
            uid_validity: self.uid_validity,
            uid_next: self.uid_next,
        }
    }
}

/// For each name among `mbs`, the position of the last mailbox of that name.
pub open spec fn name_positions(mbs: Seq<MailBox>) -> Map<Seq<char>, usize>
    decreases mbs.len(),
{
    if mbs.len() == 0 {
        Map::empty()
    } else {
        name_positions(mbs.drop_last()).insert(mbs.last().name@, (mbs.len() - 1) as usize)
    }
}

/// The names of the mailboxes `mbs`.
pub open spec fn names_of(mbs: Seq<MailBox>) -> Set<Seq<char>> {
    name_positions(mbs).dom()
}

/// The mailboxes of `remote`, in order, whose name is neither in
/// `local_names` nor taken by an earlier mailbox of `remote`: one mailbox
/// per new name, the first of that name.
pub open spec fn missing_spec(local_names: Set<Seq<char>>, remote: Seq<MailBox>) -> Seq<MailBox>
    decreases remote.len(),
{
    if remote.len() == 0 {
        Seq::empty()
    } else {
        let rest = missing_spec(local_names, remote.drop_last());
        let name = remote.last().name@;
        if local_names.contains(name) || names_of(remote.drop_last()).contains(name) {
            rest
        } else {
            rest.push(remote.last())
        }
    }
}

/// For each mailbox of `remote`, in order, whose name a mailbox of `local`
/// has: the pair of that local mailbox (the last one of that name) and the
/// remote one.
pub open spec fn intersecting_spec(local: Seq<MailBox>, remote: Seq<MailBox>) -> Seq<
    (MailBox, MailBox),
>
    decreases remote.len(),
{
    if remote.len() == 0 {
        Seq::empty()
    } else {
        let rest = intersecting_spec(local, remote.drop_last());
        let pos = name_positions(local);
        let name = remote.last().name@;
        if pos.contains_key(name) {
            rest.push((local[pos[name] as int], remote.last()))
        } else {
            rest
        }
    }
}

/// No two mailboxes of `mbs` share a name.
pub open spec fn distinct_names(mbs: Seq<MailBox>) -> bool {
    forall|i: int, j: int|
        0 <= i < mbs.len() && 0 <= j < mbs.len() && i != j ==> mbs[i].name@ != mbs[j].name@
}

/// Building the name set of `local[..i]` one mailbox at a time.
proof fn lemma_positions_step(mbs: Seq<MailBox>, i: int)
    requires
        0 <= i < mbs.len(),
    ensures
        name_positions(mbs.subrange(0, i + 1)) == name_positions(mbs.subrange(0, i)).insert(
            mbs[i].name@,
            i as usize,
        ),
{
    assert(mbs.subrange(0, i + 1).drop_last() =~= mbs.subrange(0, i));
}

/// A name is among the names of `mbs` exactly when some mailbox of `mbs` has it.
pub proof fn lemma_names_of(mbs: Seq<MailBox>)
    ensures
        forall|i: int| 0 <= i < mbs.len() ==> #[trigger] names_of(mbs).contains(mbs[i].name@),
        forall|n: Seq<char>| #[trigger]
            names_of(mbs).contains(n) ==> exists|i: int| 0 <= i < mbs.len() && mbs[i].name@ == n,
    decreases mbs.len(),
{
    if mbs.len() > 0 {
        let init = mbs.drop_last();
        lemma_names_of(init);
        assert forall|i: int| 0 <= i < mbs.len() implies #[trigger] names_of(mbs).contains(
            mbs[i].name@,
        ) by {
            if i < mbs.len() - 1 {
                assert(init[i] == mbs[i]);
                assert(names_of(init).contains(init[i].name@));
            }
        }
        assert forall|n: Seq<char>| #[trigger] names_of(mbs).contains(n) implies exists|i: int|
            0 <= i < mbs.len() && mbs[i].name@ == n by {
            if n != mbs.last().name@ {
                assert(names_of(init).contains(n));
                let i = choose|i: int| 0 <= i < init.len() && init[i].name@ == n;
                assert(mbs[i] == init[i]);
            } else {
                assert(mbs[mbs.len() - 1] == mbs.last());
            }
        }
    }
}

/// Every recorded position is in range and holds a mailbox of that name.
pub proof fn lemma_name_positions(mbs: Seq<MailBox>)
    requires
        mbs.len() <= usize::MAX,
    ensures
        forall|n: Seq<char>| #[trigger]
            name_positions(mbs).contains_key(n) ==> name_positions(mbs)[n] < mbs.len() && mbs[name_positions(mbs)[n] as int].name@ == n,
        forall|i: int| 0 <= i < mbs.len() ==> #[trigger] names_of(mbs).contains(mbs[i].name@),
    decreases mbs.len(),
{
    lemma_names_of(mbs);
    if mbs.len() > 0 {
        lemma_name_positions(mbs.drop_last());
    }
}

/// The missing mailboxes are mailboxes of `remote`, in `remote`'s order,
/// whose names are outside `local_names` and pairwise distinct; every name
/// of `remote` outside `local_names` is the name of one of them.
pub proof fn lemma_missing_spec(local_names: Set<Seq<char>>, remote: Seq<MailBox>)
    ensures
        forall|k: int|
            0 <= k < missing_spec(local_names, remote).len() ==> !local_names.contains(
                #[trigger] missing_spec(local_names, remote)[k].name@,
            ),
        forall|k: int|
            0 <= k < missing_spec(local_names, remote).len() ==> remote.contains(
                #[trigger] missing_spec(local_names, remote)[k],
            ),
        forall|i: int|
            0 <= i < remote.len() && !local_names.contains(#[trigger] remote[i].name@)
                ==> exists|k: int|
                0 <= k < missing_spec(local_names, remote).len() && missing_spec(
                    local_names,
                    remote,
                )[k].name@ == remote[i].name@,
        missing_spec(local_names, remote).len() <= remote.len(),
        distinct_names(missing_spec(local_names, remote)),
    decreases remote.len(),
{
    if remote.len() > 0 {
        let init = remote.drop_last();
        lemma_missing_spec(local_names, init);
        lemma_names_of(init);
        let rest = missing_spec(local_names, init);
        let out = missing_spec(local_names, remote);
        let name = remote.last().name@;
        assert forall|k: int| 0 <= k < out.len() implies remote.contains(#[trigger] out[k]) by {
            if k < rest.len() {
                assert(out[k] == rest[k]);
                let w = choose|w: int| 0 <= w < init.len() && init[w] == rest[k];
                assert(remote[w] == init[w]);
            } else {
                assert(remote[remote.len() - 1] == remote.last());
            }
        }
        assert forall|i: int|
            0 <= i < remote.len() && !local_names.contains(#[trigger] remote[i].name@) implies exists|k: int|
            0 <= k < out.len() && out[k].name@ == remote[i].name@ by {
            let j = if i < remote.len() - 1 {
                i
            } else if names_of(init).contains(name) {
                choose|j: int| 0 <= j < init.len() && init[j].name@ == name
            } else {
                -1
            };
            if j >= 0 {
                assert(init[j] == remote[j]);
                assert(!local_names.contains(init[j].name@));
                let k = choose|k: int| 0 <= k < rest.len() && rest[k].name@ == init[j].name@;
                assert(out[k] == rest[k]);
            } else {
                assert(out[out.len() - 1] == remote.last());
            }
        }
        if !local_names.contains(name) && !names_of(init).contains(name) {
            assert forall|k: int| 0 <= k < rest.len() implies rest[k].name@ != name by {
                let w = choose|w: int| 0 <= w < init.len() && init[w] == rest[k];
                assert(names_of(init).contains(init[w].name@));
            }
            assert forall|i: int, j: int|
                0 <= i < out.len() && 0 <= j < out.len() && i != j implies out[i].name@
                != out[j].name@ by {
                if i < rest.len() && j < rest.len() {
                    assert(out[i] == rest[i] && out[j] == rest[j]);
                } else if i < rest.len() {
                    assert(out[i] == rest[i]);
                } else {
                    assert(out[j] == rest[j]);
                }
            }
        }
    }
}

/// Reconciler correctness for additions: `find_missing_mailboxes` returns
/// remote mailboxes, in remote order, whose names no local mailbox has, with
/// no two sharing a name; every remote name that no local mailbox has is
/// among the names returned.
pub proof fn lemma_find_missing_correct(local: Seq<MailBox>, remote: Seq<MailBox>)
    ensures
        forall|n: Seq<char>|
            #[trigger] names_of(local).contains(n) <==> exists|j: int|
                0 <= j < local.len() && local[j].name@ == n,
        forall|k: int|
            0 <= k < missing_spec(names_of(local), remote).len() ==> {
                let m = #[trigger] missing_spec(names_of(local), remote)[k];
                remote.contains(m) && !names_of(local).contains(m.name@)
            },
        forall|i: int|
            0 <= i < remote.len() && !names_of(local).contains(#[trigger] remote[i].name@)
                ==> exists|k: int|
                0 <= k < missing_spec(names_of(local), remote).len() && missing_spec(
                    names_of(local),
                    remote,
                )[k].name@ == remote[i].name@,
        distinct_names(missing_spec(names_of(local), remote)),
{
    lemma_names_of(local);
    lemma_missing_spec(names_of(local), remote);
}

/// Reconciler correctness for pairs: `find_intersecting_mailboxes` pairs, in
/// remote order, each remote mailbox whose name a local mailbox has with a
/// local mailbox of that name.
pub proof fn lemma_find_intersecting_correct(local: Seq<MailBox>, remote: Seq<MailBox>)
    requires
        local.len() <= usize::MAX,
    ensures
        intersecting_spec(local, remote).len() <= remote.len(),
        forall|k: int|
            0 <= k < intersecting_spec(local, remote).len() ==> {
                let (l, r) = #[trigger] intersecting_spec(local, remote)[k];
                &&& local.contains(l)
                &&& remote.contains(r)
                &&& l.name@ == r.name@
            },
        forall|i: int|
            0 <= i < remote.len() && names_of(local).contains(#[trigger] remote[i].name@)
                ==> exists|k: int|
                0 <= k < intersecting_spec(local, remote).len() && intersecting_spec(
                    local,
                    remote,
                )[k].1 == remote[i],
        distinct_names(local) ==> forall|k: int, j: int|
            0 <= k < intersecting_spec(local, remote).len() && 0 <= j < local.len()
                && local[j].name@ == intersecting_spec(local, remote)[k].1.name@
                ==> #[trigger] intersecting_spec(local, remote)[k].0 == #[trigger] local[j],
    decreases remote.len(),
{
    lemma_name_positions(local);
    if remote.len() > 0 {
        let init = remote.drop_last();
        lemma_find_intersecting_correct(local, init);
        let rest = intersecting_spec(local, init);
        let out = intersecting_spec(local, remote);
        assert forall|k: int| 0 <= k < out.len() implies {
            let (l, r) = #[trigger] out[k];
            &&& local.contains(l)
            &&& remote.contains(r)
            &&& l.name@ == r.name@
        } by {
            if k < rest.len() {
                assert(out[k] == rest[k]);
                let w = choose|w: int| 0 <= w < init.len() && init[w] == rest[k].1;
                assert(remote[w] == init[w]);
            } else {
                let p = name_positions(local)[remote.last().name@] as int;
                assert(local[p] == out[k].0);
                assert(remote[remote.len() - 1] == out[k].1);
            }
        }
        assert forall|i: int|
            0 <= i < remote.len() && names_of(local).contains(#[trigger] remote[i].name@) implies exists|k: int|
            0 <= k < out.len() && out[k].1 == remote[i] by {
            if i < remote.len() - 1 {
                assert(init[i] == remote[i]);
                let k = choose|k: int| 0 <= k < rest.len() && rest[k].1 == init[i];
                assert(out[k] == rest[k]);
            } else {
                assert(out[out.len() - 1].1 == remote.last());
            }
        }
    }
    if distinct_names(local) {
        assert forall|k: int, j: int|
            0 <= k < intersecting_spec(local, remote).len() && 0 <= j < local.len()
                && local[j].name@ == intersecting_spec(local, remote)[k].1.name@ implies #[trigger] intersecting_spec(
            local,
            remote,
        )[k].0 == #[trigger] local[j] by {
            let l = intersecting_spec(local, remote)[k].0;
            let w = choose|w: int| 0 <= w < local.len() && local[w] == l;
            assert(local[w].name@ == local[j].name@);
        }
    }
}

/// The remote mailboxes whose name is not among the local ones, in remote
/// order: the mailboxes that appeared on the server.
pub fn find_missing_mailboxes(local_mailboxes: &Vec<MailBox>, server_mailboxes: &Vec<MailBox>) -> (r:
    Vec<MailBox>)
    ensures
        r@ == missing_spec(names_of(local_mailboxes@), server_mailboxes@),
        distinct_names(r@),
{
    let mut local_names = new_name_set();
    let mut i: usize = 0;
    while i < local_mailboxes.len()
        invariant
            0 <= i <= local_mailboxes.len(),
            name_set_view(local_names) == names_of(local_mailboxes@.subrange(0, i as int)),
        decreases local_mailboxes.len() - i,
    {
        proof {
            lemma_positions_step(local_mailboxes@, i as int);
        }
        insert_name(&mut local_names, local_mailboxes[i].name.clone());
        i = i + 1;
    }
    assert(local_mailboxes@.subrange(0, i as int) =~= local_mailboxes@);
    assert(names_of(server_mailboxes@.subrange(0, 0)) =~= Set::<Seq<char>>::empty());
    let ghost names = names_of(local_mailboxes@);
    let mut missing: Vec<MailBox> = Vec::new();
    let mut k: usize = 0;
    while k < server_mailboxes.len()
        invariant
            0 <= k <= server_mailboxes.len(),
            name_set_view(local_names) == names.union(
                names_of(server_mailboxes@.subrange(0, k as int)),
            ),
            missing@ == missing_spec(names, server_mailboxes@.subrange(0, k as int)),
        decreases server_mailboxes.len() - k,
    {
        assert(server_mailboxes@.subrange(0, k + 1).drop_last() =~= server_mailboxes@.subrange(
            0,
            k as int,
        ));
        proof {
            lemma_positions_step(server_mailboxes@, k as int);
        }
        if !contains_name(&local_names, &server_mailboxes[k].name) {
            missing.push(server_mailboxes[k].clone());
        }
        insert_name(&mut local_names, server_mailboxes[k].name.clone());
        assert(name_set_view(local_names) =~= names.union(
            names_of(server_mailboxes@.subrange(0, k + 1)),
        ));
        k = k + 1;
    }
    assert(server_mailboxes@.subrange(0, k as int) =~= server_mailboxes@);
    proof {
        lemma_missing_spec(names, server_mailboxes@);
    }
    missing
}

/// The local mailboxes whose name is no longer among the remote ones, in
/// local order: the mailboxes that disappeared from the server.
pub fn find_orphan_mailboxes(local_mailboxes: &Vec<MailBox>, server_mailboxes: &Vec<MailBox>) -> (r:
    Vec<MailBox>)
    ensures
        r@ == missing_spec(names_of(server_mailboxes@), local_mailboxes@),
        distinct_names(r@),
{
    find_missing_mailboxes(server_mailboxes, local_mailboxes)
}

/// Pairs each remote mailbox whose name a local mailbox has with that local
/// mailbox, in remote order.
pub fn find_intersecting_mailboxes(local_mailboxes: &Vec<MailBox>, remote_mailboxes: &Vec<MailBox>) -> (r:
    Vec<(MailBox, MailBox)>)
    ensures
        r@ == intersecting_spec(local_mailboxes@, remote_mailboxes@),
{
    let mut positions = new_name_index();
    assert(name_index_view(positions) =~= name_positions(local_mailboxes@.subrange(0, 0)));
    let mut i: usize = 0;
    while i < local_mailboxes.len()
        invariant
            0 <= i <= local_mailboxes.len(),
            name_index_view(positions) == name_positions(local_mailboxes@.subrange(0, i as int)),
        decreases local_mailboxes.len() - i,
    {
        proof {
            lemma_positions_step(local_mailboxes@, i as int);
        }
        insert_name_index(&mut positions, local_mailboxes[i].name.clone(), i);
        i = i + 1;
    }
    assert(local_mailboxes@.subrange(0, i as int) =~= local_mailboxes@);
    proof {
        lemma_name_positions(local_mailboxes@);
    }
    let mut pairs: Vec<(MailBox, MailBox)> = Vec::new();
    let mut k: usize = 0;
    while k < remote_mailboxes.len()
        invariant
            0 <= k <= remote_mailboxes.len(),
            name_index_view(positions) == name_positions(local_mailboxes@),
            forall|n: Seq<char>| #[trigger]
                name_positions(local_mailboxes@).contains_key(n) ==> name_positions(
                    local_mailboxes@,
                )[n] < local_mailboxes.len(),
            pairs@ == intersecting_spec(local_mailboxes@, remote_mailboxes@.subrange(0, k as int)),
        decreases remote_mailboxes.len() - k,
    {
        assert(remote_mailboxes@.subrange(0, k + 1).drop_last() =~= remote_mailboxes@.subrange(
            0,
            k as int,
        ));
        match get_name_index(&positions, &remote_mailboxes[k].name) {
            Some(j) => {
                pairs.push((local_mailboxes[j].clone(), remote_mailboxes[k].clone()));
            },
            None => {},
        }
        k = k + 1;
    }
    assert(remote_mailboxes@.subrange(0, k as int) =~= remote_mailboxes@);
    pairs
}

/// The remote mailboxes, in order, that hold messages.
pub open spec fn fetch_plan_spec(remote: Seq<MailBox>) -> Seq<MailBox>
    decreases remote.len(),
{
    if remote.len() == 0 {
        Seq::empty()
    } else {
        let rest = fetch_plan_spec(remote.drop_last());
        if remote.last().exists > 0 {
            rest.push(remote.last())
        } else {
            rest
        }
    }
}

/// The mailboxes an initial build fetches: every remote mailbox that holds
/// messages, in remote order. Empty mailboxes are persisted but not fetched.
pub fn mailboxes_to_fetch(remote_mailboxes: &Vec<MailBox>) -> (r: Vec<MailBox>)
    ensures
        r@ == fetch_plan_spec(remote_mailboxes@),
{
    let mut plan: Vec<MailBox> = Vec::new();
    let mut k: usize = 0;
    while k < remote_mailboxes.len()
        invariant
            0 <= k <= remote_mailboxes.len(),
            plan@ == fetch_plan_spec(remote_mailboxes@.subrange(0, k as int)),
        decreases remote_mailboxes.len() - k,
    {
        assert(remote_mailboxes@.subrange(0, k + 1).drop_last() =~= remote_mailboxes@.subrange(
            0,
            k as int,
        ));
        if remote_mailboxes[k].exists > 0 {
            plan.push(remote_mailboxes[k].clone());
        }
        k = k + 1;
    }
    assert(remote_mailboxes@.subrange(0, k as int) =~= remote_mailboxes@);
    plan
}

/// Whether a rebuilt mailbox is fetched again after its documents are
/// deleted: only when the server reports messages in it.
pub fn refetch_after_rebuild(remote: &MailBox) -> (r: bool)
    ensures
        r == (remote.exists > 0),
{
    remote.exists > 0
}

/// Whether an intersecting mailbox must be rebuilt: its UIDVALIDITY changed.
pub fn needs_rebuild(local: &MailBox, remote: &MailBox) -> (r: bool)
    ensures
        r == (local.uid_validity != remote.uid_validity),
{
    local.uid_validity != remote.uid_validity
}

/// How one spawned mailbox fetch ended.
#[derive(Debug)]
pub enum FetchOutcome {
    /// The fetch stored this many envelopes.
    Done(usize),
    /// The fetch failed with this error.
    Failed(BichonError),
    /// The task could not be joined (it panicked or was cancelled).
    Aborted(String),
}

/// Envelopes stored by the fetches that completed, up to the first one that did not.
pub open spec fn stored_total(outcomes: Seq<FetchOutcome>) -> int
    decreases outcomes.len(),
{
    if outcomes.len() == 0 {
        0
    } else {
        match outcomes.last() {
            FetchOutcome::Done(n) => stored_total(outcomes.drop_last()) + n,
            _ => stored_total(outcomes.drop_last()),
        }
    }
}

/// Index of the first fetch that did not complete, if any.
pub open spec fn first_failure(outcomes: Seq<FetchOutcome>, i: int) -> bool {
    &&& 0 <= i < outcomes.len()
    &&& !(outcomes[i] is Done)
    &&& forall|j: int| 0 <= j < i ==> #[trigger] outcomes[j] is Done
}

/// Combines the outcomes of the mailbox fetches of a build, in spawn order.
/// The first fetch that failed decides the result: its error, or
/// `InternalError` for a task that could not be joined. When all completed,
/// the number of stored envelopes (saturating at the largest `usize`).
pub fn collect_fetch_outcomes(outcomes: &Vec<FetchOutcome>) -> (r: BichonResult<usize>)
    ensures
        (forall|j: int| 0 <= j < outcomes@.len() ==> #[trigger] outcomes@[j] is Done) ==> r is Ok
            && r->Ok_0 == if stored_total(outcomes@) > usize::MAX {
            usize::MAX as int
        } else {
            stored_total(outcomes@)
        },
        forall|i: int| #[trigger]
            first_failure(outcomes@, i) ==> r is Err && match outcomes@[i] {
                FetchOutcome::Failed(e) => r->Err_0 == e,
                _ => r->Err_0.code == ErrorCode::InternalError,
            },
{
    let ghost all = outcomes@;
    let mut total: usize = 0;
    let mut k: usize = 0;
    while k < outcomes.len()
        invariant
            all == outcomes@,
            0 <= k <= all.len(),
            forall|j: int| 0 <= j < k ==> #[trigger] all[j] is Done,
            total == if stored_total(all.subrange(0, k as int)) > usize::MAX {
                usize::MAX as int
            } else {
                stored_total(all.subrange(0, k as int))
            },
        decreases all.len() - k,
    {
        assert(all.subrange(0, k + 1).drop_last() =~= all.subrange(0, k as int));
        proof {
            if !(all[k as int] is Done) {
                assert(first_failure(all, k as int));
                assert forall|i: int| #[trigger] first_failure(all, i) implies i == k by {
                    if i < k {
                        assert(all[i] is Done);
                    }
                    if i > k {
                        assert(all[k as int] is Done);
                    }
                }
            }
        }
        match &outcomes[k] {
            FetchOutcome::Done(n) => {
                total = total.saturating_add(*n);
            },
            FetchOutcome::Failed(e) => {
                return Err(e.clone());
            },
            FetchOutcome::Aborted(msg) => {
                return Err(BichonError::new(ErrorCode::InternalError, msg.clone()));
            },
        }
        k = k + 1;
    }
    assert(all.subrange(0, k as int) =~= all);
    Ok(total)
}

/// The pairs of `pairs`, in order, whose UIDVALIDITY changed (`changed`)
/// or did not (`!changed`).
pub open spec fn pairs_where(pairs: Seq<(MailBox, MailBox)>, changed: bool) -> Seq<(MailBox, MailBox)>
    decreases pairs.len(),
{
    if pairs.len() == 0 {
        Seq::empty()
    } else {
        let rest = pairs_where(pairs.drop_last(), changed);
        if (pairs.last().0.uid_validity != pairs.last().1.uid_validity) == changed {
            rest.push(pairs.last())
        } else {
            rest
        }
    }
}

/// What an incremental pass does with each mailbox.
#[derive(Debug)]
pub struct IncrementalPlan {
    /// Local and remote mailbox of each pair whose UIDVALIDITY changed:
    /// its documents are deleted and it is fetched again.
    pub rebuild: Vec<(MailBox, MailBox)>,
    /// Pairs whose UIDVALIDITY held: only the UID delta is applied.
    pub delta: Vec<(MailBox, MailBox)>,
    /// Remote mailboxes new to the account: recorded and fetched.
    pub added: Vec<MailBox>,
    /// Local mailboxes gone from the server: their documents and record are deleted.
    pub removed: Vec<MailBox>,
}

/// Splits `pairs` by whether their UIDVALIDITY changed, keeping their order.
fn split_pairs(pairs: Vec<(MailBox, MailBox)>) -> (r: (Vec<(MailBox, MailBox)>, Vec<(MailBox, MailBox)>))
    ensures
        r.0@ == pairs_where(pairs@, true),
        r.1@ == pairs_where(pairs@, false),
{
    let ghost whole = pairs@;
    let len = pairs.len();
    let mut rest = pairs;
    let mut rebuild: Vec<(MailBox, MailBox)> = Vec::new();
    let mut delta: Vec<(MailBox, MailBox)> = Vec::new();
    let mut k: usize = 0;
    while k < len
        invariant
            len == whole.len(),
            0 <= k <= len,
            rest@ == whole.subrange(k as int, whole.len() as int),
            rebuild@ == pairs_where(whole.subrange(0, k as int), true),
            delta@ == pairs_where(whole.subrange(0, k as int), false),
        decreases len - k,
    {
        assert(whole.subrange(0, k + 1).drop_last() =~= whole.subrange(0, k as int));
        assert(rest@[0] == whole[k as int]);
        let pair = rest.remove(0);
        assert(rest@ =~= whole.subrange(k + 1, whole.len() as int));
        if needs_rebuild(&pair.0, &pair.1) {
            rebuild.push(pair);
        } else {
            delta.push(pair);
        }
        k = k + 1;
    }
    assert(whole.subrange(0, k as int) =~= whole);
    (rebuild, delta)
}

/// Plans an incremental pass from the local and remote mailbox lists:
/// intersecting mailboxes (by name, in remote order) are rebuilt when their
/// UIDVALIDITY changed and brought up to date by UID delta otherwise; remote
/// mailboxes without a local one are added; local mailboxes without a
/// remote one are removed.
pub fn plan_incremental_sync(local_mailboxes: &Vec<MailBox>, remote_mailboxes: &Vec<MailBox>) -> (r:
    IncrementalPlan)
    ensures
        r.rebuild@ == pairs_where(intersecting_spec(local_mailboxes@, remote_mailboxes@), true),
        r.delta@ == pairs_where(intersecting_spec(local_mailboxes@, remote_mailboxes@), false),
        r.added@ == missing_spec(names_of(local_mailboxes@), remote_mailboxes@),
        r.removed@ == missing_spec(names_of(remote_mailboxes@), local_mailboxes@),
        distinct_names(r.added@),
        distinct_names(r.removed@),
{
    let pairs = find_intersecting_mailboxes(local_mailboxes, remote_mailboxes);
    let (rebuild, delta) = split_pairs(pairs);
    let added = find_missing_mailboxes(local_mailboxes, remote_mailboxes);
    let removed = find_orphan_mailboxes(local_mailboxes, remote_mailboxes);
    IncrementalPlan { rebuild, delta, added, removed }
}

/// The UIDs of `remote`, in order, that `local` lacks.
pub open spec fn uids_missing(local: Seq<u32>, remote: Seq<u32>) -> Seq<u32>
    decreases remote.len(),
{
    if remote.len() == 0 {
        Seq::empty()
    } else {
        let rest = uids_missing(local, remote.drop_last());
        if local.contains(remote.last()) {
            rest
        } else {
            rest.push(remote.last())
        }
    }
}

/// Whether `uids` holds `uid`.
fn holds_uid(uids: &Vec<u32>, uid: u32) -> (r: bool)
    ensures
        r == uids@.contains(uid),
{
    let mut k: usize = 0;
    while k < uids.len()
        invariant
            0 <= k <= uids.len(),
            forall|i: int| 0 <= i < k ==> uids@[i] != uid,
        decreases uids.len() - k,
    {
        if uids[k] == uid {
            assert(uids@[k as int] == uid);
            return true;
        }
        k = k + 1;
    }
    false
}

/// The UIDs of `remote`, in order, that `local` lacks.
fn missing_uids(local: &Vec<u32>, remote: &Vec<u32>) -> (r: Vec<u32>)
    ensures
        r@ == uids_missing(local@, remote@),
{
    let mut out: Vec<u32> = Vec::new();
    let mut k: usize = 0;
    while k < remote.len()
        invariant
            0 <= k <= remote.len(),
            out@ == uids_missing(local@, remote@.subrange(0, k as int)),
        decreases remote.len() - k,
    {
        assert(remote@.subrange(0, k + 1).drop_last() =~= remote@.subrange(0, k as int));
        if !holds_uid(local, remote[k]) {
            out.push(remote[k]);
        }
        k = k + 1;
    }
    assert(remote@.subrange(0, k as int) =~= remote@);
    out
}

/// The UID delta of a mailbox whose UIDVALIDITY held: the UIDs on the
/// server that are not stored locally are fetched, and the UIDs stored
/// locally that left the server are deleted from the indexes.
pub fn uid_delta(local_uids: &Vec<u32>, remote_uids: &Vec<u32>) -> (r: (Vec<u32>, Vec<u32>))
    ensures
        r.0@ == uids_missing(local_uids@, remote_uids@),
        r.1@ == uids_missing(remote_uids@, local_uids@),
{
    (missing_uids(local_uids, remote_uids), missing_uids(remote_uids, local_uids))
}

/// A UID is fetched exactly when the server has it and the index does not,
/// and deleted exactly when the index has it and the server does not.
pub proof fn lemma_uid_delta(local: Seq<u32>, remote: Seq<u32>)
    ensures
        forall|u: u32| #[trigger] uids_missing(local, remote).contains(u) <==> (remote.contains(u)
            && !local.contains(u)),
    decreases remote.len(),
{
    if remote.len() > 0 {
        let init = remote.drop_last();
        lemma_uid_delta(local, init);
        let rest = uids_missing(local, init);
        let out = uids_missing(local, remote);
        assert forall|u: u32| #[trigger] out.contains(u) <==> (remote.contains(u) && !local.contains(
            u,
        )) by {
            if out.contains(u) {
                let w = choose|w: int| 0 <= w < out.len() && out[w] == u;
                if w < rest.len() {
                    assert(rest[w] == u);
                    assert(rest.contains(u));
                    let v = choose|v: int| 0 <= v < init.len() && init[v] == u;
                    assert(remote[v] == u);
                } else {
                    assert(remote[remote.len() - 1] == u);
                }
            }
            if remote.contains(u) && !local.contains(u) {
                let v = choose|v: int| 0 <= v < remote.len() && remote[v] == u;
                if v < remote.len() - 1 {
                    assert(init[v] == u);
                    assert(init.contains(u));
                    assert(rest.contains(u));
                    let w = choose|w: int| 0 <= w < rest.len() && rest[w] == u;
                    assert(out[w] == rest[w]);
                } else {
                    assert(out[out.len() - 1] == u);
                }
            }
        }
    }
}

/// The UIDs of `remote`, in order, that `local` also holds.
pub open spec fn uids_shared(local: Seq<u32>, remote: Seq<u32>) -> Seq<u32>
    decreases remote.len(),
{
    if remote.len() == 0 {
        Seq::empty()
    } else {
        let rest = uids_shared(local, remote.drop_last());
        if local.contains(remote.last()) {
            rest.push(remote.last())
        } else {
            rest
        }
    }
}

/// The UIDs both on the server and in the index, in server order: their
/// flags are refreshed in place.
pub fn flag_refresh_uids(local_uids: &Vec<u32>, remote_uids: &Vec<u32>) -> (r: Vec<u32>)
    ensures
        r@ == uids_shared(local_uids@, remote_uids@),
{
    let mut out: Vec<u32> = Vec::new();
    let mut k: usize = 0;
    while k < remote_uids.len()
        invariant
            0 <= k <= remote_uids.len(),
            out@ == uids_shared(local_uids@, remote_uids@.subrange(0, k as int)),
        decreases remote_uids.len() - k,
    {
        assert(remote_uids@.subrange(0, k + 1).drop_last() =~= remote_uids@.subrange(0, k as int));
        if holds_uid(local_uids, remote_uids[k]) {
            out.push(remote_uids[k]);
        }
        k = k + 1;
    }
    assert(remote_uids@.subrange(0, k as int) =~= remote_uids@);
    out
}

/// Number of batches of `batch_size` messages that fetching `exists`
/// messages takes.
pub fn batch_count(exists: u32, batch_size: u32) -> (r: u32)
    requires
        batch_size > 0,
    ensures
        r == (exists as int + batch_size - 1) / batch_size as int,
{
    let total = exists as u64 + batch_size as u64 - 1;
    assert(total / (batch_size as u64) <= total) by (nonlinear_arith)
        requires
            batch_size >= 1,
            total >= 0,
    ;
    assert(total <= 2 * 0xffff_ffffu64);
    assert(total / (batch_size as u64) <= 0xffff_ffffu64) by (nonlinear_arith)
        requires
            batch_size >= 1,
            total == exists as u64 + batch_size as u64 - 1,
            exists <= 0xffff_ffffu64,
    {
        assert(total < (exists as u64 + 1) * (batch_size as u64));
    }
    (total / (batch_size as u64)) as u32
}

} // verus!
