use vstd::prelude::*;

use crate::error::Error;
use crate::matchmaker::accept_decision;
use crate::models::Challenge;

verus! {

/// The number of records a store can hold: record ids are positive `i64`s.
pub const MAX_RECORDS: u64 = 9223372036854775807;

/// Some two records that share a participant.
pub open spec fn share_user(c: Challenge, d: Challenge) -> bool {
    c.involves(d.user_one) || c.involves(d.user_two)
}

/// The record is the challenge between `a` and `b`, in either order.
pub open spec fn same_pair(c: Challenge, a: u64, b: u64) -> bool {
    (c.user_one == a && c.user_two == b) || (c.user_one == b && c.user_two == a)
}

/// The invariant of a table of challenges: each record is well formed and
/// numbered by its position, no two records have the same pair of users, and
/// no user is in two ongoing challenges.
pub open spec fn store_wf(rows: Seq<Challenge>) -> bool {
    &&& forall|i: int|
        0 <= i < rows.len() ==> (#[trigger] rows[i]).well_formed() && rows[i].id == i + 1
    &&& forall|i: int, j: int|
        #![trigger rows[i], rows[j]]
        0 <= i < rows.len() && 0 <= j < rows.len() && i != j ==> !(rows[i].user_one
            == rows[j].user_one && rows[i].user_two == rows[j].user_two)
    &&& forall|i: int, j: int|
        #![trigger rows[i], rows[j]]
        0 <= i < rows.len() && 0 <= j < rows.len() && i != j && rows[i].accepted
            && rows[j].accepted ==> !share_user(rows[i], rows[j])
}

/// Some record holds the pair `a`, `b`.
pub open spec fn has_pair(rows: Seq<Challenge>, a: u64, b: u64) -> bool {
    exists|i: int| 0 <= i < rows.len() && same_pair(#[trigger] rows[i], a, b)
}

/// The position of the record of the pair `a`, `b` (meaningful when `has_pair`).
pub open spec fn pair_index(rows: Seq<Challenge>, a: u64, b: u64) -> int {
    choose|i: int| 0 <= i < rows.len() && same_pair(#[trigger] rows[i], a, b)
}

/// The record of the pair `a`, `b`, if there is one.
pub open spec fn pair_record(rows: Seq<Challenge>, a: u64, b: u64) -> Option<Challenge> {
    if has_pair(rows, a, b) {
        Some(rows[pair_index(rows, a, b)])
    } else {
        None
    }
}

/// The user takes part in an ongoing challenge.
pub open spec fn has_ongoing(rows: Seq<Challenge>, user: u64) -> bool {
    exists|i: int| 0 <= i < rows.len() && (#[trigger] rows[i]).accepted && rows[i].involves(user)
}

/// A new pending challenge issued by `challenger` to `challenged`.
pub open spec fn new_challenge(id: int, challenger: u64, challenged: u64) -> Challenge {
    Challenge {
        id: id as i64,
        user_one: if challenger <= challenged { challenger } else { challenged },
        user_two: if challenger <= challenged { challenged } else { challenger },
        challenger,
        accepted: false,
        winner: None,
    }
}

/// A new record for the pair can be inserted: the users differ, the pair has
/// no record yet and the table has room for one more.
pub open spec fn can_insert(rows: Seq<Challenge>, challenger: u64, challenged: u64) -> bool {
    &&& challenger != challenged
    &&& !has_pair(rows, challenger, challenged)
    &&& rows.len() < MAX_RECORDS
}

/// The table after inserting the challenge, with what the insert returns.
pub open spec fn insert_spec(rows: Seq<Challenge>, challenger: u64, challenged: u64) -> (Seq<
    Challenge,
>, Option<Challenge>) {
    if can_insert(rows, challenger, challenged) {
        let c = new_challenge(rows.len() + 1 as int, challenger, challenged);
        (rows.push(c), Some(c))
    } else {
        (rows, None)
    }
}

/// The record is one of `user`'s and has the status asked for (any, when `status` is `None`).
pub open spec fn selected(c: Challenge, user: u64, status: Option<bool>) -> bool {
    c.involves(user) && match status {
        Some(accepted) => c.accepted == accepted,
        None => true,
    }
}

/// The challenges of `user` with the status asked for, in the order they were made.
pub open spec fn challenges_of(rows: Seq<Challenge>, user: u64, status: Option<bool>) -> Seq<
    Challenge,
>
    decreases rows.len(),
{
    if rows.len() == 0 {
        Seq::empty()
    } else {
        let before = challenges_of(rows.drop_last(), user, status);
        if selected(rows.last(), user, status) {
            before.push(rows.last())
        } else {
            before
        }
    }
}

/// Holds the challenge records in memory, numbered from 1 in the order they
/// were made. Its view is the sequence of records.
pub struct ChallengeStore {
    rows: Vec<Challenge>,
}

impl View for ChallengeStore {
    type V = Seq<Challenge>;

    closed spec fn view(&self) -> Seq<Challenge> {
        self.rows@
    }
}

impl ChallengeStore {
    /// An empty store.
    pub fn new() -> (r: ChallengeStore)
        ensures
            r@ == Seq::<Challenge>::empty(),
            store_wf(r@),
    {
        ChallengeStore { rows: Vec::new() }
    }

    /// The number of records.
    pub fn len(&self) -> (r: usize)
        ensures
            r == self@.len(),
    {
        self.rows.len()
    }

    /// The record at `index`.
    pub fn get(&self, index: usize) -> (r: Challenge)
        requires
            index < self@.len(),
        ensures
            r == self@[index as int],
    {
        self.rows[index]
    }
}

/// The pair is unique in a well-formed table: a record with the pair is the one `pair_index` picks.
pub proof fn lemma_pair_index_unique(rows: Seq<Challenge>, a: u64, b: u64, k: int)
    requires
        store_wf(rows),
        0 <= k < rows.len(),
        same_pair(rows[k], a, b),
    ensures
        has_pair(rows, a, b),
        pair_index(rows, a, b) == k,
{
    let p = pair_index(rows, a, b);
    assert(same_pair(rows[p], a, b));
    assert(rows[p].well_formed() && rows[k].well_formed());
}

/// The position of the record of the pair `a`, `b`.
fn pair_position(store: &ChallengeStore, a: u64, b: u64) -> (r: Option<usize>)
    requires
        store_wf(store@),
    ensures
        match r {
            Some(i) => has_pair(store@, a, b) && i == pair_index(store@, a, b) && i
                < store@.len(),
            None => !has_pair(store@, a, b),
        },
{
    let mut i: usize = 0;
    while i < store.rows.len()
        invariant
            i <= store@.len(),
            store@ == store.rows@,
            store_wf(store@),
            forall|j: int| 0 <= j < i ==> !same_pair(#[trigger] store@[j], a, b),
        decreases store@.len() - i,
    {
        let c = store.rows[i];
        if (c.user_one == a && c.user_two == b) || (c.user_one == b && c.user_two == a) {
            proof {
                lemma_pair_index_unique(store@, a, b, i as int);
            }
            return Some(i);
        }
        i += 1;
    }
    None
}

/// The position of an ongoing challenge of `user`.
fn ongoing_position(store: &ChallengeStore, user: u64) -> (r: Option<usize>)
    ensures
        match r {
            Some(i) => i < store@.len() && store@[i as int].accepted && store@[i as int].involves(
                user,
            ),
            None => !has_ongoing(store@, user),
        },
{
    let mut i: usize = 0;
    while i < store.rows.len()
        invariant
            i <= store@.len(),
            store@ == store.rows@,
            forall|j: int| 0 <= j < i ==> !((#[trigger] store@[j]).accepted && store@[j].involves(user)),
        decreases store@.len() - i,
    {
        let c = store.rows[i];
        if c.accepted && (c.user_one == user || c.user_two == user) {
            return Some(i);
        }
        i += 1;
    }
    None
}

/// Inserts a pending challenge from `challenger` to `challenged` unless the
/// two are the same user, the pair already has a record, or the store is full.
pub fn create_challenge(store: &mut ChallengeStore, challenger: u64, challenged: u64) -> (r: Option<
    Challenge,
>)
    requires
        store_wf(old(store)@),
    ensures
        store_wf(final(store)@),
        (final(store)@, r) == insert_spec(old(store)@, challenger, challenged),
{
    if challenger == challenged {
        return None;
    }
    if pair_position(store, challenger, challenged).is_some() {
        return None;
    }
    let n: usize = store.rows.len();
    if n as u64 >= MAX_RECORDS {
        return None;
    }
    let (user_one, user_two) = if challenger <= challenged {
        (challenger, challenged)
    } else {
        (challenged, challenger)
    };
    let c = Challenge {
        id: n as i64 + 1,
        user_one,
        user_two,
        challenger,
        accepted: false,
        winner: None,
    };
    proof {
        lemma_insert_wf(store@, challenger, challenged);
    }
    store.rows.push(c);
    Some(c)
}

/// The record of the pair `a`, `b`, in either order.
pub fn find_challenge(store: &ChallengeStore, a: u64, b: u64) -> (r: Option<Challenge>)
    requires
        store_wf(store@),
    ensures
        r == pair_record(store@, a, b),
{
    match pair_position(store, a, b) {
        Some(i) => Some(store.rows[i]),
        None => None,
    }
}

/// The records of `user` with the status asked for, in order.
fn select(store: &ChallengeStore, user: u64, status: Option<bool>) -> (r: Vec<Challenge>)
    ensures
        r@ == challenges_of(store@, user, status),
{
    let mut out: Vec<Challenge> = Vec::new();
    let mut i: usize = 0;
    while i < store.rows.len()
        invariant
            i <= store@.len(),
            store@ == store.rows@,
            out@ == challenges_of(store@.subrange(0, i as int), user, status),
        decreases store@.len() - i,
    {
        let c = store.rows[i];
        let wanted = match status {
            Some(accepted) => c.accepted == accepted,
            None => true,
        };
        if (c.user_one == user || c.user_two == user) && wanted {
            out.push(c);
        }
        proof {
            assert(store@.subrange(0, i + 1).drop_last() =~= store@.subrange(0, i as int));
        }
        i += 1;
    }
    proof {
        assert(store@.subrange(0, store@.len() as int) =~= store@);
    }
    out
}

/// Every challenge of `user`, pending or ongoing, in the order they were made.
pub fn find_all_challenges(store: &ChallengeStore, user: u64) -> (r: Vec<Challenge>)
    ensures
        r@ == challenges_of(store@, user, None),
{
    select(store, user, None)
}

/// The pending challenges of `user`, in the order they were made.
pub fn find_pending_challenges(store: &ChallengeStore, user: u64) -> (r: Vec<Challenge>)
    ensures
        r@ == challenges_of(store@, user, Some(false)),
{
    select(store, user, Some(false))
}

/// The ongoing challenges of `user`: at most one in a well-formed store.
pub fn find_ongoing_challenges(store: &ChallengeStore, user: u64) -> (r: Vec<Challenge>)
    ensures
        r@ == challenges_of(store@, user, Some(true)),
{
    select(store, user, Some(true))
}

/// The ongoing challenge of `user`, if there is one.
pub fn find_active_challenge(store: &ChallengeStore, user: u64) -> (r: Option<Challenge>)
    requires
        store_wf(store@),
    ensures
        r.is_some() == has_ongoing(store@, user),
        r matches Some(c) ==> store@.contains(c) && c.accepted && c.involves(user),
{
    match ongoing_position(store, user) {
        Some(i) => Some(store.rows[i]),
        None => None,
    }
}

/// A pending challenge issued by `owner` to `acceptor` is on record.
pub open spec fn pending_from(rows: Seq<Challenge>, owner: u64, acceptor: u64) -> bool {
    &&& has_pair(rows, owner, acceptor)
    &&& !rows[pair_index(rows, owner, acceptor)].accepted
    &&& rows[pair_index(rows, owner, acceptor)].challenger == owner
}

/// `acceptor` accepts the challenge of `owner`: the table afterwards and the result.
/// Only a pending challenge that `owner` issued to `acceptor` can be accepted,
/// and only while neither of them holds an ongoing challenge.
pub open spec fn accept_spec(rows: Seq<Challenge>, owner: u64, acceptor: u64) -> (Seq<
    Challenge,
>, Result<Challenge, Error>) {
    if !pending_from(rows, owner, acceptor) {
        (rows, Err(Error::NoSuchPendingChallenge(owner)))
    } else if has_ongoing(rows, owner) {
        (rows, Err(Error::ParticipantAlreadyOngoing(owner)))
    } else if has_ongoing(rows, acceptor) {
        (rows, Err(Error::ParticipantAlreadyOngoing(acceptor)))
    } else {
        let i = pair_index(rows, owner, acceptor);
        let c = Challenge { accepted: true, ..rows[i] };
        (rows.update(i, c), Ok(c))
    }
}

/// `acceptor` accepts the pending challenge that `owner` issued to them,
/// which becomes ongoing; refused as `accept_spec` says, with nothing changed.
pub fn accept_challenge(store: &mut ChallengeStore, owner: u64, acceptor: u64) -> (r: Result<
    Challenge,
    Error,
>)
    requires
        store_wf(old(store)@),
    ensures
        store_wf(final(store)@),
        (final(store)@, r) == accept_spec(old(store)@, owner, acceptor),
{
    let existing = find_challenge(store, owner, acceptor);
    let owner_ongoing = find_active_challenge(store, owner).is_some();
    let acceptor_ongoing = find_active_challenge(store, acceptor).is_some();
    match accept_decision(owner, acceptor, existing, owner_ongoing, acceptor_ongoing) {
        Err(e) => Err(e),
        Ok(()) => {
            let i = pair_position(store, owner, acceptor).unwrap();
            let old_c = store.rows[i];
            let c = Challenge { accepted: true, ..old_c };
            proof {
                lemma_accept_wf(store@, owner, acceptor);
            }
            store.rows.set(i, c);
            Ok(c)
        },
    }
}

/// Inserting a challenge keeps the table well formed.
pub proof fn lemma_insert_wf(rows: Seq<Challenge>, challenger: u64, challenged: u64)
    requires
        store_wf(rows),
    ensures
        store_wf(insert_spec(rows, challenger, challenged).0),
{
    if can_insert(rows, challenger, challenged) {
        let n = rows.len() as int;
        let rows2 = insert_spec(rows, challenger, challenged).0;
        assert forall|i: int, j: int|
            0 <= i < rows2.len() && 0 <= j < rows2.len() && i != j implies !(
            #[trigger] rows2[i].user_one == #[trigger] rows2[j].user_one && rows2[i].user_two
                == rows2[j].user_two) by {
            if i == n {
                assert(!same_pair(rows[j], challenger, challenged));
            } else if j == n {
                assert(!same_pair(rows[i], challenger, challenged));
            }
        }
    }
}

/// Accepting a challenge keeps the table well formed: in particular no user
/// ends up in two ongoing challenges.
pub proof fn lemma_accept_wf(rows: Seq<Challenge>, owner: u64, acceptor: u64)
    requires
        store_wf(rows),
    ensures
        store_wf(accept_spec(rows, owner, acceptor).0),
{
    let rows2 = accept_spec(rows, owner, acceptor).0;
    if rows2 != rows {
        let i = pair_index(rows, owner, acceptor);
        assert(same_pair(rows[i], owner, acceptor));
        assert forall|j: int, k: int|
            0 <= j < rows2.len() && 0 <= k < rows2.len() && j != k && rows2[j].accepted
                && rows2[k].accepted implies !share_user(#[trigger] rows2[j], #[trigger] rows2[k]) by {
            if j == i {
                assert(rows[k].accepted);
                assert(!(rows[k].accepted && rows[k].involves(owner)));
                assert(!(rows[k].accepted && rows[k].involves(acceptor)));
            } else if k == i {
                assert(rows[j].accepted);
                assert(!(rows[j].accepted && rows[j].involves(owner)));
                assert(!(rows[j].accepted && rows[j].involves(acceptor)));
                assert(rows[j].well_formed());
            }
        }
        assert forall|j: int, k: int|
            0 <= j < rows2.len() && 0 <= k < rows2.len() && j != k implies !(
            #[trigger] rows2[j].user_one == #[trigger] rows2[k].user_one && rows2[j].user_two
                == rows2[k].user_two) by {
            assert(rows[j].user_one == rows2[j].user_one && rows[j].user_two == rows2[j].user_two);
            assert(rows[k].user_one == rows2[k].user_one && rows[k].user_two == rows2[k].user_two);
        }
    }
}

} // verus!
