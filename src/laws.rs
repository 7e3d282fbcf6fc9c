use vstd::prelude::*;

use crate::error::Error;
use crate::matchmaker::propose_spec;
use crate::models::Challenge;
use crate::store::{
    accept_spec,
    challenges_of,
    has_ongoing,
    lemma_accept_wf,
    lemma_insert_wf,
    lemma_pair_index_unique,
    new_challenge,
    pending_from,
    store_wf,
};

verus! {

/// Once `a` has challenged `b`, a challenge from `b` back to `a` is refused
/// as already pending and adds no record: the pair has one identity, whoever asks.
pub proof fn lemma_propose_symmetric(rows: Seq<Challenge>, a: u64, b: u64)
    requires
        store_wf(rows),
        propose_spec(rows, a, b).1.is_ok(),
    ensures
        ({
            let after = propose_spec(rows, a, b).0;
            propose_spec(after, b, a) == (after, Err::<Challenge, Error>(Error::AlreadyPendingWith(a)))
        }),
{
    let n = rows.len() as int;
    let after = propose_spec(rows, a, b).0;
    lemma_insert_wf(rows, a, b);
    assert(after[n] == new_challenge(n + 1, a, b));
    lemma_pair_index_unique(after, b, a, n);
}

/// Challenging oneself is always refused, and the table is left as it was.
pub proof fn lemma_self_challenge_refused(rows: Seq<Challenge>, a: u64)
    ensures
        propose_spec(rows, a, a) == (rows, Err::<Challenge, Error>(Error::SelfChallenge)),
{
}

/// After `a` challenges `b`, `b` accepting it makes that record ongoing, and
/// accepting it again is refused as nothing to accept, with nothing changed.
/// (Neither may hold an ongoing challenge beforehand, or the first accept is refused.)
pub proof fn lemma_accept_once(rows: Seq<Challenge>, a: u64, b: u64)
    requires
        store_wf(rows),
        propose_spec(rows, a, b).1.is_ok(),
        !has_ongoing(rows, a),
        !has_ongoing(rows, b),
    ensures
        ({
            let proposed = propose_spec(rows, a, b);
            let first = accept_spec(proposed.0, a, b);
            let second = accept_spec(first.0, a, b);
            &&& first.1 == Ok::<Challenge, Error>(Challenge { accepted: true, ..proposed.1.unwrap() })
            &&& first.0 == proposed.0.update(rows.len() as int, first.1.unwrap())
            &&& second == (first.0, Err::<Challenge, Error>(Error::NoSuchPendingChallenge(a)))
        }),
{
    let n = rows.len() as int;
    let s1 = propose_spec(rows, a, b).0;
    lemma_insert_wf(rows, a, b);
    assert(s1[n] == new_challenge(n + 1, a, b));
    lemma_pair_index_unique(s1, a, b, n);
    assert(!has_ongoing(s1, a)) by {
        if has_ongoing(s1, a) {
            let i = choose|i: int| 0 <= i < s1.len() && (#[trigger] s1[i]).accepted && s1[i].involves(a);
            assert(i < n ==> rows[i] == s1[i]);
        }
    }
    assert(!has_ongoing(s1, b)) by {
        if has_ongoing(s1, b) {
            let i = choose|i: int| 0 <= i < s1.len() && (#[trigger] s1[i]).accepted && s1[i].involves(b);
            assert(i < n ==> rows[i] == s1[i]);
        }
    }
    let s2 = accept_spec(s1, a, b).0;
    lemma_accept_wf(s1, a, b);
    lemma_pair_index_unique(s2, a, b, n);
}

/// The challenger cannot accept their own challenge: it is refused as
/// nothing to accept and the record stays pending.
pub proof fn lemma_accept_wrong_direction(rows: Seq<Challenge>, a: u64, b: u64)
    requires
        store_wf(rows),
        propose_spec(rows, a, b).1.is_ok(),
    ensures
        ({
            let after = propose_spec(rows, a, b).0;
            &&& accept_spec(after, b, a) == (after, Err::<Challenge, Error>(Error::NoSuchPendingChallenge(b)))
            &&& !after[rows.len() as int].accepted
        }),
{
    let n = rows.len() as int;
    let after = propose_spec(rows, a, b).0;
    lemma_insert_wf(rows, a, b);
    assert(after[n] == new_challenge(n + 1, a, b));
    lemma_pair_index_unique(after, b, a, n);
}

/// A user who holds an ongoing challenge cannot get a second one: accepting a
/// pending challenge between them and someone else is refused naming that
/// user, and nothing changes. When both hold one, the owner is the one named.
pub proof fn lemma_one_ongoing_per_user(rows: Seq<Challenge>, owner: u64, acceptor: u64, user: u64)
    requires
        store_wf(rows),
        pending_from(rows, owner, acceptor),
        user == owner || user == acceptor,
        has_ongoing(rows, user),
        user == owner || !has_ongoing(rows, owner),
    ensures
        accept_spec(rows, owner, acceptor) == (rows, Err::<Challenge, Error>(
            Error::ParticipantAlreadyOngoing(user),
        )),
{
}

/// Each challenge listed for `user` involves them, and its other participant is not `user`.
pub proof fn lemma_listed_other_is_not_user(rows: Seq<Challenge>, user: u64, status: Option<bool>)
    requires
        store_wf(rows),
    ensures
        forall|k: int|
            0 <= k < challenges_of(rows, user, status).len() ==> {
                let c = #[trigger] challenges_of(rows, user, status)[k];
                c.involves(user) && c.other_of(user) != user
            },
    decreases rows.len(),
{
    if rows.len() > 0 {
        let before = rows.drop_last();
        assert forall|i: int| 0 <= i < before.len() implies (#[trigger] before[i]).well_formed()
            && before[i].id == i + 1 by {
            assert(before[i] == rows[i]);
        }
        assert forall|i: int, j: int|
            #![trigger before[i], before[j]]
            0 <= i < before.len() && 0 <= j < before.len() && i != j implies !(before[i].user_one
                == before[j].user_one && before[i].user_two == before[j].user_two) by {
            assert(before[i] == rows[i] && before[j] == rows[j]);
        }
        assert forall|i: int, j: int|
            #![trigger before[i], before[j]]
            0 <= i < before.len() && 0 <= j < before.len() && i != j && before[i].accepted
                && before[j].accepted implies !crate::store::share_user(before[i], before[j]) by {
            assert(before[i] == rows[i] && before[j] == rows[j]);
        }
        lemma_listed_other_is_not_user(before, user, status);
        assert(rows.last().well_formed()) by {
            assert(rows.last() == rows[rows.len() - 1]);
        }
    }
}

/// Records only move forward: a record once made is never removed, and at
/// most its status changes, from pending to ongoing.
pub open spec fn advances(before: Seq<Challenge>, after: Seq<Challenge>) -> bool {
    &&& before.len() <= after.len()
    &&& forall|i: int|
        0 <= i < before.len() ==> #[trigger] after[i] == before[i] || (!before[i].accepted
            && after[i] == Challenge { accepted: true, ..before[i] })
}

/// Neither a challenge nor an accept removes a record or takes an ongoing
/// challenge back to pending.
pub proof fn lemma_records_only_advance(rows: Seq<Challenge>, a: u64, b: u64)
    requires
        store_wf(rows),
    ensures
        advances(rows, propose_spec(rows, a, b).0),
        advances(rows, accept_spec(rows, a, b).0),
{
    let after = accept_spec(rows, a, b).0;
    assert forall|i: int| 0 <= i < rows.len() implies #[trigger] after[i] == rows[i] || (
    !rows[i].accepted && after[i] == Challenge { accepted: true, ..rows[i] }) by {}
}

} // verus!
