use vstd::prelude::*;

use crate::error::Error;
use crate::models::Challenge;
use crate::store::{
    accept_challenge,
    accept_spec,
    can_insert,
    challenges_of,
    create_challenge,
    find_challenge,
    find_ongoing_challenges,
    find_pending_challenges,
    insert_spec,
    pair_record,
    same_pair,
    store_wf,
    ChallengeStore,
};

verus! {

/// The pair of users in canonical order, the smaller identifier first.
pub fn canonical_pair(a: u64, b: u64) -> (r: (u64, u64))
    ensures
        r.0 <= r.1,
        (r.0 == a && r.1 == b) || (r.0 == b && r.1 == a),
{
    if a <= b {
        (a, b)
    } else {
        (b, a)
    }
}

/// Whom a challenge by `author` that mentions `mentions` is aimed at, or why it is refused.
pub open spec fn challenge_target_spec(author: u64, mentions: Seq<u64>) -> Result<u64, Error> {
    if mentions.len() == 0 {
        Err(Error::NoTarget)
    } else if mentions.len() > 1 {
        Err(Error::TooManyTargets)
    } else if mentions[0] == author {
        Err(Error::SelfChallenge)
    } else {
        Ok(mentions[0])
    }
}

/// Whose challenge an accept that mentions `mentions` is about, or why it is refused.
pub open spec fn accept_target_spec(mentions: Seq<u64>) -> Result<u64, Error> {
    if mentions.len() == 0 {
        Err(Error::NoAcceptTarget)
    } else if mentions.len() > 1 {
        Err(Error::TooManyAcceptTargets)
    } else {
        Ok(mentions[0])
    }
}

/// The rejection of a challenge to `target` whose insert failed, given the
/// status of the pair's record as looked up again (`None` if that failed).
pub open spec fn existing_rejection_spec(target: u64, existing: Option<bool>) -> Error {
    match existing {
        Some(true) => Error::AlreadyOngoingWith(target),
        Some(false) => Error::AlreadyPendingWith(target),
        None => Error::StoreUnavailable,
    }
}

/// Whether `acceptor` may accept `owner`'s challenge, given the pair's record
/// and whether each of the two already holds an ongoing challenge.
pub open spec fn accept_decision_spec(
    owner: u64,
    acceptor: u64,
    existing: Option<Challenge>,
    owner_ongoing: bool,
    acceptor_ongoing: bool,
) -> Result<(), Error> {
    match existing {
        Some(c) => if !c.accepted && c.challenger == owner && same_pair(c, owner, acceptor) {
            if owner_ongoing {
                Err(Error::ParticipantAlreadyOngoing(owner))
            } else if acceptor_ongoing {
                Err(Error::ParticipantAlreadyOngoing(acceptor))
            } else {
                Ok(())
            }
        } else {
            Err(Error::NoSuchPendingChallenge(owner))
        },
        None => Err(Error::NoSuchPendingChallenge(owner)),
    }
}

/// A challenge from `challenger` to `challenged`: the table afterwards and the result.
pub open spec fn propose_spec(rows: Seq<Challenge>, challenger: u64, challenged: u64) -> (Seq<
    Challenge,
>, Result<Challenge, Error>) {
    if challenger == challenged {
        (rows, Err(Error::SelfChallenge))
    } else if can_insert(rows, challenger, challenged) {
        let (after, made) = insert_spec(rows, challenger, challenged);
        (after, Ok(made.unwrap()))
    } else {
        match pair_record(rows, challenger, challenged) {
            Some(c) => (rows, Err(existing_rejection_spec(challenged, Some(c.accepted)))),
            None => (rows, Err(existing_rejection_spec(challenged, None))),
        }
    }
}

/// The `challenge` command of `author` mentioning `mentions`.
pub open spec fn handle_challenge_spec(rows: Seq<Challenge>, author: u64, mentions: Seq<u64>) -> (Seq<
    Challenge,
>, Result<Challenge, Error>) {
    match challenge_target_spec(author, mentions) {
        Ok(target) => propose_spec(rows, author, target),
        Err(e) => (rows, Err(e)),
    }
}

/// The `accept` command of `author` mentioning `mentions`.
pub open spec fn handle_accept_spec(rows: Seq<Challenge>, author: u64, mentions: Seq<u64>) -> (Seq<
    Challenge,
>, Result<Challenge, Error>) {
    match accept_target_spec(mentions) {
        Ok(owner) => accept_spec(rows, owner, author),
        Err(e) => (rows, Err(e)),
    }
}

/// The target of a challenge by `author`: exactly one user, not `author`.
pub fn challenge_target(author: u64, mentions: &Vec<u64>) -> (r: Result<u64, Error>)
    ensures
        r == challenge_target_spec(author, mentions@),
{
    if mentions.len() == 0 {
        Err(Error::NoTarget)
    } else if mentions.len() > 1 {
        Err(Error::TooManyTargets)
    } else if mentions[0] == author {
        Err(Error::SelfChallenge)
    } else {
        Ok(mentions[0])
    }
}

/// The user whose challenge an accept is about: exactly one must be mentioned.
pub fn accept_target(mentions: &Vec<u64>) -> (r: Result<u64, Error>)
    ensures
        r == accept_target_spec(mentions@),
{
    if mentions.len() == 0 {
        Err(Error::NoAcceptTarget)
    } else if mentions.len() > 1 {
        Err(Error::TooManyAcceptTargets)
    } else {
        Ok(mentions[0])
    }
}

/// The rejection of a challenge to `target` whose insert the store refused:
/// already pending or ongoing, by the status of the record found again, or
/// the store's failure when that lookup failed too.
pub fn existing_rejection(target: u64, existing: Option<bool>) -> (r: Error)
    ensures
        r == existing_rejection_spec(target, existing),
{
    match existing {
        Some(true) => Error::AlreadyOngoingWith(target),
        Some(false) => Error::AlreadyPendingWith(target),
        None => Error::StoreUnavailable,
    }
}

/// Decides an accept before anything is changed: there must be a pending
/// challenge issued by `owner` to `acceptor`, and neither may already hold
/// an ongoing challenge (the owner is named first when both do).
pub fn accept_decision(
    owner: u64,
    acceptor: u64,
    existing: Option<Challenge>,
    owner_ongoing: bool,
    acceptor_ongoing: bool,
) -> (r: Result<(), Error>)
    ensures
        r == accept_decision_spec(owner, acceptor, existing, owner_ongoing, acceptor_ongoing),
{
    match existing {
        Some(c) => {
            if !c.accepted && c.challenger == owner && ((c.user_one == owner && c.user_two
                == acceptor) || (c.user_one == acceptor && c.user_two == owner)) {
                if owner_ongoing {
                    Err(Error::ParticipantAlreadyOngoing(owner))
                } else if acceptor_ongoing {
                    Err(Error::ParticipantAlreadyOngoing(acceptor))
                } else {
                    Ok(())
                }
            } else {
                Err(Error::NoSuchPendingChallenge(owner))
            }
        },
        None => Err(Error::NoSuchPendingChallenge(owner)),
    }
}

/// The result of the conditional update that accepts `owner`'s challenge:
/// no row changed means there was nothing to accept.
pub fn acceptance_outcome(owner: u64, rows_affected: u64) -> (r: Result<(), Error>)
    ensures
        rows_affected == 0 ==> r == Err::<(), Error>(Error::NoSuchPendingChallenge(owner)),
        rows_affected > 0 ==> r == Ok::<(), Error>(()),
{
    if rows_affected == 0 {
        Err(Error::NoSuchPendingChallenge(owner))
    } else {
        Ok(())
    }
}

/// `challenger` challenges `challenged`: a new pending record, or the reason there is none.
pub fn propose_challenge(store: &mut ChallengeStore, challenger: u64, challenged: u64) -> (r: Result<
    Challenge,
    Error,
>)
    requires
        store_wf(old(store)@),
    ensures
        store_wf(final(store)@),
        (final(store)@, r) == propose_spec(old(store)@, challenger, challenged),
{
    if challenger == challenged {
        return Err(Error::SelfChallenge);
    }
    match create_challenge(store, challenger, challenged) {
        Some(c) => Ok(c),
        None => {
            let existing = match find_challenge(store, challenger, challenged) {
                Some(c) => Some(c.accepted),
                None => None,
            };
            Err(existing_rejection(challenged, existing))
        },
    }
}

/// The `challenge` command: `author` challenges the one user in `mentions`.
pub fn handle_challenge(store: &mut ChallengeStore, author: u64, mentions: &Vec<u64>) -> (r: Result<
    Challenge,
    Error,
>)
    requires
        store_wf(old(store)@),
    ensures
        store_wf(final(store)@),
        (final(store)@, r) == handle_challenge_spec(old(store)@, author, mentions@),
{
    match challenge_target(author, mentions) {
        Ok(target) => propose_challenge(store, author, target),
        Err(e) => Err(e),
    }
}

/// The `accept` command: `author` accepts the challenge of the one user in `mentions`.
pub fn handle_accept(store: &mut ChallengeStore, author: u64, mentions: &Vec<u64>) -> (r: Result<
    Challenge,
    Error,
>)
    requires
        store_wf(old(store)@),
    ensures
        store_wf(final(store)@),
        (final(store)@, r) == handle_accept_spec(old(store)@, author, mentions@),
{
    match accept_target(mentions) {
        Ok(owner) => accept_challenge(store, owner, author),
        Err(e) => Err(e),
    }
}

/// A user's challenges, split by status, each in the order they were made.
pub struct ChallengeList {
    pub pending: Vec<Challenge>,
    pub ongoing: Vec<Challenge>,
}

impl ChallengeList {
    /// Neither list holds a challenge.
    pub fn is_empty(&self) -> (r: bool)
        ensures
            r == (self.pending@.len() == 0 && self.ongoing@.len() == 0),
    {
        self.pending.len() == 0 && self.ongoing.len() == 0
    }
}

/// The `list` command: the pending and the ongoing challenges of `user`.
pub fn handle_list_challenges(store: &ChallengeStore, user: u64) -> (r: ChallengeList)
    ensures
        r.pending@ == challenges_of(store@, user, Some(false)),
        r.ongoing@ == challenges_of(store@, user, Some(true)),
{
    ChallengeList {
        pending: find_pending_challenges(store, user),
        ongoing: find_ongoing_challenges(store, user),
    }
}

} // verus!
