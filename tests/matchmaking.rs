use card_jitsu::error::Error;
use card_jitsu::matchmaker::{
    accept_decision, accept_target, acceptance_outcome, canonical_pair, challenge_target,
    existing_rejection, handle_accept, handle_challenge, handle_list_challenges,
    propose_challenge,
};
use card_jitsu::models::Challenge;
use card_jitsu::store::{
    accept_challenge, create_challenge, find_active_challenge, find_all_challenges,
    find_challenge, find_pending_challenges, ChallengeStore,
};

#[test]
fn scenario_challenge_accept_then_nothing_to_accept() {
    let mut store = ChallengeStore::new();
    let made = handle_challenge(&mut store, 100, &vec![200]).unwrap();
    assert_eq!(made.challenger, 100);
    assert_eq!((made.user_one, made.user_two), (100, 200));
    assert!(!made.accepted);
    assert_eq!(made.winner, None);
    let accepted = handle_accept(&mut store, 200, &vec![100]).unwrap();
    assert!(accepted.accepted);
    assert!(store.get(0).accepted);
    assert_eq!(
        handle_accept(&mut store, 100, &vec![200]),
        Err(Error::NoSuchPendingChallenge(200))
    );
    assert_eq!(store.len(), 1);
}

#[test]
fn challenge_back_is_already_pending() {
    let mut store = ChallengeStore::new();
    assert!(propose_challenge(&mut store, 1, 2).is_ok());
    assert_eq!(propose_challenge(&mut store, 2, 1), Err(Error::AlreadyPendingWith(1)));
    assert_eq!(propose_challenge(&mut store, 1, 2), Err(Error::AlreadyPendingWith(2)));
    assert_eq!(store.len(), 1);
}

#[test]
fn challenge_back_after_accept_is_already_ongoing() {
    let mut store = ChallengeStore::new();
    propose_challenge(&mut store, 7, 3).unwrap();
    accept_challenge(&mut store, 7, 3).unwrap();
    assert_eq!(propose_challenge(&mut store, 3, 7), Err(Error::AlreadyOngoingWith(7)));
    assert_eq!(store.len(), 1);
}

#[test]
fn self_challenge_is_refused() {
    let mut store = ChallengeStore::new();
    assert_eq!(handle_challenge(&mut store, 5, &vec![5]), Err(Error::SelfChallenge));
    assert_eq!(propose_challenge(&mut store, 5, 5), Err(Error::SelfChallenge));
    assert_eq!(create_challenge(&mut store, 5, 5), None);
    assert_eq!(store.len(), 0);
}

#[test]
fn second_accept_is_refused() {
    let mut store = ChallengeStore::new();
    propose_challenge(&mut store, 10, 20).unwrap();
    let first = accept_challenge(&mut store, 10, 20).unwrap();
    assert!(first.accepted);
    assert_eq!(accept_challenge(&mut store, 10, 20), Err(Error::NoSuchPendingChallenge(10)));
    assert!(store.get(0).accepted);
}

#[test]
fn challenger_cannot_accept_own_challenge() {
    let mut store = ChallengeStore::new();
    propose_challenge(&mut store, 10, 20).unwrap();
    assert_eq!(
        handle_accept(&mut store, 10, &vec![20]),
        Err(Error::NoSuchPendingChallenge(20))
    );
    assert!(!store.get(0).accepted);
}

#[test]
fn accepting_a_challenge_never_proposed_is_refused() {
    let mut store = ChallengeStore::new();
    assert_eq!(accept_challenge(&mut store, 1, 2), Err(Error::NoSuchPendingChallenge(1)));
    assert_eq!(handle_accept(&mut store, 3, &vec![3]), Err(Error::NoSuchPendingChallenge(3)));
}

#[test]
fn no_second_ongoing_challenge_for_acceptor() {
    let mut store = ChallengeStore::new();
    propose_challenge(&mut store, 2, 1).unwrap();
    accept_challenge(&mut store, 2, 1).unwrap();
    propose_challenge(&mut store, 3, 1).unwrap();
    assert_eq!(accept_challenge(&mut store, 3, 1), Err(Error::ParticipantAlreadyOngoing(1)));
    assert!(store.get(0).accepted);
    assert!(!store.get(1).accepted);
}

#[test]
fn no_second_ongoing_challenge_for_owner() {
    let mut store = ChallengeStore::new();
    propose_challenge(&mut store, 2, 1).unwrap();
    accept_challenge(&mut store, 2, 1).unwrap();
    propose_challenge(&mut store, 2, 4).unwrap();
    assert_eq!(
        handle_accept(&mut store, 4, &vec![2]),
        Err(Error::ParticipantAlreadyOngoing(2))
    );
    assert!(!store.get(1).accepted);
}

#[test]
fn owner_is_named_when_both_are_ongoing() {
    let mut store = ChallengeStore::new();
    propose_challenge(&mut store, 1, 2).unwrap();
    accept_challenge(&mut store, 1, 2).unwrap();
    propose_challenge(&mut store, 3, 4).unwrap();
    accept_challenge(&mut store, 3, 4).unwrap();
    propose_challenge(&mut store, 1, 3).unwrap();
    assert_eq!(accept_challenge(&mut store, 1, 3), Err(Error::ParticipantAlreadyOngoing(1)));
}

#[test]
fn pending_challenges_may_be_many() {
    let mut store = ChallengeStore::new();
    propose_challenge(&mut store, 1, 2).unwrap();
    propose_challenge(&mut store, 3, 1).unwrap();
    propose_challenge(&mut store, 1, 4).unwrap();
    assert_eq!(find_pending_challenges(&store, 1).len(), 3);
    assert_eq!(find_all_challenges(&store, 1).len(), 3);
    assert_eq!(find_all_challenges(&store, 2).len(), 1);
    assert_eq!(find_active_challenge(&store, 1), None);
}

#[test]
fn records_are_numbered_in_order() {
    let mut store = ChallengeStore::new();
    let a = create_challenge(&mut store, 9, 2).unwrap();
    let b = create_challenge(&mut store, 4, 5).unwrap();
    assert_eq!(a.id, 1);
    assert_eq!(b.id, 2);
    assert_eq!((a.user_one, a.user_two, a.challenger), (2, 9, 9));
    assert_eq!(create_challenge(&mut store, 2, 9), None);
    assert_eq!(find_challenge(&store, 2, 9), Some(a));
    assert_eq!(find_challenge(&store, 5, 4), Some(b));
    assert_eq!(find_challenge(&store, 2, 4), None);
}

#[test]
fn list_splits_by_status_and_names_the_other_user() {
    let mut store = ChallengeStore::new();
    propose_challenge(&mut store, 1, 2).unwrap();
    propose_challenge(&mut store, 3, 1).unwrap();
    propose_challenge(&mut store, 4, 5).unwrap();
    accept_challenge(&mut store, 3, 1).unwrap();
    let list = handle_list_challenges(&store, 1);
    assert_eq!(list.pending.len(), 1);
    assert_eq!(list.ongoing.len(), 1);
    assert_eq!(list.pending[0].other_participant(1), 2);
    assert_eq!(list.ongoing[0].other_participant(1), 3);
    for c in list.pending.iter().chain(list.ongoing.iter()) {
        assert_ne!(c.other_participant(1), 1);
    }
    assert!(!list.is_empty());
    assert_eq!(find_active_challenge(&store, 1).map(|c| c.id), Some(2));
    assert!(handle_list_challenges(&store, 9).is_empty());
}

#[test]
fn mention_count_is_checked() {
    let mut store = ChallengeStore::new();
    assert_eq!(handle_challenge(&mut store, 1, &vec![]), Err(Error::NoTarget));
    assert_eq!(handle_challenge(&mut store, 1, &vec![2, 3]), Err(Error::TooManyTargets));
    assert_eq!(handle_accept(&mut store, 1, &vec![]), Err(Error::NoAcceptTarget));
    assert_eq!(handle_accept(&mut store, 1, &vec![2, 3]), Err(Error::TooManyAcceptTargets));
    assert_eq!(challenge_target(1, &vec![1, 2]), Err(Error::TooManyTargets));
    assert_eq!(challenge_target(1, &vec![2]), Ok(2));
    assert_eq!(accept_target(&vec![8]), Ok(8));
    assert_eq!(store.len(), 0);
}

#[test]
fn decisions_on_plain_values() {
    assert_eq!(canonical_pair(9, 4), (4, 9));
    assert_eq!(canonical_pair(4, 9), (4, 9));
    assert_eq!(existing_rejection(6, Some(false)), Error::AlreadyPendingWith(6));
    assert_eq!(existing_rejection(6, Some(true)), Error::AlreadyOngoingWith(6));
    assert_eq!(existing_rejection(6, None), Error::StoreUnavailable);
    assert_eq!(acceptance_outcome(6, 0), Err(Error::NoSuchPendingChallenge(6)));
    assert_eq!(acceptance_outcome(6, 1), Ok(()));
    let pending = Challenge {
        id: 1,
        user_one: 2,
        user_two: 6,
        challenger: 6,
        accepted: false,
        winner: None,
    };
    assert_eq!(accept_decision(6, 2, Some(pending), false, false), Ok(()));
    assert_eq!(
        accept_decision(2, 6, Some(pending), false, false),
        Err(Error::NoSuchPendingChallenge(2))
    );
    assert_eq!(
        accept_decision(6, 2, Some(pending), false, true),
        Err(Error::ParticipantAlreadyOngoing(2))
    );
    assert_eq!(
        accept_decision(6, 2, Some(pending), true, true),
        Err(Error::ParticipantAlreadyOngoing(6))
    );
    assert_eq!(accept_decision(6, 3, Some(pending), false, false), Err(Error::NoSuchPendingChallenge(6)));
    assert_eq!(accept_decision(6, 2, None, false, false), Err(Error::NoSuchPendingChallenge(6)));
}

#[test]
fn records_only_move_forward() {
    let mut store = ChallengeStore::new();
    propose_challenge(&mut store, 1, 2).unwrap();
    let first = store.get(0);
    propose_challenge(&mut store, 3, 4).unwrap();
    accept_challenge(&mut store, 1, 2).unwrap();
    assert_eq!(store.get(0), Challenge { accepted: true, ..first });
    let _ = propose_challenge(&mut store, 2, 1);
    let _ = accept_challenge(&mut store, 1, 2);
    let _ = accept_challenge(&mut store, 3, 4);
    assert_eq!(store.len(), 2);
    assert!(store.get(0).accepted);
    assert!(store.get(1).accepted);
}
