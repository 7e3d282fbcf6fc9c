use vstd::prelude::*;

verus! {

/// Why a command was refused or could not be carried out.
#[derive(Clone, Debug, PartialEq, Eq)]
pub enum Error {
    /// A challenge named nobody.
    NoTarget,
    /// A challenge named more than one user.
    TooManyTargets,
    /// A user tried to challenge themselves.
    SelfChallenge,
    /// The pair already has a pending challenge; holds the other user.
    AlreadyPendingWith(u64),
    /// The pair already has an ongoing challenge; holds the other user.
    AlreadyOngoingWith(u64),
    /// An accept named nobody.
    NoAcceptTarget,
    /// An accept named more than one user.
    TooManyAcceptTargets,
    /// The user already holds an ongoing challenge.
    ParticipantAlreadyOngoing(u64),
    /// There is no pending challenge from this user to accept.
    NoSuchPendingChallenge(u64),
    /// The store failed, or could not hold another record.
    StoreUnavailable,
    /// The command word is not one the bot knows.
    UnknownCommand(String),
}

} // verus!
