//! The typed failures of the market's operations.

use vstd::prelude::*;

verus! {

/// Why an operation was refused. A refused operation leaves the ledger as it was.
#[derive(Clone, Copy, Debug, PartialEq, Eq, Structural)]
pub enum ContractError {
    /// The admin and oracle were already set.
    AlreadyInitialized,
    /// No admin is set yet.
    AdminNotSet,
    /// No oracle is set yet.
    OracleNotSet,
    /// Only the admin may do this. No operation of the ledger returns it: a missing
    /// authorisation is the host's to refuse, before the ledger is called.
    UnauthorizedAdmin,
    /// Only the oracle may do this. No operation of the ledger returns it either.
    UnauthorizedOracle,
    /// A stake must be greater than zero.
    InvalidBetAmount,
    /// No round is open.
    NoActiveRound,
    /// The round takes no more stakes.
    RoundEnded,
    /// The balance does not cover the stake.
    InsufficientBalance,
    /// The principal already has a stake in this round.
    AlreadyBet,
    /// A sum, difference or product left its integer type.
    Overflow,
    /// A price must be greater than zero.
    InvalidPrice,
    /// A duration must lie between one and the longest duration allowed.
    InvalidDuration,
    /// A predicted price does not fit the feed's fixed decimal scale.
    InvalidPriceScale,
    /// The stake does not suit the mode of the open round.
    WrongModeForPrediction,
}

} // verus!
