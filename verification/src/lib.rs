//! A prediction-market ledger: principals stake virtual tokens on the direction of a
//! price over one round, an oracle settles the round, and winners share the losers'
//! pool in proportion to their stakes.

pub mod address_map;
pub mod context;
pub mod encoding;
pub mod contract;
pub mod errors;
pub mod laws;
pub mod model;
pub mod payout;
pub mod settlement;
pub mod types;

pub use address_map::AddressMap;
pub use context::CallContext;
pub use contract::VirtualTokenContract;
pub use errors::ContractError;
pub use model::{LedgerState, FAUCET_AMOUNT, MAX_DURATION_LEDGERS, PRICE_SCALE_LIMIT};
pub use types::{
    Address, Amount, BetSide, DataKey, Outcome, PrecisionPrediction, PriceGuess, Round, RoundMode,
    UserPosition, UserStats,
};
