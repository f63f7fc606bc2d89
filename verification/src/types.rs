//! Plain data of the market: principals, stakes, rounds and statistics.

use vstd::prelude::*;

verus! {

/// An opaque principal: an account or a contract, named by a 256-bit key.
///
/// Two addresses are the same principal exactly when all three fields agree.
#[derive(Clone, Copy, Debug, PartialEq, Eq, Structural)]
pub struct Address {
    /// `true` for a contract, `false` for an account.
    pub contract: bool,
    /// The upper 128 bits of the key.
    pub key_high: u128,
    /// The lower 128 bits of the key.
    pub key_low: u128,
}

impl Address {
    /// Builds an address from its parts.
    pub fn new(contract: bool, key_high: u128, key_low: u128) -> (address: Address)
        ensures
            address == (Address { contract, key_high, key_low }),
    {
        Address { contract, key_high, key_low }
    }
}

/// Which way a stake says the price will move.
#[derive(Clone, Copy, Debug, PartialEq, Eq, Structural)]
pub enum BetSide {
    Up,
    Down,
}

/// What kind of stakes a round takes.
#[derive(Clone, Copy, Debug, PartialEq, Eq, Structural)]
pub enum RoundMode {
    /// Stakes on the direction of the price, gathered in two pools.
    UpDown,
    /// Stakes on the price itself, gathered in a list of guesses.
    Precision,
}

/// How a final price compares with the price a round started at.
#[derive(Clone, Copy, Debug, PartialEq, Eq, Structural)]
pub enum Outcome {
    Unchanged,
    Up,
    Down,
}

/// One principal's stake in a directional round.
#[derive(Clone, Copy, Debug, PartialEq, Eq, Structural)]
pub struct UserPosition {
    pub amount: i128,
    pub side: BetSide,
}

/// One principal's stake in a precision round, as the guess book keeps it.
#[derive(Clone, Copy, Debug, PartialEq, Eq, Structural)]
pub struct PriceGuess {
    pub predicted_price: u128,
    pub amount: i128,
}

/// A precision stake together with the principal who placed it.
#[derive(Clone, Copy, Debug, PartialEq, Eq, Structural)]
pub struct PrecisionPrediction {
    pub user: Address,
    pub predicted_price: u128,
    pub amount: i128,
}

/// Win and loss counters of one principal.
#[derive(Clone, Copy, Debug, PartialEq, Eq, Structural)]
pub struct UserStats {
    pub total_wins: u32,
    pub total_losses: u32,
    pub current_streak: u32,
    pub best_streak: u32,
}

/// The one open betting window.
#[derive(Clone, Copy, Debug, PartialEq, Eq, Structural)]
pub struct Round {
    /// Price when the round opened; never zero for a round that `create_round` made.
    pub price_start: u128,
    /// First ledger sequence at which no stake is taken any more.
    pub end_ledger: u32,
    /// Sum staked on `Up`.
    pub pool_up: i128,
    /// Sum staked on `Down`.
    pub pool_down: i128,
    /// Kind of stakes the round takes.
    pub mode: RoundMode,
}

/// The tagged key space of the persisted state: each key names one entry.
#[derive(Clone, Copy, Debug, PartialEq, Eq, Structural)]
pub enum DataKey {
    Balance(Address),
    Admin,
    Oracle,
    ActiveRound,
    Positions,
    Predictions,
    PendingWinnings(Address),
    UserStats(Address),
}

/// A stored value that carries an amount of tokens: a balance, or a stake.
pub trait Amount: Copy {
    /// The amount that the value carries.
    spec fn spec_tokens(self) -> i128;

    /// The amount that the value carries.
    fn tokens(self) -> (amount: i128)
        ensures
            amount == self.spec_tokens(),
    ;
}

impl Amount for i128 {
    open spec fn spec_tokens(self) -> i128 {
        self
    }

    fn tokens(self) -> (amount: i128) {
        self
    }
}

impl Amount for UserPosition {
    open spec fn spec_tokens(self) -> i128 {
        self.amount
    }

    fn tokens(self) -> (amount: i128) {
        self.amount
    }
}

impl Amount for PriceGuess {
    open spec fn spec_tokens(self) -> i128 {
        self.amount
    }

    fn tokens(self) -> (amount: i128) {
        self.amount
    }
}

impl UserStats {
    /// The counters of a principal that never took part: all zero.
    pub open spec fn spec_zero() -> UserStats {
        UserStats { total_wins: 0, total_losses: 0, current_streak: 0, best_streak: 0 }
    }

    /// The counters of a principal that never took part: all zero.
    #[verifier::when_used_as_spec(spec_zero)]
    pub fn zero() -> (stats: UserStats)
        ensures
            stats == Self::spec_zero(),
    {
        UserStats { total_wins: 0, total_losses: 0, current_streak: 0, best_streak: 0 }
    }

    /// Whether one more win can be counted without leaving `u32`.
    pub open spec fn can_win(self) -> bool {
        self.total_wins < u32::MAX && self.current_streak < u32::MAX
    }

    /// Whether one more loss can be counted without leaving `u32`.
    pub open spec fn can_lose(self) -> bool {
        self.total_losses < u32::MAX
    }

    /// The counters after one more win: wins and streak grow by one, and the best
    /// streak follows the streak where the streak passes it.
    pub open spec fn spec_after_win(self) -> UserStats {
        UserStats {
            total_wins: (self.total_wins + 1) as u32,
            total_losses: self.total_losses,
            current_streak: (self.current_streak + 1) as u32,
            best_streak: if self.current_streak + 1 > self.best_streak {
                (self.current_streak + 1) as u32
            } else {
                self.best_streak
            },
        }
    }

    /// The counters after one more loss: losses grow by one and the streak ends.
    pub open spec fn spec_after_loss(self) -> UserStats {
        UserStats {
            total_wins: self.total_wins,
            total_losses: (self.total_losses + 1) as u32,
            current_streak: 0,
            best_streak: self.best_streak,
        }
    }

    /// Counts one more win, or reports that a counter is full.
    pub fn after_win(self) -> (next: Option<UserStats>)
        ensures
            next == (if self.can_win() {
                Some(self.spec_after_win())
            } else {
                None
            }),
    {
        if self.total_wins == u32::MAX || self.current_streak == u32::MAX {
            return None;
        }
        let streak: u32 = self.current_streak + 1;
        let best: u32 = if streak > self.best_streak {
            streak
        } else {
            self.best_streak
        };
        Some(
            UserStats {
                total_wins: self.total_wins + 1,
                total_losses: self.total_losses,
                current_streak: streak,
                best_streak: best,
            },
        )
    }

    /// Counts one more loss, or reports that the counter is full.
    pub fn after_loss(self) -> (next: Option<UserStats>)
        ensures
            next == (if self.can_lose() {
                Some(self.spec_after_loss())
            } else {
                None
            }),
    {
        if self.total_losses == u32::MAX {
            return None;
        }
        Some(
            UserStats {
                total_wins: self.total_wins,
                total_losses: self.total_losses + 1,
                current_streak: 0,
                best_streak: self.best_streak,
            },
        )
    }
}

impl Round {
    /// How `final_price` compares with the starting price, by strict numeric comparison.
    pub open spec fn spec_outcome(self, final_price: u128) -> Outcome {
        if final_price == self.price_start {
            Outcome::Unchanged
        } else if final_price > self.price_start {
            Outcome::Up
        } else {
            Outcome::Down
        }
    }

    /// How `final_price` compares with the starting price, by strict numeric comparison.
    #[verifier::when_used_as_spec(spec_outcome)]
    pub fn outcome(self, final_price: u128) -> (outcome: Outcome)
        ensures
            outcome == self.spec_outcome(final_price),
    {
        if final_price == self.price_start {
            Outcome::Unchanged
        } else if final_price > self.price_start {
            Outcome::Up
        } else {
            Outcome::Down
        }
    }

    /// The pool staked on `side`.
    pub open spec fn spec_pool(self, side: BetSide) -> i128 {
        match side {
            BetSide::Up => self.pool_up,
            BetSide::Down => self.pool_down,
        }
    }

    /// The pool staked on `side`.
    #[verifier::when_used_as_spec(spec_pool)]
    pub fn pool(self, side: BetSide) -> (pool: i128)
        ensures
            pool == self.spec_pool(side),
    {
        match side {
            BetSide::Up => self.pool_up,
            BetSide::Down => self.pool_down,
        }
    }
}

impl BetSide {
    /// The other side.
    pub open spec fn spec_opposite(self) -> BetSide {
        match self {
            BetSide::Up => BetSide::Down,
            BetSide::Down => BetSide::Up,
        }
    }

    /// The other side.
    #[verifier::when_used_as_spec(spec_opposite)]
    pub fn opposite(self) -> (other: BetSide)
        ensures
            other == self.spec_opposite(),
    {
        match self {
            BetSide::Up => BetSide::Down,
            BetSide::Down => BetSide::Up,
        }
    }
}

} // verus!
