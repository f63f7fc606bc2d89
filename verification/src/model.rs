//! The mathematical model of the ledger, and what each operation does to it.
//!
//! Every operation of the contract is described here twice over: by the result it
//! returns for a given state and arguments, and by the state it leaves on success.
//! A refused operation leaves the state as it was.

use vstd::prelude::*;
use crate::errors::ContractError;
use crate::payout::{payout_fits, spec_payout};
use crate::types::{
    Address, BetSide, DataKey, Outcome, PrecisionPrediction, PriceGuess, Round, RoundMode,
    UserPosition, UserStats,
};

verus! {

/// What the faucet gives a principal once: 1000 units at seven decimals.
pub const FAUCET_AMOUNT: i128 = 10_000_000_000;

/// The longest duration of a round, in ledgers.
pub const MAX_DURATION_LEDGERS: u32 = 100_000;

/// Predicted prices carry four decimals and stay below this bound.
pub const PRICE_SCALE_LIMIT: u128 = 100_000;

/// Everything the ledger persists, as mathematical values.
#[verifier::ext_equal]
pub struct LedgerState {
    /// Who may open rounds; set once.
    pub admin: Option<Address>,
    /// Who may settle rounds; set once.
    pub oracle: Option<Address>,
    /// Spendable tokens per principal.
    pub balances: Map<Address, i128>,
    /// The open round, if any.
    pub round: Option<Round>,
    /// The directional stakes of the position book.
    pub positions: Map<Address, UserPosition>,
    /// The holders of those stakes, in the order in which they bet.
    pub bettors: Seq<Address>,
    /// The precision stakes of the open round.
    pub predictions: Map<Address, PriceGuess>,
    /// The holders of those stakes, in the order in which they guessed.
    pub predictors: Seq<Address>,
    /// Winnings and refunds that were accrued and not yet claimed.
    pub pending: Map<Address, i128>,
    /// Win and loss counters per principal.
    pub stats: Map<Address, UserStats>,
}

/// The sum of the stakes that `bettors` hold on `side`.
pub open spec fn stake_total(
    bettors: Seq<Address>,
    positions: Map<Address, UserPosition>,
    side: BetSide,
) -> int
    decreases bettors.len(),
{
    if bettors.len() == 0 {
        0
    } else {
        let last = bettors.last();
        stake_total(bettors.drop_last(), positions, side) + (if positions[last].side == side {
            positions[last].amount as int
        } else {
            0
        })
    }
}

/// The sum over `who` of what each principal's pending winnings grew by from `before`
/// to `after`, an absent entry counting as zero.
pub open spec fn accrued_total(
    who: Seq<Address>,
    before: Map<Address, i128>,
    after: Map<Address, i128>,
) -> int
    decreases who.len(),
{
    if who.len() == 0 {
        0
    } else {
        let last = who.last();
        accrued_total(who.drop_last(), before, after) + amount_or_zero(after, last)
            - amount_or_zero(before, last)
    }
}

/// The amount under `who`, an absent entry counting as zero.
pub open spec fn amount_or_zero(amounts: Map<Address, i128>, who: Address) -> int {
    if amounts.dom().contains(who) {
        amounts[who] as int
    } else {
        0
    }
}

/// The counters under `who`, an absent entry counting as all zero.
pub open spec fn stats_or_zero(stats: Map<Address, UserStats>, who: Address) -> UserStats {
    if stats.dom().contains(who) {
        stats[who]
    } else {
        UserStats::spec_zero()
    }
}

/// Whether the holder of `position`, with `pending` winnings and the counters `stats`,
/// can be settled: a winner's payout can be computed and added to the pending winnings
/// and the win counted; a loser's loss can be counted.
pub open spec fn holder_fits(
    position: UserPosition,
    pending: int,
    stats: UserStats,
    winning_side: BetSide,
    winning_pool: i128,
    losing_pool: i128,
) -> bool {
    if position.side == winning_side {
        &&& payout_fits(position.amount as int, winning_pool as int, losing_pool as int)
        &&& pending + spec_payout(position.amount as int, winning_pool as int, losing_pool as int)
            <= i128::MAX
        &&& stats.can_win()
    } else {
        stats.can_lose()
    }
}

/// What settling that holder leaves: for a winner the pending winnings with the payout
/// added and one more win, for a loser the pending winnings as they were and one more
/// loss; nothing where the holder cannot be settled.
pub open spec fn holder_settled(
    position: UserPosition,
    pending: i128,
    stats: UserStats,
    winning_side: BetSide,
    winning_pool: i128,
    losing_pool: i128,
) -> Option<(i128, UserStats)> {
    if !holder_fits(position, pending as int, stats, winning_side, winning_pool, losing_pool) {
        None
    } else if position.side == winning_side {
        Some(
            (
                (pending + spec_payout(
                    position.amount as int,
                    winning_pool as int,
                    losing_pool as int,
                )) as i128,
                stats.spec_after_win(),
            ),
        )
    } else {
        Some((pending, stats.spec_after_loss()))
    }
}

impl LedgerState {
    /// The state before anything happened: nothing is set and every book is empty.
    pub open spec fn empty() -> LedgerState {
        LedgerState {
            admin: None,
            oracle: None,
            balances: Map::empty(),
            round: None,
            positions: Map::empty(),
            bettors: Seq::empty(),
            predictions: Map::empty(),
            predictors: Seq::empty(),
            pending: Map::empty(),
            stats: Map::empty(),
        }
    }

    /// Whether an entry is stored under `key`. A book of stakes is stored while it
    /// has a holder.
    pub open spec fn has(self, key: DataKey) -> bool {
        match key {
            DataKey::Balance(user) => self.balances.dom().contains(user),
            DataKey::Admin => self.admin is Some,
            DataKey::Oracle => self.oracle is Some,
            DataKey::ActiveRound => self.round is Some,
            DataKey::Positions => self.bettors.len() > 0,
            DataKey::Predictions => self.predictors.len() > 0,
            DataKey::PendingWinnings(user) => self.pending.dom().contains(user),
            DataKey::UserStats(user) => self.stats.dom().contains(user),
        }
    }

    /// The spendable balance of `user`: zero where there is no entry.
    pub open spec fn balance_of(self, user: Address) -> int {
        amount_or_zero(self.balances, user)
    }

    /// The unclaimed winnings of `user`: zero where there is no entry.
    pub open spec fn pending_of(self, user: Address) -> int {
        amount_or_zero(self.pending, user)
    }

    /// The counters of `user`: all zero where there is no entry.
    pub open spec fn stats_of(self, user: Address) -> UserStats {
        stats_or_zero(self.stats, user)
    }

    /// The stake of `user` in the open round: none where no round is open or `user`
    /// has not bet.
    pub open spec fn position_of(self, user: Address) -> Option<UserPosition> {
        if self.round is Some && self.positions.dom().contains(user) {
            Some(self.positions[user])
        } else {
            None
        }
    }

    /// The prediction that `user` holds in the book, with its holder.
    pub open spec fn prediction_entry(self, user: Address) -> PrecisionPrediction {
        PrecisionPrediction {
            user,
            predicted_price: self.predictions[user].predicted_price,
            amount: self.predictions[user].amount,
        }
    }

    /// The prediction of `user` in the open round: none where no round is open or
    /// `user` has not made one.
    pub open spec fn prediction_of(self, user: Address) -> Option<PrecisionPrediction> {
        if self.round is Some && self.predictions.dom().contains(user) {
            Some(self.prediction_entry(user))
        } else {
            None
        }
    }

    /// The predictions of the open round in the order in which they were made: none
    /// where no round is open.
    pub open spec fn prediction_list(self) -> Seq<PrecisionPrediction> {
        if self.round is Some {
            Seq::new(self.predictors.len(), |i: int| self.prediction_entry(self.predictors[i]))
        } else {
            Seq::empty()
        }
    }

    /// The data invariants of single entries: stakes are positive, balances, pending
    /// winnings and pools are not negative, and each book lists every holder exactly
    /// once. That each pool equals the sum of the stakes on its side is stated apart,
    /// as `conserved()`: `create_round` establishes it and every operation keeps it,
    /// while settlement also serves a state whose pools were written by hand.
    pub open spec fn valid(self) -> bool {
        &&& self.bettors.no_duplicates()
        &&& forall|p: Address| self.positions.dom().contains(p) <==> self.bettors.contains(p)
        &&& self.predictors.no_duplicates()
        &&& forall|p: Address| self.predictions.dom().contains(p) <==> self.predictors.contains(p)
        &&& forall|p: Address| #[trigger]
            self.positions.dom().contains(p) ==> self.positions[p].amount > 0
        &&& forall|p: Address| #[trigger]
            self.predictions.dom().contains(p) ==> self.predictions[p].amount > 0
        &&& forall|p: Address| #[trigger] self.balances.dom().contains(p) ==> self.balances[p] >= 0
        &&& forall|p: Address| #[trigger] self.pending.dom().contains(p) ==> self.pending[p] >= 0
        &&& self.round matches Some(round) ==> round.pool_up >= 0 && round.pool_down >= 0
    }

    /// Pool conservation: each pool of the open round equals the sum of the stakes
    /// that the position book holds on that side.
    pub open spec fn conserved(self) -> bool {
        self.round matches Some(round) ==> {
            &&& round.pool_up == stake_total(self.bettors, self.positions, BetSide::Up)
            &&& round.pool_down == stake_total(self.bettors, self.positions, BetSide::Down)
        }
    }

    // ----- initialisation -----
    /// `initialize` is refused once an admin is set, and accepted otherwise.
    pub open spec fn initialize_result(self) -> Result<(), ContractError> {
        if self.admin is Some {
            Err(ContractError::AlreadyInitialized)
        } else {
            Ok(())
        }
    }

    /// An accepted `initialize` sets both roles and nothing else.
    pub open spec fn initialize_state(self, admin: Address, oracle: Address) -> LedgerState {
        LedgerState { admin: Some(admin), oracle: Some(oracle), ..self }
    }

    // ----- faucet -----
    /// `mint_initial` returns the balance that is there, or the faucet amount for a
    /// principal without an entry.
    pub open spec fn mint_value(self, user: Address) -> i128 {
        if self.balances.dom().contains(user) {
            self.balances[user]
        } else {
            FAUCET_AMOUNT
        }
    }

    /// `mint_initial` creates the entry of a principal that has none, and changes
    /// nothing for one that has.
    pub open spec fn mint_state(self, user: Address) -> LedgerState {
        if self.balances.dom().contains(user) {
            self
        } else {
            LedgerState { balances: self.balances.insert(user, FAUCET_AMOUNT), ..self }
        }
    }

    // ----- rounds -----
    /// Whose authorisation `create_round` demands: the admin's, once the price and the
    /// duration have passed their checks.
    pub open spec fn create_round_signer(self, start_price: u128, duration_ledgers: u32) -> Option<
        Address,
    > {
        if start_price == 0 || duration_ledgers == 0 || duration_ledgers > MAX_DURATION_LEDGERS {
            None
        } else {
            self.admin
        }
    }

    /// `create_round` checks, in this order: the price, the duration, that an admin is
    /// set, and that the end of the round fits in the ledger counter.
    pub open spec fn create_round_result(
        self,
        sequence: u32,
        start_price: u128,
        duration_ledgers: u32,
    ) -> Result<(), ContractError> {
        if start_price == 0 {
            Err(ContractError::InvalidPrice)
        } else if duration_ledgers == 0 || duration_ledgers > MAX_DURATION_LEDGERS {
            Err(ContractError::InvalidDuration)
        } else if self.admin is None {
            Err(ContractError::AdminNotSet)
        } else if sequence + duration_ledgers > u32::MAX {
            Err(ContractError::Overflow)
        } else {
            Ok(())
        }
    }

    /// The round that `create_round` opens: empty pools, ending `duration_ledgers`
    /// after `sequence`, in the mode asked for or else directional.
    pub open spec fn fresh_round(
        sequence: u32,
        start_price: u128,
        duration_ledgers: u32,
        mode: Option<RoundMode>,
    ) -> Round {
        Round {
            price_start: start_price,
            end_ledger: (sequence + duration_ledgers) as u32,
            pool_up: 0,
            pool_down: 0,
            mode: match mode {
                Some(m) => m,
                None => RoundMode::UpDown,
            },
        }
    }

    /// An accepted `create_round` replaces whatever round was open by a fresh one with
    /// empty books: positions and predictions belong to the round in which they were
    /// made, so those of a round that is replaced are gone with it, and no stake of
    /// theirs is returned. Balances, pending winnings, counters and roles stay.
    pub open spec fn create_round_state(
        self,
        sequence: u32,
        start_price: u128,
        duration_ledgers: u32,
        mode: Option<RoundMode>,
    ) -> LedgerState {
        LedgerState {
            round: Some(Self::fresh_round(sequence, start_price, duration_ledgers, mode)),
            positions: Map::empty(),
            bettors: Seq::empty(),
            predictions: Map::empty(),
            predictors: Seq::empty(),
            ..self
        }
    }

    // ----- stakes -----
    /// `place_bet` checks, in this order: the amount, that a round is open, that the
    /// round is directional, that it has not ended, the balance, that the principal
    /// has no stake yet, and that the pool can take the stake.
    pub open spec fn place_bet_result(
        self,
        sequence: u32,
        user: Address,
        amount: i128,
        side: BetSide,
    ) -> Result<(), ContractError> {
        if amount <= 0 {
            Err(ContractError::InvalidBetAmount)
        } else if self.round is None {
            Err(ContractError::NoActiveRound)
        } else if self.round->0.mode != RoundMode::UpDown {
            Err(ContractError::WrongModeForPrediction)
        } else if sequence >= self.round->0.end_ledger {
            Err(ContractError::RoundEnded)
        } else if self.balance_of(user) < amount {
            Err(ContractError::InsufficientBalance)
        } else if self.positions.dom().contains(user) {
            Err(ContractError::AlreadyBet)
        } else if self.round->0.spec_pool(side) + amount > i128::MAX {
            Err(ContractError::Overflow)
        } else {
            Ok(())
        }
    }

    /// The open round with `amount` added to the pool of `side`.
    pub open spec fn round_with_stake(round: Round, amount: i128, side: BetSide) -> Round {
        match side {
            BetSide::Up => Round { pool_up: (round.pool_up + amount) as i128, ..round },
            BetSide::Down => Round { pool_down: (round.pool_down + amount) as i128, ..round },
        }
    }

    /// An accepted `place_bet` takes the stake from the balance, writes the position
    /// and adds the stake to the pool of its side, all three together.
    pub open spec fn place_bet_state(self, user: Address, amount: i128, side: BetSide) -> LedgerState {
        LedgerState {
            balances: self.balances.insert(user, (self.balance_of(user) - amount) as i128),
            positions: self.positions.insert(user, UserPosition { amount, side }),
            bettors: self.bettors.push(user),
            round: Some(Self::round_with_stake(self.round->0, amount, side)),
            ..self
        }
    }

    /// `predict_price` checks, in this order: the amount, that a round is open, that
    /// the round takes predictions, the scale of the price, that the round has not
    /// ended, the balance, and that the principal has no prediction yet.
    pub open spec fn predict_price_result(
        self,
        sequence: u32,
        user: Address,
        predicted_price: u128,
        amount: i128,
    ) -> Result<(), ContractError> {
        if amount <= 0 {
            Err(ContractError::InvalidBetAmount)
        } else if self.round is None {
            Err(ContractError::NoActiveRound)
        } else if self.round->0.mode != RoundMode::Precision {
            Err(ContractError::WrongModeForPrediction)
        } else if predicted_price >= PRICE_SCALE_LIMIT {
            Err(ContractError::InvalidPriceScale)
        } else if sequence >= self.round->0.end_ledger {
            Err(ContractError::RoundEnded)
        } else if self.balance_of(user) < amount {
            Err(ContractError::InsufficientBalance)
        } else if self.predictions.dom().contains(user) {
            Err(ContractError::AlreadyBet)
        } else {
            Ok(())
        }
    }

    /// An accepted `predict_price` takes the stake from the balance and appends the
    /// prediction to the list.
    pub open spec fn predict_price_state(
        self,
        user: Address,
        predicted_price: u128,
        amount: i128,
    ) -> LedgerState {
        LedgerState {
            balances: self.balances.insert(user, (self.balance_of(user) - amount) as i128),
            predictions: self.predictions.insert(user, PriceGuess { predicted_price, amount }),
            predictors: self.predictors.push(user),
            ..self
        }
    }

    // ----- statistics -----
    /// `record_win` is refused only where a counter is full.
    pub open spec fn record_win_result(self, user: Address) -> Result<(), ContractError> {
        if self.stats_of(user).can_win() {
            Ok(())
        } else {
            Err(ContractError::Overflow)
        }
    }

    /// An accepted `record_win` counts one more win for `user`.
    pub open spec fn record_win_state(self, user: Address) -> LedgerState {
        LedgerState { stats: self.stats.insert(user, self.stats_of(user).spec_after_win()), ..self }
    }

    /// `record_loss` is refused only where the counter is full.
    pub open spec fn record_loss_result(self, user: Address) -> Result<(), ContractError> {
        if self.stats_of(user).can_lose() {
            Ok(())
        } else {
            Err(ContractError::Overflow)
        }
    }

    /// An accepted `record_loss` counts one more loss for `user`.
    pub open spec fn record_loss_state(self, user: Address) -> LedgerState {
        LedgerState {
            stats: self.stats.insert(user, self.stats_of(user).spec_after_loss()),
            ..self
        }
    }

    // ----- settlement -----
    /// Whether the refund of `p`'s stake can be added to `p`'s pending winnings.
    pub open spec fn refund_fits(self, p: Address) -> bool {
        self.pending_of(p) + self.positions[p].amount <= i128::MAX
    }

    /// A refund is refused only where some holder's pending winnings cannot take the
    /// stake.
    pub open spec fn record_refunds_result(self) -> Result<(), ContractError> {
        if forall|p: Address| #[trigger] self.positions.dom().contains(p) ==> self.refund_fits(p) {
            Ok(())
        } else {
            Err(ContractError::Overflow)
        }
    }

    /// The pending winnings after a refund: every holder of a position has the exact
    /// stake added, on whichever side it stood; nobody else changes.
    pub open spec fn refunded_pending(self) -> Map<Address, i128> {
        Map::new(
            |p: Address| self.pending.dom().contains(p) || self.positions.dom().contains(p),
            |p: Address|
                if self.positions.dom().contains(p) {
                    (self.pending_of(p) + self.positions[p].amount) as i128
                } else {
                    self.pending[p]
                },
        )
    }

    /// An accepted refund changes the pending winnings and nothing else.
    pub open spec fn record_refunds_state(self) -> LedgerState {
        LedgerState { pending: self.refunded_pending(), ..self }
    }

    /// Whether `p`, a holder of a position, can be settled: a winner's payout can be
    /// computed and added to the pending winnings and the win counted; a loser's loss
    /// can be counted.
    pub open spec fn settlement_fits(
        self,
        p: Address,
        winning_side: BetSide,
        winning_pool: i128,
        losing_pool: i128,
    ) -> bool {
        holder_fits(
            self.positions[p],
            self.pending_of(p),
            self.stats_of(p),
            winning_side,
            winning_pool,
            losing_pool,
        )
    }

    /// With an empty winning pool nothing is computed and nothing can fail. Otherwise
    /// the settlement is refused only where some holder cannot be settled.
    pub open spec fn record_winnings_result(
        self,
        winning_side: BetSide,
        winning_pool: i128,
        losing_pool: i128,
    ) -> Result<(), ContractError> {
        if winning_pool == 0 || forall|p: Address| #[trigger]
            self.positions.dom().contains(p) ==> self.settlement_fits(
                p,
                winning_side,
                winning_pool,
                losing_pool,
            ) {
            Ok(())
        } else {
            Err(ContractError::Overflow)
        }
    }

    /// The pending winnings after a directional settlement: every winner has the stake
    /// and the share of the losing pool added; nobody else changes.
    pub open spec fn settled_pending(
        self,
        winning_side: BetSide,
        winning_pool: i128,
        losing_pool: i128,
    ) -> Map<Address, i128> {
        Map::new(
            |p: Address|
                self.pending.dom().contains(p) || (self.positions.dom().contains(p)
                    && self.positions[p].side == winning_side),
            |p: Address|
                if self.positions.dom().contains(p) && self.positions[p].side == winning_side {
                    (self.pending_of(p) + spec_payout(
                        self.positions[p].amount as int,
                        winning_pool as int,
                        losing_pool as int,
                    )) as i128
                } else {
                    self.pending[p]
                },
        )
    }

    /// The counters after a directional settlement: every winner has a win counted,
    /// every other holder of a position a loss; nobody else changes.
    pub open spec fn settled_stats(self, winning_side: BetSide) -> Map<Address, UserStats> {
        Map::new(
            |p: Address| self.stats.dom().contains(p) || self.positions.dom().contains(p),
            |p: Address|
                if self.positions.dom().contains(p) {
                    if self.positions[p].side == winning_side {
                        self.stats_of(p).spec_after_win()
                    } else {
                        self.stats_of(p).spec_after_loss()
                    }
                } else {
                    self.stats[p]
                },
        )
    }

    /// An accepted directional settlement changes pending winnings and counters, and
    /// with an empty winning pool it changes nothing at all.
    pub open spec fn record_winnings_state(
        self,
        winning_side: BetSide,
        winning_pool: i128,
        losing_pool: i128,
    ) -> LedgerState {
        if winning_pool == 0 {
            self
        } else {
            LedgerState {
                pending: self.settled_pending(winning_side, winning_pool, losing_pool),
                stats: self.settled_stats(winning_side),
                ..self
            }
        }
    }

    /// Whose authorisation `resolve_round` demands: the oracle's, once the price has
    /// passed its check.
    pub open spec fn resolve_round_signer(self, final_price: u128) -> Option<Address> {
        if final_price == 0 {
            None
        } else {
            self.oracle
        }
    }

    /// The accruals of a settlement at `final_price`, before the round is cleared:
    /// refunds where the price did not move, else winnings for the side that the price
    /// moved to.
    pub open spec fn accrual_result(self, final_price: u128) -> Result<(), ContractError> {
        let round = self.round->0;
        match round.spec_outcome(final_price) {
            Outcome::Unchanged => self.record_refunds_result(),
            Outcome::Up => self.record_winnings_result(BetSide::Up, round.pool_up, round.pool_down),
            Outcome::Down => self.record_winnings_result(
                BetSide::Down,
                round.pool_down,
                round.pool_up,
            ),
        }
    }

    /// The state that those accruals leave.
    pub open spec fn accrual_state(self, final_price: u128) -> LedgerState {
        let round = self.round->0;
        match round.spec_outcome(final_price) {
            Outcome::Unchanged => self.record_refunds_state(),
            Outcome::Up => self.record_winnings_state(BetSide::Up, round.pool_up, round.pool_down),
            Outcome::Down => self.record_winnings_state(
                BetSide::Down,
                round.pool_down,
                round.pool_up,
            ),
        }
    }

    /// `resolve_round` checks, in this order: the price, that an oracle is set, that a
    /// round is open, and that every accrual fits.
    pub open spec fn resolve_round_result(self, final_price: u128) -> Result<(), ContractError> {
        if final_price == 0 {
            Err(ContractError::InvalidPrice)
        } else if self.oracle is None {
            Err(ContractError::OracleNotSet)
        } else if self.round is None {
            Err(ContractError::NoActiveRound)
        } else {
            self.accrual_result(final_price)
        }
    }

    /// The state with the round removed and both books of stakes cleared.
    pub open spec fn cleared(self) -> LedgerState {
        LedgerState {
            round: None,
            positions: Map::empty(),
            bettors: Seq::empty(),
            predictions: Map::empty(),
            predictors: Seq::empty(),
            ..self
        }
    }

    /// An accepted `resolve_round` accrues refunds or winnings, then removes the round
    /// and clears the books.
    pub open spec fn resolve_round_state(self, final_price: u128) -> LedgerState {
        self.accrual_state(final_price).cleared()
    }

    // ----- claims -----
    /// `claim_winnings` returns what was pending, zero included, and is refused only
    /// where the balance cannot take it.
    pub open spec fn claim_result(self, user: Address) -> Result<i128, ContractError> {
        if self.pending_of(user) == 0 {
            Ok(0i128)
        } else if self.balance_of(user) + self.pending_of(user) > i128::MAX {
            Err(ContractError::Overflow)
        } else {
            Ok(self.pending_of(user) as i128)
        }
    }

    /// An accepted claim of a non-zero amount moves it into the balance and removes
    /// the pending entry; a claim of zero changes nothing.
    pub open spec fn claim_state(self, user: Address) -> LedgerState {
        if self.pending_of(user) == 0 {
            self
        } else {
            LedgerState {
                balances: self.balances.insert(
                    user,
                    (self.balance_of(user) + self.pending_of(user)) as i128,
                ),
                pending: self.pending.remove(user),
                ..self
            }
        }
    }
}

} // verus!
