//! The ledger itself: the persisted state and the operations on it.

use vstd::prelude::*;
use crate::address_map::AddressMap;
use crate::context::CallContext;
use crate::errors::ContractError;
use crate::laws::law_bet_keeps_pools_conserved;
use crate::model::{LedgerState, FAUCET_AMOUNT, MAX_DURATION_LEDGERS, PRICE_SCALE_LIMIT};
use crate::types::{
    Address, Amount, BetSide, DataKey, PrecisionPrediction, PriceGuess, Round, RoundMode,
    UserPosition, UserStats,
};

verus! {

/// The persisted state of the market, one field per kind of entry.
///
/// The fields are public so that a host can load and store them as they are. Every
/// operation that changes the state asks for `wf()`, which `new` establishes and
/// every operation keeps; `is_well_formed` tests it at run time.
#[derive(Debug)]
pub struct VirtualTokenContract {
    /// Who may open rounds.
    pub admin: Option<Address>,
    /// Who may settle rounds.
    pub oracle: Option<Address>,
    /// Spendable tokens per principal.
    pub balances: AddressMap<i128>,
    /// The open round, if any.
    pub round: Option<Round>,
    /// The directional stakes of the open round.
    pub positions: AddressMap<UserPosition>,
    /// The precision stakes of the open round.
    pub predictions: AddressMap<PriceGuess>,
    /// Winnings and refunds accrued and not yet claimed.
    pub pending: AddressMap<i128>,
    /// Win and loss counters per principal.
    pub stats: AddressMap<UserStats>,
}

impl View for VirtualTokenContract {
    type V = LedgerState;

    open spec fn view(&self) -> LedgerState {
        LedgerState {
            admin: self.admin,
            oracle: self.oracle,
            balances: self.balances@,
            round: self.round,
            positions: self.positions@,
            bettors: self.positions.order(),
            predictions: self.predictions@,
            predictors: self.predictions.order(),
            pending: self.pending@,
            stats: self.stats@,
        }
    }
}

/// The first holder in `book` whose amount is below `least`, if there is one.
fn first_below<V: Amount>(book: &AddressMap<V>, least: i128) -> (found: Option<Address>)
    ensures
        match found {
            Some(p) => book@.dom().contains(p) && book@[p].spec_tokens() < least,
            None => forall|p: Address| #[trigger]
                book@.dom().contains(p) ==> book@[p].spec_tokens() >= least,
        },
{
    book.affirm();
    proof {
        book.lemma_order();
    }
    let n: usize = book.len();
    let mut i: usize = 0;
    while i < n
        invariant
            book.wf(),
            n == book.order().len(),
            i <= n,
            forall|j: int| 0 <= j < i ==> book@[#[trigger] book.order()[j]].spec_tokens() >= least,
        decreases n - i,
    {
        let (holder, value) = book.entry_at(i);
        if value.tokens() < least {
            return Some(holder);
        }
        i += 1;
    }
    proof {
        assert forall|p: Address| #[trigger] book@.dom().contains(p) implies book@[p].spec_tokens()
            >= least by {
            assert(book.order().contains(p));
            let j = book.order().index_of(p);
            assert(book.order()[j] == p);
        }
    }
    None
}

impl VirtualTokenContract {
    /// The data invariants of the model hold of this ledger.
    pub open spec fn wf(&self) -> bool {
        self@.valid()
    }

    /// Does nothing at run time; tells the verifier that both books of stakes list each
    /// of their holders exactly once.
    pub(crate) fn affirm_books(&self)
        ensures
            self@.bettors.no_duplicates(),
            forall|p: Address| self@.positions.dom().contains(p) <==> self@.bettors.contains(p),
            self@.predictors.no_duplicates(),
            forall|p: Address| self@.predictions.dom().contains(p) <==> self@.predictors.contains(p),
    {
        self.positions.affirm();
        self.predictions.affirm();
        proof {
            self.positions.lemma_order();
            self.predictions.lemma_order();
        }
    }

    /// A ledger on which nothing has happened yet.
    pub fn new() -> (ledger: Self)
        ensures
            ledger.wf(),
            ledger@ == LedgerState::empty(),
    {
        let ledger = VirtualTokenContract {
            admin: None,
            oracle: None,
            balances: AddressMap::new(),
            round: None,
            positions: AddressMap::new(),
            predictions: AddressMap::new(),
            pending: AddressMap::new(),
            stats: AddressMap::new(),
        };
        ledger.affirm_books();
        ledger
    }

    /// Tests the data invariants at run time, for a state that was loaded or written
    /// field by field.
    pub fn is_well_formed(&self) -> (ok: bool)
        ensures
            ok == self.wf(),
    {
        self.affirm_books();
        if let Some(round) = self.round {
            if round.pool_up < 0 || round.pool_down < 0 {
                return false;
            }
        }
        let ghost state = self@;
        assert(state.positions == self.positions@ && state.predictions == self.predictions@
            && state.balances == self.balances@ && state.pending == self.pending@);
        if first_below(&self.positions, 1).is_some() {
            return false;
        }
        if first_below(&self.predictions, 1).is_some() {
            return false;
        }
        if first_below(&self.balances, 0).is_some() {
            return false;
        }
        first_below(&self.pending, 0).is_none()
    }

    // ----- reads -----
    /// Whether an entry is stored under `key`.
    pub fn has(&self, key: DataKey) -> (present: bool)
        ensures
            present == self@.has(key),
    {
        match key {
            DataKey::Balance(user) => self.balances.contains_key(user),
            DataKey::Admin => self.admin.is_some(),
            DataKey::Oracle => self.oracle.is_some(),
            DataKey::ActiveRound => self.round.is_some(),
            DataKey::Positions => !self.positions.is_empty(),
            DataKey::Predictions => !self.predictions.is_empty(),
            DataKey::PendingWinnings(user) => self.pending.contains_key(user),
            DataKey::UserStats(user) => self.stats.contains_key(user),
        }
    }

    /// The admin, if one is set.
    pub fn get_admin(&self) -> (admin: Option<Address>)
        ensures
            admin == self@.admin,
    {
        self.admin
    }

    /// The oracle, if one is set.
    pub fn get_oracle(&self) -> (oracle: Option<Address>)
        ensures
            oracle == self@.oracle,
    {
        self.oracle
    }

    /// The open round, if there is one.
    pub fn get_active_round(&self) -> (round: Option<Round>)
        ensures
            round == self@.round,
    {
        self.round
    }

    /// The spendable balance of `user`; zero for a principal without an entry.
    pub fn balance(&self, user: Address) -> (amount: i128)
        ensures
            amount == self@.balance_of(user),
    {
        match self.balances.get(user) {
            Some(amount) => amount,
            None => 0,
        }
    }

    /// The unclaimed winnings of `user`; zero for a principal without an entry.
    pub fn get_pending_winnings(&self, user: Address) -> (amount: i128)
        ensures
            amount == self@.pending_of(user),
    {
        match self.pending.get(user) {
            Some(amount) => amount,
            None => 0,
        }
    }

    /// The counters of `user`; all zero for a principal without an entry.
    pub fn get_user_stats(&self, user: Address) -> (stats: UserStats)
        ensures
            stats == self@.stats_of(user),
    {
        match self.stats.get(user) {
            Some(stats) => stats,
            None => UserStats::zero(),
        }
    }

    /// The stake of `user` in the open round; none where no round is open or `user`
    /// has not bet.
    pub fn get_user_position(&self, user: Address) -> (position: Option<UserPosition>)
        ensures
            position == self@.position_of(user),
    {
        if self.round.is_none() {
            return None;
        }
        self.positions.get(user)
    }

    /// The prediction of `user` in the open round; none where no round is open or
    /// `user` has not made one.
    pub fn get_user_precision_prediction(&self, user: Address) -> (prediction: Option<
        PrecisionPrediction,
    >)
        ensures
            prediction == self@.prediction_of(user),
    {
        if self.round.is_none() {
            return None;
        }
        match self.predictions.get(user) {
            Some(guess) => Some(
                PrecisionPrediction {
                    user,
                    predicted_price: guess.predicted_price,
                    amount: guess.amount,
                },
            ),
            None => None,
        }
    }

    /// The predictions of the open round in the order in which they were made; none
    /// where no round is open.
    pub fn get_precision_predictions(&self) -> (list: Vec<PrecisionPrediction>)
        ensures
            list@ == self@.prediction_list(),
    {
        let mut list: Vec<PrecisionPrediction> = Vec::new();
        if self.round.is_none() {
            proof {
                assert(list@ =~= self@.prediction_list());
            }
            return list;
        }
        let n: usize = self.predictions.len();
        let mut i: usize = 0;
        while i < n
            invariant
                n == self@.predictors.len(),
                i <= n,
                list@.len() == i,
                forall|j: int|
                    0 <= j < i ==> #[trigger] list@[j] == self@.prediction_entry(
                        self@.predictors[j],
                    ),
            decreases n - i,
        {
            let (user, guess) = self.predictions.entry_at(i);
            list.push(
                PrecisionPrediction {
                    user,
                    predicted_price: guess.predicted_price,
                    amount: guess.amount,
                },
            );
            i += 1;
        }
        proof {
            assert(list@ =~= self@.prediction_list());
        }
        list
    }

    // ----- balance ledger -----
    /// Overwrites the balance of `user` with `amount`, which the caller has validated.
    pub fn set_balance(&mut self, user: Address, amount: i128)
        requires
            old(self).wf(),
            amount >= 0,
        ensures
            final(self).wf(),
            final(self)@ == (LedgerState {
                balances: old(self)@.balances.insert(user, amount),
                ..old(self)@
            }),
            old(self)@.conserved() ==> final(self)@.conserved(),
    {
        self.balances.set(user, amount);
    }

    /// Gives `user` the faucet amount once: a principal that has a balance entry gets
    /// that balance back and nothing changes. `user` must have authorised the call.
    pub fn mint_initial(&mut self, context: &CallContext, user: Address) -> (amount: i128)
        requires
            old(self).wf(),
            context.authorized(user),
        ensures
            final(self).wf(),
            amount == old(self)@.mint_value(user),
            final(self)@ == old(self)@.mint_state(user),
            old(self)@.conserved() ==> final(self)@.conserved(),
    {
        match self.balances.get(user) {
            Some(existing) => existing,
            None => {
                self.balances.set(user, FAUCET_AMOUNT);
                FAUCET_AMOUNT
            },
        }
    }

    // ----- round manager -----
    /// Sets the admin and the oracle, once. `admin` must have authorised the call.
    pub fn initialize(&mut self, context: &CallContext, admin: Address, oracle: Address) -> (result:
        Result<(), ContractError>)
        requires
            old(self).wf(),
            context.authorized(admin),
        ensures
            final(self).wf(),
            result == old(self)@.initialize_result(),
            result is Ok ==> final(self)@ == old(self)@.initialize_state(admin, oracle),
            result is Err ==> *final(self) == *old(self),
            old(self)@.conserved() ==> final(self)@.conserved(),
    {
        if self.has(DataKey::Admin) {
            return Err(ContractError::AlreadyInitialized);
        }
        self.admin = Some(admin);
        self.oracle = Some(oracle);
        Ok(())
    }

    /// Whose authorisation `create_round` will demand for these arguments, if any.
    pub fn create_round_signer(&self, start_price: u128, duration_ledgers: u32) -> (signer: Option<
        Address,
    >)
        ensures
            signer == self@.create_round_signer(start_price, duration_ledgers),
    {
        if start_price == 0 || duration_ledgers == 0 || duration_ledgers > MAX_DURATION_LEDGERS {
            None
        } else {
            self.admin
        }
    }

    /// Opens a round that starts at `start_price` and takes stakes for
    /// `duration_ledgers` ledgers from now. Where the price and the duration are valid
    /// and an admin is set, the admin must have authorised the call.
    ///
    /// A round that is open is replaced without being settled: the new round starts
    /// with empty pools and empty books, so its pools equal the sums of its stakes. The
    /// positions and predictions of the round that is replaced are gone with it and
    /// their stakes are not returned. Settle a round before opening the next.
    pub fn create_round(
        &mut self,
        context: &CallContext,
        start_price: u128,
        duration_ledgers: u32,
        mode: Option<RoundMode>,
    ) -> (result: Result<(), ContractError>)
        requires
            old(self).wf(),
            old(self)@.create_round_signer(start_price, duration_ledgers) matches Some(admin)
                ==> context.authorized(admin),
        ensures
            final(self).wf(),
            result == old(self)@.create_round_result(
                context.sequence(),
                start_price,
                duration_ledgers,
            ),
            result is Ok ==> final(self)@ == old(self)@.create_round_state(
                context.sequence(),
                start_price,
                duration_ledgers,
                mode,
            ),
            result is Err ==> *final(self) == *old(self),
            result is Ok ==> final(self)@.conserved(),
            result is Ok ==> forall|user: Address| final(self)@.position_of(user) is None,
    {
        if start_price == 0 {
            return Err(ContractError::InvalidPrice);
        }
        if duration_ledgers == 0 || duration_ledgers > MAX_DURATION_LEDGERS {
            return Err(ContractError::InvalidDuration);
        }
        if self.admin.is_none() {
            return Err(ContractError::AdminNotSet);
        }
        let end_ledger: u32 = match context.ledger_sequence().checked_add(duration_ledgers) {
            Some(end) => end,
            None => {
                return Err(ContractError::Overflow);
            },
        };
        let mode: RoundMode = match mode {
            Some(m) => m,
            None => RoundMode::UpDown,
        };
        self.round = Some(
            Round { price_start: start_price, end_ledger, pool_up: 0, pool_down: 0, mode },
        );
        self.positions = AddressMap::new();
        self.predictions = AddressMap::new();
        self.affirm_books();
        Ok(())
    }

    // ----- position book -----
    /// Stakes `amount` of `user`'s balance on `side` in the open round. The balance,
    /// the position book and the pool change together or not at all. `user` must have
    /// authorised the call.
    pub fn place_bet(
        &mut self,
        context: &CallContext,
        user: Address,
        amount: i128,
        side: BetSide,
    ) -> (result: Result<(), ContractError>)
        requires
            old(self).wf(),
            context.authorized(user),
        ensures
            final(self).wf(),
            result == old(self)@.place_bet_result(context.sequence(), user, amount, side),
            result is Ok ==> final(self)@ == old(self)@.place_bet_state(user, amount, side),
            result is Err ==> *final(self) == *old(self),
            old(self)@.conserved() ==> final(self)@.conserved(),
    {
        if amount <= 0 {
            return Err(ContractError::InvalidBetAmount);
        }
        let round: Round = match self.round {
            Some(round) => round,
            None => {
                return Err(ContractError::NoActiveRound);
            },
        };
        if round.mode != RoundMode::UpDown {
            return Err(ContractError::WrongModeForPrediction);
        }
        if context.ledger_sequence() >= round.end_ledger {
            return Err(ContractError::RoundEnded);
        }
        let user_balance: i128 = self.balance(user);
        if user_balance < amount {
            return Err(ContractError::InsufficientBalance);
        }
        if self.positions.contains_key(user) {
            return Err(ContractError::AlreadyBet);
        }
        let pool: i128 = match round.pool(side).checked_add(amount) {
            Some(pool) => pool,
            None => {
                return Err(ContractError::Overflow);
            },
        };
        self.balances.set(user, user_balance - amount);
        self.positions.set(user, UserPosition { amount, side });
        self.round = Some(
            match side {
                BetSide::Up => Round { pool_up: pool, ..round },
                BetSide::Down => Round { pool_down: pool, ..round },
            },
        );
        self.affirm_books();
        proof {
            if old(self)@.conserved() {
                law_bet_keeps_pools_conserved(
                    old(self)@,
                    context.sequence(),
                    user,
                    amount,
                    side,
                );
            }
        }
        Ok(())
    }

    /// Stakes `amount` of `user`'s balance on the price `predicted_price`, given at
    /// four decimals, in the open precision round. `user` must have authorised the
    /// call.
    pub fn predict_price(
        &mut self,
        context: &CallContext,
        user: Address,
        predicted_price: u128,
        amount: i128,
    ) -> (result: Result<(), ContractError>)
        requires
            old(self).wf(),
            context.authorized(user),
        ensures
            final(self).wf(),
            result == old(self)@.predict_price_result(
                context.sequence(),
                user,
                predicted_price,
                amount,
            ),
            result is Ok ==> final(self)@ == old(self)@.predict_price_state(
                user,
                predicted_price,
                amount,
            ),
            result is Err ==> *final(self) == *old(self),
            old(self)@.conserved() ==> final(self)@.conserved(),
    {
        if amount <= 0 {
            return Err(ContractError::InvalidBetAmount);
        }
        let round: Round = match self.round {
            Some(round) => round,
            None => {
                return Err(ContractError::NoActiveRound);
            },
        };
        if round.mode != RoundMode::Precision {
            return Err(ContractError::WrongModeForPrediction);
        }
        if predicted_price >= PRICE_SCALE_LIMIT {
            return Err(ContractError::InvalidPriceScale);
        }
        if context.ledger_sequence() >= round.end_ledger {
            return Err(ContractError::RoundEnded);
        }
        let user_balance: i128 = self.balance(user);
        if user_balance < amount {
            return Err(ContractError::InsufficientBalance);
        }
        if self.predictions.contains_key(user) {
            return Err(ContractError::AlreadyBet);
        }
        self.balances.set(user, user_balance - amount);
        self.predictions.set(user, PriceGuess { predicted_price, amount });
        self.affirm_books();
        Ok(())
    }

    // ----- pending winnings -----
    /// Moves what is pending for `user` into the balance and returns it; with nothing
    /// pending it returns zero and changes nothing. `user` must have authorised the
    /// call.
    pub fn claim_winnings(&mut self, context: &CallContext, user: Address) -> (result: Result<
        i128,
        ContractError,
    >)
        requires
            old(self).wf(),
            context.authorized(user),
        ensures
            final(self).wf(),
            result == old(self)@.claim_result(user),
            result is Ok ==> final(self)@ == old(self)@.claim_state(user),
            result is Err ==> *final(self) == *old(self),
            old(self)@.conserved() ==> final(self)@.conserved(),
    {
        let pending: i128 = self.get_pending_winnings(user);
        if pending == 0 {
            return Ok(0);
        }
        let new_balance: i128 = match self.balance(user).checked_add(pending) {
            Some(sum) => sum,
            None => {
                return Err(ContractError::Overflow);
            },
        };
        self.balances.set(user, new_balance);
        self.pending.remove(user);
        Ok(pending)
    }

    // ----- statistics -----
    /// Counts a win for `user`: one more win, the streak one longer, and the best
    /// streak raised to the streak where the streak passes it.
    pub fn record_win(&mut self, user: Address) -> (result: Result<(), ContractError>)
        requires
            old(self).wf(),
        ensures
            final(self).wf(),
            result == old(self)@.record_win_result(user),
            result is Ok ==> final(self)@ == old(self)@.record_win_state(user),
            result is Err ==> *final(self) == *old(self),
            old(self)@.conserved() ==> final(self)@.conserved(),
    {
        match self.get_user_stats(user).after_win() {
            Some(next) => {
                self.stats.set(user, next);
                Ok(())
            },
            None => Err(ContractError::Overflow),
        }
    }

    /// Counts a loss for `user`: one more loss, and the streak back at zero.
    pub fn record_loss(&mut self, user: Address) -> (result: Result<(), ContractError>)
        requires
            old(self).wf(),
        ensures
            final(self).wf(),
            result == old(self)@.record_loss_result(user),
            result is Ok ==> final(self)@ == old(self)@.record_loss_state(user),
            result is Err ==> *final(self) == *old(self),
            old(self)@.conserved() ==> final(self)@.conserved(),
    {
        match self.get_user_stats(user).after_loss() {
            Some(next) => {
                self.stats.set(user, next);
                Ok(())
            },
            None => Err(ContractError::Overflow),
        }
    }
}

} // verus!
