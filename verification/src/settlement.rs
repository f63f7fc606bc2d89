//! Settlement: refunds, winnings, and the resolution of a round.

use vstd::prelude::*;
use crate::address_map::AddressMap;
use crate::context::CallContext;
use crate::contract::VirtualTokenContract;
use crate::errors::ContractError;
use crate::laws::law_resolution_pays_within_pools;
use crate::model::{accrued_total, holder_settled, LedgerState};
use crate::payout::payout;
use crate::types::{Address, BetSide, Outcome, Round, UserPosition, UserStats};

verus! {

/// The state with the position book cut down to its first `n` holders.
pub open spec fn first_bettors(state: LedgerState, n: int) -> LedgerState {
    LedgerState {
        positions: state.positions.restrict(state.bettors.take(n).to_set()),
        bettors: state.bettors.take(n),
        ..state
    }
}

/// Cutting the book down to all of its holders changes nothing.
pub proof fn lemma_first_bettors_all(state: LedgerState)
    requires
        state.valid(),
    ensures
        first_bettors(state, state.bettors.len() as int) == state,
{
    let n = state.bettors.len() as int;
    assert(state.bettors.take(n) =~= state.bettors);
    assert(state.positions.restrict(state.bettors.to_set()) =~= state.positions);
}

/// What one more holder adds to the cut-down book.
pub proof fn lemma_first_bettors_step(state: LedgerState, n: int)
    requires
        state.valid(),
        0 <= n < state.bettors.len(),
    ensures
        !first_bettors(state, n).positions.dom().contains(state.bettors[n]),
        first_bettors(state, n + 1).positions == first_bettors(state, n).positions.insert(
            state.bettors[n],
            state.positions[state.bettors[n]],
        ),
        state.positions.dom().contains(state.bettors[n]),
        forall|p: Address| #[trigger]
            first_bettors(state, n).positions.dom().contains(p) ==> state.positions.dom().contains(
                p,
            ) && first_bettors(state, n).positions[p] == state.positions[p],
{
    let user = state.bettors[n];
    let before = state.bettors.take(n);
    let after = state.bettors.take(n + 1);
    assert(state.bettors.contains(user));
    assert(after =~= before.push(user));
    if before.contains(user) {
        let j = before.index_of(user);
        assert(state.bettors[j] == user);
    }
    assert forall|p: Address| after.contains(p) == (before.contains(p) || p == user) by {
        if before.contains(p) {
            let j = before.index_of(p);
            assert(after[j] == p);
        }
        if p == user {
            assert(after[n] == p);
        }
    }
    assert(first_bettors(state, n + 1).positions =~= first_bettors(state, n).positions.insert(
        user,
        state.positions[user],
    ));
}

/// Settles one holder: what is then pending for the holder, and the holder's counters;
/// nothing where the payout, the pending winnings or a counter does not fit.
fn settle_holder(
    position: UserPosition,
    existing: i128,
    known: UserStats,
    winning_side: BetSide,
    winning_pool: i128,
    losing_pool: i128,
) -> (written: Option<(i128, UserStats)>)
    requires
        position.amount > 0,
        winning_pool > 0,
        losing_pool >= 0,
    ensures
        written == holder_settled(
            position,
            existing,
            known,
            winning_side,
            winning_pool,
            losing_pool,
        ),
{
    if position.side == winning_side {
        let owed: i128 = match payout(position.amount, winning_pool, losing_pool) {
            Ok(owed) => owed,
            Err(_) => {
                return None;
            },
        };
        let accrued: i128 = match existing.checked_add(owed) {
            Some(sum) => sum,
            None => {
                return None;
            },
        };
        match known.after_win() {
            Some(next) => Some((accrued, next)),
            None => None,
        }
    } else {
        match known.after_loss() {
            Some(next) => Some((existing, next)),
            None => None,
        }
    }
}

impl VirtualTokenContract {
    /// Refunds every stake of the position book into its holder's pending winnings,
    /// whichever side it stood on. Either every holder is refunded or nothing changes.
    pub fn record_refunds(&mut self) -> (result: Result<(), ContractError>)
        requires
            old(self).wf(),
        ensures
            final(self).wf(),
            result == old(self)@.record_refunds_result(),
            result is Ok ==> final(self)@ == old(self)@.record_refunds_state(),
            result is Err ==> *final(self) == *old(self),
            old(self)@.conserved() ==> final(self)@.conserved(),
    {
        let ghost state = self@;
        let mut pending: AddressMap<i128> = self.pending.duplicate();
        let n: usize = self.positions.len();
        let mut i: usize = 0;
        proof {
            assert(first_bettors(state, 0).positions =~= Map::<Address, UserPosition>::empty());
            assert(pending@ =~= first_bettors(state, 0).refunded_pending());
        }
        while i < n
            invariant
                *self == *old(self),
                self.wf(),
                state == self@,
                n == state.bettors.len(),
                i <= n,
                pending.wf(),
                pending@ == first_bettors(state, i as int).refunded_pending(),
                forall|p: Address| #[trigger]
                    first_bettors(state, i as int).positions.dom().contains(p)
                        ==> state.refund_fits(p),
                forall|p: Address| #[trigger] pending@.dom().contains(p) ==> pending@[p] >= 0,
            decreases n - i,
        {
            let (user, position) = self.positions.entry_at(i);
            proof {
                lemma_first_bettors_step(state, i as int);
            }
            let existing: i128 = match pending.get(user) {
                Some(amount) => amount,
                None => 0,
            };
            assert(existing == state.pending_of(user));
            let refunded: i128 = match existing.checked_add(position.amount) {
                Some(sum) => sum,
                None => {
                    proof {
                        assert(state.positions.dom().contains(user) && !state.refund_fits(user));
                    }
                    return Err(ContractError::Overflow);
                },
            };
            pending.set(user, refunded);
            proof {
                assert(pending@ =~= first_bettors(state, i + 1).refunded_pending());
            }
            i += 1;
        }
        proof {
            lemma_first_bettors_all(state);
        }
        self.pending = pending;
        Ok(())
    }

    /// Settles a directional outcome in which `winning_side` won. With an empty
    /// winning pool nothing happens. Otherwise every winner accrues the stake and the
    /// share of `losing_pool` and has a win counted, and every other holder has a loss
    /// counted. Either every holder is settled or nothing changes.
    pub fn record_winnings(
        &mut self,
        winning_side: BetSide,
        winning_pool: i128,
        losing_pool: i128,
    ) -> (result: Result<(), ContractError>)
        requires
            old(self).wf(),
            winning_pool >= 0,
            losing_pool >= 0,
        ensures
            final(self).wf(),
            result == old(self)@.record_winnings_result(winning_side, winning_pool, losing_pool),
            result is Ok ==> final(self)@ == old(self)@.record_winnings_state(
                winning_side,
                winning_pool,
                losing_pool,
            ),
            result is Err ==> *final(self) == *old(self),
            old(self)@.conserved() ==> final(self)@.conserved(),
    {
        if winning_pool == 0 {
            return Ok(());
        }
        let ghost state = self@;
        let mut pending: AddressMap<i128> = self.pending.duplicate();
        let mut stats: AddressMap<UserStats> = self.stats.duplicate();
        let n: usize = self.positions.len();
        let mut i: usize = 0;
        proof {
            assert(first_bettors(state, 0).positions =~= Map::<Address, UserPosition>::empty());
            assert(pending@ =~= first_bettors(state, 0).settled_pending(
                winning_side,
                winning_pool,
                losing_pool,
            ));
            assert(stats@ =~= first_bettors(state, 0).settled_stats(winning_side));
        }
        while i < n
            invariant
                *self == *old(self),
                self.wf(),
                state == self@,
                n == state.bettors.len(),
                i <= n,
                winning_pool > 0,
                losing_pool >= 0,
                pending.wf(),
                stats.wf(),
                pending@ == first_bettors(state, i as int).settled_pending(
                    winning_side,
                    winning_pool,
                    losing_pool,
                ),
                stats@ == first_bettors(state, i as int).settled_stats(winning_side),
                forall|p: Address| #[trigger]
                    first_bettors(state, i as int).positions.dom().contains(p)
                        ==> state.settlement_fits(p, winning_side, winning_pool, losing_pool),
                forall|p: Address| #[trigger] pending@.dom().contains(p) ==> pending@[p] >= 0,
            decreases n - i,
        {
            let (user, position) = self.positions.entry_at(i);
            proof {
                lemma_first_bettors_step(state, i as int);
            }
            let known: UserStats = match stats.get(user) {
                Some(counters) => counters,
                None => UserStats::zero(),
            };
            let existing: i128 = match pending.get(user) {
                Some(amount) => amount,
                None => 0,
            };
            assert(known == state.stats_of(user) && existing == state.pending_of(user));
            match settle_holder(position, existing, known, winning_side, winning_pool, losing_pool) {
                Some((accrued, next)) => {
                    if position.side == winning_side {
                        pending.set(user, accrued);
                    }
                    stats.set(user, next);
                },
                None => {
                    proof {
                        assert(state.positions.dom().contains(user) && !state.settlement_fits(
                            user,
                            winning_side,
                            winning_pool,
                            losing_pool,
                        ));
                    }
                    return Err(ContractError::Overflow);
                },
            }
            proof {
                assert(pending@ =~= first_bettors(state, i + 1).settled_pending(
                    winning_side,
                    winning_pool,
                    losing_pool,
                ));
                assert(stats@ =~= first_bettors(state, i + 1).settled_stats(winning_side));
            }
            i += 1;
        }
        proof {
            lemma_first_bettors_all(state);
        }
        self.pending = pending;
        self.stats = stats;
        Ok(())
    }

    /// Whose authorisation `resolve_round` will demand for this price, if any.
    pub fn resolve_round_signer(&self, final_price: u128) -> (signer: Option<Address>)
        ensures
            signer == self@.resolve_round_signer(final_price),
    {
        if final_price == 0 {
            None
        } else {
            self.oracle
        }
    }

    /// Settles the open round at `final_price`: refunds where the price did not move,
    /// winnings for the side that the price moved to otherwise; then removes the round
    /// and clears the books of stakes. A refused settlement changes nothing. Where the
    /// price is valid and an oracle is set, the oracle must have authorised the call.
    ///
    /// Only the position book is paid out. The predictions of a precision round go
    /// with the round: how they are ranked and paid is not defined by this ledger.
    pub fn resolve_round(&mut self, context: &CallContext, final_price: u128) -> (result: Result<
        (),
        ContractError,
    >)
        requires
            old(self).wf(),
            old(self)@.resolve_round_signer(final_price) matches Some(oracle)
                ==> context.authorized(oracle),
        ensures
            final(self).wf(),
            result == old(self)@.resolve_round_result(final_price),
            result is Ok ==> final(self)@ == old(self)@.resolve_round_state(final_price),
            result is Err ==> *final(self) == *old(self),
            result is Ok ==> final(self)@.conserved(),
            result is Ok ==> forall|user: Address| final(self)@.position_of(user) is None,
            result is Ok && old(self)@.conserved() ==> accrued_total(
                old(self)@.bettors,
                old(self)@.pending,
                final(self)@.pending,
            ) <= old(self)@.round->0.pool_up + old(self)@.round->0.pool_down,
    {
        proof {
            if old(self)@.conserved() && old(self)@.resolve_round_result(final_price) is Ok {
                law_resolution_pays_within_pools(old(self)@, final_price);
            }
        }
        if final_price == 0 {
            return Err(ContractError::InvalidPrice);
        }
        if self.oracle.is_none() {
            return Err(ContractError::OracleNotSet);
        }
        let round: Round = match self.round {
            Some(round) => round,
            None => {
                return Err(ContractError::NoActiveRound);
            },
        };
        let accrued: Result<(), ContractError> = match round.outcome(final_price) {
            Outcome::Unchanged => self.record_refunds(),
            Outcome::Up => self.record_winnings(BetSide::Up, round.pool_up, round.pool_down),
            Outcome::Down => self.record_winnings(BetSide::Down, round.pool_down, round.pool_up),
        };
        if accrued.is_err() {
            return Err(ContractError::Overflow);
        }
        self.round = None;
        self.positions = AddressMap::new();
        self.predictions = AddressMap::new();
        self.affirm_books();
        Ok(())
    }
}

} // verus!
