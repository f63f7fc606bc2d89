//! What holds of the ledger across operations, proved over the model.

use vstd::prelude::*;
use crate::errors::ContractError;
use crate::model::{accrued_total, amount_or_zero, stake_total, LedgerState};
use crate::payout::{lemma_share_bounds, spec_payout, spec_share};
use crate::types::{Address, BetSide, Outcome, RoundMode, UserPosition, UserStats};

verus! {

// ----- faucet -----
/// Minting twice gives the same balance both times, and the second call changes
/// nothing.
pub proof fn law_faucet_is_idempotent(state: LedgerState, user: Address)
    ensures
        state.mint_state(user).mint_value(user) == state.mint_value(user),
        state.mint_state(user).mint_state(user) == state.mint_state(user),
        state.mint_state(user).balance_of(user) == state.mint_value(user),
{
}

// ----- claims -----
/// After a claim that returned a positive amount, a second claim returns zero, and
/// the first has raised the balance by exactly the amount it returned.
pub proof fn law_claim_drains_once(state: LedgerState, user: Address, claimed: i128)
    requires
        state.claim_result(user) == Ok::<i128, ContractError>(claimed),
        claimed > 0,
    ensures
        state.claim_state(user).claim_result(user) == Ok::<i128, ContractError>(
            0i128,
        ),
        state.claim_state(user).claim_state(user) == state.claim_state(user),
        state.claim_state(user).balance_of(user) == state.balance_of(user) + claimed,
        state.claim_state(user).pending_of(user) == 0,
{
}

// ----- statistics -----
/// A win never lowers the best streak and a loss leaves it as it is; a loss ends the
/// streak, and a win right after a loss starts it at one.
pub proof fn law_streaks(stats: UserStats)
    ensures
        stats.can_win() ==> stats.spec_after_win().best_streak >= stats.best_streak,
        stats.can_win() ==> stats.spec_after_win().current_streak == stats.current_streak + 1,
        stats.spec_after_loss().best_streak == stats.best_streak,
        stats.spec_after_loss().current_streak == 0,
        stats.total_wins < u32::MAX ==> stats.spec_after_loss().can_win(),
        stats.spec_after_loss().spec_after_win().current_streak == 1,
{
}

/// The counters after a run of results, `true` for a win and `false` for a loss, each
/// counted as `record_win` and `record_loss` count it: a result that would overflow a
/// counter is refused and changes nothing.
pub open spec fn stats_after(stats: UserStats, results: Seq<bool>) -> UserStats
    decreases results.len(),
{
    if results.len() == 0 {
        stats
    } else {
        let before = stats_after(stats, results.drop_last());
        if results.last() {
            if before.can_win() {
                before.spec_after_win()
            } else {
                before
            }
        } else {
            if before.can_lose() {
                before.spec_after_loss()
            } else {
                before
            }
        }
    }
}

/// Over any run of wins and losses the best streak never falls: it is at least what
/// it was after any shorter run.
pub proof fn law_best_streak_never_falls(stats: UserStats, results: Seq<bool>, earlier: int)
    requires
        0 <= earlier <= results.len(),
    ensures
        stats_after(stats, results).best_streak >= stats_after(
            stats,
            results.take(earlier),
        ).best_streak,
    decreases results.len(),
{
    if earlier == results.len() {
        assert(results.take(earlier) =~= results);
    } else {
        let shorter = results.drop_last();
        assert(shorter.take(earlier) =~= results.take(earlier));
        law_best_streak_never_falls(stats, shorter, earlier);
        law_streaks(stats_after(stats, shorter));
    }
}

// ----- pool conservation -----
/// A sum of stakes only looks at the positions of the holders it runs over.
pub proof fn lemma_stake_total_agrees(
    bettors: Seq<Address>,
    first: Map<Address, UserPosition>,
    second: Map<Address, UserPosition>,
    side: BetSide,
)
    requires
        forall|i: int| 0 <= i < bettors.len() ==> first[#[trigger] bettors[i]] == second[bettors[i]],
    ensures
        stake_total(bettors, first, side) == stake_total(bettors, second, side),
    decreases bettors.len(),
{
    if bettors.len() > 0 {
        let shorter = bettors.drop_last();
        assert forall|i: int| 0 <= i < shorter.len() implies first[#[trigger] shorter[i]]
            == second[shorter[i]] by {
            assert(shorter[i] == bettors[i]);
        }
        lemma_stake_total_agrees(shorter, first, second, side);
        assert(bettors.last() == bettors[bettors.len() - 1]);
    }
}

/// A round that was just opened has conserved pools, whatever was open before: its
/// pools are empty and so is its position book. It keeps the data invariants.
pub proof fn law_fresh_round_is_conserved(
    state: LedgerState,
    sequence: u32,
    start_price: u128,
    duration_ledgers: u32,
    mode: Option<RoundMode>,
)
    ensures
        state.create_round_state(sequence, start_price, duration_ledgers, mode).conserved(),
        state.valid() ==> state.create_round_state(
            sequence,
            start_price,
            duration_ledgers,
            mode,
        ).valid(),
        forall|user: Address|
            state.create_round_state(sequence, start_price, duration_ledgers, mode).position_of(
                user,
            ) is None,
{
}

/// An accepted bet keeps the data invariants and the conservation of the pools.
pub proof fn law_bet_keeps_pools_conserved(
    state: LedgerState,
    sequence: u32,
    user: Address,
    amount: i128,
    side: BetSide,
)
    requires
        state.valid(),
        state.conserved(),
        state.place_bet_result(sequence, user, amount, side) is Ok,
    ensures
        state.place_bet_state(user, amount, side).valid(),
        state.place_bet_state(user, amount, side).conserved(),
{
    let after = state.place_bet_state(user, amount, side);
    assert(!state.bettors.contains(user));
    assert(after.bettors.drop_last() =~= state.bettors);
    assert(after.bettors.last() == user);
    assert forall|i: int| 0 <= i < state.bettors.len() implies after.positions[#[trigger] state.bettors[i]]
        == state.positions[state.bettors[i]] by {
        assert(state.bettors.contains(state.bettors[i]));
    }
    lemma_stake_total_agrees(state.bettors, after.positions, state.positions, BetSide::Up);
    lemma_stake_total_agrees(state.bettors, after.positions, state.positions, BetSide::Down);
    assert(after.bettors.no_duplicates()) by {
        assert forall|i: int, j: int|
            0 <= i < after.bettors.len() && 0 <= j < after.bettors.len() && i
                != j implies after.bettors[i] != after.bettors[j] by {
            if i < state.bettors.len() {
                assert(state.bettors.contains(after.bettors[i]));
            }
            if j < state.bettors.len() {
                assert(state.bettors.contains(after.bettors[j]));
            }
        }
    }
    assert forall|p: Address| after.positions.dom().contains(p) <==> after.bettors.contains(
        p,
    ) by {
        if state.bettors.contains(p) {
            let i = state.bettors.index_of(p);
            assert(after.bettors[i] == p);
        }
        if p == user {
            assert(after.bettors[state.bettors.len() as int] == p);
        }
    }
}

/// One bet as a caller submits it.
pub struct Bet {
    pub sequence: u32,
    pub user: Address,
    pub amount: i128,
    pub side: BetSide,
}

/// The state after a run of bets, each applied as `place_bet` applies it: an accepted
/// bet changes the state, a refused one does not.
pub open spec fn after_bets(state: LedgerState, bets: Seq<Bet>) -> LedgerState
    decreases bets.len(),
{
    if bets.len() == 0 {
        state
    } else {
        let before = after_bets(state, bets.drop_last());
        let bet = bets.last();
        if before.place_bet_result(bet.sequence, bet.user, bet.amount, bet.side) is Ok {
            before.place_bet_state(bet.user, bet.amount, bet.side)
        } else {
            before
        }
    }
}

/// After any run of bets on a state with conserved pools, each pool of the round
/// still equals the sum of the stakes on its side.
pub proof fn law_pools_conserved_over_bets(state: LedgerState, bets: Seq<Bet>)
    requires
        state.valid(),
        state.conserved(),
    ensures
        after_bets(state, bets).valid(),
        after_bets(state, bets).conserved(),
    decreases bets.len(),
{
    if bets.len() > 0 {
        law_pools_conserved_over_bets(state, bets.drop_last());
        let before = after_bets(state, bets.drop_last());
        let bet = bets.last();
        if before.place_bet_result(bet.sequence, bet.user, bet.amount, bet.side) is Ok {
            law_bet_keeps_pools_conserved(before, bet.sequence, bet.user, bet.amount, bet.side);
        }
    }
}

// ----- settlement -----
/// The sum of the shares of the losing pool that the winners among `bettors` get.
pub open spec fn share_total(
    bettors: Seq<Address>,
    positions: Map<Address, UserPosition>,
    side: BetSide,
    winning_pool: int,
    losing_pool: int,
) -> int
    decreases bettors.len(),
{
    if bettors.len() == 0 {
        0
    } else {
        let last = bettors.last();
        share_total(bettors.drop_last(), positions, side, winning_pool, losing_pool) + (
        if positions[last].side == side {
            spec_share(positions[last].amount as int, winning_pool, losing_pool)
        } else {
            0
        })
    }
}

/// What a directional settlement accrues to a run of holders is their winning stakes
/// plus their shares.
pub proof fn lemma_settled_accrual(
    state: LedgerState,
    who: Seq<Address>,
    winning_side: BetSide,
    winning_pool: i128,
    losing_pool: i128,
)
    requires
        state.valid(),
        winning_pool > 0,
        losing_pool >= 0,
        forall|i: int|
            0 <= i < who.len() ==> state.positions.dom().contains(#[trigger] who[i])
                && state.settlement_fits(who[i], winning_side, winning_pool, losing_pool),
    ensures
        accrued_total(
            who,
            state.pending,
            state.settled_pending(winning_side, winning_pool, losing_pool),
        ) == stake_total(who, state.positions, winning_side) + share_total(
            who,
            state.positions,
            winning_side,
            winning_pool as int,
            losing_pool as int,
        ),
    decreases who.len(),
{
    if who.len() > 0 {
        let shorter = who.drop_last();
        let last = who.last();
        assert forall|i: int| 0 <= i < shorter.len() implies state.positions.dom().contains(
            #[trigger] shorter[i],
        ) && state.settlement_fits(shorter[i], winning_side, winning_pool, losing_pool) by {
            assert(shorter[i] == who[i]);
        }
        lemma_settled_accrual(state, shorter, winning_side, winning_pool, losing_pool);
        assert(last == who[who.len() - 1]);
        assert(state.positions.dom().contains(last));
        let settled = state.settled_pending(winning_side, winning_pool, losing_pool);
        if state.positions[last].side == winning_side {
            let amount = state.positions[last].amount as int;
            lemma_share_bounds(amount, winning_pool as int, losing_pool as int);
            assert(settled.dom().contains(last));
            assert(amount_or_zero(settled, last) == amount_or_zero(state.pending, last)
                + spec_payout(amount, winning_pool as int, losing_pool as int));
        } else {
            assert(amount_or_zero(settled, last) == amount_or_zero(state.pending, last));
        }
    }
}

/// Zero-sum settlement: where the winning pool is not empty, an accepted directional
/// settlement accrues to the holders of positions, all together, no more than the two
/// pools hold.
pub proof fn law_settlement_pays_within_pools(state: LedgerState, final_price: u128)
    requires
        state.valid(),
        state.conserved(),
        state.resolve_round_result(final_price) is Ok,
        state.round->0.spec_outcome(final_price) != Outcome::Unchanged,
        state.round->0.spec_outcome(final_price) == Outcome::Up ==> state.round->0.pool_up > 0,
        state.round->0.spec_outcome(final_price) == Outcome::Down ==> state.round->0.pool_down > 0,
    ensures
        accrued_total(
            state.bettors,
            state.pending,
            state.resolve_round_state(final_price).pending,
        ) <= state.round->0.pool_up + state.round->0.pool_down,
{
    law_settlement_is_exact_iff_shares_divide(state, final_price);
}

/// The sum of what rounding down withholds from the winners among `bettors`, counted
/// in units of stake times losing pool: for each winner, what the division of the
/// stake times the losing pool by the winning pool leaves over.
pub open spec fn dust_total(
    bettors: Seq<Address>,
    positions: Map<Address, UserPosition>,
    side: BetSide,
    winning_pool: int,
    losing_pool: int,
) -> int
    decreases bettors.len(),
{
    if bettors.len() == 0 {
        0
    } else {
        let last = bettors.last();
        dust_total(bettors.drop_last(), positions, side, winning_pool, losing_pool) + (
        if positions[last].side == side {
            (positions[last].amount * losing_pool) % winning_pool
        } else {
            0
        })
    }
}

/// Shares and dust together are exactly the winners' proportion of the losing pool,
/// and the dust vanishes exactly where every winner's share divides evenly.
pub proof fn lemma_shares_and_dust(
    bettors: Seq<Address>,
    positions: Map<Address, UserPosition>,
    side: BetSide,
    winning_pool: int,
    losing_pool: int,
)
    requires
        winning_pool > 0,
    ensures
        0 <= dust_total(bettors, positions, side, winning_pool, losing_pool),
        share_total(bettors, positions, side, winning_pool, losing_pool) * winning_pool
            + dust_total(bettors, positions, side, winning_pool, losing_pool) == stake_total(
            bettors,
            positions,
            side,
        ) * losing_pool,
        dust_total(bettors, positions, side, winning_pool, losing_pool) == 0 <==> forall|i: int|
            0 <= i < bettors.len() && positions[#[trigger] bettors[i]].side == side ==> (
            positions[bettors[i]].amount * losing_pool) % winning_pool == 0,
    decreases bettors.len(),
{
    if bettors.len() == 0 {
        assert(0int * winning_pool + 0 == 0int * losing_pool) by (nonlinear_arith);
    } else {
        let shorter = bettors.drop_last();
        let last = bettors.last();
        lemma_shares_and_dust(shorter, positions, side, winning_pool, losing_pool);
        assert(last == bettors[bettors.len() - 1]);
        assert forall|i: int| 0 <= i < shorter.len() implies shorter[i] == bettors[i] by {}
        let prior_share = share_total(shorter, positions, side, winning_pool, losing_pool);
        let prior_dust = dust_total(shorter, positions, side, winning_pool, losing_pool);
        let prior_stake = stake_total(shorter, positions, side);
        let amount = positions[last].amount as int;
        let product = amount * losing_pool;
        let left_over = if positions[last].side == side {
            product % winning_pool
        } else {
            0
        };
        assert(0 <= product % winning_pool && (product / winning_pool) * winning_pool + product
            % winning_pool == product) by (nonlinear_arith)
            requires
                winning_pool > 0,
        ;
        if positions[last].side == side {
            let share = spec_share(amount, winning_pool, losing_pool);
            assert((prior_share + share) * winning_pool + (prior_dust + left_over) == (prior_stake
                + amount) * losing_pool) by (nonlinear_arith)
                requires
                    prior_share * winning_pool + prior_dust == prior_stake * losing_pool,
                    share * winning_pool + left_over == amount * losing_pool,
            ;
        }
        let all_even = forall|i: int|
            0 <= i < bettors.len() && positions[#[trigger] bettors[i]].side == side ==> (
            positions[bettors[i]].amount * losing_pool) % winning_pool == 0;
        let shorter_even = forall|i: int|
            0 <= i < shorter.len() && positions[#[trigger] shorter[i]].side == side ==> (
            positions[shorter[i]].amount * losing_pool) % winning_pool == 0;
        if all_even {
            assert(shorter_even) by {
                assert forall|i: int|
                    0 <= i < shorter.len() && positions[#[trigger] shorter[i]].side
                        == side implies (positions[shorter[i]].amount * losing_pool)
                    % winning_pool == 0 by {
                    assert(shorter[i] == bettors[i]);
                }
            }
            assert(left_over == 0);
        }
        if prior_dust + left_over == 0 {
            assert(all_even) by {
                assert forall|i: int|
                    0 <= i < bettors.len() && positions[#[trigger] bettors[i]].side
                        == side implies (positions[bettors[i]].amount * losing_pool)
                    % winning_pool == 0 by {
                    if i < shorter.len() {
                        assert(shorter[i] == bettors[i]);
                    }
                }
            }
        }
    }
}

/// The settlement is exact where shares divide evenly, and only there: an accepted
/// directional settlement with a winning pool that is not empty accrues the whole of
/// both pools exactly when the division that gives each winner's share leaves nothing
/// over; otherwise it accrues strictly less.
pub proof fn law_settlement_is_exact_iff_shares_divide(state: LedgerState, final_price: u128)
    requires
        state.valid(),
        state.conserved(),
        state.resolve_round_result(final_price) is Ok,
        state.round->0.spec_outcome(final_price) != Outcome::Unchanged,
        state.round->0.spec_outcome(final_price) == Outcome::Up ==> state.round->0.pool_up > 0,
        state.round->0.spec_outcome(final_price) == Outcome::Down ==> state.round->0.pool_down > 0,
    ensures
        ({
            let round = state.round->0;
            let side = if round.spec_outcome(final_price) == Outcome::Up {
                BetSide::Up
            } else {
                BetSide::Down
            };
            let evenly = forall|p: Address| #[trigger]
                state.positions.dom().contains(p) && state.positions[p].side == side ==> (
                state.positions[p].amount * round.spec_pool(side.spec_opposite()))
                    % (round.spec_pool(side) as int) == 0;
            let accrued = accrued_total(
                state.bettors,
                state.pending,
                state.resolve_round_state(final_price).pending,
            );
            &&& evenly ==> accrued == round.pool_up + round.pool_down
            &&& !evenly ==> accrued < round.pool_up + round.pool_down
        }),
{
    let round = state.round->0;
    let side = if round.spec_outcome(final_price) == Outcome::Up {
        BetSide::Up
    } else {
        BetSide::Down
    };
    let winning_pool = round.spec_pool(side);
    let losing_pool = round.spec_pool(side.spec_opposite());
    assert(state.record_winnings_result(side, winning_pool, losing_pool) is Ok);
    assert forall|i: int| 0 <= i < state.bettors.len() implies state.positions.dom().contains(
        #[trigger] state.bettors[i],
    ) && state.settlement_fits(state.bettors[i], side, winning_pool, losing_pool) by {
        assert(state.bettors.contains(state.bettors[i]));
    }
    lemma_settled_accrual(state, state.bettors, side, winning_pool, losing_pool);
    lemma_shares_and_dust(
        state.bettors,
        state.positions,
        side,
        winning_pool as int,
        losing_pool as int,
    );
    let shares = share_total(
        state.bettors,
        state.positions,
        side,
        winning_pool as int,
        losing_pool as int,
    );
    let dust = dust_total(
        state.bettors,
        state.positions,
        side,
        winning_pool as int,
        losing_pool as int,
    );
    assert(stake_total(state.bettors, state.positions, side) == winning_pool);
    assert(dust == 0 ==> shares == losing_pool) by (nonlinear_arith)
        requires
            shares * winning_pool + dust == winning_pool * losing_pool,
            winning_pool > 0,
    ;
    assert(dust > 0 ==> shares < losing_pool) by (nonlinear_arith)
        requires
            shares * winning_pool + dust == winning_pool * losing_pool,
            winning_pool > 0,
    ;
    let evenly = forall|p: Address| #[trigger]
        state.positions.dom().contains(p) && state.positions[p].side == side ==> (
        state.positions[p].amount * losing_pool) % (winning_pool as int) == 0;
    let evenly_by_index = forall|i: int|
        0 <= i < state.bettors.len() && state.positions[#[trigger] state.bettors[i]].side == side
            ==> (state.positions[state.bettors[i]].amount * losing_pool) % (winning_pool as int)
            == 0;
    if evenly {
        assert(evenly_by_index) by {
            assert forall|i: int|
                0 <= i < state.bettors.len() && state.positions[#[trigger] state.bettors[i]].side
                    == side implies (state.positions[state.bettors[i]].amount * losing_pool) % (
                winning_pool as int) == 0 by {
                assert(state.positions.dom().contains(state.bettors[i]));
            }
        }
    }
    if evenly_by_index {
        assert(evenly) by {
            assert forall|p: Address| #[trigger]
                state.positions.dom().contains(p) && state.positions[p].side == side implies (
            state.positions[p].amount * losing_pool) % (winning_pool as int) == 0 by {
                assert(state.bettors.contains(p));
                let i = state.bettors.index_of(p);
                assert(state.bettors[i] == p);
            }
        }
    }
}

/// What a refund accrues to a run of holders is the sum of their stakes on both
/// sides.
pub proof fn lemma_refunded_accrual(state: LedgerState, who: Seq<Address>)
    requires
        forall|i: int|
            0 <= i < who.len() ==> state.positions.dom().contains(#[trigger] who[i])
                && state.refund_fits(who[i]) && state.positions[who[i]].amount >= 0
                && state.pending_of(who[i]) >= 0,
    ensures
        accrued_total(who, state.pending, state.refunded_pending()) == stake_total(
            who,
            state.positions,
            BetSide::Up,
        ) + stake_total(who, state.positions, BetSide::Down),
    decreases who.len(),
{
    if who.len() > 0 {
        let shorter = who.drop_last();
        let last = who.last();
        assert forall|i: int| 0 <= i < shorter.len() implies state.positions.dom().contains(
            #[trigger] shorter[i],
        ) && state.refund_fits(shorter[i]) && state.positions[shorter[i]].amount >= 0
            && state.pending_of(shorter[i]) >= 0 by {
            assert(shorter[i] == who[i]);
        }
        lemma_refunded_accrual(state, shorter);
        assert(last == who[who.len() - 1]);
        assert(state.refunded_pending().dom().contains(last));
    }
}

/// Refund exactness: where the price did not move, an accepted settlement accrues to
/// the holders of positions, all together, exactly the sum of all stakes.
pub proof fn law_refund_is_exact(state: LedgerState, final_price: u128)
    requires
        state.valid(),
        state.resolve_round_result(final_price) is Ok,
        state.round->0.spec_outcome(final_price) == Outcome::Unchanged,
    ensures
        accrued_total(
            state.bettors,
            state.pending,
            state.resolve_round_state(final_price).pending,
        ) == stake_total(state.bettors, state.positions, BetSide::Up) + stake_total(
            state.bettors,
            state.positions,
            BetSide::Down,
        ),
        state.resolve_round_state(final_price).stats == state.stats,
{
    assert forall|i: int| 0 <= i < state.bettors.len() implies state.positions.dom().contains(
        #[trigger] state.bettors[i],
    ) && state.refund_fits(state.bettors[i]) && state.positions[state.bettors[i]].amount >= 0
        && state.pending_of(state.bettors[i]) >= 0 by {
        assert(state.bettors.contains(state.bettors[i]));
    }
    lemma_refunded_accrual(state, state.bettors);
}

/// The no-winner case: where the price moved and the pool of the side it moved to is
/// empty, the settlement is accepted, changes no pending winnings and no counters, and
/// still removes the round and clears the books.
pub proof fn law_empty_winning_pool_pays_nobody(state: LedgerState, final_price: u128)
    requires
        final_price != 0,
        state.oracle is Some,
        state.round is Some,
        state.round->0.spec_outcome(final_price) == Outcome::Up ==> state.round->0.pool_up == 0,
        state.round->0.spec_outcome(final_price) == Outcome::Down ==> state.round->0.pool_down == 0,
        state.round->0.spec_outcome(final_price) != Outcome::Unchanged,
    ensures
        state.resolve_round_result(final_price) is Ok,
        state.resolve_round_state(final_price).pending == state.pending,
        state.resolve_round_state(final_price).stats == state.stats,
        state.resolve_round_state(final_price).balances == state.balances,
        state.resolve_round_state(final_price).round is None,
        state.resolve_round_state(final_price).positions == Map::<Address, UserPosition>::empty(),
        state.resolve_round_state(final_price).bettors == Seq::<Address>::empty(),
{
}

/// Where no pending winnings change, nothing accrues.
pub proof fn lemma_nothing_accrues(who: Seq<Address>, amounts: Map<Address, i128>)
    ensures
        accrued_total(who, amounts, amounts) == 0,
    decreases who.len(),
{
    if who.len() > 0 {
        lemma_nothing_accrues(who.drop_last(), amounts);
    }
}

/// No settlement pays more than the pools hold: whichever way the price went, an
/// accepted settlement of a round with conserved pools accrues to the holders of
/// positions, all together, at most the sum of both pools.
pub proof fn law_resolution_pays_within_pools(state: LedgerState, final_price: u128)
    requires
        state.valid(),
        state.conserved(),
        state.resolve_round_result(final_price) is Ok,
    ensures
        accrued_total(
            state.bettors,
            state.pending,
            state.resolve_round_state(final_price).pending,
        ) <= state.round->0.pool_up + state.round->0.pool_down,
{
    let round = state.round->0;
    match round.spec_outcome(final_price) {
        Outcome::Unchanged => {
            law_refund_is_exact(state, final_price);
        },
        Outcome::Up => {
            if round.pool_up > 0 {
                law_settlement_pays_within_pools(state, final_price);
            } else {
                lemma_nothing_accrues(state.bettors, state.pending);
            }
        },
        Outcome::Down => {
            if round.pool_down > 0 {
                law_settlement_pays_within_pools(state, final_price);
            } else {
                lemma_nothing_accrues(state.bettors, state.pending);
            }
        },
    }
}

/// With nothing staked against them, winners get their own stakes back and no more:
/// where the losing pool is empty, an accepted settlement adds to each winner's pending
/// winnings exactly the stake, and still counts the win.
pub proof fn law_empty_losing_pool_returns_stakes(
    state: LedgerState,
    winning_side: BetSide,
    winning_pool: i128,
    user: Address,
)
    requires
        state.valid(),
        winning_pool > 0,
        state.record_winnings_result(winning_side, winning_pool, 0) is Ok,
        state.positions.dom().contains(user),
        state.positions[user].side == winning_side,
    ensures
        state.record_winnings_state(winning_side, winning_pool, 0).pending_of(user)
            == state.pending_of(user) + state.positions[user].amount,
        state.record_winnings_state(winning_side, winning_pool, 0).stats_of(user)
            == state.stats_of(user).spec_after_win(),
{
    lemma_share_bounds(state.positions[user].amount as int, winning_pool as int, 0);
    assert(state.settlement_fits(user, winning_side, winning_pool, 0));
}

/// A stake that the pool of its side cannot take is refused as an overflow, once every
/// earlier check has passed.
pub proof fn law_bet_over_a_full_pool_is_refused(
    state: LedgerState,
    sequence: u32,
    user: Address,
    amount: i128,
    side: BetSide,
)
    requires
        amount > 0,
        state.round is Some,
        state.round->0.mode == RoundMode::UpDown,
        sequence < state.round->0.end_ledger,
        state.balance_of(user) >= amount,
        !state.positions.dom().contains(user),
        state.round->0.spec_pool(side) + amount > i128::MAX,
    ensures
        state.place_bet_result(sequence, user, amount, side) == Err::<(), ContractError>(
            ContractError::Overflow,
        ),
{
}

} // verus!
