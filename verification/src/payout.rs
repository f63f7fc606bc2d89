//! The arithmetic of settlement: a winner's share of the losing pool.

use vstd::prelude::*;
use crate::errors::ContractError;

verus! {

/// A winner's share of the losing pool: the stake's proportion of the winning pool,
/// applied to the losing pool and rounded down.
pub open spec fn spec_share(amount: int, winning_pool: int, losing_pool: int) -> int {
    (amount * losing_pool) / winning_pool
}

/// What a winner is owed: the stake back, plus the share of the losing pool.
pub open spec fn spec_payout(amount: int, winning_pool: int, losing_pool: int) -> int {
    amount + spec_share(amount, winning_pool, losing_pool)
}

/// Whether the payout can be computed in `i128`: the product of stake and losing pool
/// fits, and so does the stake with its share added.
pub open spec fn payout_fits(amount: int, winning_pool: int, losing_pool: int) -> bool {
    amount * losing_pool <= i128::MAX && spec_payout(amount, winning_pool, losing_pool)
        <= i128::MAX
}

/// A share is never negative and never more than what the stake's proportion gives.
pub proof fn lemma_share_bounds(amount: int, winning_pool: int, losing_pool: int)
    requires
        amount >= 0,
        winning_pool > 0,
        losing_pool >= 0,
    ensures
        0 <= spec_share(amount, winning_pool, losing_pool),
        spec_share(amount, winning_pool, losing_pool) * winning_pool <= amount * losing_pool,
        losing_pool == 0 ==> spec_share(amount, winning_pool, losing_pool) == 0,
{
    let n = amount * losing_pool;
    assert(n >= 0) by (nonlinear_arith)
        requires
            n == amount * losing_pool,
            amount >= 0,
            losing_pool >= 0,
    ;
    assert(0 <= n / winning_pool && (n / winning_pool) * winning_pool <= n) by (nonlinear_arith)
        requires
            n >= 0,
            winning_pool > 0,
    ;
    if losing_pool == 0 {
        assert(n == 0) by (nonlinear_arith)
            requires
                n == amount * losing_pool,
                losing_pool == 0,
        ;
        assert(0int / winning_pool == 0) by (nonlinear_arith)
            requires
                winning_pool > 0,
        ;
    }
}

/// What a winner is owed for a stake of `amount`, or `Overflow` where the product of
/// stake and losing pool, or the stake with its share, does not fit in `i128`.
pub fn payout(amount: i128, winning_pool: i128, losing_pool: i128) -> (owed: Result<
    i128,
    ContractError,
>)
    requires
        amount > 0,
        winning_pool > 0,
        losing_pool >= 0,
    ensures
        owed == (if payout_fits(amount as int, winning_pool as int, losing_pool as int) {
            Ok::<i128, ContractError>(
                spec_payout(amount as int, winning_pool as int, losing_pool as int) as i128,
            )
        } else {
            Err::<i128, ContractError>(ContractError::Overflow)
        }),
        owed matches Ok(p) ==> p >= amount,
{
    proof {
        lemma_share_bounds(amount as int, winning_pool as int, losing_pool as int);
    }
    let numerator: i128 = match amount.checked_mul(losing_pool) {
        Some(n) => n,
        None => {
            return Err(ContractError::Overflow);
        },
    };
    let share: i128 = numerator / winning_pool;
    match amount.checked_add(share) {
        Some(p) => Ok(p),
        None => Err(ContractError::Overflow),
    }
}

} // verus!
