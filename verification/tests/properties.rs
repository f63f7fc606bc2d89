//! What holds of the ledger across calls, on concrete values.

use prediction_market::payout::payout;
use prediction_market::{
    Address, AddressMap, BetSide, CallContext, ContractError, DataKey, Outcome, Round, RoundMode,
    UserPosition, UserStats, VirtualTokenContract, FAUCET_AMOUNT, MAX_DURATION_LEDGERS,
    PRICE_SCALE_LIMIT,
};

fn party(id: u128) -> Address {
    Address::new(false, 0, id)
}

fn granted(sequence: u32, signers: &[Address]) -> CallContext {
    let mut context = CallContext::new(sequence);
    for signer in signers {
        context.authorize(*signer);
    }
    context
}

fn market(admin: Address, oracle: Address) -> VirtualTokenContract {
    let mut contract = VirtualTokenContract::new();
    let context = granted(0, &[admin]);
    assert_eq!(contract.initialize(&context, admin, oracle), Ok(()));
    contract
}

#[test]
fn the_constants_have_their_values() {
    assert_eq!(FAUCET_AMOUNT, 10_000_000_000);
    assert_eq!(MAX_DURATION_LEDGERS, 100_000);
    assert_eq!(PRICE_SCALE_LIMIT, 100_000);
}

#[test]
fn minting_twice_gives_the_same_balance() {
    let mut contract = VirtualTokenContract::new();
    for id in [1u128, 2, 3] {
        let user = party(id);
        let context = granted(0, &[user]);
        let first = contract.mint_initial(&context, user);
        let second = contract.mint_initial(&context, user);
        assert_eq!(first, second);
        assert_eq!(contract.balance(user), first);
    }
    assert_eq!(contract.balances.len(), 3);
}

#[test]
fn minting_after_a_bet_does_not_refill_the_balance() {
    let admin = party(1);
    let user = party(2);
    let mut contract = market(admin, admin);
    let context = granted(0, &[admin, user]);
    contract.mint_initial(&context, user);
    assert_eq!(contract.create_round(&context, 5, 10, None), Ok(()));
    assert_eq!(contract.place_bet(&context, user, 400, BetSide::Up), Ok(()));
    assert_eq!(contract.mint_initial(&context, user), 1000_0000000 - 400);
}

#[test]
fn create_round_checks_price_then_duration_then_admin() {
    let mut contract = VirtualTokenContract::new();
    let nobody = granted(0, &[]);
    assert_eq!(contract.create_round(&nobody, 0, 0, None), Err(ContractError::InvalidPrice));
    assert_eq!(contract.create_round(&nobody, 1, 0, None), Err(ContractError::InvalidDuration));
    assert_eq!(
        contract.create_round(&nobody, 1, 100_001, None),
        Err(ContractError::InvalidDuration)
    );
    assert_eq!(contract.create_round(&nobody, 1, 1, None), Err(ContractError::AdminNotSet));
    assert_eq!(contract.get_active_round(), None);
    assert_eq!(contract.create_round_signer(0, 1), None);
    assert_eq!(contract.create_round_signer(1, 0), None);
    assert_eq!(contract.create_round_signer(1, 1), None);
}

#[test]
fn create_round_accepts_the_bounds_of_the_duration() {
    let admin = party(1);
    let mut contract = market(admin, admin);
    let context = granted(5, &[admin]);
    assert_eq!(contract.create_round_signer(1, 1), Some(admin));
    assert_eq!(contract.create_round(&context, 1, 1, None), Ok(()));
    assert_eq!(
        contract.get_active_round(),
        Some(Round {
            price_start: 1,
            end_ledger: 6,
            pool_up: 0,
            pool_down: 0,
            mode: RoundMode::UpDown
        })
    );
    assert_eq!(contract.create_round(&context, 2, 100_000, Some(RoundMode::Precision)), Ok(()));
    assert_eq!(
        contract.get_active_round(),
        Some(Round {
            price_start: 2,
            end_ledger: 100_005,
            pool_up: 0,
            pool_down: 0,
            mode: RoundMode::Precision
        })
    );
}

#[test]
fn create_round_refuses_an_end_beyond_the_ledger_counter() {
    let admin = party(1);
    let mut contract = market(admin, admin);
    let late = granted(u32::MAX - 9, &[admin]);
    assert_eq!(contract.create_round(&late, 1, 10, None), Err(ContractError::Overflow));
    assert_eq!(contract.get_active_round(), None);
    assert_eq!(contract.create_round(&late, 1, 9, None), Ok(()));
    assert_eq!(contract.get_active_round().unwrap().end_ledger, u32::MAX);
}

#[test]
fn create_round_replaces_an_open_round_and_starts_with_an_empty_book() {
    let admin = party(1);
    let user = party(2);
    let mut contract = market(admin, admin);
    let context = granted(0, &[admin, user]);
    contract.mint_initial(&context, user);
    assert_eq!(contract.create_round(&context, 5, 10, None), Ok(()));
    assert_eq!(contract.place_bet(&context, user, 400, BetSide::Up), Ok(()));

    assert_eq!(contract.create_round(&context, 9, 20, None), Ok(()));

    let round = contract.get_active_round().unwrap();
    assert_eq!(round.price_start, 9);
    assert_eq!(round.end_ledger, 20);
    assert_eq!(round.pool_up, 0);
    assert_eq!(round.pool_down, 0);
    assert_eq!(contract.get_user_position(user), None);
    assert_eq!(contract.positions.len(), 0);
    assert!(!contract.has(DataKey::Positions));
    // the stake of the round that was replaced is not returned
    assert_eq!(contract.balance(user), 1000_0000000 - 400);
    assert_eq!(contract.get_pending_winnings(user), 0);
    assert!(contract.is_well_formed());

    // and its holder bets in the new round like anybody else
    assert_eq!(contract.place_bet(&context, user, 1, BetSide::Down), Ok(()));
    assert_eq!(
        contract.get_user_position(user),
        Some(UserPosition { amount: 1, side: BetSide::Down })
    );
    let round = contract.get_active_round().unwrap();
    assert_eq!(round.pool_up, 0);
    assert_eq!(round.pool_down, 1);
    assert_eq!(contract.balance(user), 1000_0000000 - 401);
}

#[test]
fn resolve_round_checks_price_then_oracle_then_round() {
    let mut contract = VirtualTokenContract::new();
    let nobody = granted(0, &[]);
    assert_eq!(contract.resolve_round(&nobody, 0), Err(ContractError::InvalidPrice));
    assert_eq!(contract.resolve_round(&nobody, 1), Err(ContractError::OracleNotSet));
    assert_eq!(contract.resolve_round_signer(0), None);
    assert_eq!(contract.resolve_round_signer(1), None);

    let admin = party(1);
    let oracle = party(2);
    let mut contract = market(admin, oracle);
    let context = granted(0, &[oracle]);
    assert_eq!(contract.resolve_round_signer(0), None);
    assert_eq!(contract.resolve_round_signer(1), Some(oracle));
    assert_eq!(contract.resolve_round(&context, 0), Err(ContractError::InvalidPrice));
    assert_eq!(contract.resolve_round(&context, 1), Err(ContractError::NoActiveRound));
}

#[test]
fn the_outcome_is_a_strict_comparison_with_the_start() {
    let round =
        Round { price_start: 10, end_ledger: 1, pool_up: 3, pool_down: 4, mode: RoundMode::UpDown };
    assert_eq!(round.outcome(10), Outcome::Unchanged);
    assert_eq!(round.outcome(11), Outcome::Up);
    assert_eq!(round.outcome(9), Outcome::Down);
    assert_eq!(round.pool(BetSide::Up), 3);
    assert_eq!(round.pool(BetSide::Down), 4);
    assert_eq!(BetSide::Up.opposite(), BetSide::Down);
    assert_eq!(BetSide::Down.opposite(), BetSide::Up);
}

#[test]
fn a_payout_is_the_stake_plus_the_rounded_down_share() {
    assert_eq!(payout(100_0000000, 300_0000000, 150_0000000), Ok(150_0000000));
    assert_eq!(payout(200_0000000, 300_0000000, 150_0000000), Ok(300_0000000));
    assert_eq!(payout(1, 3, 2), Ok(1));
    assert_eq!(payout(2, 3, 2), Ok(3));
    assert_eq!(payout(7, 10, 9), Ok(13));
    assert_eq!(payout(5, 5, 0), Ok(5));
    assert_eq!(payout(1, 1, i128::MAX - 1), Ok(i128::MAX));
}

#[test]
fn a_payout_beyond_the_integer_range_is_an_overflow() {
    assert_eq!(payout(2, 2, i128::MAX), Err(ContractError::Overflow));
    assert_eq!(payout(1, 1, i128::MAX), Err(ContractError::Overflow));
    assert_eq!(payout(i128::MAX, i128::MAX, 2), Err(ContractError::Overflow));
    assert_eq!(payout(i128::MAX, i128::MAX, 1), Err(ContractError::Overflow));
    assert_eq!(payout(i128::MAX, i128::MAX, 0), Ok(i128::MAX));
}

fn seeded(stakes: &[(Address, i128, BetSide)], pool_up: i128, pool_down: i128) -> VirtualTokenContract {
    let admin = party(1);
    let oracle = party(2);
    let mut contract = market(admin, oracle);
    let context = granted(0, &[admin]);
    assert_eq!(contract.create_round(&context, 100, 10, None), Ok(()));
    let mut positions = AddressMap::<UserPosition>::new();
    for (user, amount, side) in stakes {
        positions.set(*user, UserPosition { amount: *amount, side: *side });
    }
    contract.positions = positions;
    let mut round = contract.get_active_round().unwrap();
    round.pool_up = pool_up;
    round.pool_down = pool_down;
    contract.round = Some(round);
    assert!(contract.is_well_formed());
    contract
}

#[test]
fn rounding_leaves_dust_and_never_pays_more_than_the_pools() {
    let winners = [party(10), party(11), party(12)];
    let loser = party(13);
    let mut contract = seeded(
        &[
            (winners[0], 1, BetSide::Up),
            (winners[1], 1, BetSide::Up),
            (winners[2], 1, BetSide::Up),
            (loser, 2, BetSide::Down),
        ],
        3,
        2,
    );
    let oracle = granted(0, &[party(2)]);
    assert_eq!(contract.resolve_round(&oracle, 101), Ok(()));
    let mut paid = 0;
    for winner in winners {
        assert_eq!(contract.get_pending_winnings(winner), 1);
        paid += contract.get_pending_winnings(winner);
    }
    assert_eq!(contract.get_pending_winnings(loser), 0);
    assert_eq!(paid, 3);
    assert!(paid <= 3 + 2);
}

#[test]
fn shares_that_divide_evenly_pay_out_both_pools() {
    let alice = party(10);
    let bob = party(11);
    let charlie = party(12);
    let mut contract = seeded(
        &[(alice, 100, BetSide::Down), (bob, 300, BetSide::Down), (charlie, 200, BetSide::Up)],
        200,
        400,
    );
    let oracle = granted(0, &[party(2)]);
    assert_eq!(contract.resolve_round(&oracle, 99), Ok(()));
    assert_eq!(contract.get_pending_winnings(alice), 150);
    assert_eq!(contract.get_pending_winnings(bob), 450);
    assert_eq!(contract.get_pending_winnings(charlie), 0);
    assert_eq!(contract.get_user_stats(charlie).total_losses, 1);
    assert_eq!(contract.get_user_stats(alice).total_wins, 1);
    assert_eq!(contract.get_user_stats(bob).best_streak, 1);
}

#[test]
fn a_refund_returns_every_stake_exactly_and_counts_nothing() {
    let alice = party(10);
    let bob = party(11);
    let charlie = party(12);
    let mut contract = seeded(
        &[(alice, 7, BetSide::Up), (bob, 11, BetSide::Down), (charlie, 13, BetSide::Up)],
        20,
        11,
    );
    contract.pending.set(alice, 5);
    let oracle = granted(0, &[party(2)]);
    assert_eq!(contract.resolve_round(&oracle, 100), Ok(()));
    assert_eq!(contract.get_pending_winnings(alice), 5 + 7);
    assert_eq!(contract.get_pending_winnings(bob), 11);
    assert_eq!(contract.get_pending_winnings(charlie), 13);
    for user in [alice, bob, charlie] {
        assert_eq!(contract.get_user_stats(user), UserStats::zero());
    }
    assert_eq!(contract.stats.len(), 0);
    assert_eq!(contract.get_active_round(), None);
    assert_eq!(contract.positions.len(), 0);
}

#[test]
fn an_empty_winning_pool_pays_nobody_and_still_clears_the_round() {
    let alice = party(10);
    let bob = party(11);
    let mut contract = seeded(&[(alice, 7, BetSide::Down), (bob, 11, BetSide::Down)], 0, 18);
    contract.pending.set(alice, 5);
    let oracle = granted(0, &[party(2)]);
    assert_eq!(contract.resolve_round(&oracle, 101), Ok(()));
    assert_eq!(contract.get_pending_winnings(alice), 5);
    assert_eq!(contract.get_pending_winnings(bob), 0);
    assert_eq!(contract.get_user_stats(alice), UserStats::zero());
    assert_eq!(contract.get_user_stats(bob), UserStats::zero());
    assert_eq!(contract.stats.len(), 0);
    assert_eq!(contract.pending.len(), 1);
    assert_eq!(contract.get_active_round(), None);
    assert_eq!(contract.positions.len(), 0);
    assert_eq!(contract.get_user_position(alice), None);
}

#[test]
fn a_settlement_that_overflows_changes_nothing() {
    let alice = party(10);
    let bob = party(11);
    let mut contract = seeded(&[(alice, 7, BetSide::Up), (bob, 11, BetSide::Up)], 18, 0);
    contract.pending.set(bob, i128::MAX - 10);
    let oracle = granted(0, &[party(2)]);

    assert_eq!(contract.resolve_round(&oracle, 101), Err(ContractError::Overflow));
    assert_eq!(contract.get_pending_winnings(alice), 0);
    assert_eq!(contract.get_pending_winnings(bob), i128::MAX - 10);
    assert_eq!(contract.get_user_stats(alice), UserStats::zero());
    assert!(contract.get_active_round().is_some());
    assert_eq!(contract.positions.len(), 2);

    assert_eq!(contract.resolve_round(&oracle, 100), Err(ContractError::Overflow));
    assert_eq!(contract.get_pending_winnings(alice), 0);
    assert_eq!(contract.positions.len(), 2);

    contract.pending.set(bob, i128::MAX - 11);
    assert_eq!(contract.resolve_round(&oracle, 101), Ok(()));
    assert_eq!(contract.get_pending_winnings(alice), 7);
    assert_eq!(contract.get_pending_winnings(bob), i128::MAX);
}

#[test]
fn a_full_counter_refuses_the_settlement() {
    let alice = party(10);
    let bob = party(11);
    let mut contract = seeded(&[(alice, 7, BetSide::Up), (bob, 11, BetSide::Down)], 7, 11);
    contract.stats.set(
        bob,
        UserStats { total_wins: 0, total_losses: u32::MAX, current_streak: 0, best_streak: 0 },
    );
    let oracle = granted(0, &[party(2)]);
    assert_eq!(contract.resolve_round(&oracle, 101), Err(ContractError::Overflow));
    assert_eq!(contract.get_pending_winnings(alice), 0);
    assert_eq!(contract.get_user_stats(alice), UserStats::zero());
    assert_eq!(contract.resolve_round(&oracle, 99), Ok(()));
    assert_eq!(contract.get_pending_winnings(bob), 11 + 7);
    assert_eq!(contract.get_user_stats(bob).total_wins, 1);
    assert_eq!(contract.get_user_stats(alice).total_losses, 1);
}

#[test]
fn the_best_streak_never_falls() {
    let user = party(10);
    let mut contract = VirtualTokenContract::new();
    let results = [true, true, false, true, false, false, true, true, true, false, true];
    let mut best = 0;
    let mut streak = 0;
    for win in results {
        if win {
            assert_eq!(contract.record_win(user), Ok(()));
            streak += 1;
        } else {
            assert_eq!(contract.record_loss(user), Ok(()));
            streak = 0;
        }
        let stats = contract.get_user_stats(user);
        assert!(stats.best_streak >= best);
        best = stats.best_streak;
        assert_eq!(stats.current_streak, streak);
    }
    let stats = contract.get_user_stats(user);
    assert_eq!(
        stats,
        UserStats { total_wins: 7, total_losses: 4, current_streak: 1, best_streak: 3 }
    );
}

#[test]
fn a_win_after_a_loss_starts_the_streak_at_one() {
    let start = UserStats { total_wins: 9, total_losses: 2, current_streak: 4, best_streak: 6 };
    let lost = start.after_loss().unwrap();
    assert_eq!(
        lost,
        UserStats { total_wins: 9, total_losses: 3, current_streak: 0, best_streak: 6 }
    );
    let won = lost.after_win().unwrap();
    assert_eq!(
        won,
        UserStats { total_wins: 10, total_losses: 3, current_streak: 1, best_streak: 6 }
    );
}

#[test]
fn full_counters_refuse_to_count() {
    let full_wins =
        UserStats { total_wins: u32::MAX, total_losses: 0, current_streak: 0, best_streak: 0 };
    let full_streak =
        UserStats { total_wins: 0, total_losses: 0, current_streak: u32::MAX, best_streak: 0 };
    let full_losses =
        UserStats { total_wins: 0, total_losses: u32::MAX, current_streak: 5, best_streak: 5 };
    assert_eq!(full_wins.after_win(), None);
    assert_eq!(full_streak.after_win(), None);
    assert_eq!(full_losses.after_loss(), None);
    assert!(full_wins.after_loss().is_some());
    assert!(full_losses.after_win().is_some());

    let user = party(10);
    let mut contract = VirtualTokenContract::new();
    contract.stats.set(user, full_wins);
    assert_eq!(contract.record_win(user), Err(ContractError::Overflow));
    assert_eq!(contract.get_user_stats(user), full_wins);
    contract.stats.set(user, full_losses);
    assert_eq!(contract.record_loss(user), Err(ContractError::Overflow));
    assert_eq!(contract.get_user_stats(user), full_losses);
}

#[test]
fn a_claim_drains_exactly_once() {
    let user = party(10);
    let context = granted(0, &[user]);
    let mut contract = VirtualTokenContract::new();
    contract.mint_initial(&context, user);
    contract.pending.set(user, 321);
    let before = contract.balance(user);
    assert_eq!(contract.claim_winnings(&context, user), Ok(321));
    assert_eq!(contract.balance(user), before + 321);
    assert_eq!(contract.claim_winnings(&context, user), Ok(0));
    assert_eq!(contract.balance(user), before + 321);
    assert_eq!(contract.get_pending_winnings(user), 0);
    assert_eq!(contract.pending.len(), 0);
}

#[test]
fn a_claim_creates_the_balance_of_a_principal_that_never_minted() {
    let user = party(10);
    let context = granted(0, &[user]);
    let mut contract = VirtualTokenContract::new();
    contract.pending.set(user, 5);
    assert_eq!(contract.claim_winnings(&context, user), Ok(5));
    assert_eq!(contract.balance(user), 5);
    assert_eq!(contract.mint_initial(&context, user), 5);
}

#[test]
fn a_claim_that_overflows_the_balance_changes_nothing() {
    let user = party(10);
    let context = granted(0, &[user]);
    let mut contract = VirtualTokenContract::new();
    contract.set_balance(user, i128::MAX);
    contract.pending.set(user, 1);
    assert_eq!(contract.claim_winnings(&context, user), Err(ContractError::Overflow));
    assert_eq!(contract.balance(user), i128::MAX);
    assert_eq!(contract.get_pending_winnings(user), 1);
}

#[test]
fn the_run_time_check_finds_broken_invariants() {
    let user = party(10);
    let mut contract = VirtualTokenContract::new();
    assert!(contract.is_well_formed());
    contract.balances.set(user, -1);
    assert!(!contract.is_well_formed());
    contract.balances.set(user, 0);
    assert!(contract.is_well_formed());
    contract.pending.set(user, -1);
    assert!(!contract.is_well_formed());
    contract.pending.set(user, 1);
    contract.positions.set(user, UserPosition { amount: 0, side: BetSide::Up });
    assert!(!contract.is_well_formed());
    contract.positions.set(user, UserPosition { amount: 1, side: BetSide::Up });
    assert!(contract.is_well_formed());
    contract.round = Some(Round {
        price_start: 1,
        end_ledger: 1,
        pool_up: 0,
        pool_down: -1,
        mode: RoundMode::UpDown,
    });
    assert!(!contract.is_well_formed());
}

#[test]
fn positions_are_not_shown_without_a_round() {
    let user = party(10);
    let mut contract = VirtualTokenContract::new();
    contract.positions.set(user, UserPosition { amount: 1, side: BetSide::Up });
    assert_eq!(contract.get_user_position(user), None);
    contract.round = Some(Round {
        price_start: 1,
        end_ledger: 1,
        pool_up: 1,
        pool_down: 0,
        mode: RoundMode::UpDown,
    });
    assert_eq!(
        contract.get_user_position(user),
        Some(UserPosition { amount: 1, side: BetSide::Up })
    );
}

#[test]
fn every_key_is_present_exactly_while_its_entry_is() {
    let admin = party(1);
    let oracle = party(2);
    let user = party(3);
    let other = party(4);
    let mut contract = VirtualTokenContract::new();
    let keys = [
        DataKey::Balance(user),
        DataKey::Admin,
        DataKey::Oracle,
        DataKey::ActiveRound,
        DataKey::Positions,
        DataKey::Predictions,
        DataKey::PendingWinnings(user),
        DataKey::UserStats(user),
    ];
    for key in keys {
        assert!(!contract.has(key));
    }
    let context = granted(0, &[admin, oracle, user]);
    assert_eq!(contract.initialize(&context, admin, oracle), Ok(()));
    assert!(contract.has(DataKey::Admin));
    assert!(contract.has(DataKey::Oracle));
    contract.mint_initial(&context, user);
    assert!(contract.has(DataKey::Balance(user)));
    assert!(!contract.has(DataKey::Balance(other)));
    assert_eq!(contract.create_round(&context, 100, 10, None), Ok(()));
    assert!(contract.has(DataKey::ActiveRound));
    assert!(!contract.has(DataKey::Positions));
    assert_eq!(contract.place_bet(&context, user, 9, BetSide::Up), Ok(()));
    assert!(contract.has(DataKey::Positions));
    assert_eq!(contract.resolve_round(&context, 101), Ok(()));
    assert!(!contract.has(DataKey::ActiveRound));
    assert!(!contract.has(DataKey::Positions));
    assert!(contract.has(DataKey::PendingWinnings(user)));
    assert!(contract.has(DataKey::UserStats(user)));
    assert!(!contract.has(DataKey::UserStats(other)));
    assert_eq!(contract.claim_winnings(&context, user), Ok(9));
    assert!(!contract.has(DataKey::PendingWinnings(user)));
    assert_eq!(
        contract.create_round(&context, 100, 10, Some(RoundMode::Precision)),
        Ok(())
    );
    assert_eq!(contract.predict_price(&context, user, 1, 1), Ok(()));
    assert!(contract.has(DataKey::Predictions));
}

#[test]
fn refunds_accrue_without_touching_round_or_book() {
    let alice = party(10);
    let bob = party(11);
    let mut contract = seeded(&[(alice, 7, BetSide::Up), (bob, 11, BetSide::Down)], 7, 11);
    assert_eq!(contract.record_refunds(), Ok(()));
    assert_eq!(contract.get_pending_winnings(alice), 7);
    assert_eq!(contract.get_pending_winnings(bob), 11);
    assert!(contract.get_active_round().is_some());
    assert_eq!(contract.positions.len(), 2);
    assert_eq!(contract.stats.len(), 0);
    assert_eq!(contract.record_refunds(), Ok(()));
    assert_eq!(contract.get_pending_winnings(alice), 14);
    assert_eq!(contract.get_pending_winnings(bob), 22);
}

#[test]
fn winnings_accrue_by_the_pools_that_are_handed_in() {
    let alice = party(10);
    let bob = party(11);
    let charlie = party(12);
    let mut contract = seeded(
        &[(alice, 10, BetSide::Up), (bob, 30, BetSide::Up), (charlie, 25, BetSide::Down)],
        40,
        25,
    );
    assert_eq!(contract.record_winnings(BetSide::Up, 40, 25), Ok(()));
    assert_eq!(contract.get_pending_winnings(alice), 10 + 6);
    assert_eq!(contract.get_pending_winnings(bob), 30 + 18);
    assert_eq!(contract.get_pending_winnings(charlie), 0);
    assert_eq!(contract.get_user_stats(alice).current_streak, 1);
    assert_eq!(contract.get_user_stats(charlie).total_losses, 1);
    assert!(contract.get_active_round().is_some());
    assert_eq!(contract.positions.len(), 3);

    assert_eq!(contract.record_winnings(BetSide::Down, 0, 40), Ok(()));
    assert_eq!(contract.get_pending_winnings(charlie), 0);
    assert_eq!(contract.get_user_stats(charlie).total_losses, 1);
    assert_eq!(contract.get_user_stats(alice).total_wins, 1);

    assert_eq!(contract.record_winnings(BetSide::Down, 25, 40), Ok(()));
    assert_eq!(contract.get_pending_winnings(charlie), 25 + 40);
    assert_eq!(
        contract.get_user_stats(alice),
        UserStats { total_wins: 1, total_losses: 1, current_streak: 0, best_streak: 1 }
    );
    assert_eq!(
        contract.get_user_stats(charlie),
        UserStats { total_wins: 1, total_losses: 1, current_streak: 1, best_streak: 1 }
    );
}

#[test]
fn a_position_of_a_replaced_round_takes_no_part_in_the_next_settlement() {
    let admin = party(1);
    let oracle = party(2);
    let early = party(3);
    let winner = party(4);
    let loser = party(5);
    let mut contract = market(admin, oracle);
    let context = granted(0, &[admin, oracle, early, winner, loser]);
    contract.mint_initial(&context, early);
    contract.mint_initial(&context, winner);
    contract.mint_initial(&context, loser);
    assert_eq!(contract.create_round(&context, 5, 10, None), Ok(()));
    assert_eq!(contract.place_bet(&context, early, 400, BetSide::Up), Ok(()));
    assert_eq!(contract.create_round(&context, 9, 20, None), Ok(()));
    assert_eq!(contract.place_bet(&context, winner, 100, BetSide::Up), Ok(()));
    assert_eq!(contract.place_bet(&context, loser, 100, BetSide::Down), Ok(()));
    let round = contract.get_active_round().unwrap();
    assert_eq!(round.pool_up, 100);
    assert_eq!(round.pool_down, 100);

    assert_eq!(contract.resolve_round(&context, 10), Ok(()));

    assert_eq!(contract.get_pending_winnings(early), 0);
    assert_eq!(contract.get_pending_winnings(winner), 200);
    assert_eq!(contract.get_pending_winnings(loser), 0);
    let paid = contract.get_pending_winnings(early)
        + contract.get_pending_winnings(winner)
        + contract.get_pending_winnings(loser);
    assert!(paid <= round.pool_up + round.pool_down);
    assert_eq!(contract.get_user_stats(early), UserStats::zero());
    assert_eq!(contract.get_user_stats(winner).total_wins, 1);
    assert_eq!(contract.get_user_stats(loser).total_losses, 1);
    assert_eq!(contract.positions.len(), 0);
    assert_eq!(contract.balance(early), 1000_0000000 - 400);
}
