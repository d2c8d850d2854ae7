//! End-to-end scenarios for the auction state machine: whole runs from
//! creation through bidding, settlement, and refunds.

use auction::bank::Balances;
use auction::errors::Errors;
use auction::escrow::Escrow;
use auction::ops::{bid, end_auction, initialize, refund, Auction, Bid, Finish, Refund};
use auction::state::State;

const SELLER: u64 = 1;
const TREASURY: u64 = 2;
const ALICE: u64 = 10;
const BOB: u64 = 20;

fn fresh_auction(now: i64, duration: i64, reserve: u64) -> State {
    let ctx = Auction { initializer: SELLER, treasury: TREASURY };
    initialize(&ctx, now, duration, reserve).expect("auction setup")
}

fn funded_bank(amounts: &[(u64, u64)]) -> Balances {
    let mut bank = Balances::new();
    for &(id, amount) in amounts {
        bank.deposit(id, amount).expect("funding");
    }
    bank
}

#[test]
fn scenario_two_bidders_settlement_and_refunds() {
    // Reserve price 100, duration 60 s.
    let mut state = fresh_auction(0, 60, 100);
    let mut escrow = Escrow::new();
    let mut bank = funded_bank(&[(ALICE, 1_000), (BOB, 1_000)]);

    // Alice bids 150 at t=0: accepted.
    let alice = Bid { buyer: ALICE, treasury: TREASURY };
    assert_eq!(bid(&mut state, &mut escrow, &mut bank, &alice, 0, 150), Ok(()));
    assert_eq!(state.max_price, 150);
    assert_eq!(state.max_bidder, ALICE);
    assert_eq!(escrow.current_stake(ALICE), 150);
    assert_eq!(bank.balance(ALICE), 850);
    assert_eq!(bank.balance(TREASURY), 150);

    // Bob bids 120 at t=1: rejected, not above the current highest.
    let bob = Bid { buyer: BOB, treasury: TREASURY };
    assert_eq!(bid(&mut state, &mut escrow, &mut bank, &bob, 1, 120), Err(Errors::BidTooLow));
    assert_eq!(state.max_price, 150);

    // Bob bids 200 at t=2: accepted.
    assert_eq!(bid(&mut state, &mut escrow, &mut bank, &bob, 2, 200), Ok(()));
    assert_eq!(state.max_price, 200);
    assert_eq!(state.max_bidder, BOB);
    assert_eq!(bank.balance(TREASURY), 350);

    // At t=61 the seller settles: 200 moves to the seller.
    let finish = Finish { initializer: SELLER, treasury: TREASURY, max_bidder: BOB };
    assert_eq!(end_auction(&mut state, &mut bank, &finish, 61), Ok(()));
    assert!(!state.open);
    assert_eq!(bank.balance(SELLER), 200);
    assert_eq!(bank.balance(TREASURY), 150);

    // Alice reclaims her 150.
    let alice_back = Refund { buyer: ALICE, treasury: TREASURY };
    assert_eq!(refund(&state, &mut escrow, &mut bank, &alice_back), Ok(()));
    assert_eq!(bank.balance(ALICE), 1_000);
    assert_eq!(escrow.current_stake(ALICE), 0);
    assert_eq!(bank.balance(TREASURY), 0);

    // Bob won; his stake paid the seller and is never refunded.
    let bob_back = Refund { buyer: BOB, treasury: TREASURY };
    assert_eq!(refund(&state, &mut escrow, &mut bank, &bob_back), Err(Errors::WinnerRefund));
}

#[test]
fn rebid_with_lower_cumulative_total_is_rejected() {
    let mut state = fresh_auction(0, 60, 100);
    let mut escrow = Escrow::new();
    let mut bank = funded_bank(&[(ALICE, 1_000), (BOB, 1_000)]);

    let alice = Bid { buyer: ALICE, treasury: TREASURY };
    let bob = Bid { buyer: BOB, treasury: TREASURY };
    assert_eq!(bid(&mut state, &mut escrow, &mut bank, &alice, 0, 150), Ok(()));
    assert_eq!(bid(&mut state, &mut escrow, &mut bank, &bob, 1, 200), Ok(()));

    // Alice already has 150 escrowed; a new cumulative total of 140 must
    // fail, never silently refund the difference.
    assert_eq!(bid(&mut state, &mut escrow, &mut bank, &alice, 2, 140), Err(Errors::BidTooLow));
    assert_eq!(escrow.current_stake(ALICE), 150);
    assert_eq!(bank.balance(ALICE), 850);
    assert_eq!(bank.balance(TREASURY), 350);
}

#[test]
fn returning_bidder_pays_only_the_difference() {
    let mut state = fresh_auction(0, 60, 100);
    let mut escrow = Escrow::new();
    let mut bank = funded_bank(&[(ALICE, 1_000), (BOB, 1_000)]);

    let alice = Bid { buyer: ALICE, treasury: TREASURY };
    let bob = Bid { buyer: BOB, treasury: TREASURY };
    assert_eq!(bid(&mut state, &mut escrow, &mut bank, &alice, 0, 150), Ok(()));
    assert_eq!(bid(&mut state, &mut escrow, &mut bank, &bob, 1, 200), Ok(()));

    // Alice returns with a cumulative total of 300: she pays only 150 more.
    assert_eq!(bid(&mut state, &mut escrow, &mut bank, &alice, 2, 300), Ok(()));
    assert_eq!(escrow.current_stake(ALICE), 300);
    assert_eq!(bank.balance(ALICE), 700);
    assert_eq!(bank.balance(TREASURY), 500);
    assert_eq!(state.max_price, 300);
    assert_eq!(state.max_bidder, ALICE);
}

#[test]
fn escrow_stays_solvent_through_a_run() {
    let mut state = fresh_auction(0, 60, 50);
    let mut escrow = Escrow::new();
    let mut bank = funded_bank(&[(ALICE, 500), (BOB, 500)]);

    let alice = Bid { buyer: ALICE, treasury: TREASURY };
    let bob = Bid { buyer: BOB, treasury: TREASURY };
    assert_eq!(bid(&mut state, &mut escrow, &mut bank, &alice, 0, 60), Ok(()));
    assert_eq!(
        bank.balance(TREASURY),
        escrow.current_stake(ALICE) + escrow.current_stake(BOB)
    );
    assert_eq!(bid(&mut state, &mut escrow, &mut bank, &bob, 1, 80), Ok(()));
    assert_eq!(
        bank.balance(TREASURY),
        escrow.current_stake(ALICE) + escrow.current_stake(BOB)
    );
    assert_eq!(bid(&mut state, &mut escrow, &mut bank, &alice, 2, 100), Ok(()));
    assert_eq!(
        bank.balance(TREASURY),
        escrow.current_stake(ALICE) + escrow.current_stake(BOB)
    );

    // After the close, the treasury holds the escrowed sum minus the
    // winning amount that left for the seller.
    let finish = Finish { initializer: SELLER, treasury: TREASURY, max_bidder: ALICE };
    assert_eq!(end_auction(&mut state, &mut bank, &finish, 60), Ok(()));
    assert_eq!(
        bank.balance(TREASURY) + state.max_price,
        escrow.current_stake(ALICE) + escrow.current_stake(BOB)
    );
}

#[test]
fn refund_before_close_and_double_refund_are_rejected() {
    let mut state = fresh_auction(0, 60, 100);
    let mut escrow = Escrow::new();
    let mut bank = funded_bank(&[(ALICE, 1_000), (BOB, 1_000)]);

    let alice = Bid { buyer: ALICE, treasury: TREASURY };
    let bob = Bid { buyer: BOB, treasury: TREASURY };
    assert_eq!(bid(&mut state, &mut escrow, &mut bank, &alice, 0, 150), Ok(()));
    assert_eq!(bid(&mut state, &mut escrow, &mut bank, &bob, 1, 200), Ok(()));

    // Refunds open only once the auction is closed.
    let alice_back = Refund { buyer: ALICE, treasury: TREASURY };
    assert_eq!(refund(&state, &mut escrow, &mut bank, &alice_back), Err(Errors::Open));

    let finish = Finish { initializer: SELLER, treasury: TREASURY, max_bidder: BOB };
    assert_eq!(end_auction(&mut state, &mut bank, &finish, 61), Ok(()));
    assert_eq!(refund(&state, &mut escrow, &mut bank, &alice_back), Ok(()));

    // The record is zeroed; a second refund is rejected, not paid twice.
    assert_eq!(
        refund(&state, &mut escrow, &mut bank, &alice_back),
        Err(Errors::InvalidOperation)
    );
    assert_eq!(bank.balance(ALICE), 1_000);
}

#[test]
fn end_auction_is_unrepeatable() {
    let mut state = fresh_auction(0, 60, 100);
    let mut escrow = Escrow::new();
    let mut bank = funded_bank(&[(ALICE, 1_000)]);

    let alice = Bid { buyer: ALICE, treasury: TREASURY };
    assert_eq!(bid(&mut state, &mut escrow, &mut bank, &alice, 0, 150), Ok(()));

    let finish = Finish { initializer: SELLER, treasury: TREASURY, max_bidder: ALICE };
    assert_eq!(end_auction(&mut state, &mut bank, &finish, 61), Ok(()));
    assert_eq!(bank.balance(SELLER), 150);

    // A second call fails the Open guard and never double-pays.
    assert_eq!(end_auction(&mut state, &mut bank, &finish, 62), Err(Errors::Open));
    assert_eq!(bank.balance(SELLER), 150);
    assert_eq!(bank.balance(TREASURY), 0);
}
