//! Each guard of each operation, exercised one at a time, and the edge
//! cases of the arithmetic.

use auction::bank::Balances;
use auction::errors::Errors;
use auction::escrow::{Escrow, Offer};
use auction::ops::{bid, end_auction, initialize, refund, Auction, Bid, Finish, Refund};
use auction::state::{State, NO_BIDDER};

const SELLER: u64 = 1;
const TREASURY: u64 = 2;
const ALICE: u64 = 10;

fn fresh_auction(now: i64, duration: i64, reserve: u64) -> State {
    let ctx = Auction { initializer: SELLER, treasury: TREASURY };
    initialize(&ctx, now, duration, reserve).expect("auction setup")
}

#[test]
fn initialize_sets_every_field() {
    let state = fresh_auction(1_000, 60, 100);
    assert_eq!(state.initializer, SELLER);
    assert_eq!(state.treasury, TREASURY);
    assert_eq!(state.max_bidder, NO_BIDDER);
    assert_eq!(state.max_price, 100);
    assert_eq!(state.end_time, 1_060);
    assert!(state.open);
}

#[test]
fn initialize_rejects_deadline_overflow() {
    let ctx = Auction { initializer: SELLER, treasury: TREASURY };
    assert_eq!(initialize(&ctx, i64::MAX, 1, 100), Err(Errors::InvalidOperation));
    assert_eq!(initialize(&ctx, i64::MIN, -1, 100), Err(Errors::InvalidOperation));
    assert_eq!(initialize(&ctx, i64::MAX - 60, 60, 100).unwrap().end_time, i64::MAX);
}

#[test]
fn initialize_rejects_seller_as_treasury() {
    let ctx = Auction { initializer: SELLER, treasury: SELLER };
    assert_eq!(initialize(&ctx, 0, 60, 100), Err(Errors::WrongAccount));
}

#[test]
fn bid_rejects_wrong_treasury_and_treasury_as_bidder() {
    let mut state = fresh_auction(0, 60, 100);
    let mut escrow = Escrow::new();
    let mut bank = Balances::new();
    bank.deposit(ALICE, 1_000).unwrap();

    let wrong = Bid { buyer: ALICE, treasury: 99 };
    assert_eq!(bid(&mut state, &mut escrow, &mut bank, &wrong, 0, 150), Err(Errors::WrongAccount));

    let pool = Bid { buyer: TREASURY, treasury: TREASURY };
    assert_eq!(bid(&mut state, &mut escrow, &mut bank, &pool, 0, 150), Err(Errors::WrongAccount));
}

#[test]
fn bid_rejects_after_deadline() {
    let mut state = fresh_auction(0, 60, 100);
    let mut escrow = Escrow::new();
    let mut bank = Balances::new();
    bank.deposit(ALICE, 1_000).unwrap();

    let alice = Bid { buyer: ALICE, treasury: TREASURY };
    assert_eq!(bid(&mut state, &mut escrow, &mut bank, &alice, 60, 150), Err(Errors::Closed));
    assert_eq!(bid(&mut state, &mut escrow, &mut bank, &alice, 59, 150), Ok(()));
}

#[test]
fn bid_rejects_tie_with_current_highest() {
    let mut state = fresh_auction(0, 60, 100);
    let mut escrow = Escrow::new();
    let mut bank = Balances::new();
    bank.deposit(ALICE, 1_000).unwrap();

    // Ties do not win: the reserve price itself is not enough.
    let alice = Bid { buyer: ALICE, treasury: TREASURY };
    assert_eq!(bid(&mut state, &mut escrow, &mut bank, &alice, 0, 100), Err(Errors::BidTooLow));
}

#[test]
fn bid_rejects_current_leader() {
    let mut state = fresh_auction(0, 60, 100);
    let mut escrow = Escrow::new();
    let mut bank = Balances::new();
    bank.deposit(ALICE, 1_000).unwrap();

    let alice = Bid { buyer: ALICE, treasury: TREASURY };
    assert_eq!(bid(&mut state, &mut escrow, &mut bank, &alice, 0, 150), Ok(()));
    assert_eq!(
        bid(&mut state, &mut escrow, &mut bank, &alice, 1, 200),
        Err(Errors::AlreadyHighestBidder)
    );
    assert_eq!(escrow.current_stake(ALICE), 150);
}

#[test]
fn bid_rejects_underfunded_bidder() {
    let mut state = fresh_auction(0, 60, 100);
    let mut escrow = Escrow::new();
    let mut bank = Balances::new();
    bank.deposit(ALICE, 120).unwrap();

    let alice = Bid { buyer: ALICE, treasury: TREASURY };
    assert_eq!(
        bid(&mut state, &mut escrow, &mut bank, &alice, 0, 150),
        Err(Errors::InsufficientFunds)
    );
    assert_eq!(bank.balance(ALICE), 120);
    assert_eq!(bank.balance(TREASURY), 0);
}

#[test]
fn bid_rejects_treasury_balance_overflow() {
    let mut state = fresh_auction(0, 60, 100);
    let mut escrow = Escrow::new();
    let mut bank = Balances::new();
    bank.deposit(ALICE, u64::MAX).unwrap();
    bank.deposit(TREASURY, 200).unwrap();

    let alice = Bid { buyer: ALICE, treasury: TREASURY };
    assert_eq!(
        bid(&mut state, &mut escrow, &mut bank, &alice, 0, u64::MAX),
        Err(Errors::InvalidOperation)
    );
    assert_eq!(bank.balance(TREASURY), 200);
}

#[test]
fn end_auction_rejects_wrong_identities() {
    let mut state = fresh_auction(0, 60, 0);
    let mut bank = Balances::new();

    let not_seller = Finish { initializer: ALICE, treasury: TREASURY, max_bidder: NO_BIDDER };
    assert_eq!(end_auction(&mut state, &mut bank, &not_seller, 61), Err(Errors::WrongAccount));

    let wrong_winner = Finish { initializer: SELLER, treasury: TREASURY, max_bidder: ALICE };
    assert_eq!(end_auction(&mut state, &mut bank, &wrong_winner, 61), Err(Errors::WrongAccount));
    assert!(state.open);
}

#[test]
fn end_auction_rejects_before_deadline() {
    let mut state = fresh_auction(0, 60, 0);
    let mut bank = Balances::new();
    let finish = Finish { initializer: SELLER, treasury: TREASURY, max_bidder: NO_BIDDER };
    assert_eq!(end_auction(&mut state, &mut bank, &finish, 59), Err(Errors::Open));
    assert!(state.open);
}

#[test]
fn end_auction_without_bids_needs_treasury_funds() {
    // With a positive reserve and no accepted bid the treasury holds
    // nothing, so there is nothing to pay the seller with.
    let mut state = fresh_auction(0, 60, 100);
    let mut bank = Balances::new();
    let finish = Finish { initializer: SELLER, treasury: TREASURY, max_bidder: NO_BIDDER };
    assert_eq!(end_auction(&mut state, &mut bank, &finish, 61), Err(Errors::InsufficientFunds));
    assert!(state.open);

    // With a reserve of 0, closing moves nothing and succeeds.
    let mut state = fresh_auction(0, 60, 0);
    assert_eq!(end_auction(&mut state, &mut bank, &finish, 61), Ok(()));
    assert!(!state.open);
    assert_eq!(bank.balance(SELLER), 0);
}

#[test]
fn refund_rejects_wrong_treasury_and_unknown_bidder() {
    let mut state = fresh_auction(0, 60, 0);
    let mut escrow = Escrow::new();
    let mut bank = Balances::new();
    let finish = Finish { initializer: SELLER, treasury: TREASURY, max_bidder: NO_BIDDER };
    assert_eq!(end_auction(&mut state, &mut bank, &finish, 61), Ok(()));

    let wrong = Refund { buyer: ALICE, treasury: 99 };
    assert_eq!(refund(&state, &mut escrow, &mut bank, &wrong), Err(Errors::WrongAccount));

    // A bidder with no escrow record has nothing to reclaim.
    let alice = Refund { buyer: ALICE, treasury: TREASURY };
    assert_eq!(refund(&state, &mut escrow, &mut bank, &alice), Err(Errors::InvalidOperation));
}

#[test]
fn bid_rejected_after_close_whatever_time_is_supplied() {
    let mut state = fresh_auction(0, 60, 0);
    let mut escrow = Escrow::new();
    let mut bank = Balances::new();
    bank.deposit(ALICE, 1_000).unwrap();

    let finish = Finish { initializer: SELLER, treasury: TREASURY, max_bidder: NO_BIDDER };
    assert_eq!(end_auction(&mut state, &mut bank, &finish, 61), Ok(()));

    // Closed is terminal: even a timestamp before the deadline cannot
    // reopen bidding.
    let alice = Bid { buyer: ALICE, treasury: TREASURY };
    assert_eq!(bid(&mut state, &mut escrow, &mut bank, &alice, 30, 50), Err(Errors::Closed));
}

#[test]
fn sentinel_identity_cannot_open_the_bidding() {
    // A fresh auction records the sentinel as the highest bidder, so a
    // caller with that very identity is treated as the current leader.
    let mut state = fresh_auction(0, 60, 100);
    let mut escrow = Escrow::new();
    let mut bank = Balances::new();
    bank.deposit(NO_BIDDER, 1_000).unwrap();

    let sentinel_caller = Bid { buyer: NO_BIDDER, treasury: TREASURY };
    assert_eq!(
        bid(&mut state, &mut escrow, &mut bank, &sentinel_caller, 0, 150),
        Err(Errors::AlreadyHighestBidder)
    );
}

#[test]
fn record_sizes() {
    assert_eq!(State::size(), 41);
    assert_eq!(Offer::size(), 16);
}

#[test]
fn escrow_ledger_tracks_stakes() {
    let mut escrow = Escrow::new();
    assert_eq!(escrow.current_stake(ALICE), 0);
    escrow.set_stake(ALICE, 70);
    assert_eq!(escrow.current_stake(ALICE), 70);
    escrow.set_stake(ALICE, 90);
    assert_eq!(escrow.current_stake(ALICE), 90);
    escrow.set_stake(SELLER, 5);
    assert_eq!(escrow.current_stake(SELLER), 5);
    escrow.zero(ALICE);
    assert_eq!(escrow.current_stake(ALICE), 0);
    assert_eq!(escrow.current_stake(SELLER), 5);
}

#[test]
fn transfers_move_exact_amounts() {
    let mut bank = Balances::new();
    bank.deposit(ALICE, 100).unwrap();
    assert_eq!(bank.transfer(ALICE, SELLER, 40), Ok(()));
    assert_eq!(bank.balance(ALICE), 60);
    assert_eq!(bank.balance(SELLER), 40);
    assert_eq!(bank.transfer(ALICE, SELLER, 61), Err(Errors::InsufficientFunds));
    assert_eq!(bank.balance(ALICE), 60);
    assert_eq!(bank.balance(SELLER), 40);
    // A transfer from an account to itself with sufficient balance
    // changes nothing.
    assert_eq!(bank.transfer(ALICE, ALICE, 60), Ok(()));
    assert_eq!(bank.balance(ALICE), 60);
}

#[test]
fn deposit_rejects_balance_overflow() {
    let mut bank = Balances::new();
    bank.deposit(ALICE, u64::MAX).unwrap();
    assert_eq!(bank.deposit(ALICE, 1), Err(Errors::InvalidOperation));
    assert_eq!(bank.balance(ALICE), u64::MAX);
}
