//! The four operations a caller can invoke against an auction. Each takes
//! the identities the caller supplies in a context struct, validates them
//! against the auction record before any mutation, and either performs
//! exactly one atomic transition or fails leaving every record and balance
//! unchanged. `now` is the current timestamp as the ledger runtime reports
//! it at call time.

use vstd::prelude::*;
use crate::bank::Balances;
use crate::errors::Errors;
use crate::escrow::{lemma_write_stake_stake, stake_of, Escrow};
use crate::model::{bid_step, end_step, init_step, refund_step};
use crate::state::State;

verus! {

/// The accounts taking part in `initialize`: the seller creating the
/// auction and the fresh treasury that will pool the escrow.
pub struct Auction {
    /// The seller.
    pub initializer: u64,
    /// The escrow pool account.
    pub treasury: u64,
}

/// The accounts taking part in `bid`.
pub struct Bid {
    /// The bidder placing the bid; they pay the top-up from this account.
    pub buyer: u64,
    /// The treasury the caller believes the auction uses; it must match
    /// the recorded one.
    pub treasury: u64,
}

/// The accounts taking part in `end_auction`.
pub struct Finish {
    /// The seller claiming the winning bid.
    pub initializer: u64,
    /// The treasury the caller believes the auction uses.
    pub treasury: u64,
    /// The bidder the caller believes is winning; it must match the
    /// recorded one.
    pub max_bidder: u64,
}

/// The accounts taking part in `refund`.
pub struct Refund {
    /// The bidder reclaiming their escrow.
    pub buyer: u64,
    /// The treasury the caller believes the auction uses.
    pub treasury: u64,
}

/// Creates a new auction record: open, with the seller's reserve price as
/// the price to beat, no bidder yet, and a deadline of `now + duration`.
///
/// Fails with `WrongAccount` when the seller names themselves as the
/// treasury, and with `InvalidOperation` when the deadline overflows the
/// timestamp range.
pub fn initialize(ctx: &Auction, now: i64, auction_duration: i64, initial_price: u64) -> (r:
    Result<State, Errors>)
    ensures
        r == init_step(ctx.initializer, ctx.treasury, now, auction_duration, initial_price),
        r is Ok ==> ({
            let st = r.unwrap();
            st.open && st.initializer == ctx.initializer && st.treasury == ctx.treasury
                && st.max_bidder == crate::state::NO_BIDDER && st.max_price == initial_price
                && st.end_time == now + auction_duration
        }),
        r is Err ==> (ctx.initializer == ctx.treasury || now + auction_duration > i64::MAX || now
            + auction_duration < i64::MIN),
{
    if ctx.initializer == ctx.treasury {
        return Err(Errors::WrongAccount);
    }
    if auction_duration >= 0 {
        if now > i64::MAX - auction_duration {
            return Err(Errors::InvalidOperation);
        }
    } else {
        if now < i64::MIN - auction_duration {
            return Err(Errors::InvalidOperation);
        }
    }
    Ok(
        State {
            initializer: ctx.initializer,
            treasury: ctx.treasury,
            max_bidder: crate::state::NO_BIDDER,
            max_price: initial_price,
            end_time: now + auction_duration,
            open: true,
        },
    )
}

/// Places a bid of `amount`, the bidder's new cumulative escrowed total.
///
/// Checked in order, first failure wins, nothing mutated on failure:
/// the supplied treasury must be the recorded one and the bidder may not
/// be the treasury (`WrongAccount`); the auction must be open and `now`
/// before the deadline (`Closed`); `amount` must be strictly greater than
/// the current highest bid (`BidTooLow`); the current leader may not raise
/// their own bid (`AlreadyHighestBidder`); the new total may not be below
/// what is already escrowed (`InvalidOperation`). Then exactly the
/// difference between `amount` and the bidder's current stake moves from
/// the bidder's balance into the treasury (`InsufficientFunds` when their
/// balance is short, `InvalidOperation` when the treasury would overflow),
/// the bidder's record is raised to `amount`, and the bidder becomes the
/// highest bidder at `amount`.
pub fn bid(
    state: &mut State,
    escrow: &mut Escrow,
    bank: &mut Balances,
    ctx: &Bid,
    now: i64,
    amount: u64,
) -> (r: Result<(), Errors>)
    requires
        old(escrow).well_formed(),
        old(bank).well_formed(),
    ensures
        final(escrow).well_formed(),
        final(bank).well_formed(),
        ({
            let (s2, o2, b2, res) = bid_step(
                *old(state),
                old(escrow)@,
                old(bank)@,
                ctx.buyer,
                ctx.treasury,
                now,
                amount,
            );
            *final(state) == s2 && final(escrow)@ == o2 && final(bank)@ == b2 && r == res
        }),
        r == Ok::<(), Errors>(()) ==> final(state).max_price == amount && final(state).max_bidder
            == ctx.buyer && stake_of(final(escrow)@, ctx.buyer) == amount,
        r != Ok::<(), Errors>(()) ==> *final(state) == *old(state) && final(escrow)@ == old(
            escrow,
        )@ && final(bank)@ == old(bank)@,
{
    if ctx.treasury != state.treasury || ctx.buyer == ctx.treasury {
        return Err(Errors::WrongAccount);
    }
    if !state.open || now >= state.end_time {
        return Err(Errors::Closed);
    }
    if amount <= state.max_price {
        return Err(Errors::BidTooLow);
    }
    if ctx.buyer == state.max_bidder {
        return Err(Errors::AlreadyHighestBidder);
    }
    let stake = escrow.current_stake(ctx.buyer);
    if amount < stake {
        return Err(Errors::InvalidOperation);
    }
    let diff = amount - stake;
    match bank.transfer(ctx.buyer, ctx.treasury, diff) {
        Err(e) => Err(e),
        Ok(()) => {
            escrow.set_stake(ctx.buyer, amount);
            state.max_price = amount;
            state.max_bidder = ctx.buyer;
            proof {
                lemma_write_stake_stake(old(escrow)@, ctx.buyer, amount, ctx.buyer);
            }
            Ok(())
        },
    }
}

/// Closes the auction after its deadline and pays the winning amount from
/// the treasury to the seller. This is the single point where funds leave
/// escrow for the seller, and it is unrepeatable: the first success clears
/// `open`, and every later call fails the `Open` guard.
///
/// The supplied seller, treasury, and winner must each match the recorded
/// ones (`WrongAccount`); the auction must still be open and `now` at or
/// past the deadline (`Open`); the treasury must hold the winning amount
/// (`InsufficientFunds`, which can only happen when no bid was accepted
/// and the reserve price is positive) and the seller's balance may not
/// overflow (`InvalidOperation`).
pub fn end_auction(state: &mut State, bank: &mut Balances, ctx: &Finish, now: i64) -> (r: Result<
    (),
    Errors,
>)
    requires
        old(bank).well_formed(),
    ensures
        final(bank).well_formed(),
        ({
            let (s2, b2, res) = end_step(
                *old(state),
                old(bank)@,
                ctx.initializer,
                ctx.treasury,
                ctx.max_bidder,
                now,
            );
            *final(state) == s2 && final(bank)@ == b2 && r == res
        }),
        r == Ok::<(), Errors>(()) ==> !final(state).open,
        r != Ok::<(), Errors>(()) ==> *final(state) == *old(state) && final(bank)@ == old(bank)@,
{
    if ctx.initializer != state.initializer || ctx.treasury != state.treasury || ctx.max_bidder
        != state.max_bidder {
        return Err(Errors::WrongAccount);
    }
    if !state.open || now < state.end_time {
        return Err(Errors::Open);
    }
    match bank.transfer(ctx.treasury, ctx.initializer, state.max_price) {
        Err(e) => Err(e),
        Ok(()) => {
            state.open = false;
            Ok(())
        },
    }
}

/// Returns a non-winning bidder's whole escrowed amount to them and zeroes
/// their record. Refunds open only once the auction is closed, after the
/// seller has claimed the winning bid.
///
/// The supplied treasury must be the recorded one and the bidder may not
/// be the treasury (`WrongAccount`); the auction must be closed (`Open`);
/// the current winner may not reclaim their stake, which pays the seller
/// (`WinnerRefund`); and the bidder must have a non-zero escrow record, so
/// a second refund of the same record is rejected rather than paid twice
/// (`InvalidOperation`).
pub fn refund(state: &State, escrow: &mut Escrow, bank: &mut Balances, ctx: &Refund) -> (r: Result<
    (),
    Errors,
>)
    requires
        old(escrow).well_formed(),
        old(bank).well_formed(),
    ensures
        final(escrow).well_formed(),
        final(bank).well_formed(),
        ({
            let (o2, b2, res) = refund_step(*state, old(escrow)@, old(bank)@, ctx.buyer, ctx.treasury);
            final(escrow)@ == o2 && final(bank)@ == b2 && r == res
        }),
        r == Ok::<(), Errors>(()) ==> stake_of(final(escrow)@, ctx.buyer) == 0,
        r != Ok::<(), Errors>(()) ==> final(escrow)@ == old(escrow)@ && final(bank)@ == old(
            bank,
        )@,
{
    if ctx.treasury != state.treasury || ctx.buyer == ctx.treasury {
        return Err(Errors::WrongAccount);
    }
    if state.open {
        return Err(Errors::Open);
    }
    if ctx.buyer == state.max_bidder {
        return Err(Errors::WinnerRefund);
    }
    let stake = escrow.current_stake(ctx.buyer);
    if stake == 0 {
        return Err(Errors::InvalidOperation);
    }
    match bank.transfer(ctx.treasury, ctx.buyer, stake) {
        Err(e) => Err(e),
        Ok(()) => {
            escrow.zero(ctx.buyer);
            proof {
                lemma_write_stake_stake(old(escrow)@, ctx.buyer, 0, ctx.buyer);
            }
            Ok(())
        },
    }
}

} // verus!
