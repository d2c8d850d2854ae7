//! The mathematical model of the auction: one transition function per
//! operation, the well-formedness and solvency invariants, and runs over
//! event sequences. Each executable operation's contract says that it
//! performs exactly the corresponding transition.

use vstd::prelude::*;
use crate::bank::{balance_of, distinct_owners, transfer_result, AccountBalance};
use crate::errors::Errors;
use crate::escrow::{distinct_buyers, has_offer, stake_of, total, write_stake, Offer};
use crate::state::{State, NO_BIDDER};

verus! {

/// What `initialize` returns: a fresh open auction whose deadline is
/// `now + duration`, or `WrongAccount` when seller and treasury are the
/// same account, or `InvalidOperation` when the deadline overflows the
/// timestamp range.
pub open spec fn init_step(
    initializer: u64,
    treasury: u64,
    now: i64,
    duration: i64,
    reserve: u64,
) -> Result<State, Errors> {
    if initializer == treasury {
        Err(Errors::WrongAccount)
    } else if now + duration > i64::MAX || now + duration < i64::MIN {
        Err(Errors::InvalidOperation)
    } else {
        Ok(
            State {
                initializer,
                treasury,
                max_bidder: NO_BIDDER,
                max_price: reserve,
                end_time: (now + duration) as i64,
                open: true,
            },
        )
    }
}

/// What `bid` does to the auction, the escrow ledger, and the balance
/// ledger, and what it returns. The checks run in order and the first
/// failing one wins; every failure leaves all three unchanged.
pub open spec fn bid_step(
    state: State,
    offers: Seq<Offer>,
    balances: Seq<AccountBalance>,
    buyer: u64,
    treasury: u64,
    now: i64,
    amount: u64,
) -> (State, Seq<Offer>, Seq<AccountBalance>, Result<(), Errors>) {
    if treasury != state.treasury || buyer == treasury {
        (state, offers, balances, Err(Errors::WrongAccount))
    } else if !state.open || now >= state.end_time {
        (state, offers, balances, Err(Errors::Closed))
    } else if amount <= state.max_price {
        (state, offers, balances, Err(Errors::BidTooLow))
    } else if buyer == state.max_bidder {
        (state, offers, balances, Err(Errors::AlreadyHighestBidder))
    } else if amount < stake_of(offers, buyer) {
        (state, offers, balances, Err(Errors::InvalidOperation))
    } else {
        match transfer_result(
            balances,
            buyer,
            treasury,
            (amount - stake_of(offers, buyer)) as u64,
        ) {
            Err(e) => (state, offers, balances, Err(e)),
            Ok(b2) => (
                State {
                    initializer: state.initializer,
                    treasury: state.treasury,
                    max_bidder: buyer,
                    max_price: amount,
                    end_time: state.end_time,
                    open: state.open,
                },
                write_stake(offers, buyer, amount),
                b2,
                Ok(()),
            ),
        }
    }
}

/// What `end_auction` does to the auction and the balance ledger, and
/// what it returns: the winning amount moves from the treasury to the
/// seller and the auction becomes closed, once.
pub open spec fn end_step(
    state: State,
    balances: Seq<AccountBalance>,
    initializer: u64,
    treasury: u64,
    max_bidder: u64,
    now: i64,
) -> (State, Seq<AccountBalance>, Result<(), Errors>) {
    if initializer != state.initializer || treasury != state.treasury || max_bidder
        != state.max_bidder {
        (state, balances, Err(Errors::WrongAccount))
    } else if !state.open || now < state.end_time {
        (state, balances, Err(Errors::Open))
    } else {
        match transfer_result(balances, treasury, initializer, state.max_price) {
            Err(e) => (state, balances, Err(e)),
            Ok(b2) => (
                State {
                    initializer: state.initializer,
                    treasury: state.treasury,
                    max_bidder: state.max_bidder,
                    max_price: state.max_price,
                    end_time: state.end_time,
                    open: false,
                },
                b2,
                Ok(()),
            ),
        }
    }
}

/// What `refund` does to the escrow ledger and the balance ledger, and
/// what it returns: a non-winning bidder's whole escrow moves back to them
/// and their record is zeroed. Refunds are gated on the auction being
/// closed, so they begin only after the seller has claimed; a repeat
/// refund finds a zero record and is rejected.
pub open spec fn refund_step(
    state: State,
    offers: Seq<Offer>,
    balances: Seq<AccountBalance>,
    buyer: u64,
    treasury: u64,
) -> (Seq<Offer>, Seq<AccountBalance>, Result<(), Errors>) {
    if treasury != state.treasury || buyer == treasury {
        (offers, balances, Err(Errors::WrongAccount))
    } else if state.open {
        (offers, balances, Err(Errors::Open))
    } else if buyer == state.max_bidder {
        (offers, balances, Err(Errors::WinnerRefund))
    } else if stake_of(offers, buyer) == 0 {
        (offers, balances, Err(Errors::InvalidOperation))
    } else {
        match transfer_result(balances, treasury, buyer, stake_of(offers, buyer)) {
            Err(e) => (offers, balances, Err(e)),
            Ok(b2) => (write_stake(offers, buyer, 0), b2, Ok(())),
        }
    }
}

/// The escrow solvency equation. While the auction is open the treasury
/// holds exactly the sum of all escrow records; after the close the
/// winning amount has left for the seller and the treasury holds exactly
/// what the remaining records are owed.
pub open spec fn solvent(state: State, offers: Seq<Offer>, balances: Seq<AccountBalance>) -> bool {
    if state.open {
        balance_of(balances, state.treasury) == total(offers)
    } else {
        balance_of(balances, state.treasury) == total(offers) - state.max_price
    }
}

/// Everything that holds of a reachable auction system: the ledgers keep
/// one record per identity, the seller and the treasury are different
/// accounts, no stake exceeds the current highest bid, the current winner
/// (when one has bid) has escrowed exactly the highest bid, before any bid
/// the escrow is empty, and the treasury is solvent.
pub open spec fn well_formed_system(
    state: State,
    offers: Seq<Offer>,
    balances: Seq<AccountBalance>,
) -> bool {
    &&& distinct_buyers(offers)
    &&& distinct_owners(balances)
    &&& state.initializer != state.treasury
    &&& forall|b: u64| stake_of(offers, b) <= state.max_price
    &&& has_offer(offers, state.max_bidder) ==> stake_of(offers, state.max_bidder)
        == state.max_price
    &&& !has_offer(offers, state.max_bidder) ==> total(offers) == 0
    &&& solvent(state, offers, balances)
}

/// A whole auction system at one instant, for reasoning about runs.
#[verifier::ext_equal]
pub struct Model {
    /// The auction record.
    pub state: State,
    /// The escrow ledger's records.
    pub offers: Seq<Offer>,
    /// The balance ledger's entries.
    pub balances: Seq<AccountBalance>,
}

/// One call against the auction, with everything the caller supplies.
pub enum Event {
    /// A call of `bid`.
    Bid { buyer: u64, treasury: u64, now: i64, amount: u64 },
    /// A call of `end_auction`.
    End { initializer: u64, treasury: u64, max_bidder: u64, now: i64 },
    /// A call of `refund`.
    Refund { buyer: u64, treasury: u64 },
}

/// Whether an event is a bid, and with what amount and bidder.
pub open spec fn is_bid(e: Event) -> bool {
    match e {
        Event::Bid { .. } => true,
        _ => false,
    }
}

/// The amount a bid event carries; 0 for other events.
pub open spec fn bid_amount(e: Event) -> u64 {
    match e {
        Event::Bid { amount, .. } => amount,
        _ => 0,
    }
}

/// The bidder a bid event carries; `NO_BIDDER` for other events.
pub open spec fn bid_buyer(e: Event) -> u64 {
    match e {
        Event::Bid { buyer, .. } => buyer,
        _ => NO_BIDDER,
    }
}

/// The system after one event, whether the call succeeded or not.
pub open spec fn step(m: Model, e: Event) -> Model {
    match e {
        Event::Bid { buyer, treasury, now, amount } => {
            let (s2, o2, b2, _) = bid_step(m.state, m.offers, m.balances, buyer, treasury, now, amount);
            Model { state: s2, offers: o2, balances: b2 }
        },
        Event::End { initializer, treasury, max_bidder, now } => {
            let (s2, b2, _) = end_step(m.state, m.balances, initializer, treasury, max_bidder, now);
            Model { state: s2, offers: m.offers, balances: b2 }
        },
        Event::Refund { buyer, treasury } => {
            let (o2, b2, _) = refund_step(m.state, m.offers, m.balances, buyer, treasury);
            Model { state: m.state, offers: o2, balances: b2 }
        },
    }
}

/// What the call of one event returns.
pub open spec fn step_outcome(m: Model, e: Event) -> Result<(), Errors> {
    match e {
        Event::Bid { buyer, treasury, now, amount } => bid_step(
            m.state,
            m.offers,
            m.balances,
            buyer,
            treasury,
            now,
            amount,
        ).3,
        Event::End { initializer, treasury, max_bidder, now } => end_step(
            m.state,
            m.balances,
            initializer,
            treasury,
            max_bidder,
            now,
        ).2,
        Event::Refund { buyer, treasury } => refund_step(
            m.state,
            m.offers,
            m.balances,
            buyer,
            treasury,
        ).2,
    }
}

/// The system after a whole sequence of calls, applied left to right.
pub open spec fn run(m: Model, evs: Seq<Event>) -> Model
    decreases evs.len(),
{
    if evs.len() == 0 {
        m
    } else {
        step(run(m, evs.drop_last()), evs.last())
    }
}

/// Whether the event at position `k` of a run is a bid that was accepted.
pub open spec fn accepted_bid_at(m: Model, evs: Seq<Event>, k: int) -> bool {
    0 <= k < evs.len() && is_bid(evs[k]) && step_outcome(run(m, evs.take(k)), evs[k]) == Ok::<
        (),
        Errors,
    >(())
}

} // verus!
