//! The laws of the auction, proved of the transition functions that the
//! executable operations are contracted to perform: the system invariant
//! is established at creation and preserved by every call, the highest bid
//! only grows and always equals the largest accepted bid, a bidder's
//! escrow tracks their largest accepted bid, settlement happens at most
//! once, and the winner can never be refunded.

use vstd::prelude::*;
use crate::bank::{
    balance_of, distinct_owners, lemma_write_balance_balance, lemma_write_balance_distinct,
    write_balance, AccountBalance,
};
use crate::errors::Errors;
use crate::escrow::{
    has_offer, lemma_stake_le_total, lemma_two_stakes_le_total, lemma_write_stake_distinct,
    lemma_write_stake_has, lemma_write_stake_stake, lemma_write_stake_total, stake_of, total,
    Offer,
};
use crate::model::{
    accepted_bid_at, bid_amount, bid_buyer, bid_step, end_step, init_step, is_bid, refund_step,
    run, solvent, step, step_outcome, well_formed_system, Event, Model,
};
use crate::state::State;

verus! {

/// A fresh auction is well formed: pairing the record `initialize`
/// returns with an empty escrow ledger and any balance ledger in which
/// the treasury is empty yields a solvent system.
pub proof fn lemma_init_well_formed(
    st: State,
    initializer: u64,
    treasury: u64,
    now: i64,
    duration: i64,
    reserve: u64,
    balances: Seq<AccountBalance>,
)
    requires
        init_step(initializer, treasury, now, duration, reserve) == Ok::<State, Errors>(st),
        distinct_owners(balances),
        balance_of(balances, treasury) == 0,
    ensures
        well_formed_system(st, Seq::<Offer>::empty(), balances),
{
    let empty = Seq::<Offer>::empty();
    assert(forall|b: u64| stake_of(empty, b) == 0);
    assert(!has_offer(empty, st.max_bidder));
    assert(total(empty) == 0);
}

/// `bid` preserves the system invariant: whatever the caller supplies,
/// the system after the call is well formed again, and in particular the
/// treasury still holds exactly the escrowed sum.
pub proof fn lemma_bid_preserves_well_formed(
    state: State,
    offers: Seq<Offer>,
    balances: Seq<AccountBalance>,
    buyer: u64,
    treasury: u64,
    now: i64,
    amount: u64,
)
    requires
        well_formed_system(state, offers, balances),
    ensures
        ({
            let (s2, o2, b2, _) = bid_step(state, offers, balances, buyer, treasury, now, amount);
            well_formed_system(s2, o2, b2)
        }),
{
    let (s2, o2, b2, r) = bid_step(state, offers, balances, buyer, treasury, now, amount);
    if r == Ok::<(), Errors>(()) {
        let stake = stake_of(offers, buyer);
        let diff = (amount - stake) as u64;
        let bal_buyer = balance_of(balances, buyer);
        let bal_treas = balance_of(balances, treasury);
        let w1 = write_balance(balances, buyer, (bal_buyer - diff) as u64);
        assert(b2 == crate::bank::write_balance(w1, treasury, (balance_of(balances, treasury) + diff) as u64));
        lemma_write_stake_distinct(offers, buyer, amount);
        lemma_write_balance_distinct(balances, buyer, (bal_buyer - diff) as u64);
        lemma_write_balance_distinct(w1, treasury, (bal_treas + diff) as u64);
        assert forall|b: u64| stake_of(o2, b) <= s2.max_price by {
            lemma_write_stake_stake(offers, buyer, amount, b);
        }
        lemma_write_stake_stake(offers, buyer, amount, buyer);
        lemma_write_stake_has(offers, buyer, amount, buyer);
        lemma_write_stake_total(offers, buyer, amount);
        lemma_write_balance_balance(balances, buyer, (bal_buyer - diff) as u64, treasury);
        lemma_write_balance_balance(w1, treasury, (bal_treas + diff) as u64, treasury);
        assert(balance_of(b2, treasury) == bal_treas + diff);
        assert(total(o2) == total(offers) + diff);
    }
}

/// `end_auction` preserves the system invariant: after a successful close
/// the treasury holds exactly the escrowed sum minus the winning amount
/// that left for the seller.
pub proof fn lemma_end_preserves_well_formed(
    state: State,
    offers: Seq<Offer>,
    balances: Seq<AccountBalance>,
    initializer: u64,
    treasury: u64,
    max_bidder: u64,
    now: i64,
)
    requires
        well_formed_system(state, offers, balances),
    ensures
        ({
            let (s2, b2, _) = end_step(state, balances, initializer, treasury, max_bidder, now);
            well_formed_system(s2, offers, b2)
        }),
{
    let (s2, b2, r) = end_step(state, balances, initializer, treasury, max_bidder, now);
    if r == Ok::<(), Errors>(()) {
        let bal_treas = balance_of(balances, treasury);
        let bal_init = balance_of(balances, initializer);
        let w1 = write_balance(balances, treasury, (bal_treas - state.max_price) as u64);
        lemma_write_balance_distinct(balances, treasury, (bal_treas - state.max_price) as u64);
        lemma_write_balance_distinct(w1, initializer, (bal_init + state.max_price) as u64);
        lemma_write_balance_balance(balances, treasury, (bal_treas - state.max_price) as u64, treasury);
        lemma_write_balance_balance(balances, treasury, (bal_treas - state.max_price) as u64, initializer);
        lemma_write_balance_balance(w1, initializer, (bal_init + state.max_price) as u64, treasury);
        assert(balance_of(b2, treasury) == bal_treas - state.max_price);
    }
}

/// `refund` preserves the system invariant: a successful refund removes
/// the same amount from the treasury and from the escrowed sum.
pub proof fn lemma_refund_preserves_well_formed(
    state: State,
    offers: Seq<Offer>,
    balances: Seq<AccountBalance>,
    buyer: u64,
    treasury: u64,
)
    requires
        well_formed_system(state, offers, balances),
    ensures
        ({
            let (o2, b2, _) = refund_step(state, offers, balances, buyer, treasury);
            well_formed_system(state, o2, b2)
        }),
{
    let (o2, b2, r) = refund_step(state, offers, balances, buyer, treasury);
    if r == Ok::<(), Errors>(()) {
        let stake = stake_of(offers, buyer);
        let bal_treas = balance_of(balances, treasury);
        let bal_buyer = balance_of(balances, buyer);
        let w1 = write_balance(balances, treasury, (bal_treas - stake) as u64);
        lemma_write_stake_distinct(offers, buyer, 0);
        lemma_write_balance_distinct(balances, treasury, (bal_treas - stake) as u64);
        lemma_write_balance_distinct(w1, buyer, (bal_buyer + stake) as u64);
        assert forall|b: u64| stake_of(o2, b) <= state.max_price by {
            lemma_write_stake_stake(offers, buyer, 0, b);
        }
        lemma_write_stake_stake(offers, buyer, 0, state.max_bidder);
        lemma_write_stake_has(offers, buyer, 0, state.max_bidder);
        lemma_write_stake_total(offers, buyer, 0);
        lemma_write_balance_balance(balances, treasury, (bal_treas - stake) as u64, treasury);
        lemma_write_balance_balance(w1, buyer, (bal_buyer + stake) as u64, treasury);
        assert(balance_of(b2, treasury) == bal_treas - stake);
        assert(total(o2) == total(offers) - stake);
        assert(has_offer(offers, state.max_bidder)) by {
            lemma_stake_le_total(offers, buyer);
        }
    }
}

/// When a non-winning bidder with a non-zero record asks for a refund of
/// a closed, well-formed auction, the treasury can always pay: success is
/// owed unless crediting the bidder's own balance would overflow.
pub proof fn lemma_refund_owed(
    state: State,
    offers: Seq<Offer>,
    balances: Seq<AccountBalance>,
    buyer: u64,
)
    requires
        well_formed_system(state, offers, balances),
        !state.open,
        buyer != state.max_bidder,
        buyer != state.treasury,
        stake_of(offers, buyer) != 0,
        balance_of(balances, buyer) + stake_of(offers, buyer) <= u64::MAX,
    ensures
        refund_step(state, offers, balances, buyer, state.treasury).2 == Ok::<(), Errors>(()),
{
    let stake = stake_of(offers, buyer);
    assert(has_offer(offers, state.max_bidder)) by {
        lemma_stake_le_total(offers, buyer);
    }
    lemma_two_stakes_le_total(offers, buyer, state.max_bidder);
    assert(balance_of(balances, state.treasury) >= stake);
}

/// When the seller closes a well-formed auction that has seen at least
/// one accepted bid, the treasury can always pay the winning amount:
/// success is owed unless crediting the seller's balance would overflow.
pub proof fn lemma_end_auction_owed(
    state: State,
    offers: Seq<Offer>,
    balances: Seq<AccountBalance>,
    now: i64,
)
    requires
        well_formed_system(state, offers, balances),
        state.open,
        now >= state.end_time,
        has_offer(offers, state.max_bidder),
        balance_of(balances, state.initializer) + state.max_price <= u64::MAX,
    ensures
        end_step(
            state,
            balances,
            state.initializer,
            state.treasury,
            state.max_bidder,
            now,
        ).2 == Ok::<(), Errors>(()),
{
    lemma_stake_le_total(offers, state.max_bidder);
    assert(balance_of(balances, state.treasury) >= state.max_price);
}

/// One event, of any kind and with any arguments, preserves the system
/// invariant.
pub proof fn lemma_step_preserves_well_formed(m: Model, e: Event)
    requires
        well_formed_system(m.state, m.offers, m.balances),
    ensures
        well_formed_system(step(m, e).state, step(m, e).offers, step(m, e).balances),
{
    match e {
        Event::Bid { buyer, treasury, now, amount } => {
            lemma_bid_preserves_well_formed(m.state, m.offers, m.balances, buyer, treasury, now, amount);
        },
        Event::End { initializer, treasury, max_bidder, now } => {
            lemma_end_preserves_well_formed(m.state, m.offers, m.balances, initializer, treasury, max_bidder, now);
        },
        Event::Refund { buyer, treasury } => {
            lemma_refund_preserves_well_formed(m.state, m.offers, m.balances, buyer, treasury);
        },
    }
}

/// The escrow solvency invariant holds at every point of every run: after
/// any sequence of calls against a well-formed system, the system is well
/// formed again, and in particular, while the auction is open the
/// treasury holds exactly the sum of all escrow records.
pub proof fn lemma_run_preserves_well_formed(m: Model, evs: Seq<Event>)
    requires
        well_formed_system(m.state, m.offers, m.balances),
    ensures
        well_formed_system(run(m, evs).state, run(m, evs).offers, run(m, evs).balances),
        solvent(run(m, evs).state, run(m, evs).offers, run(m, evs).balances),
    decreases evs.len(),
{
    if evs.len() > 0 {
        lemma_run_preserves_well_formed(m, evs.drop_last());
        lemma_step_preserves_well_formed(run(m, evs.drop_last()), evs.last());
    }
}

/// One event never lowers the highest bid: an accepted bid raises it to
/// exactly the bid's amount, and everything else leaves it unchanged.
pub proof fn lemma_step_max_price(m: Model, e: Event)
    ensures
        step(m, e).state.max_price >= m.state.max_price,
        is_bid(e) && step_outcome(m, e) == Ok::<(), Errors>(()) ==> step(m, e).state.max_price
            == bid_amount(e) && bid_amount(e) > m.state.max_price,
        !(is_bid(e) && step_outcome(m, e) == Ok::<(), Errors>(())) ==> step(m, e).state.max_price
            == m.state.max_price,
{
}

/// A run applied up to position `j` is the run up to `j - 1` followed by
/// the event at `j - 1`.
pub proof fn lemma_run_take_unfold(m: Model, evs: Seq<Event>, j: int)
    requires
        1 <= j <= evs.len(),
    ensures
        run(m, evs.take(j)) == step(run(m, evs.take(j - 1)), evs[j - 1]),
{
    let t = evs.take(j);
    assert(t.drop_last() =~= evs.take(j - 1));
    assert(t.last() == evs[j - 1]);
}

/// The highest bid is non-decreasing over every run: at any later point
/// of any sequence of calls it is at least what it was at any earlier
/// point.
pub proof fn lemma_run_max_price_nondecreasing(m: Model, evs: Seq<Event>, i: int, j: int)
    requires
        0 <= i <= j <= evs.len(),
    ensures
        run(m, evs.take(i)).state.max_price <= run(m, evs.take(j)).state.max_price,
    decreases j - i,
{
    if j > i {
        lemma_run_max_price_nondecreasing(m, evs, i, j - 1);
        lemma_run_take_unfold(m, evs, j);
        lemma_step_max_price(run(m, evs.take(j - 1)), evs[j - 1]);
    }
}

/// Dropping the last event of a run changes nothing about whether an
/// earlier position was an accepted bid.
pub proof fn lemma_accepted_drop_last(m: Model, evs: Seq<Event>, k: int)
    requires
        0 <= k < evs.len() - 1,
    ensures
        accepted_bid_at(m, evs, k) <==> accepted_bid_at(m, evs.drop_last(), k),
{
    assert(evs.take(k) =~= evs.drop_last().take(k));
    assert(evs[k] == evs.drop_last()[k]);
}

/// After any sequence of calls, the highest bid equals the largest amount
/// among the accepted bids: every accepted bid's amount is at most the
/// final highest bid, and the final highest bid is either still the
/// reserve price or the amount of some accepted bid.
pub proof fn lemma_max_price_is_max_accepted(m: Model, evs: Seq<Event>)
    ensures
        forall|k: int|
            accepted_bid_at(m, evs, k) ==> bid_amount(evs[k]) <= run(m, evs).state.max_price,
        run(m, evs).state.max_price == m.state.max_price || exists|k: int|
            accepted_bid_at(m, evs, k) && bid_amount(evs[k]) == run(m, evs).state.max_price,
    decreases evs.len(),
{
    if evs.len() > 0 {
        let el = evs.drop_last();
        let e = evs.last();
        let mp = run(m, el);
        lemma_max_price_is_max_accepted(m, el);
        lemma_step_max_price(mp, e);
        assert(run(m, evs) == step(mp, e));
        assert(evs.take(evs.len() - 1) =~= el);
        assert forall|k: int| 0 <= k < evs.len() - 1 implies (accepted_bid_at(m, evs, k)
            <==> accepted_bid_at(m, el, k)) by {
            lemma_accepted_drop_last(m, evs, k);
        }
        if is_bid(e) && step_outcome(mp, e) == Ok::<(), Errors>(()) {
            assert(accepted_bid_at(m, evs, evs.len() - 1));
            assert(bid_amount(evs[evs.len() - 1]) == run(m, evs).state.max_price);
        } else {
            assert(run(m, evs).state.max_price == mp.state.max_price);
            if mp.state.max_price != m.state.max_price {
                let k = choose|k: int|
                    accepted_bid_at(m, el, k) && bid_amount(el[k]) == mp.state.max_price;
                assert(accepted_bid_at(m, evs, k));
                assert(bid_amount(evs[k]) == run(m, evs).state.max_price);
            }
        }
    }
}

/// A bid event never lowers any bidder's escrow record: an accepted bid
/// by `b` raises `b`'s record to exactly the bid's amount, and every
/// other bid event leaves `b`'s record unchanged.
pub proof fn lemma_step_stake(m: Model, e: Event, b: u64)
    requires
        is_bid(e),
    ensures
        stake_of(step(m, e).offers, b) >= stake_of(m.offers, b),
        step_outcome(m, e) == Ok::<(), Errors>(()) && bid_buyer(e) == b ==> stake_of(
            step(m, e).offers,
            b,
        ) == bid_amount(e),
        !(step_outcome(m, e) == Ok::<(), Errors>(()) && bid_buyer(e) == b) ==> stake_of(
            step(m, e).offers,
            b,
        ) == stake_of(m.offers, b),
{
    match e {
        Event::Bid { buyer, treasury, now, amount } => {
            let (_, o2, _, r) = bid_step(m.state, m.offers, m.balances, buyer, treasury, now, amount);
            if r == Ok::<(), Errors>(()) {
                lemma_write_stake_stake(m.offers, buyer, amount, b);
            }
        },
        _ => {},
    }
}

/// Over any sequence of bids, a bidder's escrow record is non-decreasing.
pub proof fn lemma_run_stake_nondecreasing(m: Model, evs: Seq<Event>, b: u64, i: int, j: int)
    requires
        forall|k: int| 0 <= k < evs.len() ==> is_bid(evs[k]),
        0 <= i <= j <= evs.len(),
    ensures
        stake_of(run(m, evs.take(i)).offers, b) <= stake_of(run(m, evs.take(j)).offers, b),
    decreases j - i,
{
    if j > i {
        lemma_run_stake_nondecreasing(m, evs, b, i, j - 1);
        lemma_run_take_unfold(m, evs, j);
        lemma_step_stake(run(m, evs.take(j - 1)), evs[j - 1], b);
    }
}

/// After any sequence of bids, a bidder's escrow record equals the
/// largest amount among that bidder's accepted bids: every amount they
/// had accepted is at most their final record, and their final record is
/// either still what it started as or the amount of one of their accepted
/// bids.
pub proof fn lemma_stake_is_max_accepted(m: Model, evs: Seq<Event>, b: u64)
    requires
        forall|k: int| 0 <= k < evs.len() ==> is_bid(evs[k]),
    ensures
        forall|k: int|
            accepted_bid_at(m, evs, k) && bid_buyer(evs[k]) == b ==> bid_amount(evs[k])
                <= stake_of(run(m, evs).offers, b),
        stake_of(run(m, evs).offers, b) == stake_of(m.offers, b) || exists|k: int|
            accepted_bid_at(m, evs, k) && bid_buyer(evs[k]) == b && bid_amount(evs[k]) == stake_of(
                run(m, evs).offers,
                b,
            ),
    decreases evs.len(),
{
    if evs.len() > 0 {
        let el = evs.drop_last();
        let e = evs.last();
        let mp = run(m, el);
        assert(forall|k: int| 0 <= k < el.len() ==> is_bid(el[k]));
        lemma_stake_is_max_accepted(m, el, b);
        assert(is_bid(e));
        lemma_step_stake(mp, e, b);
        assert(run(m, evs) == step(mp, e));
        assert(evs.take(evs.len() - 1) =~= el);
        assert forall|k: int| 0 <= k < evs.len() - 1 implies (accepted_bid_at(m, evs, k)
            <==> accepted_bid_at(m, el, k)) by {
            lemma_accepted_drop_last(m, evs, k);
        }
        if step_outcome(mp, e) == Ok::<(), Errors>(()) && bid_buyer(e) == b {
            assert(accepted_bid_at(m, evs, evs.len() - 1));
            assert(bid_amount(evs[evs.len() - 1]) == stake_of(run(m, evs).offers, b));
        } else {
            assert(stake_of(run(m, evs).offers, b) == stake_of(mp.offers, b));
            if stake_of(mp.offers, b) != stake_of(m.offers, b) {
                let k = choose|k: int|
                    accepted_bid_at(m, el, k) && bid_buyer(el[k]) == b && bid_amount(el[k])
                        == stake_of(mp.offers, b);
                assert(accepted_bid_at(m, evs, k));
                assert(bid_amount(evs[k]) == stake_of(run(m, evs).offers, b));
            }
        }
    }
}

/// A bidder's escrow record never decreases except through their own
/// accepted refund, which zeroes it: no other call by anyone can lower
/// what a bidder has in escrow.
pub proof fn lemma_stake_lowered_only_by_own_refund(m: Model, e: Event, b: u64)
    ensures
        stake_of(step(m, e).offers, b) < stake_of(m.offers, b) ==> (match e {
            Event::Refund { buyer, .. } => buyer == b && step_outcome(m, e) == Ok::<(), Errors>(
                (),
            ) && stake_of(step(m, e).offers, b) == 0,
            _ => false,
        }),
{
    match e {
        Event::Bid { buyer, treasury, now, amount } => {
            let (_, o2, _, r) = bid_step(m.state, m.offers, m.balances, buyer, treasury, now, amount);
            if r == Ok::<(), Errors>(()) {
                lemma_write_stake_stake(m.offers, buyer, amount, b);
            }
        },
        Event::End { .. } => {},
        Event::Refund { buyer, treasury } => {
            let (o2, _, r) = refund_step(m.state, m.offers, m.balances, buyer, treasury);
            if r == Ok::<(), Errors>(()) {
                lemma_write_stake_stake(m.offers, buyer, 0, b);
            }
        },
    }
}

/// Settlement happens at most once: after a successful `end_auction`,
/// every further `end_auction` call, whatever identities and time it
/// supplies, changes nothing and fails — with the `Open` guard when the
/// identities match the record.
pub proof fn lemma_end_auction_at_most_once(
    state: State,
    balances: Seq<AccountBalance>,
    i1: u64,
    t1: u64,
    mb1: u64,
    now1: i64,
    i2: u64,
    t2: u64,
    mb2: u64,
    now2: i64,
)
    requires
        end_step(state, balances, i1, t1, mb1, now1).2 == Ok::<(), Errors>(()),
    ensures
        ({
            let (s2, b2, _) = end_step(state, balances, i1, t1, mb1, now1);
            let (s3, b3, r3) = end_step(s2, b2, i2, t2, mb2, now2);
            s3 == s2 && b3 == b2 && r3 != Ok::<(), Errors>(()) && ((i2 == s2.initializer && t2
                == s2.treasury && mb2 == s2.max_bidder) ==> r3 == Err::<(), Errors>(Errors::Open))
        }),
{
}

/// The current highest bidder can never be refunded: a `refund` call by
/// the recorded `max_bidder` fails, whatever else holds, and changes
/// nothing.
pub proof fn lemma_winner_cannot_refund(
    state: State,
    offers: Seq<Offer>,
    balances: Seq<AccountBalance>,
    treasury: u64,
)
    ensures
        ({
            let (o2, b2, r) = refund_step(state, offers, balances, state.max_bidder, treasury);
            o2 == offers && b2 == balances && r != Ok::<(), Errors>(())
        }),
{
}

} // verus!
