//! The auction record: parameters, current winner, and the open flag.

use vstd::prelude::*;

verus! {

/// The account number that stands for "no bidder yet". A fresh auction
/// records it as the highest bidder, so the reserve price is not owed to
/// anyone until a real bid is accepted.
pub const NO_BIDDER: u64 = 0;

/// One auction instance. Created once by `initialize` and thereafter
/// mutated only by the state machine: `bid` raises `max_price` and
/// `max_bidder`, `end_auction` clears `open`, and nothing else changes.
#[derive(Clone, Copy, Debug, PartialEq, Eq, Structural)]
pub struct State {
    /// The seller: the identity that created the auction and may claim the
    /// winning bid after the close.
    pub initializer: u64,
    /// The program-controlled pool that holds every escrowed deposit and
    /// pays the seller at the close.
    pub treasury: u64,
    /// The identity of the current highest bidder, or `NO_BIDDER`.
    pub max_bidder: u64,
    /// The current highest bid; starts at the seller's reserve price and
    /// never decreases.
    pub max_price: u64,
    /// The absolute timestamp after which no further bids are accepted.
    pub end_time: i64,
    /// `true` from creation until `end_auction` succeeds; `false` is
    /// terminal.
    pub open: bool,
}

impl State {
    /// The number of bytes one serialized auction record occupies: three
    /// 8-byte identities, an 8-byte price, an 8-byte timestamp, and one
    /// byte for the flag.
    pub fn size() -> (n: usize)
        ensures
            n == 41,
    {
        8 + 8 + 8 + 8 + 8 + 1
    }
}

} // verus!
