//! The error kinds that the auction operations return.

use vstd::prelude::*;

verus! {

/// Every way an auction operation can be refused. Each operation's contract
/// says exactly which inputs produce which variant, and no operation that
/// returns an error leaves any record or balance changed.
#[derive(Clone, Copy, Debug, PartialEq, Eq, Structural)]
pub enum Errors {
    /// The bid is not strictly greater than the current highest bid.
    BidTooLow,
    /// The caller already leads the auction and may not raise their own bid.
    AlreadyHighestBidder,
    /// An identity supplied with the call does not match the one recorded
    /// on the auction.
    WrongAccount,
    /// Settlement or refund was attempted while the auction is still open,
    /// or settlement was attempted a second time.
    Open,
    /// A bid arrived after the deadline or after the auction was closed.
    Closed,
    /// An amount or timestamp computation would overflow or underflow.
    InvalidOperation,
    /// The current highest bidder tried to reclaim their own escrow.
    WinnerRefund,
    /// A transfer's source account does not hold the amount to move.
    InsufficientFunds,
}

} // verus!
