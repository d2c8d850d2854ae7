//! The escrow ledger: one record per bidder holding the cumulative amount
//! that bidder currently has in escrow for this auction.

use vstd::prelude::*;

verus! {

/// A bidder's escrow record: the cumulative total this bidder has moved
/// into the treasury across all their bids, and the identity the record
/// belongs to. Zeroed on a successful refund.
#[derive(Clone, Copy, Debug, PartialEq, Eq, Structural)]
pub struct Offer {
    /// The cumulative amount this bidder currently has in escrow.
    pub amount: u64,
    /// The bidder this record belongs to; only they may claim a refund.
    pub buyer: u64,
}

impl Offer {
    /// The number of bytes one serialized escrow record occupies: an
    /// 8-byte amount and an 8-byte identity.
    pub fn size() -> (n: usize)
        ensures
            n == 16,
    {
        8 + 8
    }
}

/// No two records belong to the same bidder.
pub open spec fn distinct_buyers(s: Seq<Offer>) -> bool {
    forall|i: int, j: int| 0 <= i < j < s.len() ==> s[i].buyer != s[j].buyer
}

/// The amount the record of bidder `b` holds, or 0 when no record exists.
pub open spec fn stake_of(s: Seq<Offer>, b: u64) -> u64
    decreases s.len(),
{
    if s.len() == 0 {
        0
    } else if s.first().buyer == b {
        s.first().amount
    } else {
        stake_of(s.drop_first(), b)
    }
}

/// Whether bidder `b` has a record (even a zeroed one).
pub open spec fn has_offer(s: Seq<Offer>, b: u64) -> bool
    decreases s.len(),
{
    s.len() > 0 && (s.first().buyer == b || has_offer(s.drop_first(), b))
}

/// The sum of all recorded escrow amounts.
pub open spec fn total(s: Seq<Offer>) -> int
    decreases s.len(),
{
    if s.len() == 0 {
        0
    } else {
        s.first().amount + total(s.drop_first())
    }
}

/// The table after bidder `b`'s record is set to `a`: the record is
/// rewritten in place when one exists and appended when it does not.
pub open spec fn write_stake(s: Seq<Offer>, b: u64, a: u64) -> Seq<Offer>
    decreases s.len(),
{
    if s.len() == 0 {
        seq![Offer { amount: a, buyer: b }]
    } else if s.first().buyer == b {
        seq![Offer { amount: a, buyer: b }] + s.drop_first()
    } else {
        seq![s.first()] + write_stake(s.drop_first(), b, a)
    }
}

/// A bidder has a record exactly when some index holds their identity.
pub proof fn lemma_has_offer_index(s: Seq<Offer>, b: u64)
    ensures
        has_offer(s, b) <==> exists|i: int| 0 <= i < s.len() && s[i].buyer == b,
    decreases s.len(),
{
    if s.len() > 0 {
        lemma_has_offer_index(s.drop_first(), b);
        if s.first().buyer == b {
            assert(s[0].buyer == b);
        } else if has_offer(s.drop_first(), b) {
            let i = choose|i: int| 0 <= i < s.drop_first().len() && s.drop_first()[i].buyer == b;
            assert(s[i + 1].buyer == b);
        } else if exists|i: int| 0 <= i < s.len() && s[i].buyer == b {
            let i = choose|i: int| 0 <= i < s.len() && s[i].buyer == b;
            assert(s.drop_first()[i - 1].buyer == b);
        }
    }
}

/// In a table without duplicate buyers, the record at any index holding
/// `b` gives `b`'s stake.
pub proof fn lemma_stake_at_index(s: Seq<Offer>, b: u64, i: int)
    requires
        distinct_buyers(s),
        0 <= i < s.len(),
        s[i].buyer == b,
    ensures
        stake_of(s, b) == s[i].amount,
        has_offer(s, b),
    decreases s.len(),
{
    if i == 0 {
        assert(s.first().buyer == b);
    } else {
        assert(s.first().buyer != b);
        assert(distinct_buyers(s.drop_first())) by {
            assert(forall|p: int, q: int|
                0 <= p < q < s.drop_first().len() ==> s.drop_first()[p].buyer == s[p + 1].buyer
                    && s.drop_first()[q].buyer == s[q + 1].buyer);
        }
        lemma_stake_at_index(s.drop_first(), b, i - 1);
    }
}

/// A bidder who appears at no index has no record and a stake of 0.
pub proof fn lemma_stake_absent(s: Seq<Offer>, b: u64)
    requires
        forall|i: int| 0 <= i < s.len() ==> s[i].buyer != b,
    ensures
        stake_of(s, b) == 0,
        !has_offer(s, b),
    decreases s.len(),
{
    if s.len() > 0 {
        assert(s[0].buyer != b);
        assert(forall|i: int|
            0 <= i < s.drop_first().len() ==> s.drop_first()[i] == s[i + 1]);
        lemma_stake_absent(s.drop_first(), b);
    }
}

/// Rewriting the record found at index `i` is the same as `write_stake`.
pub proof fn lemma_write_stake_found(s: Seq<Offer>, b: u64, a: u64, i: int)
    requires
        distinct_buyers(s),
        0 <= i < s.len(),
        s[i].buyer == b,
    ensures
        write_stake(s, b, a) == s.update(i, Offer { amount: a, buyer: b }),
    decreases s.len(),
{
    if i == 0 {
        assert(s.first().buyer == b);
        assert(seq![Offer { amount: a, buyer: b }] + s.drop_first() =~= s.update(
            i,
            Offer { amount: a, buyer: b },
        ));
    } else {
        assert(s.first().buyer != b);
        assert(distinct_buyers(s.drop_first())) by {
            assert(forall|p: int, q: int|
                0 <= p < q < s.drop_first().len() ==> s.drop_first()[p].buyer == s[p + 1].buyer
                    && s.drop_first()[q].buyer == s[q + 1].buyer);
        }
        lemma_write_stake_found(s.drop_first(), b, a, i - 1);
        assert(seq![s.first()] + s.drop_first().update(i - 1, Offer { amount: a, buyer: b }) =~= s
            .update(i, Offer { amount: a, buyer: b }));
    }
}

/// Setting the stake of a bidder who has no record appends one.
pub proof fn lemma_write_stake_absent(s: Seq<Offer>, b: u64, a: u64)
    requires
        forall|i: int| 0 <= i < s.len() ==> s[i].buyer != b,
    ensures
        write_stake(s, b, a) == s.push(Offer { amount: a, buyer: b }),
    decreases s.len(),
{
    if s.len() == 0 {
        assert(write_stake(s, b, a) =~= s.push(Offer { amount: a, buyer: b }));
    } else {
        assert(s[0].buyer != b);
        assert(forall|i: int|
            0 <= i < s.drop_first().len() ==> s.drop_first()[i] == s[i + 1]);
        lemma_write_stake_absent(s.drop_first(), b, a);
        assert(seq![s.first()] + s.drop_first().push(Offer { amount: a, buyer: b }) =~= s.push(
            Offer { amount: a, buyer: b },
        ));
    }
}

/// After `write_stake`, bidder `b` holds `a` and every other stake is
/// unchanged.
pub proof fn lemma_write_stake_stake(s: Seq<Offer>, b: u64, a: u64, x: u64)
    ensures
        stake_of(write_stake(s, b, a), x) == if x == b {
            a
        } else {
            stake_of(s, x)
        },
    decreases s.len(),
{
    let w = write_stake(s, b, a);
    if s.len() == 0 {
        assert(w.first() == Offer { amount: a, buyer: b });
        assert(w.drop_first() =~= Seq::<Offer>::empty());
        assert(stake_of(w.drop_first(), x) == 0);
        assert(stake_of(w, x) == if x == b {
            a
        } else {
            0u64
        });
    } else if s.first().buyer == b {
        assert(w.first() == Offer { amount: a, buyer: b });
        assert(w.drop_first() =~= s.drop_first());
        assert(stake_of(w, x) == if x == b {
            a
        } else {
            stake_of(s.drop_first(), x)
        });
    } else {
        assert(w.first() == s.first());
        assert(w.drop_first() =~= write_stake(s.drop_first(), b, a));
        lemma_write_stake_stake(s.drop_first(), b, a, x);
        assert(stake_of(w, x) == if s.first().buyer == x {
            s.first().amount
        } else {
            stake_of(w.drop_first(), x)
        });
    }
}

/// After `write_stake`, the set of recorded bidders gains exactly `b`.
pub proof fn lemma_write_stake_has(s: Seq<Offer>, b: u64, a: u64, x: u64)
    ensures
        has_offer(write_stake(s, b, a), x) == (has_offer(s, x) || x == b),
    decreases s.len(),
{
    let w = write_stake(s, b, a);
    if s.len() == 0 {
        assert(w.first() == Offer { amount: a, buyer: b });
        assert(w.drop_first() =~= Seq::<Offer>::empty());
        assert(!has_offer(w.drop_first(), x));
        assert(has_offer(w, x) == (x == b));
    } else if s.first().buyer == b {
        assert(w.first() == Offer { amount: a, buyer: b });
        assert(w.drop_first() =~= s.drop_first());
        assert(has_offer(w, x) == (x == b || has_offer(s.drop_first(), x)));
        assert(has_offer(s, x) == (s.first().buyer == x || has_offer(s.drop_first(), x)));
    } else {
        assert(w.first() == s.first());
        assert(w.drop_first() =~= write_stake(s.drop_first(), b, a));
        lemma_write_stake_has(s.drop_first(), b, a, x);
        assert(has_offer(w, x) == (w.first().buyer == x || has_offer(w.drop_first(), x)));
    }
}

/// `write_stake` moves the total by the difference between the new and the
/// old stake of the written bidder.
pub proof fn lemma_write_stake_total(s: Seq<Offer>, b: u64, a: u64)
    ensures
        total(write_stake(s, b, a)) == total(s) - stake_of(s, b) + a,
    decreases s.len(),
{
    let w = write_stake(s, b, a);
    if s.len() == 0 {
        assert(w.first() == Offer { amount: a, buyer: b });
        assert(w.drop_first() =~= Seq::<Offer>::empty());
        assert(total(w.drop_first()) == 0);
        assert(total(w) == a);
    } else if s.first().buyer == b {
        assert(w.first() == Offer { amount: a, buyer: b });
        assert(w.drop_first() =~= s.drop_first());
        assert(total(w) == a + total(s.drop_first()));
        assert(total(s) == s.first().amount + total(s.drop_first()));
        assert(stake_of(s, b) == s.first().amount);
    } else {
        assert(w.first() == s.first());
        assert(w.drop_first() =~= write_stake(s.drop_first(), b, a));
        lemma_write_stake_total(s.drop_first(), b, a);
        assert(total(w) == w.first().amount + total(w.drop_first()));
        assert(total(s) == s.first().amount + total(s.drop_first()));
        assert(stake_of(s, b) == stake_of(s.drop_first(), b));
    }
}

/// `write_stake` introduces no duplicate buyer.
pub proof fn lemma_write_stake_distinct(s: Seq<Offer>, b: u64, a: u64)
    requires
        distinct_buyers(s),
    ensures
        distinct_buyers(write_stake(s, b, a)),
{
    lemma_has_offer_index(s, b);
    if has_offer(s, b) {
        let i = choose|i: int| 0 <= i < s.len() && s[i].buyer == b;
        lemma_write_stake_found(s, b, a, i);
    } else {
        assert(forall|i: int| 0 <= i < s.len() ==> s[i].buyer != b);
        lemma_write_stake_absent(s, b, a);
    }
}

/// A total of escrow amounts is never negative.
pub proof fn lemma_total_nonneg(s: Seq<Offer>)
    ensures
        total(s) >= 0,
    decreases s.len(),
{
    if s.len() > 0 {
        lemma_total_nonneg(s.drop_first());
    }
}

/// No single stake exceeds the total of all stakes.
pub proof fn lemma_stake_le_total(s: Seq<Offer>, b: u64)
    ensures
        stake_of(s, b) <= total(s),
    decreases s.len(),
{
    if s.len() > 0 {
        lemma_stake_le_total(s.drop_first(), b);
        lemma_total_nonneg(s.drop_first());
    }
}

/// Two different bidders' stakes together never exceed the total.
pub proof fn lemma_two_stakes_le_total(s: Seq<Offer>, b1: u64, b2: u64)
    requires
        b1 != b2,
    ensures
        stake_of(s, b1) + stake_of(s, b2) <= total(s),
    decreases s.len(),
{
    if s.len() > 0 {
        lemma_two_stakes_le_total(s.drop_first(), b1, b2);
        if s.first().buyer == b1 {
            lemma_stake_le_total(s.drop_first(), b2);
        } else if s.first().buyer == b2 {
            lemma_stake_le_total(s.drop_first(), b1);
        }
    }
}

/// The escrow ledger: the table of all bidders' escrow records for one
/// auction. Records are created lazily on a bidder's first accepted bid.
pub struct Escrow {
    offers: Vec<Offer>,
}

impl View for Escrow {
    type V = Seq<Offer>;

    closed spec fn view(&self) -> Seq<Offer> {
        self.offers@
    }
}

impl Escrow {
    /// The ledger's internal discipline: one record per bidder.
    pub open spec fn well_formed(&self) -> bool {
        distinct_buyers(self@)
    }

    /// An empty ledger: no bidder has anything in escrow.
    pub fn new() -> (r: Escrow)
        ensures
            r@ == Seq::<Offer>::empty(),
            r.well_formed(),
    {
        let r = Escrow { offers: Vec::new() };
        proof {
            assert(r@ =~= Seq::<Offer>::empty());
        }
        r
    }

    /// The amount bidder `b` currently has in escrow; 0 when no record
    /// exists yet.
    pub fn current_stake(&self, b: u64) -> (r: u64)
        requires
            self.well_formed(),
        ensures
            r == stake_of(self@, b),
    {
        let n = self.offers.len();
        let mut i: usize = 0;
        while i < n
            invariant
                n == self.offers.len(),
                0 <= i <= n,
                self.well_formed(),
                forall|k: int| 0 <= k < i ==> self@[k].buyer != b,
            decreases n - i,
        {
            if self.offers[i].buyer == b {
                proof {
                    lemma_stake_at_index(self@, b, i as int);
                }
                return self.offers[i].amount;
            }
            i += 1;
        }
        proof {
            lemma_stake_absent(self@, b);
        }
        0
    }

    /// Sets bidder `b`'s escrow record to the cumulative amount `a`,
    /// creating the record when this is `b`'s first accepted bid.
    pub fn set_stake(&mut self, b: u64, a: u64)
        requires
            old(self).well_formed(),
        ensures
            final(self)@ == write_stake(old(self)@, b, a),
            final(self).well_formed(),
    {
        proof {
            lemma_write_stake_distinct(old(self)@, b, a);
        }
        let n = self.offers.len();
        let mut i: usize = 0;
        while i < n
            invariant
                n == self.offers.len(),
                0 <= i <= n,
                self.well_formed(),
                self@ == old(self)@,
                forall|k: int| 0 <= k < i ==> self@[k].buyer != b,
            decreases n - i,
        {
            if self.offers[i].buyer == b {
                proof {
                    lemma_write_stake_found(self@, b, a, i as int);
                }
                self.offers[i] = Offer { amount: a, buyer: b };
                return ;
            }
            i += 1;
        }
        proof {
            lemma_write_stake_absent(self@, b, a);
        }
        self.offers.push(Offer { amount: a, buyer: b });
    }

    /// Zeroes bidder `b`'s escrow record after a successful refund.
    pub fn zero(&mut self, b: u64)
        requires
            old(self).well_formed(),
        ensures
            final(self)@ == write_stake(old(self)@, b, 0),
            final(self).well_formed(),
    {
        self.set_stake(b, 0)
    }
}

} // verus!
