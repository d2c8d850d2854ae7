//! The balance ledger and the atomic transfer primitive: the only component
//! permitted to mutate raw account balances.

use vstd::prelude::*;
use crate::errors::Errors;

verus! {

/// One account's native balance on the ledger.
#[derive(Clone, Copy, Debug, PartialEq, Eq, Structural)]
pub struct AccountBalance {
    /// The identity this balance belongs to.
    pub owner: u64,
    /// The amount the account currently holds.
    pub amount: u64,
}

/// No two entries belong to the same account.
pub open spec fn distinct_owners(s: Seq<AccountBalance>) -> bool {
    forall|i: int, j: int| 0 <= i < j < s.len() ==> s[i].owner != s[j].owner
}

/// The balance of account `id`, or 0 when the ledger has no entry for it.
pub open spec fn balance_of(s: Seq<AccountBalance>, id: u64) -> u64
    decreases s.len(),
{
    if s.len() == 0 {
        0
    } else if s.first().owner == id {
        s.first().amount
    } else {
        balance_of(s.drop_first(), id)
    }
}

/// The ledger after account `id`'s balance is set to `a`: the entry is
/// rewritten in place when one exists and appended when it does not.
pub open spec fn write_balance(s: Seq<AccountBalance>, id: u64, a: u64) -> Seq<AccountBalance>
    decreases s.len(),
{
    if s.len() == 0 {
        seq![AccountBalance { owner: id, amount: a }]
    } else if s.first().owner == id {
        seq![AccountBalance { owner: id, amount: a }] + s.drop_first()
    } else {
        seq![s.first()] + write_balance(s.drop_first(), id, a)
    }
}

/// What `transfer` does: moves `amount` from `from` to `to` atomically, or
/// fails with `InsufficientFunds` when the source lacks the amount and with
/// `InvalidOperation` when the destination balance would overflow. A
/// transfer between an account and itself that passes the balance check
/// leaves the ledger unchanged.
pub open spec fn transfer_result(s: Seq<AccountBalance>, from: u64, to: u64, amount: u64) -> Result<
    Seq<AccountBalance>,
    Errors,
> {
    if balance_of(s, from) < amount {
        Err(Errors::InsufficientFunds)
    } else if from == to {
        Ok(s)
    } else if balance_of(s, to) + amount > u64::MAX {
        Err(Errors::InvalidOperation)
    } else {
        Ok(
            write_balance(
                write_balance(s, from, (balance_of(s, from) - amount) as u64),
                to,
                (balance_of(s, to) + amount) as u64,
            ),
        )
    }
}

/// In a ledger without duplicate owners, the entry at any index holding
/// `id` gives `id`'s balance.
pub proof fn lemma_balance_at_index(s: Seq<AccountBalance>, id: u64, i: int)
    requires
        distinct_owners(s),
        0 <= i < s.len(),
        s[i].owner == id,
    ensures
        balance_of(s, id) == s[i].amount,
    decreases s.len(),
{
    if i == 0 {
        assert(s.first().owner == id);
    } else {
        assert(s.first().owner != id);
        assert(distinct_owners(s.drop_first())) by {
            assert(forall|p: int, q: int|
                0 <= p < q < s.drop_first().len() ==> s.drop_first()[p].owner == s[p + 1].owner
                    && s.drop_first()[q].owner == s[q + 1].owner);
        }
        lemma_balance_at_index(s.drop_first(), id, i - 1);
    }
}

/// An account that appears at no index has a balance of 0.
pub proof fn lemma_balance_absent(s: Seq<AccountBalance>, id: u64)
    requires
        forall|i: int| 0 <= i < s.len() ==> s[i].owner != id,
    ensures
        balance_of(s, id) == 0,
    decreases s.len(),
{
    if s.len() > 0 {
        assert(s[0].owner != id);
        assert(forall|i: int|
            0 <= i < s.drop_first().len() ==> s.drop_first()[i] == s[i + 1]);
        lemma_balance_absent(s.drop_first(), id);
    }
}

/// Rewriting the entry found at index `i` is the same as `write_balance`.
pub proof fn lemma_write_balance_found(s: Seq<AccountBalance>, id: u64, a: u64, i: int)
    requires
        distinct_owners(s),
        0 <= i < s.len(),
        s[i].owner == id,
    ensures
        write_balance(s, id, a) == s.update(i, AccountBalance { owner: id, amount: a }),
    decreases s.len(),
{
    if i == 0 {
        assert(s.first().owner == id);
        assert(seq![AccountBalance { owner: id, amount: a }] + s.drop_first() =~= s.update(
            i,
            AccountBalance { owner: id, amount: a },
        ));
    } else {
        assert(s.first().owner != id);
        assert(distinct_owners(s.drop_first())) by {
            assert(forall|p: int, q: int|
                0 <= p < q < s.drop_first().len() ==> s.drop_first()[p].owner == s[p + 1].owner
                    && s.drop_first()[q].owner == s[q + 1].owner);
        }
        lemma_write_balance_found(s.drop_first(), id, a, i - 1);
        assert(seq![s.first()] + s.drop_first().update(
            i - 1,
            AccountBalance { owner: id, amount: a },
        ) =~= s.update(i, AccountBalance { owner: id, amount: a }));
    }
}

/// Setting the balance of an account without an entry appends one.
pub proof fn lemma_write_balance_absent(s: Seq<AccountBalance>, id: u64, a: u64)
    requires
        forall|i: int| 0 <= i < s.len() ==> s[i].owner != id,
    ensures
        write_balance(s, id, a) == s.push(AccountBalance { owner: id, amount: a }),
    decreases s.len(),
{
    if s.len() == 0 {
        assert(write_balance(s, id, a) =~= s.push(AccountBalance { owner: id, amount: a }));
    } else {
        assert(s[0].owner != id);
        assert(forall|i: int|
            0 <= i < s.drop_first().len() ==> s.drop_first()[i] == s[i + 1]);
        lemma_write_balance_absent(s.drop_first(), id, a);
        assert(seq![s.first()] + s.drop_first().push(AccountBalance { owner: id, amount: a })
            =~= s.push(AccountBalance { owner: id, amount: a }));
    }
}

/// After `write_balance`, account `id` holds `a` and every other balance
/// is unchanged.
pub proof fn lemma_write_balance_balance(s: Seq<AccountBalance>, id: u64, a: u64, x: u64)
    ensures
        balance_of(write_balance(s, id, a), x) == if x == id {
            a
        } else {
            balance_of(s, x)
        },
    decreases s.len(),
{
    let w = write_balance(s, id, a);
    if s.len() == 0 {
        assert(w.first() == AccountBalance { owner: id, amount: a });
        assert(w.drop_first() =~= Seq::<AccountBalance>::empty());
        assert(balance_of(w.drop_first(), x) == 0);
        assert(balance_of(w, x) == if x == id {
            a
        } else {
            0u64
        });
    } else if s.first().owner == id {
        assert(w.first() == AccountBalance { owner: id, amount: a });
        assert(w.drop_first() =~= s.drop_first());
        assert(balance_of(w, x) == if x == id {
            a
        } else {
            balance_of(s.drop_first(), x)
        });
    } else {
        assert(w.first() == s.first());
        assert(w.drop_first() =~= write_balance(s.drop_first(), id, a));
        lemma_write_balance_balance(s.drop_first(), id, a, x);
        assert(balance_of(w, x) == if s.first().owner == x {
            s.first().amount
        } else {
            balance_of(w.drop_first(), x)
        });
    }
}

/// `write_balance` introduces no duplicate owner.
pub proof fn lemma_write_balance_distinct(s: Seq<AccountBalance>, id: u64, a: u64)
    requires
        distinct_owners(s),
    ensures
        distinct_owners(write_balance(s, id, a)),
{
    if exists|i: int| 0 <= i < s.len() && s[i].owner == id {
        let i = choose|i: int| 0 <= i < s.len() && s[i].owner == id;
        lemma_write_balance_found(s, id, a, i);
    } else {
        assert(forall|i: int| 0 <= i < s.len() ==> s[i].owner != id);
        lemma_write_balance_absent(s, id, a);
    }
}

/// The balance ledger: every account's native balance, mutated only
/// through `deposit` and `transfer`.
pub struct Balances {
    accounts: Vec<AccountBalance>,
}

impl View for Balances {
    type V = Seq<AccountBalance>;

    closed spec fn view(&self) -> Seq<AccountBalance> {
        self.accounts@
    }
}

impl Balances {
    /// The ledger's internal discipline: one entry per account.
    pub open spec fn well_formed(&self) -> bool {
        distinct_owners(self@)
    }

    /// An empty ledger: every account's balance is 0.
    pub fn new() -> (r: Balances)
        ensures
            r@ == Seq::<AccountBalance>::empty(),
            r.well_formed(),
    {
        let r = Balances { accounts: Vec::new() };
        proof {
            assert(r@ =~= Seq::<AccountBalance>::empty());
        }
        r
    }

    /// The balance account `id` currently holds.
    pub fn balance(&self, id: u64) -> (r: u64)
        requires
            self.well_formed(),
        ensures
            r == balance_of(self@, id),
    {
        let n = self.accounts.len();
        let mut i: usize = 0;
        while i < n
            invariant
                n == self.accounts.len(),
                0 <= i <= n,
                self.well_formed(),
                forall|k: int| 0 <= k < i ==> self@[k].owner != id,
            decreases n - i,
        {
            if self.accounts[i].owner == id {
                proof {
                    lemma_balance_at_index(self@, id, i as int);
                }
                return self.accounts[i].amount;
            }
            i += 1;
        }
        proof {
            lemma_balance_absent(self@, id);
        }
        0
    }

    /// Sets account `id`'s balance to `a`, creating the entry when the
    /// ledger has none.
    fn set(&mut self, id: u64, a: u64)
        requires
            old(self).well_formed(),
        ensures
            final(self)@ == write_balance(old(self)@, id, a),
            final(self).well_formed(),
    {
        proof {
            lemma_write_balance_distinct(old(self)@, id, a);
        }
        let n = self.accounts.len();
        let mut i: usize = 0;
        while i < n
            invariant
                n == self.accounts.len(),
                0 <= i <= n,
                self.well_formed(),
                self@ == old(self)@,
                forall|k: int| 0 <= k < i ==> self@[k].owner != id,
            decreases n - i,
        {
            if self.accounts[i].owner == id {
                proof {
                    lemma_write_balance_found(self@, id, a, i as int);
                }
                self.accounts[i] = AccountBalance { owner: id, amount: a };
                return ;
            }
            i += 1;
        }
        proof {
            lemma_write_balance_absent(self@, id, a);
        }
        self.accounts.push(AccountBalance { owner: id, amount: a });
    }

    /// Credits `amount` to account `id` from outside the system, for
    /// funding accounts before they take part in an auction. Fails with
    /// `InvalidOperation` when the balance would overflow, leaving the
    /// ledger unchanged.
    pub fn deposit(&mut self, id: u64, amount: u64) -> (r: Result<(), Errors>)
        requires
            old(self).well_formed(),
        ensures
            final(self).well_formed(),
            balance_of(old(self)@, id) + amount > u64::MAX ==> r == Err::<(), Errors>(
                Errors::InvalidOperation,
            ) && final(self)@ == old(self)@,
            balance_of(old(self)@, id) + amount <= u64::MAX ==> r == Ok::<(), Errors>(())
                && final(self)@ == write_balance(
                old(self)@,
                id,
                (balance_of(old(self)@, id) + amount) as u64,
            ),
    {
        let bal = self.balance(id);
        if bal > u64::MAX - amount {
            return Err(Errors::InvalidOperation);
        }
        self.set(id, bal + amount);
        Ok(())
    }

    /// Moves `amount` from `from` to `to`: decreases the source and
    /// increases the destination by exactly `amount`, atomically, or fails
    /// without touching either balance. The contract is `transfer_result`.
    pub fn transfer(&mut self, from: u64, to: u64, amount: u64) -> (r: Result<(), Errors>)
        requires
            old(self).well_formed(),
        ensures
            final(self).well_formed(),
            match transfer_result(old(self)@, from, to, amount) {
                Ok(s2) => r == Ok::<(), Errors>(()) && final(self)@ == s2,
                Err(e) => r == Err::<(), Errors>(e) && final(self)@ == old(self)@,
            },
    {
        let bal_from = self.balance(from);
        if bal_from < amount {
            return Err(Errors::InsufficientFunds);
        }
        if from == to {
            return Ok(());
        }
        let bal_to = self.balance(to);
        if bal_to > u64::MAX - amount {
            return Err(Errors::InvalidOperation);
        }
        self.set(from, bal_from - amount);
        self.set(to, bal_to + amount);
        Ok(())
    }
}

} // verus!
