//! The currency ledger: free and reserved balances per account, with
//! reserve, unreserve and transfer-with-liveness-check operations, each of
//! them atomic.  A well-formed ledger tracks the sum of all balances, so
//! moving value between accounts can never overflow.

use vstd::prelude::*;

use crate::kv::assoc_find;
use crate::kv::distinct_keys;
use crate::kv::lemma_find_none;
use crate::kv::lemma_find_push;
use crate::kv::lemma_find_some;
use crate::kv::lemma_find_update;
use crate::pallet::Error;

verus! {

/// One account's balances: the freely spendable part and the part held
/// back as collateral.
#[derive(Clone, Copy, Debug, PartialEq, Eq)]
pub struct AccountBalance {
    pub free: u64,
    pub reserved: u64,
}

/// The value an entry binds: free plus reserved.
pub open spec fn weight(e: (u64, AccountBalance)) -> int {
    e.1.free + e.1.reserved
}

/// The value bound by all entries together.
pub open spec fn sum_weights(s: Seq<(u64, AccountBalance)>) -> int
    decreases s.len(),
{
    if s.len() == 0 {
        0
    } else {
        sum_weights(s.drop_last()) + weight(s.last())
    }
}

pub proof fn lemma_sum_nonneg(s: Seq<(u64, AccountBalance)>)
    ensures
        sum_weights(s) >= 0,
    decreases s.len(),
{
    if s.len() > 0 {
        lemma_sum_nonneg(s.drop_last());
    }
}

/// Replacing one entry changes the sum by the difference of the weights.
pub proof fn lemma_sum_update(s: Seq<(u64, AccountBalance)>, i: int, e: (u64, AccountBalance))
    requires
        0 <= i < s.len(),
    ensures
        sum_weights(s.update(i, e)) == sum_weights(s) - weight(s[i]) + weight(e),
    decreases s.len(),
{
    let s2 = s.update(i, e);
    if i == s.len() - 1 {
        assert(s2.drop_last() =~= s.drop_last());
        assert(s2.last() == e);
    } else {
        assert(s2.drop_last() =~= s.drop_last().update(i, e));
        lemma_sum_update(s.drop_last(), i, e);
        assert(s2.last() == s.last());
    }
}

/// Appending an entry adds its weight to the sum.
pub proof fn lemma_sum_push(s: Seq<(u64, AccountBalance)>, e: (u64, AccountBalance))
    ensures
        sum_weights(s.push(e)) == sum_weights(s) + weight(e),
{
    assert(s.push(e).drop_last() =~= s);
    assert(s.push(e).last() == e);
}

/// No entry outweighs the sum.
pub proof fn lemma_weight_le_sum(s: Seq<(u64, AccountBalance)>, i: int)
    requires
        0 <= i < s.len(),
    ensures
        weight(s[i]) <= sum_weights(s),
    decreases s.len(),
{
    if i == s.len() - 1 {
        lemma_sum_nonneg(s.drop_last());
    } else {
        lemma_weight_le_sum(s.drop_last(), i);
    }
}

/// No two entries together outweigh the sum.
pub proof fn lemma_pair_le_sum(s: Seq<(u64, AccountBalance)>, i: int, j: int)
    requires
        0 <= i < j < s.len(),
    ensures
        weight(s[i]) + weight(s[j]) <= sum_weights(s),
    decreases s.len(),
{
    if j == s.len() - 1 {
        lemma_weight_le_sum(s.drop_last(), i);
    } else {
        lemma_pair_le_sum(s.drop_last(), i, j);
    }
}

/// The currency ledger.  `total` caches the sum of all balances; every
/// operation below conserves it, so no account's balance can ever outgrow
/// the representable range.
pub struct Ledger {
    accounts: Vec<(u64, AccountBalance)>,
    total: u64,
}

impl Ledger {
    /// The free balance of `who`; an unknown account holds nothing.
    pub closed spec fn spec_free(&self, who: u64) -> u64 {
        match assoc_find(self.accounts@, who) {
            Some(b) => b.free,
            None => 0,
        }
    }

    /// The reserved balance of `who`; an unknown account holds nothing.
    pub closed spec fn spec_reserved(&self, who: u64) -> u64 {
        match assoc_find(self.accounts@, who) {
            Some(b) => b.reserved,
            None => 0,
        }
    }

    /// The sum of all free and reserved balances.
    pub closed spec fn spec_total(&self) -> u64 {
        self.total
    }

    /// Well-formed: each account has one entry, and `total` is the sum of
    /// all balances.
    pub closed spec fn wf(&self) -> bool {
        &&& distinct_keys(self.accounts@)
        &&& self.total as int == sum_weights(self.accounts@)
    }

    /// An empty ledger: every account holds nothing.
    pub fn new() -> (r: Ledger)
        ensures
            r.wf(),
            r.spec_total() == 0,
            forall|a: u64| r.spec_free(a) == 0 && r.spec_reserved(a) == 0,
    {
        let r = Ledger { accounts: Vec::new(), total: 0 };
        proof {
            assert forall|a: u64| r.spec_free(a) == 0 && r.spec_reserved(a) == 0 by {
                lemma_find_none(r.accounts@, a);
            }
        }
        r
    }

    /// The position of the entry for `who`, if any.
    fn index_of(&self, who: u64) -> (r: Option<usize>)
        ensures
            match r {
                Some(i) => i < self.accounts@.len() && self.accounts@[i as int].0 == who,
                None => forall|j: int|
                    0 <= j < self.accounts@.len() ==> self.accounts@[j].0 != who,
            },
    {
        let mut i: usize = 0;
        while i < self.accounts.len()
            invariant
                i <= self.accounts@.len(),
                forall|j: int| 0 <= j < i ==> self.accounts@[j].0 != who,
            decreases self.accounts@.len() - i,
        {
            if self.accounts[i].0 == who {
                return Some(i);
            }
            i = i + 1;
        }
        None
    }

    /// The free balance of `who`.
    pub fn free_balance(&self, who: u64) -> (r: u64)
        requires
            self.wf(),
        ensures
            r == self.spec_free(who),
    {
        match self.index_of(who) {
            Some(i) => {
                proof {
                    lemma_find_some(self.accounts@, who, i as int);
                }
                self.accounts[i].1.free
            },
            None => {
                proof {
                    lemma_find_none(self.accounts@, who);
                }
                0
            },
        }
    }

    /// Issues `amount` of new free balance to `who`.  Refused only when it
    /// would push the sum of all balances past the representable maximum.
    pub fn fund(&mut self, who: u64, amount: u64) -> (ok: bool)
        requires
            old(self).wf(),
        ensures
            final(self).wf(),
            ok <==> amount <= u64::MAX - old(self).spec_total(),
            ok ==> final(self).spec_total() == old(self).spec_total() + amount
                && final(self).spec_free(who) == old(self).spec_free(who) + amount
                && final(self).spec_reserved(who) == old(self).spec_reserved(who)
                && agrees_except(*old(self), *final(self), who),
            !ok ==> final(self).spec_total() == old(self).spec_total() && balances_eq(
                *old(self),
                *final(self),
            ),
    {
        if amount > u64::MAX - self.total {
            return false;
        }
        let ghost s0 = self.accounts@;
        match self.index_of(who) {
            Some(i) => {
                proof {
                    lemma_find_some(s0, who, i as int);
                    lemma_weight_le_sum(s0, i as int);
                }
                let b = self.accounts[i].1;
                let nb = AccountBalance { free: b.free + amount, reserved: b.reserved };
                self.accounts[i] = (who, nb);
                self.total = self.total + amount;
                proof {
                    let s1 = self.accounts@;
                    assert forall|q: u64|
                        #![trigger assoc_find(s1, q)]
                        assoc_find(s1, q) == (if q == who {
                            Some((who, nb).1)
                        } else {
                            assoc_find(s0, q)
                        }) by {
                        lemma_find_update(s0, i as int, (who, nb), q);
                    }
                    lemma_find_update(s0, i as int, (who, nb), who);
                    lemma_sum_update(s0, i as int, (who, nb));
                }
            },
            None => {
                proof {
                    lemma_find_none(s0, who);
                }
                let nb = AccountBalance { free: amount, reserved: 0 };
                self.accounts.push((who, nb));
                self.total = self.total + amount;
                proof {
                    let s1 = self.accounts@;
                    assert forall|q: u64|
                        #![trigger assoc_find(s1, q)]
                        assoc_find(s1, q) == (if q == who {
                            Some((who, nb).1)
                        } else {
                            assoc_find(s0, q)
                        }) by {
                        lemma_find_push(s0, (who, nb), q);
                    }
                    lemma_find_push(s0, (who, nb), who);
                    lemma_sum_push(s0, (who, nb));
                }
            },
        }
        true
    }

    /// Moves `amount` of `who`'s balance from free to reserved.  Fails,
    /// changing nothing, exactly when the free balance is too small.
    pub fn reserve(&mut self, who: u64, amount: u64) -> (r: Result<(), Error>)
        requires
            old(self).wf(),
        ensures
            final(self).wf(),
            final(self).spec_total() == old(self).spec_total(),
            r is Ok <==> amount <= old(self).spec_free(who),
            r is Ok ==> final(self).spec_free(who) == old(self).spec_free(who) - amount
                && final(self).spec_reserved(who) == old(self).spec_reserved(who) + amount
                && agrees_except(*old(self), *final(self), who),
            r is Err ==> r == Err::<(), Error>(Error::NotEnoughBalance) && balances_eq(
                *old(self),
                *final(self),
            ),
    {
        let ghost s0 = self.accounts@;
        match self.index_of(who) {
            None => {
                proof {
                    lemma_find_none(s0, who);
                }
                if amount == 0 {
                    Ok(())
                } else {
                    Err(Error::NotEnoughBalance)
                }
            },
            Some(i) => {
                proof {
                    lemma_find_some(s0, who, i as int);
                }
                let b = self.accounts[i].1;
                if b.free < amount {
                    Err(Error::NotEnoughBalance)
                } else {
                    proof {
                        lemma_weight_le_sum(s0, i as int);
                    }
                    let nb = AccountBalance { free: b.free - amount, reserved: b.reserved + amount };
                    self.accounts[i] = (who, nb);
                    proof {
                        let s1 = self.accounts@;
                        assert forall|q: u64|
                            #![trigger assoc_find(s1, q)]
                            assoc_find(s1, q) == (if q == who {
                                Some((who, nb).1)
                            } else {
                                assoc_find(s0, q)
                            }) by {
                            lemma_find_update(s0, i as int, (who, nb), q);
                        }
                        lemma_find_update(s0, i as int, (who, nb), who);
                        lemma_sum_update(s0, i as int, (who, nb));
                    }
                    Ok(())
                }
            },
        }
    }

    /// Moves back to free as much of `amount` as is actually reserved
    /// under `who`; unreserving more than is held is clamped, never an
    /// error.
    pub fn unreserve(&mut self, who: u64, amount: u64)
        requires
            old(self).wf(),
        ensures
            final(self).wf(),
            final(self).spec_total() == old(self).spec_total(),
            final(self).spec_reserved(who) == old(self).spec_reserved(who) - vstd::math::min(
                amount as int,
                old(self).spec_reserved(who) as int,
            ),
            final(self).spec_free(who) == old(self).spec_free(who) + vstd::math::min(
                amount as int,
                old(self).spec_reserved(who) as int,
            ),
            agrees_except(*old(self), *final(self), who),
    {
        let ghost s0 = self.accounts@;
        match self.index_of(who) {
            None => {
                proof {
                    lemma_find_none(s0, who);
                }
            },
            Some(i) => {
                proof {
                    lemma_find_some(s0, who, i as int);
                    lemma_weight_le_sum(s0, i as int);
                }
                let b = self.accounts[i].1;
                let m = if amount < b.reserved {
                    amount
                } else {
                    b.reserved
                };
                let nb = AccountBalance { free: b.free + m, reserved: b.reserved - m };
                self.accounts[i] = (who, nb);
                proof {
                    let s1 = self.accounts@;
                    assert forall|q: u64|
                        #![trigger assoc_find(s1, q)]
                        assoc_find(s1, q) == (if q == who {
                            Some((who, nb).1)
                        } else {
                            assoc_find(s0, q)
                        }) by {
                        lemma_find_update(s0, i as int, (who, nb), q);
                    }
                    lemma_find_update(s0, i as int, (who, nb), who);
                    lemma_sum_update(s0, i as int, (who, nb));
                }
            },
        }
    }

    /// Moves `amount` from `from`'s free balance to `to`'s.  Fails,
    /// changing nothing, when the free balance is too small, and — with
    /// `keep_alive` — when the payment would leave `from` without any
    /// free residual.
    pub fn transfer(&mut self, from: u64, to: u64, amount: u64, keep_alive: bool) -> (r: Result<
        (),
        Error,
    >)
        requires
            old(self).wf(),
            from != to,
        ensures
            final(self).wf(),
            final(self).spec_total() == old(self).spec_total(),
            old(self).spec_free(from) < amount ==> r == Err::<(), Error>(Error::NotEnoughBalance)
                && balances_eq(*old(self), *final(self)),
            amount <= old(self).spec_free(from) && keep_alive && old(self).spec_free(from)
                == amount ==> r == Err::<(), Error>(Error::WouldKillAccount) && balances_eq(
                *old(self),
                *final(self),
            ),
            amount <= old(self).spec_free(from) && (!keep_alive || amount < old(self).spec_free(from))
                ==> ({
                &&& r is Ok
                &&& final(self).spec_free(from) == old(self).spec_free(from) - amount
                &&& final(self).spec_free(to) == old(self).spec_free(to) + amount
                &&& final(self).spec_reserved(from) == old(self).spec_reserved(from)
                &&& final(self).spec_reserved(to) == old(self).spec_reserved(to)
                &&& agrees_except2(*old(self), *final(self), from, to)
            }),
    {
        let ghost s0 = self.accounts@;
        let idx_from = self.index_of(from);
        let free_from: u64 = match idx_from {
            Some(i) => {
                proof {
                    lemma_find_some(s0, from, i as int);
                }
                self.accounts[i].1.free
            },
            None => {
                proof {
                    lemma_find_none(s0, from);
                }
                0
            },
        };
        if free_from < amount {
            return Err(Error::NotEnoughBalance);
        }
        if keep_alive && free_from == amount {
            return Err(Error::WouldKillAccount);
        }
        match idx_from {
            Some(i) => {
                let b = self.accounts[i].1;
                let nb = AccountBalance { free: b.free - amount, reserved: b.reserved };
                self.accounts[i] = (from, nb);
                proof {
                    let s1 = self.accounts@;
                    assert forall|q: u64|
                        #![trigger assoc_find(s1, q)]
                        assoc_find(s1, q) == (if q == from {
                            Some((from, nb).1)
                        } else {
                            assoc_find(s0, q)
                        }) by {
                        lemma_find_update(s0, i as int, (from, nb), q);
                    }
                    lemma_find_update(s0, i as int, (from, nb), from);
                    lemma_sum_update(s0, i as int, (from, nb));
                }
            },
            None => {},
        }
        let ghost s1 = self.accounts@;
        proof {
            assert(sum_weights(s1) == sum_weights(s0) - amount);
            assert(distinct_keys(s1));
            assert(assoc_find(s1, to) == assoc_find(s0, to));
        }
        let idx_to = self.index_of(to);
        match idx_to {
            Some(j) => {
                proof {
                    lemma_find_some(s1, to, j as int);
                    // the entry for `to` carries the same balances as before the debit
                    if idx_from is Some {
                        let i = idx_from->0 as int;
                        assert(s1[j as int] == s0[j as int]);
                        if i < j {
                            lemma_pair_le_sum(s0, i, j as int);
                        } else {
                            lemma_pair_le_sum(s0, j as int, i);
                        }
                    } else {
                        lemma_weight_le_sum(s1, j as int);
                    }
                }
                let b2 = self.accounts[j].1;
                let nb2 = AccountBalance { free: b2.free + amount, reserved: b2.reserved };
                self.accounts[j] = (to, nb2);
                proof {
                    let s2 = self.accounts@;
                    assert forall|q: u64|
                        #![trigger assoc_find(s2, q)]
                        assoc_find(s2, q) == (if q == to {
                            Some((to, nb2).1)
                        } else {
                            assoc_find(s1, q)
                        }) by {
                        lemma_find_update(s1, j as int, (to, nb2), q);
                    }
                    lemma_find_update(s1, j as int, (to, nb2), to);
                    lemma_sum_update(s1, j as int, (to, nb2));
                }
            },
            None => {
                if amount > 0 {
                    let nb2 = AccountBalance { free: amount, reserved: 0 };
                    proof {
                        lemma_find_none(s1, to);
                    }
                    self.accounts.push((to, nb2));
                    proof {
                        let s2 = self.accounts@;
                        assert forall|q: u64|
                            #![trigger assoc_find(s2, q)]
                            assoc_find(s2, q) == (if q == to {
                                Some((to, nb2).1)
                            } else {
                                assoc_find(s1, q)
                            }) by {
                            lemma_find_push(s1, (to, nb2), q);
                        }
                        lemma_find_push(s1, (to, nb2), to);
                        lemma_sum_push(s1, (to, nb2));
                    }
                } else {
                    proof {
                        lemma_find_none(s1, to);
                    }
                }
            },
        }
        Ok(())
    }

    /// The reserved balance of `who`.
    pub fn reserved_balance(&self, who: u64) -> (r: u64)
        requires
            self.wf(),
        ensures
            r == self.spec_reserved(who),
    {
        match self.index_of(who) {
            Some(i) => {
                proof {
                    lemma_find_some(self.accounts@, who, i as int);
                }
                self.accounts[i].1.reserved
            },
            None => {
                proof {
                    lemma_find_none(self.accounts@, who);
                }
                0
            },
        }
    }
}

/// Both ledgers bind the same balances to every account.
pub open spec fn balances_eq(pre: Ledger, post: Ledger) -> bool {
    forall|a: u64|
        #![trigger post.spec_free(a)]
        #![trigger post.spec_reserved(a)]
        post.spec_free(a) == pre.spec_free(a) && post.spec_reserved(a) == pre.spec_reserved(a)
}

/// Both ledgers agree on every account but `who`.
pub open spec fn agrees_except(pre: Ledger, post: Ledger, who: u64) -> bool {
    forall|a: u64|
        #![trigger post.spec_free(a)]
        #![trigger post.spec_reserved(a)]
        a != who ==> post.spec_free(a) == pre.spec_free(a) && post.spec_reserved(a)
            == pre.spec_reserved(a)
}

/// Both ledgers agree on every account but `w1` and `w2`.
pub open spec fn agrees_except2(pre: Ledger, post: Ledger, w1: u64, w2: u64) -> bool {
    forall|a: u64|
        #![trigger post.spec_free(a)]
        #![trigger post.spec_reserved(a)]
        a != w1 && a != w2 ==> post.spec_free(a) == pre.spec_free(a) && post.spec_reserved(a)
            == pre.spec_reserved(a)
}

} // verus!
