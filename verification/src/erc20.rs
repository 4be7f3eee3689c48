//! A fungible-token ledger: total supply, per-holder balances and
//! per-(owner, spender) allowances, with transfer events.
//!
//! The pool uses one instance per pooled asset and one more as its
//! liquidity-share ledger. The well-formedness invariant ties the recorded
//! total supply to the sum of all balances.

use vstd::prelude::*;

use crate::AccountId;
use crate::Balance;
use crate::ledger::bal_get;
use crate::ledger::bal_sum;
use crate::ledger::lemma_bal_le_sum;
use crate::ledger::lookup;
use crate::ledger::store;
use crate::ledger::unique_keys;

verus! {

/// Why a ledger operation was refused.
#[derive(Debug, PartialEq, Eq, Structural, Clone, Copy)]
pub enum Error {
    InsufficientBalance,
    InsufficientAllowance,
}

/// A transfer event: `from == None` marks a mint, `to == None` a burn.
#[derive(Debug, Clone, Copy)]
pub struct Transfer {
    pub from: Option<AccountId>,
    pub to: Option<AccountId>,
    pub value: Balance,
}

/// An approval event.
#[derive(Debug, Clone, Copy)]
pub struct Approval {
    pub owner: AccountId,
    pub spender: AccountId,
    pub value: Balance,
}

/// The allowance granted by `(owner, spender)` (zero when absent);
/// the first matching entry decides.
pub open spec fn alw_get(s: Seq<((AccountId, AccountId), Balance)>, k: (AccountId, AccountId)) -> Balance
    decreases s.len(),
{
    if s.len() == 0 {
        0
    } else if s[0].0 == k {
        s[0].1
    } else {
        alw_get(s.drop_first(), k)
    }
}

/// Whether the allowance table holds an entry for `k`.
pub open spec fn alw_has_key(s: Seq<((AccountId, AccountId), Balance)>, k: (AccountId, AccountId)) -> bool
    decreases s.len(),
{
    s.len() > 0 && (s[0].0 == k || alw_has_key(s.drop_first(), k))
}

/// All `(owner, spender)` pairs in the allowance table are pairwise distinct.
pub open spec fn alw_unique_keys(s: Seq<((AccountId, AccountId), Balance)>) -> bool {
    forall|i: int, j: int| 0 <= i < j < s.len() ==> s[i].0 != s[j].0
}

proof fn lemma_alw_get_update(
    s: Seq<((AccountId, AccountId), Balance)>,
    i: int,
    k: (AccountId, AccountId),
    v: Balance,
    k2: (AccountId, AccountId),
)
    requires
        0 <= i < s.len(),
        s[i].0 == k,
        forall|j: int| 0 <= j < i ==> s[j].0 != k,
    ensures
        alw_get(s.update(i, (k, v)), k2) == if k2 == k {
            v
        } else {
            alw_get(s, k2)
        },
    decreases i,
{
    let t = s.update(i, (k, v));
    if i == 0 {
        assert(t.drop_first() =~= s.drop_first());
    } else {
        assert(t.drop_first() =~= s.drop_first().update(i - 1, (k, v)));
        lemma_alw_get_update(s.drop_first(), i - 1, k, v, k2);
    }
}

proof fn lemma_alw_absent_is_zero(s: Seq<((AccountId, AccountId), Balance)>, k: (AccountId, AccountId))
    requires
        !alw_has_key(s, k),
    ensures
        alw_get(s, k) == 0,
    decreases s.len(),
{
    if s.len() > 0 {
        lemma_alw_absent_is_zero(s.drop_first(), k);
    }
}

proof fn lemma_alw_get_push(
    s: Seq<((AccountId, AccountId), Balance)>,
    e: ((AccountId, AccountId), Balance),
    k2: (AccountId, AccountId),
)
    ensures
        alw_get(s.push(e), k2) == if alw_has_key(s, k2) {
            alw_get(s, k2)
        } else if e.0 == k2 {
            e.1
        } else {
            0
        },
    decreases s.len(),
{
    if s.len() == 0 {
        assert(s.push(e).len() == 1);
        assert(s.push(e)[0] == e);
        assert(s.push(e).drop_first() =~= Seq::<((AccountId, AccountId), Balance)>::empty());
        assert(alw_get(s.push(e).drop_first(), k2) == 0);
        if e.0 == k2 {
            assert(alw_get(s.push(e), k2) == e.1);
        } else {
            assert(alw_get(s.push(e), k2) == alw_get(s.push(e).drop_first(), k2));
        }
        assert(alw_get(s, k2) == 0);
    } else {
        assert(s.push(e)[0] == s[0]);
        assert(s.push(e).drop_first() =~= s.drop_first().push(e));
        lemma_alw_get_push(s.drop_first(), e, k2);
        if s[0].0 == k2 {
            assert(alw_get(s.push(e), k2) == s[0].1);
        } else {
            assert(alw_get(s.push(e), k2) == alw_get(s.drop_first().push(e), k2));
            assert(alw_get(s, k2) == alw_get(s.drop_first(), k2));
        }
    }
}

/// The allowance recorded for `k`.
#[verifier::loop_isolation(false)]
fn alw_lookup(v: &Vec<((AccountId, AccountId), Balance)>, k: (AccountId, AccountId)) -> (r: Balance)
    ensures
        r == alw_get(v@, k),
{
    let mut i: usize = 0;
    proof {
        assert(v@.skip(0) =~= v@);
    }
    while i < v.len()
        invariant
            i <= v@.len(),
            alw_get(v@, k) == alw_get(v@.skip(i as int), k),
        decreases v@.len() - i,
    {
        let (key, val) = v[i];
        proof {
            assert(v@.skip(i as int)[0] == v@[i as int]);
            assert(v@.skip(i as int).drop_first() =~= v@.skip(i as int + 1));
        }
        if key.0 == k.0 && key.1 == k.1 {
            return val;
        }
        i += 1;
    }
    proof {
        assert(v@.skip(i as int) =~= Seq::<((AccountId, AccountId), Balance)>::empty());
    }
    0
}

/// Records allowance `value` for `k`, leaving every other pair as it was.
#[verifier::loop_isolation(false)]
fn alw_store(v: &mut Vec<((AccountId, AccountId), Balance)>, k: (AccountId, AccountId), value: Balance)
    requires
        alw_unique_keys(old(v)@),
    ensures
        alw_unique_keys(final(v)@),
        forall|k2: (AccountId, AccountId)|
            alw_get(final(v)@, k2) == if k2 == k {
                value
            } else {
                alw_get(old(v)@, k2)
            },
{
    let ghost s0 = v@;
    let mut i: usize = 0;
    proof {
        assert(s0.skip(0) =~= s0);
    }
    while i < v.len()
        invariant
            v@ == s0,
            alw_unique_keys(s0),
            i <= s0.len(),
            alw_has_key(s0, k) == alw_has_key(s0.skip(i as int), k),
            forall|j: int| 0 <= j < i ==> s0[j].0 != k,
        decreases s0.len() - i,
    {
        let (key, _) = v[i];
        proof {
            assert(s0.skip(i as int)[0] == s0[i as int]);
            assert(s0.skip(i as int).drop_first() =~= s0.skip(i as int + 1));
        }
        if key.0 == k.0 && key.1 == k.1 {
            v.set(i, (k, value));
            proof {
                assert(v@ == s0.update(i as int, (k, value)));
                assert forall|k2: (AccountId, AccountId)|
                    alw_get(v@, k2) == if k2 == k {
                        value
                    } else {
                        alw_get(s0, k2)
                    } by {
                    lemma_alw_get_update(s0, i as int, k, value, k2);
                }
            }
            return ;
        }
        i += 1;
    }
    proof {
        assert(s0.skip(i as int) =~= Seq::<((AccountId, AccountId), Balance)>::empty());
        assert(!alw_has_key(s0, k));
    }
    v.push((k, value));
    proof {
        assert forall|k2: (AccountId, AccountId)|
            alw_get(v@, k2) == if k2 == k {
                value
            } else {
                alw_get(s0, k2)
            } by {
            lemma_alw_get_push(s0, (k, value), k2);
            if !alw_has_key(s0, k2) {
                lemma_alw_absent_is_zero(s0, k2);
            }
        }
    }
}

/// A fungible-token ledger.
pub struct Erc20 {
    pub total_supply: Balance,
    pub balances: Vec<(AccountId, Balance)>,
    pub allowances: Vec<((AccountId, AccountId), Balance)>,
    pub transfer_events: Vec<Transfer>,
    pub approval_events: Vec<Approval>,
}

/// Both balances moved, everything else as before, one transfer event logged.
/// Written additively so that `from == to` needs no special case.
pub open spec fn moved(pre: Erc20, post: Erc20, from: AccountId, to: AccountId, value: Balance) -> bool {
    &&& forall|a: AccountId|
        post.bal(a) as int == pre.bal(a) as int - (if a == from {
            value as int
        } else {
            0
        }) + (if a == to {
            value as int
        } else {
            0
        })
    &&& post.total_supply == pre.total_supply
    &&& post.allowances == pre.allowances
    &&& post.approval_events == pre.approval_events
    &&& post.transfer_events@ == pre.transfer_events@.push(
        Transfer { from: Some(from), to: Some(to), value },
    )
}

impl Erc20 {
    /// The recorded balance of `a`.
    pub open spec fn bal(self, a: AccountId) -> Balance {
        bal_get(self.balances@, a)
    }

    /// The recorded allowance granted by `owner` to `spender`.
    pub open spec fn allow(self, owner: AccountId, spender: AccountId) -> Balance {
        alw_get(self.allowances@, (owner, spender))
    }

    /// Distinct table keys, and the total supply equal to the sum of all balances.
    pub open spec fn wf(self) -> bool {
        &&& unique_keys(self.balances@)
        &&& alw_unique_keys(self.allowances@)
        &&& self.total_supply as int == bal_sum(self.balances@)
    }

    /// A fresh ledger holding `initial_supply` tokens, all owned by `caller`.
    pub fn new(caller: AccountId, initial_supply: Balance) -> (e: Erc20)
        ensures
            e.wf(),
            e.total_supply == initial_supply,
            forall|a: AccountId| e.bal(a) == if a == caller {
                initial_supply
            } else {
                0u128
            },
            forall|o: AccountId, s: AccountId| e.allow(o, s) == 0u128,
            e.transfer_events@.len() == 1,
            e.approval_events@.len() == 0,
    {
        let mut e = Erc20 {
            total_supply: 0,
            balances: Vec::new(),
            allowances: Vec::new(),
            transfer_events: Vec::new(),
            approval_events: Vec::new(),
        };
        e.new_init(caller, initial_supply);
        e
    }

    fn new_init(&mut self, caller: AccountId, initial_supply: Balance)
        requires
            old(self).total_supply == 0,
            old(self).balances@.len() == 0,
            old(self).allowances@.len() == 0,
            old(self).transfer_events@.len() == 0,
            old(self).approval_events@.len() == 0,
        ensures
            final(self).wf(),
            final(self).total_supply == initial_supply,
            forall|a: AccountId| final(self).bal(a) == if a == caller {
                initial_supply
            } else {
                0u128
            },
            forall|o: AccountId, s: AccountId| final(self).allow(o, s) == 0u128,
            final(self).transfer_events@.len() == 1,
            final(self).approval_events@.len() == 0,
    {
        store(&mut self.balances, caller, initial_supply);
        self.total_supply = initial_supply;
        self.transfer_events.push(Transfer { from: None, to: Some(caller), value: initial_supply });
    }

    /// The total supply in circulation.
    pub fn total_supply(&self) -> (r: Balance)
        ensures
            r == self.total_supply,
    {
        self.total_supply
    }

    /// The balance held by `owner`.
    pub fn balance_of(&self, owner: AccountId) -> (r: Balance)
        ensures
            r == self.bal(owner),
    {
        lookup(&self.balances, owner)
    }

    /// Moves `value` tokens from `caller` to `to`.
    pub fn transfer(&mut self, caller: AccountId, to: AccountId, value: Balance) -> (r: Result<(), Error>)
        requires
            old(self).wf(),
        ensures
            final(self).wf(),
            old(self).bal(caller) < value ==> r == Err::<(), Error>(Error::InsufficientBalance)
                && *final(self) == *old(self),
            old(self).bal(caller) >= value ==> r == Ok::<(), Error>(())
                && moved(*old(self), *final(self), caller, to, value),
    {
        self.transfer_from_to(caller, to, value)
    }

    fn transfer_from_to(&mut self, from: AccountId, to: AccountId, value: Balance) -> (r: Result<(), Error>)
        requires
            old(self).wf(),
        ensures
            final(self).wf(),
            old(self).bal(from) < value ==> r == Err::<(), Error>(Error::InsufficientBalance)
                && *final(self) == *old(self),
            old(self).bal(from) >= value ==> r == Ok::<(), Error>(())
                && moved(*old(self), *final(self), from, to, value),
    {
        let ghost pre = *old(self);
        let from_balance = lookup(&self.balances, from);
        if from_balance < value {
            return Err(Error::InsufficientBalance);
        }
        store(&mut self.balances, from, from_balance - value);
        proof {
            lemma_bal_le_sum(self.balances@, to);
        }
        let to_balance = lookup(&self.balances, to);
        store(&mut self.balances, to, to_balance + value);
        self.transfer_events.push(Transfer { from: Some(from), to: Some(to), value });
        Ok(())
    }

    /// Grants `spender` an allowance of `value` out of `caller`'s tokens.
    pub fn approve(&mut self, caller: AccountId, spender: AccountId, value: Balance) -> (r: Result<(), Error>)
        requires
            old(self).wf(),
        ensures
            final(self).wf(),
            r == Ok::<(), Error>(()),
            forall|o: AccountId, s: AccountId|
                final(self).allow(o, s) == if o == caller && s == spender {
                    value
                } else {
                    old(self).allow(o, s)
                },
            final(self).total_supply == old(self).total_supply,
            final(self).balances == old(self).balances,
            final(self).transfer_events == old(self).transfer_events,
            final(self).approval_events@ == old(self).approval_events@.push(
                Approval { owner: caller, spender, value },
            ),
    {
        alw_store(&mut self.allowances, (caller, spender), value);
        self.approval_events.push(Approval { owner: caller, spender, value });
        Ok(())
    }

    /// The allowance granted by `owner` to `spender`.
    pub fn allowance(&self, owner: AccountId, spender: AccountId) -> (r: Balance)
        ensures
            r == self.allow(owner, spender),
    {
        self.allowance_impl(owner, spender)
    }

    fn allowance_impl(&self, owner: AccountId, spender: AccountId) -> (r: Balance)
        ensures
            r == self.allow(owner, spender),
    {
        alw_lookup(&self.allowances, (owner, spender))
    }

    /// Moves `value` tokens from `from` to `to` on behalf of `caller`,
    /// consuming that much of `caller`'s allowance.
    pub fn transfer_from(&mut self, caller: AccountId, from: AccountId, to: AccountId, value: Balance) -> (r: Result<(), Error>)
        requires
            old(self).wf(),
        ensures
            final(self).wf(),
            old(self).allow(from, caller) < value ==> r == Err::<(), Error>(
                Error::InsufficientAllowance,
            ) && *final(self) == *old(self),
            old(self).allow(from, caller) >= value && old(self).bal(from) < value ==> r == Err::<
                (),
                Error,
            >(Error::InsufficientBalance) && *final(self) == *old(self),
            old(self).allow(from, caller) >= value && old(self).bal(from) >= value ==> r == Ok::<
                (),
                Error,
            >(()) && {
                &&& forall|a: AccountId|
                    final(self).bal(a) as int == old(self).bal(a) as int - (if a == from {
                        value as int
                    } else {
                        0
                    }) + (if a == to {
                        value as int
                    } else {
                        0
                    })
                &&& final(self).total_supply == old(self).total_supply
                &&& forall|o: AccountId, s: AccountId|
                    final(self).allow(o, s) as int == old(self).allow(o, s) as int - (if o == from
                        && s == caller {
                        value as int
                    } else {
                        0
                    })
                &&& final(self).transfer_events@ == old(self).transfer_events@.push(
                    Transfer { from: Some(from), to: Some(to), value },
                )
                &&& final(self).approval_events == old(self).approval_events
            },
    {
        let allowance = self.allowance_impl(from, caller);
        if allowance < value {
            return Err(Error::InsufficientAllowance);
        }
        let r = self.transfer_from_to(from, to, value);
        match r {
            Ok(()) => {
                let ghost mid = *self;
                alw_store(&mut self.allowances, (from, caller), allowance - value);
                proof {
                    assert(self.balances == mid.balances);
                    assert forall|a: AccountId|
                        self.bal(a) as int == old(self).bal(a) as int - (if a == from {
                            value as int
                        } else {
                            0
                        }) + (if a == to {
                            value as int
                        } else {
                            0
                        }) by {
                        assert(self.bal(a) == mid.bal(a));
                    }
                }
                Ok(())
            },
            Err(e) => Err(e),
        }
    }

    /// Creates `value` new tokens for `to`.
    pub fn mint_to(&mut self, to: AccountId, value: Balance)
        requires
            old(self).wf(),
            old(self).total_supply + value <= u128::MAX,
        ensures
            final(self).wf(),
            final(self).total_supply == old(self).total_supply + value,
            forall|a: AccountId| final(self).bal(a) as int == old(self).bal(a) as int + (if a == to {
                value as int
            } else {
                0
            }),
            final(self).allowances == old(self).allowances,
            final(self).approval_events == old(self).approval_events,
            final(self).transfer_events@ == old(self).transfer_events@.push(
                Transfer { from: None, to: Some(to), value },
            ),
    {
        proof {
            lemma_bal_le_sum(self.balances@, to);
        }
        let to_balance = lookup(&self.balances, to);
        store(&mut self.balances, to, to_balance + value);
        self.total_supply = self.total_supply + value;
        self.transfer_events.push(Transfer { from: None, to: Some(to), value });
    }

    /// Destroys `value` of `from`'s tokens.
    pub fn burn_from(&mut self, from: AccountId, value: Balance)
        requires
            old(self).wf(),
            old(self).bal(from) >= value,
        ensures
            final(self).wf(),
            final(self).total_supply == old(self).total_supply - value,
            forall|a: AccountId| final(self).bal(a) as int == old(self).bal(a) as int - (if a == from {
                value as int
            } else {
                0
            }),
            final(self).allowances == old(self).allowances,
            final(self).approval_events == old(self).approval_events,
            final(self).transfer_events@ == old(self).transfer_events@.push(
                Transfer { from: Some(from), to: None, value },
            ),
    {
        proof {
            lemma_bal_le_sum(self.balances@, from);
        }
        let from_balance = lookup(&self.balances, from);
        store(&mut self.balances, from, from_balance - value);
        self.total_supply = self.total_supply - value;
        self.transfer_events.push(Transfer { from: Some(from), to: None, value });
    }
}

} // verus!
