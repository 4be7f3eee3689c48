//! Crowd-funding bookkeeping: who paid in how much, and who counts as a
//! founder. A payment from a newcomer is accepted only when its oracle
//! valuation clears the minimum; the oracle price itself is read at the
//! edge and handed in as a plain value.

use vstd::prelude::*;

use crate::AccountId;
use crate::Balance;
use crate::ledger::bal_get;
use crate::ledger::lookup;
use crate::ledger::store;
use crate::ledger::unique_keys;

verus! {

/// Why a payment valuation failed.
#[derive(Debug, PartialEq, Eq, Structural, Clone, Copy)]
pub enum Error {
    MulOverFlow,
    DivByZero,
}

/// Least accepted payment, in oracle quote units.
pub const MIN_PAYABLE_VALUE: Balance = 50;

/// Whether a payment of `value`, valued at the oracle price `price`
/// (scaled by ten thousand and settled over twelve decimals), clears the
/// minimum; or the overflowing step's error.
pub open spec fn min_payment_calc(price: u64, value: Balance) -> Result<bool, Error> {
    if price * 10000 > u64::MAX {
        Err(Error::MulOverFlow)
    } else if value * (price * 10000) > u128::MAX {
        Err(Error::MulOverFlow)
    } else {
        Ok(value * (price * 10000) / 1000000000000 > MIN_PAYABLE_VALUE * 1000000000000)
    }
}

/// Decides whether a payment of `value` at oracle price `price` meets the
/// minimum worth asked of a new founder.
pub fn is_min_payment(price: u64, value: Balance) -> (r: Result<bool, Error>)
    ensures
        r == min_payment_calc(price, value),
{
    let scaled = match price.checked_mul(10000) {
        Some(p) => p,
        None => return Err(Error::MulOverFlow),
    };
    let payment_num = match value.checked_mul(scaled as u128) {
        Some(p) => p,
        None => return Err(Error::MulOverFlow),
    };
    let payment = match payment_num.checked_div(1000000000000) {
        Some(p) => p,
        None => return Err(Error::DivByZero),
    };
    let min_payment = MIN_PAYABLE_VALUE * 1000000000000;
    Ok(payment > min_payment)
}

/// Whether `k` occurs in the account list `v`.
#[verifier::loop_isolation(false)]
fn contains_account(v: &Vec<AccountId>, k: AccountId) -> (r: bool)
    ensures
        r == v@.contains(k),
{
    let mut i: usize = 0;
    while i < v.len()
        invariant
            i <= v@.len(),
            forall|j: int| 0 <= j < i ==> v@[j] != k,
        decreases v@.len() - i,
    {
        if v[i] == k {
            return true;
        }
        i += 1;
    }
    proof {
        assert(!v@.contains(k)) by {
            if v@.contains(k) {
                let j = choose|j: int| 0 <= j < v@.len() && v@[j] == k;
            }
        }
    }
    false
}

/// The funding record: the oracle's identity, what each account paid in,
/// the founders, and the owner allowed to withdraw.
pub struct FundMe {
    /// Identity of the price oracle consulted for payments.
    pub diadata: AccountId,
    /// What each account has paid in so far.
    pub address_to_amount: Vec<(AccountId, Balance)>,
    /// Accounts whose payments made them founders, in order of joining.
    pub founders: Vec<AccountId>,
    /// The only identity allowed to withdraw the collected funds.
    pub owner: AccountId,
}

impl FundMe {
    /// The payment table keeps one entry per account.
    pub open spec fn wf(self) -> bool {
        unique_keys(self.address_to_amount@)
    }

    /// What `a` has paid in so far.
    pub open spec fn paid(self, a: AccountId) -> Balance {
        bal_get(self.address_to_amount@, a)
    }

    /// A fresh record consulting the oracle at `oracle_address`, owned by
    /// its deployer `caller`.
    pub fn new(caller: AccountId, oracle_address: AccountId) -> (f: FundMe)
        ensures
            f.wf(),
            f.diadata == oracle_address,
            f.owner == caller,
            f.founders@.len() == 0,
            forall|a: AccountId| f.paid(a) == 0u128,
    {
        FundMe {
            diadata: oracle_address,
            address_to_amount: Vec::new(),
            founders: Vec::new(),
            owner: caller,
        }
    }

    /// Whether the whole collected balance may be paid out to `caller`.
    pub fn can_withdraw(&self, caller: AccountId) -> (r: bool)
        ensures
            r == (caller == self.owner),
    {
        caller == self.owner
    }

    /// Records a payment of `endowment` by `caller`, who must already be a
    /// founder or pay at least the minimum worth at the oracle price.
    pub fn fund(&mut self, caller: AccountId, endowment: Balance, price: u64)
        requires
            old(self).wf(),
            old(self).paid(caller) + endowment <= u128::MAX,
            old(self).founders@.contains(caller) || min_payment_calc(price, endowment) == Ok::<
                bool,
                Error,
            >(true),
        ensures
            final(self).wf(),
            final(self).diadata == old(self).diadata,
            final(self).owner == old(self).owner,
            forall|a: AccountId|
                final(self).paid(a) as int == old(self).paid(a) + (if a == caller {
                    endowment as int
                } else {
                    0int
                }),
            old(self).founders@.contains(caller) ==> final(self).founders == old(self).founders,
            !old(self).founders@.contains(caller) ==> final(self).founders@ == old(
                self,
            ).founders@.push(caller),
    {
        let caller_balance = lookup(&self.address_to_amount, caller);
        let is_founder = contains_account(&self.founders, caller);
        store(&mut self.address_to_amount, caller, caller_balance + endowment);
        if !is_founder {
            self.founders.push(caller);
        }
    }

    /// What `owner` has paid in so far.
    pub fn get_amount(&self, owner: AccountId) -> (r: Balance)
        ensures
            r == self.paid(owner),
    {
        lookup(&self.address_to_amount, owner)
    }

    /// Whether `caller` is a founder.
    pub fn am_i_founder(&self, caller: AccountId) -> (r: bool)
        ensures
            r == self.founders@.contains(caller),
    {
        contains_account(&self.founders, caller)
    }

    /// Points the record at another price oracle.
    pub fn set_oracle_address(&mut self, oracle_address: AccountId)
        ensures
            *final(self) == (FundMe { diadata: oracle_address, ..*old(self) }),
    {
        self.diadata = oracle_address;
    }
}

} // verus!
