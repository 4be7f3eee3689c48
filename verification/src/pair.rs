//! The constant-product liquidity pool between two fungible tokens.
//!
//! The pool owns one account on each pooled token's ledger and a share
//! ledger of its own. Callers first move tokens to the pool's account and
//! then invoke `mint`, `burn` or `swap`; the pool reads the balances it
//! actually holds, settles against its stored reserves, and resynchronizes
//! the reserves at the end of every state-changing call. Any failure leaves
//! the pool exactly as it was.

use vstd::prelude::*;

use crate::AccountId;
use crate::Balance;
use crate::Timestamp;
use crate::erc20::Erc20;
use crate::erc20::Error;
use crate::erc20::moved;
use crate::math::floor_sqrt;
use crate::math::lemma_floor_sqrt;
use crate::math::min_int;
use crate::math::sqrt;

verus! {

/// Share amount permanently locked to the burn sink by the first mint, so
/// that one share never comes to stand for an unboundedly large slice of
/// the reserves.
pub const MINIMUM_LIQUIDITY: u128 = 100;

/// Fixed-point unit used by the time-weighted price accumulators.
pub const PRICE_SCALE: u128 = 0x1_0000_0000_0000_0000;

/// A guarded entry point was re-entered while a call was in flight.
#[derive(Debug, PartialEq, Eq, Structural, Clone, Copy)]
pub enum ReentrancyGuardError {
    ReentrantCall,
}

/// An administrative entry point was called by someone other than the owner.
#[derive(Debug, PartialEq, Eq, Structural, Clone, Copy)]
pub enum OwnableError {
    CallerIsNotOwner,
}

/// Why a pool operation failed. Wrapped collaborator errors come first;
/// every checked arithmetic step carries a tag of its own, so a failure
/// names its exact computation site.
#[derive(Debug, PartialEq, Eq, Structural, Clone, Copy)]
pub enum PairError {
    PSP22Error(Error),
    ReentrancyGuardError(ReentrancyGuardError),
    OwnableError(OwnableError),
    InsufficientLiquidityMinted,
    Overflow,
    SubUnderFlow1,
    SubUnderFlow2,
    SubUnderFlow3,
    SubUnderFlow14,
    MulOverFlow1,
    MulOverFlow2,
    MulOverFlow3,
    MulOverFlow4,
    MulOverFlow5,
    MulOverFlow14,
    MulOverFlow15,
    MulOverFlow16,
    DivByZero1,
    DivByZero2,
    DivByZero5,
    AddOverflow1,
    MulOverFlow6,
    DivByZero3,
    MulOverFlow7,
    DivByZero4,
    InsufficientLiquidityBurned,
    MulOverFlow8,
    InsufficientInputAmount,
    SubUnderFlow10,
    MulOverFlow10,
    SubUnderFlow11,
    MulOverFlow17,
    MulOverFlow18,
    K,
    SubUnderFlow9,
    InsufficientOutputAmout,
    InsufficientLiquidity,
    InvalidTo,
    SubUnderFlow4,
    SubUnderFlow6,
    SubUnderFlow5,
    SubUnderFlow7,
    SubUnderFlow8,
    MulOverFlow9,
    MulOverFlow11,
}

impl From<Error> for PairError {
    fn from(error: Error) -> (r: Self) {
        PairError::PSP22Error(error)
    }
}

impl vstd::std_specs::convert::FromSpecImpl<Error> for PairError {
    open spec fn obeys_from_spec() -> bool {
        true
    }

    open spec fn from_spec(error: Error) -> Self {
        PairError::PSP22Error(error)
    }
}

impl From<ReentrancyGuardError> for PairError {
    fn from(error: ReentrancyGuardError) -> (r: Self) {
        PairError::ReentrancyGuardError(error)
    }
}

impl vstd::std_specs::convert::FromSpecImpl<ReentrancyGuardError> for PairError {
    open spec fn obeys_from_spec() -> bool {
        true
    }

    open spec fn from_spec(error: ReentrancyGuardError) -> Self {
        PairError::ReentrancyGuardError(error)
    }
}

impl From<OwnableError> for PairError {
    fn from(error: OwnableError) -> (r: Self) {
        PairError::OwnableError(error)
    }
}

impl vstd::std_specs::convert::FromSpecImpl<OwnableError> for PairError {
    open spec fn obeys_from_spec() -> bool {
        true
    }

    open spec fn from_spec(error: OwnableError) -> Self {
        PairError::OwnableError(error)
    }
}

/// A pool event, in emission order.
#[derive(Debug, PartialEq, Eq, Structural, Clone, Copy)]
pub enum Event {
    Mint { sender: AccountId, amount_0: Balance, amount_1: Balance },
    Burn { sender: AccountId, amount_0: Balance, amount_1: Balance, to: AccountId },
    Swap {
        sender: AccountId,
        amount_0_in: Balance,
        amount_1_in: Balance,
        amount_0_out: Balance,
        amount_1_out: Balance,
        to: AccountId,
    },
    Sync { reserve_0: Balance, reserve_1: Balance },
}

/// The pool: the ledgers of the two pooled tokens, the liquidity-share
/// ledger, and the pool's own bookkeeping.
pub struct Pair {
    /// The pool's own account on the token ledgers.
    pub account: AccountId,
    /// Identity of the first pooled token; fixed by `initialize`.
    pub token_0: AccountId,
    /// Identity of the second pooled token; fixed by `initialize`.
    pub token_1: AccountId,
    /// Balance ledger of `token_0`.
    pub ledger_0: Erc20,
    /// Balance ledger of `token_1`.
    pub ledger_1: Erc20,
    /// The liquidity-share ledger.
    pub lp: Erc20,
    /// Believed holdings of `token_0` as of the last state-changing call.
    pub reserve_0: Balance,
    /// Believed holdings of `token_1` as of the last state-changing call.
    pub reserve_1: Balance,
    /// Timestamp of the last reserve update.
    pub block_timestamp_last: Timestamp,
    /// Time-weighted accumulator of `reserve_1 / reserve_0`.
    pub price_0_cumulative_last: Balance,
    /// Time-weighted accumulator of `reserve_0 / reserve_1`.
    pub price_1_cumulative_last: Balance,
    /// Root of the invariant product at the last protocol-fee event; zero
    /// while fee collection is off.
    pub root_k_last: Balance,
    /// Protocol-fee recipient; zero disables fee collection.
    pub fee_to: AccountId,
    /// Identity allowed to change `fee_to`.
    pub owner: AccountId,
    /// Reentrancy-guard flag, held while a guarded call is in flight.
    pub locked: bool,
    /// Emitted pool events, oldest first.
    pub events: Vec<Event>,
}

impl Pair {
    /// All three ledgers are well formed.
    pub open spec fn wf(self) -> bool {
        &&& self.ledger_0.wf()
        &&& self.ledger_1.wf()
        &&& self.lp.wf()
    }

    /// Protocol-fee collection is on when a recipient is configured.
    pub open spec fn fee_on(self) -> bool {
        self.fee_to != 0
    }

    /// What the pool actually holds of `token_0`.
    pub open spec fn pool_balance_0(self) -> Balance {
        self.ledger_0.bal(self.account)
    }

    /// What the pool actually holds of `token_1`.
    pub open spec fn pool_balance_1(self) -> Balance {
        self.ledger_1.bal(self.account)
    }

    /// Everything but the reentrancy flag is equal.
    pub open spec fn same_except_lock(self, other: Pair) -> bool {
        &&& self.account == other.account
        &&& self.token_0 == other.token_0
        &&& self.token_1 == other.token_1
        &&& self.ledger_0 == other.ledger_0
        &&& self.ledger_1 == other.ledger_1
        &&& self.lp == other.lp
        &&& self.reserve_0 == other.reserve_0
        &&& self.reserve_1 == other.reserve_1
        &&& self.block_timestamp_last == other.block_timestamp_last
        &&& self.price_0_cumulative_last == other.price_0_cumulative_last
        &&& self.price_1_cumulative_last == other.price_1_cumulative_last
        &&& self.root_k_last == other.root_k_last
        &&& self.fee_to == other.fee_to
        &&& self.owner == other.owner
        &&& self.events == other.events
    }

    /// A fresh, uninitialized pool over the given token ledgers.
    ///
    /// `account` is the pool's own account on those ledgers; `owner` may
    /// later configure the protocol-fee recipient.
    pub fn new(account: AccountId, owner: AccountId, ledger_0: Erc20, ledger_1: Erc20) -> (p: Pair)
        requires
            ledger_0.wf(),
            ledger_1.wf(),
        ensures
            p.wf(),
            p.account == account,
            p.owner == owner,
            p.ledger_0 == ledger_0,
            p.ledger_1 == ledger_1,
            p.token_0 == 0 && p.token_1 == 0,
            p.reserve_0 == 0 && p.reserve_1 == 0,
            p.block_timestamp_last == 0,
            p.price_0_cumulative_last == 0 && p.price_1_cumulative_last == 0,
            p.root_k_last == 0,
            p.fee_to == 0,
            !p.locked,
            p.lp.total_supply == 0,
            forall|a: AccountId| p.lp.bal(a) == 0u128,
            p.events@.len() == 0,
    {
        Pair {
            account,
            token_0: 0,
            token_1: 0,
            ledger_0,
            ledger_1,
            lp: Erc20 {
                total_supply: 0,
                balances: Vec::new(),
                allowances: Vec::new(),
                transfer_events: Vec::new(),
                approval_events: Vec::new(),
            },
            reserve_0: 0,
            reserve_1: 0,
            block_timestamp_last: 0,
            price_0_cumulative_last: 0,
            price_1_cumulative_last: 0,
            root_k_last: 0,
            fee_to: 0,
            owner,
            locked: false,
            events: Vec::new(),
        }
    }

    /// The stored reserves and the timestamp of their last update.
    pub fn get_reserves(&self) -> (r: (Balance, Balance, Timestamp))
        ensures
            r == (self.reserve_0, self.reserve_1, self.block_timestamp_last),
    {
        (self.reserve_0, self.reserve_1, self.block_timestamp_last)
    }

    /// Identity of the first pooled token.
    pub fn get_token_0(&self) -> (r: AccountId)
        ensures
            r == self.token_0,
    {
        self.token_0
    }

    /// Identity of the second pooled token.
    pub fn get_token_1(&self) -> (r: AccountId)
        ensures
            r == self.token_1,
    {
        self.token_1
    }

    /// Fixes the identities of the two pooled tokens. The deploying factory
    /// is trusted to call this exactly once, right after construction.
    pub fn initialize(&mut self, token_0: AccountId, token_1: AccountId) -> (r: Result<(), PairError>)
        requires
            token_0 != token_1,
        ensures
            r == Ok::<(), PairError>(()),
            final(self).token_0 == token_0,
            final(self).token_1 == token_1,
            *final(self) == (Pair { token_0, token_1, ..*old(self) }),
    {
        self.token_0 = token_0;
        self.token_1 = token_1;
        Ok(())
    }

    /// Configures the protocol-fee recipient; zero turns fee collection off.
    /// Only the owner may call this.
    pub fn set_fee_to(&mut self, caller: AccountId, fee_to: AccountId) -> (r: Result<(), PairError>)
        ensures
            caller != old(self).owner ==> r == Err::<(), PairError>(
                PairError::OwnableError(OwnableError::CallerIsNotOwner),
            ) && *final(self) == *old(self),
            caller == old(self).owner ==> r == Ok::<(), PairError>(()) && *final(self) == (Pair {
                fee_to,
                ..*old(self)
            }),
    {
        if caller != self.owner {
            return Err(PairError::from(OwnableError::CallerIsNotOwner));
        }
        self.fee_to = fee_to;
        Ok(())
    }

    /// Sends `value` of pooled token `token` from the pool's account to `to`.
    pub fn _safe_transfer(&mut self, token: AccountId, to: AccountId, value: Balance) -> (r: Result<(), PairError>)
        requires
            old(self).wf(),
            token == old(self).token_0 || token == old(self).token_1,
            old(self).token_0 != old(self).token_1,
        ensures
            final(self).wf(),
            token == old(self).token_0 ==> {
                &&& old(self).pool_balance_0() < value ==> r == Err::<(), PairError>(
                    PairError::PSP22Error(Error::InsufficientBalance),
                ) && *final(self) == *old(self)
                &&& old(self).pool_balance_0() >= value ==> r == Ok::<(), PairError>(()) && moved(
                    old(self).ledger_0,
                    final(self).ledger_0,
                    old(self).account,
                    to,
                    value,
                ) && *final(self) == (Pair { ledger_0: final(self).ledger_0, ..*old(self) })
            },
            token == old(self).token_1 ==> {
                &&& old(self).pool_balance_1() < value ==> r == Err::<(), PairError>(
                    PairError::PSP22Error(Error::InsufficientBalance),
                ) && *final(self) == *old(self)
                &&& old(self).pool_balance_1() >= value ==> r == Ok::<(), PairError>(()) && moved(
                    old(self).ledger_1,
                    final(self).ledger_1,
                    old(self).account,
                    to,
                    value,
                ) && *final(self) == (Pair { ledger_1: final(self).ledger_1, ..*old(self) })
            },
    {
        let account = self.account;
        if token == self.token_0 {
            match self.ledger_0.transfer(account, to, value) {
                Ok(()) => Ok(()),
                Err(e) => Err(PairError::from(e)),
            }
        } else {
            match self.ledger_1.transfer(account, to, value) {
                Ok(()) => Ok(()),
                Err(e) => Err(PairError::from(e)),
            }
        }
    }

    /// Resynchronizes the reserves to the actually held balances,
    /// accumulates the time-weighted prices over the elapsed time when
    /// both old reserves are nonzero, and emits a Sync event.
    pub fn _update(
        &mut self,
        balance_0: Balance,
        balance_1: Balance,
        reserve_0: Balance,
        reserve_1: Balance,
        now: Timestamp,
    ) -> (r: Result<(), PairError>)
        requires
            now >= old(self).block_timestamp_last,
        ensures
            ({
                let e = now - old(self).block_timestamp_last;
                let incs = price_increments(reserve_0 as int, reserve_1 as int, e as int);
                &&& (r is Ok <==> !update_overflows(
                    old(self).price_0_cumulative_last as int,
                    old(self).price_1_cumulative_last as int,
                    reserve_0 as int,
                    reserve_1 as int,
                    e as int,
                ))
                &&& (r is Err ==> r == Err::<(), PairError>(PairError::Overflow) && *final(self)
                    == *old(self))
                &&& (r is Ok ==> {
                    &&& final(self).reserve_0 == balance_0
                    &&& final(self).reserve_1 == balance_1
                    &&& final(self).block_timestamp_last == now
                    &&& final(self).price_0_cumulative_last == old(self).price_0_cumulative_last
                        + incs.0
                    &&& final(self).price_1_cumulative_last == old(self).price_1_cumulative_last
                        + incs.1
                    &&& final(self).events@ == old(self).events@.push(
                        Event::Sync { reserve_0: balance_0, reserve_1: balance_1 },
                    )
                    &&& final(self).account == old(self).account
                    &&& final(self).token_0 == old(self).token_0
                    &&& final(self).token_1 == old(self).token_1
                    &&& final(self).ledger_0 == old(self).ledger_0
                    &&& final(self).ledger_1 == old(self).ledger_1
                    &&& final(self).lp == old(self).lp
                    &&& final(self).root_k_last == old(self).root_k_last
                    &&& final(self).fee_to == old(self).fee_to
                    &&& final(self).owner == old(self).owner
                    &&& final(self).locked == old(self).locked
                })
            }),
    {
        let e = now - self.block_timestamp_last;
        let nps = price_accum(
            self.price_0_cumulative_last,
            self.price_1_cumulative_last,
            reserve_0,
            reserve_1,
            e,
        );
        let (np0, np1) = match nps {
            Ok(p) => p,
            Err(er) => return Err(er),
        };
        self.price_0_cumulative_last = np0;
        self.price_1_cumulative_last = np1;
        self.reserve_0 = balance_0;
        self.reserve_1 = balance_1;
        self.block_timestamp_last = now;
        self.events.push(Event::Sync { reserve_0: balance_0, reserve_1: balance_1 });
        Ok(())
    }

    /// Mints the protocol-fee shares owed for invariant growth since the
    /// last liquidity event and refreshes the stored invariant root; clears
    /// the root when fee collection is off. Returns whether fees are on.
    pub fn _mint_fee(&mut self, reserve_0: Balance, reserve_1: Balance) -> (r: Result<bool, PairError>)
        requires
            old(self).wf(),
        ensures
            final(self).wf(),
            ({
                let step = fee_liquidity_calc(
                    old(self).fee_on(),
                    old(self).lp.total_supply,
                    old(self).root_k_last,
                    reserve_0,
                    reserve_1,
                );
                &&& (step matches Err(e) ==> r == Err::<bool, PairError>(e) && *final(self)
                    == *old(self))
                &&& (step matches Ok(p) ==> {
                    &&& r == Ok::<bool, PairError>(old(self).fee_on())
                    &&& final(self).root_k_last == p.1
                    &&& final(self).lp.total_supply as int == old(self).lp.total_supply + p.0
                    &&& (forall|a: AccountId|
                        final(self).lp.bal(a) as int == old(self).lp.bal(a) + (if a == old(
                            self,
                        ).fee_to {
                            p.0 as int
                        } else {
                            0
                        }))
                    &&& final(self).lp.allowances == old(self).lp.allowances
                    &&& final(self).account == old(self).account
                    &&& final(self).token_0 == old(self).token_0
                    &&& final(self).token_1 == old(self).token_1
                    &&& final(self).ledger_0 == old(self).ledger_0
                    &&& final(self).ledger_1 == old(self).ledger_1
                    &&& final(self).reserve_0 == old(self).reserve_0
                    &&& final(self).reserve_1 == old(self).reserve_1
                    &&& final(self).block_timestamp_last == old(self).block_timestamp_last
                    &&& final(self).price_0_cumulative_last == old(self).price_0_cumulative_last
                    &&& final(self).price_1_cumulative_last == old(self).price_1_cumulative_last
                    &&& final(self).fee_to == old(self).fee_to
                    &&& final(self).owner == old(self).owner
                    &&& final(self).locked == old(self).locked
                    &&& final(self).events == old(self).events
                })
            }),
    {
        let fee_on = self.fee_to != 0;
        let ts = self.lp.total_supply;
        let root_last = self.root_k_last;
        let step = fee_step(fee_on, ts, root_last, reserve_0, reserve_1);
        let (liq, new_root) = match step {
            Ok(p) => p,
            Err(e) => return Err(e),
        };
        if liq > 0 {
            let fee_to = self.fee_to;
            self.lp.mint_to(fee_to, liq);
        }
        self.root_k_last = new_root;
        Ok(fee_on)
    }

    /// Mints liquidity shares to `to` for whatever the caller has
    /// deposited into the pool beyond the stored reserves. The first mint
    /// bootstraps the supply and locks `MINIMUM_LIQUIDITY` shares to the
    /// burn sink. Reentrancy-guarded; any failure leaves the pool as it was.
    pub fn mint(&mut self, caller: AccountId, to: AccountId, now: Timestamp) -> (r: Result<
        Balance,
        PairError,
    >)
        requires
            old(self).wf(),
            now >= old(self).block_timestamp_last,
        ensures
            final(self).wf(),
            final(self).locked == old(self).locked,
            (r is Err ==> old(self).same_except_lock(*final(self))),
            (old(self).locked ==> r == Err::<Balance, PairError>(
                PairError::ReentrancyGuardError(ReentrancyGuardError::ReentrantCall),
            )),
            (!old(self).locked ==> mint_result_spec(*old(self), caller, to, now, r, *final(self))),
    {
        if self.locked {
            return Err(PairError::from(ReentrancyGuardError::ReentrantCall));
        }
        self.locked = true;
        let r = self.mint_inner(caller, to, now);
        self.locked = false;
        r
    }

    fn mint_inner(&mut self, caller: AccountId, to: AccountId, now: Timestamp) -> (r: Result<
        Balance,
        PairError,
    >)
        requires
            old(self).wf(),
            now >= old(self).block_timestamp_last,
        ensures
            final(self).wf(),
            final(self).locked == old(self).locked,
            (r is Err ==> *final(self) == *old(self)),
            mint_result_spec(*old(self), caller, to, now, r, *final(self)),
    {
        let account = self.account;
        let balance_0 = self.ledger_0.balance_of(account);
        let balance_1 = self.ledger_1.balance_of(account);
        let reserve_0 = self.reserve_0;
        let reserve_1 = self.reserve_1;
        let amount_0 = match balance_0.checked_sub(reserve_0) {
            Some(a) => a,
            None => return Err(PairError::SubUnderFlow1),
        };
        let amount_1 = match balance_1.checked_sub(reserve_1) {
            Some(a) => a,
            None => return Err(PairError::SubUnderFlow2),
        };
        let ts0 = self.lp.total_supply;
        let fee = fee_step(self.fee_to != 0, ts0, self.root_k_last, reserve_0, reserve_1);
        let (fee_liq, _) = match fee {
            Ok(p) => p,
            Err(e) => return Err(e),
        };
        let ts1 = ts0 + fee_liq;
        let sh = mint_shares(ts1, amount_0, amount_1, reserve_0, reserve_1);
        let shares = match sh {
            Ok(s) => s,
            Err(e) => return Err(e),
        };
        if shares == 0 {
            return Err(PairError::InsufficientLiquidityMinted);
        }
        let extra = if ts1 == 0 {
            MINIMUM_LIQUIDITY
        } else {
            0
        };
        let ts2 = match ts1.checked_add(shares) {
            Some(t) => t,
            None => return Err(PairError::Overflow),
        };
        if ts2.checked_add(extra).is_none() {
            return Err(PairError::Overflow);
        }
        let e = now - self.block_timestamp_last;
        let accum = price_accum(
            self.price_0_cumulative_last,
            self.price_1_cumulative_last,
            reserve_0,
            reserve_1,
            e,
        );
        if accum.is_err() {
            return Err(PairError::Overflow);
        }
        let fee_on = self.fee_to != 0;
        let new_root = if fee_on {
            let k2 = match balance_0.checked_mul(balance_1) {
                Some(k) => k,
                None => return Err(PairError::MulOverFlow4),
            };
            sqrt(k2)
        } else {
            0
        };
        if fee_liq > 0 {
            let fee_to = self.fee_to;
            self.lp.mint_to(fee_to, fee_liq);
        }
        if ts1 == 0 {
            self.lp.mint_to(0, MINIMUM_LIQUIDITY);
        }
        self.lp.mint_to(to, shares);
        let ur = self._update(balance_0, balance_1, reserve_0, reserve_1, now);
        match ur {
            Ok(()) => {},
            Err(er) => return Err(er),
        }
        self.root_k_last = new_root;
        self.events.push(Event::Mint { sender: caller, amount_0, amount_1 });
        Ok(shares)
    }

    /// Burns the shares previously transferred to the pool's own account
    /// and pays out the pro-rata slice of both held balances to `to`.
    /// Reentrancy-guarded; any failure leaves the pool as it was.
    pub fn burn(&mut self, caller: AccountId, to: AccountId, now: Timestamp) -> (r: Result<
        (Balance, Balance),
        PairError,
    >)
        requires
            old(self).wf(),
            now >= old(self).block_timestamp_last,
            old(self).token_0 != old(self).token_1,
        ensures
            final(self).wf(),
            final(self).locked == old(self).locked,
            (r is Err ==> old(self).same_except_lock(*final(self))),
            (old(self).locked ==> r == Err::<(Balance, Balance), PairError>(
                PairError::ReentrancyGuardError(ReentrancyGuardError::ReentrantCall),
            )),
            (!old(self).locked ==> burn_result_spec(*old(self), caller, to, now, r, *final(self))),
    {
        if self.locked {
            return Err(PairError::from(ReentrancyGuardError::ReentrantCall));
        }
        self.locked = true;
        let r = self.burn_inner(caller, to, now);
        self.locked = false;
        r
    }

    fn burn_inner(&mut self, caller: AccountId, to: AccountId, now: Timestamp) -> (r: Result<
        (Balance, Balance),
        PairError,
    >)
        requires
            old(self).wf(),
            now >= old(self).block_timestamp_last,
            old(self).token_0 != old(self).token_1,
        ensures
            final(self).wf(),
            final(self).locked == old(self).locked,
            (r is Err ==> *final(self) == *old(self)),
            burn_result_spec(*old(self), caller, to, now, r, *final(self)),
    {
        let account = self.account;
        let balance_0 = self.ledger_0.balance_of(account);
        let balance_1 = self.ledger_1.balance_of(account);
        let reserve_0 = self.reserve_0;
        let reserve_1 = self.reserve_1;
        let liquidity = self.lp.balance_of(account);
        let ts0 = self.lp.total_supply;
        proof {
            crate::ledger::lemma_bal_le_sum(self.lp.balances@, account);
        }
        let fee = fee_step(self.fee_to != 0, ts0, self.root_k_last, reserve_0, reserve_1);
        let (fee_liq, _) = match fee {
            Ok(p) => p,
            Err(e) => return Err(e),
        };
        let ts1 = ts0 + fee_liq;
        let n0 = match liquidity.checked_mul(balance_0) {
            Some(n) => n,
            None => return Err(PairError::MulOverFlow6),
        };
        if ts1 == 0 {
            return Err(PairError::DivByZero3);
        }
        let n1 = match liquidity.checked_mul(balance_1) {
            Some(n) => n,
            None => return Err(PairError::MulOverFlow7),
        };
        let amount_0 = n0 / ts1;
        let amount_1 = n1 / ts1;
        if amount_0 == 0 || amount_1 == 0 {
            return Err(PairError::InsufficientLiquidityBurned);
        }
        let e = now - self.block_timestamp_last;
        let accum = price_accum(
            self.price_0_cumulative_last,
            self.price_1_cumulative_last,
            reserve_0,
            reserve_1,
            e,
        );
        if accum.is_err() {
            return Err(PairError::Overflow);
        }
        proof {
            lemma_pro_rata_le(liquidity as int, balance_0 as int, ts1 as int);
            lemma_pro_rata_le(liquidity as int, balance_1 as int, ts1 as int);
        }
        let nb0 = if to == account {
            balance_0
        } else {
            balance_0 - amount_0
        };
        let nb1 = if to == account {
            balance_1
        } else {
            balance_1 - amount_1
        };
        let fee_on = self.fee_to != 0;
        let new_root = if fee_on {
            let k2 = match nb0.checked_mul(nb1) {
                Some(k) => k,
                None => return Err(PairError::MulOverFlow8),
            };
            sqrt(k2)
        } else {
            0
        };
        if fee_liq > 0 {
            let fee_to = self.fee_to;
            self.lp.mint_to(fee_to, fee_liq);
        }
        self.lp.burn_from(account, liquidity);
        let t0 = self.token_0;
        let t1 = self.token_1;
        let tr0 = self._safe_transfer(t0, to, amount_0);
        match tr0 {
            Ok(()) => {},
            Err(er) => return Err(er),
        }
        let tr1 = self._safe_transfer(t1, to, amount_1);
        match tr1 {
            Ok(()) => {},
            Err(er) => return Err(er),
        }
        let b0_new = self.ledger_0.balance_of(account);
        let b1_new = self.ledger_1.balance_of(account);
        let ur = self._update(b0_new, b1_new, reserve_0, reserve_1, now);
        match ur {
            Ok(()) => {},
            Err(er) => return Err(er),
        }
        self.root_k_last = new_root;
        self.events.push(Event::Burn { sender: caller, amount_0, amount_1, to });
        Ok((amount_0, amount_1))
    }

    /// Swaps against the pool: pays the requested outputs to `to`
    /// optimistically, measures what the caller actually deposited, and
    /// accepts the trade only if the fee-adjusted constant-product check
    /// holds. Reentrancy-guarded; any failure leaves the pool as it was.
    pub fn swap(
        &mut self,
        caller: AccountId,
        amount_0_out: Balance,
        amount_1_out: Balance,
        to: AccountId,
        now: Timestamp,
    ) -> (r: Result<(), PairError>)
        requires
            old(self).wf(),
            now >= old(self).block_timestamp_last,
            old(self).token_0 != old(self).token_1,
        ensures
            final(self).wf(),
            final(self).locked == old(self).locked,
            (r is Err ==> old(self).same_except_lock(*final(self))),
            (old(self).locked ==> r == Err::<(), PairError>(
                PairError::ReentrancyGuardError(ReentrancyGuardError::ReentrantCall),
            )),
            (!old(self).locked ==> swap_result_spec(
                *old(self),
                caller,
                amount_0_out,
                amount_1_out,
                to,
                now,
                r,
                *final(self),
            )),
    {
        if self.locked {
            return Err(PairError::from(ReentrancyGuardError::ReentrantCall));
        }
        self.locked = true;
        let r = self.swap_inner(caller, amount_0_out, amount_1_out, to, now);
        self.locked = false;
        r
    }

    #[verifier::rlimit(100)]
    fn swap_inner(
        &mut self,
        caller: AccountId,
        amount_0_out: Balance,
        amount_1_out: Balance,
        to: AccountId,
        now: Timestamp,
    ) -> (r: Result<(), PairError>)
        requires
            old(self).wf(),
            now >= old(self).block_timestamp_last,
            old(self).token_0 != old(self).token_1,
        ensures
            final(self).wf(),
            final(self).locked == old(self).locked,
            (r is Err ==> *final(self) == *old(self)),
            swap_result_spec(
                *old(self),
                caller,
                amount_0_out,
                amount_1_out,
                to,
                now,
                r,
                *final(self),
            ),
    {
        if amount_0_out == 0 && amount_1_out == 0 {
            return Err(PairError::InsufficientOutputAmout);
        }
        if amount_0_out >= self.reserve_0 || amount_1_out >= self.reserve_1 {
            return Err(PairError::InsufficientLiquidity);
        }
        if to == self.token_0 || to == self.token_1 {
            return Err(PairError::InvalidTo);
        }
        let account = self.account;
        let pb0 = self.ledger_0.balance_of(account);
        let pb1 = self.ledger_1.balance_of(account);
        if pb0 < amount_0_out || pb1 < amount_1_out {
            return Err(PairError::from(Error::InsufficientBalance));
        }
        let reserve_0 = self.reserve_0;
        let reserve_1 = self.reserve_1;
        let balance_0 = if to == account {
            pb0
        } else {
            pb0 - amount_0_out
        };
        let balance_1 = if to == account {
            pb1
        } else {
            pb1 - amount_1_out
        };
        let ins = swap_amounts(balance_0, balance_1, reserve_0, reserve_1, amount_0_out, amount_1_out);
        let (amount_0_in, amount_1_in) = match ins {
            Ok(p) => p,
            Err(er) => return Err(er),
        };
        let e = now - self.block_timestamp_last;
        let accum = price_accum(
            self.price_0_cumulative_last,
            self.price_1_cumulative_last,
            reserve_0,
            reserve_1,
            e,
        );
        if accum.is_err() {
            return Err(PairError::Overflow);
        }
        let t0 = self.token_0;
        let t1 = self.token_1;
        if amount_0_out > 0 {
            let tr = self._safe_transfer(t0, to, amount_0_out);
            match tr {
                Ok(()) => {},
                Err(er) => return Err(er),
            }
        }
        if amount_1_out > 0 {
            let tr = self._safe_transfer(t1, to, amount_1_out);
            match tr {
                Ok(()) => {},
                Err(er) => return Err(er),
            }
        }
        let b0_new = self.ledger_0.balance_of(account);
        let b1_new = self.ledger_1.balance_of(account);
        let ur = self._update(b0_new, b1_new, reserve_0, reserve_1, now);
        match ur {
            Ok(()) => {},
            Err(er) => return Err(er),
        }
        self.events.push(
            Event::Swap { sender: caller, amount_0_in, amount_1_in, amount_0_out, amount_1_out, to },
        );
        Ok(())
    }
}


/// Price-accumulator increments for elapsed time `e`: each reserve's
/// fixed-point price times the elapsed time, or zero when no time passed
/// or a reserve is empty.
pub open spec fn price_increments(r0: int, r1: int, e: int) -> (int, int) {
    if e > 0 && r0 > 0 && r1 > 0 {
        ((r1 * (PRICE_SCALE as int) / r0) * e, (r0 * (PRICE_SCALE as int) / r1) * e)
    } else {
        (0, 0)
    }
}

/// Whether accumulating prices over elapsed time `e` would overflow.
pub open spec fn update_overflows(p0: int, p1: int, r0: int, r1: int, e: int) -> bool {
    e > 0 && r0 > 0 && r1 > 0 && {
        ||| r1 * (PRICE_SCALE as int) > u128::MAX
        ||| (r1 * (PRICE_SCALE as int) / r0) * e > u128::MAX
        ||| p0 + (r1 * (PRICE_SCALE as int) / r0) * e > u128::MAX
        ||| r0 * (PRICE_SCALE as int) > u128::MAX
        ||| (r0 * (PRICE_SCALE as int) / r1) * e > u128::MAX
        ||| p1 + (r0 * (PRICE_SCALE as int) / r1) * e > u128::MAX
    }
}

/// Outcome of the protocol-fee step on a supply of `ts` with stored root
/// `root_last` and reserves `(r0, r1)`: the shares owed to the fee
/// recipient and the new stored root, or the failing step's error.
///
/// The fee is a sixth of invariant growth:
/// `ts * (root_k - root_last) / (5 * root_k + root_last)` shares. The
/// division rounds down, so at small reserve magnitudes the fee can come
/// to nothing; that matches the audited reference designs and is kept.
pub open spec fn fee_liquidity_calc(
    fee_on: bool,
    ts: Balance,
    root_last: Balance,
    r0: Balance,
    r1: Balance,
) -> Result<(Balance, Balance), PairError> {
    if !fee_on {
        Ok((0u128, 0u128))
    } else if ts == 0 {
        Ok((0u128, root_last))
    } else if r0 * r1 > u128::MAX {
        Err(PairError::MulOverFlow14)
    } else {
        let root_k = floor_sqrt((r0 * r1) as int);
        if root_k > root_last {
            if ts * (root_k - root_last) > u128::MAX {
                Err(PairError::MulOverFlow15)
            } else if root_k * 5 > u128::MAX {
                Err(PairError::MulOverFlow16)
            } else if root_k * 5 + root_last > u128::MAX {
                Err(PairError::AddOverflow1)
            } else if root_k * 5 + root_last == 0 {
                Err(PairError::DivByZero5)
            } else if ts + ts * (root_k - root_last) / (root_k * 5 + root_last) > u128::MAX {
                Err(PairError::Overflow)
            } else {
                Ok(((ts * (root_k - root_last) / (root_k * 5 + root_last)) as u128, root_k as u128))
            }
        } else {
            Ok((0u128, root_last))
        }
    }
}

/// Shares owed for a deposit of `(a0, a1)` on reserves `(r0, r1)` at share
/// supply `ts`: the root of the deposited product less the permanent lock
/// when the pool bootstraps, else the deposit's proportional share of the
/// scarcer side.
pub open spec fn mint_shares_calc(
    ts: Balance,
    a0: Balance,
    a1: Balance,
    r0: Balance,
    r1: Balance,
) -> Result<Balance, PairError> {
    if ts == 0 {
        if a0 * a1 > u128::MAX {
            Err(PairError::MulOverFlow1)
        } else if floor_sqrt((a0 * a1) as int) < MINIMUM_LIQUIDITY {
            Err(PairError::SubUnderFlow3)
        } else {
            Ok((floor_sqrt((a0 * a1) as int) - MINIMUM_LIQUIDITY) as u128)
        }
    } else {
        if a0 * ts > u128::MAX {
            Err(PairError::MulOverFlow2)
        } else if r0 == 0 {
            Err(PairError::DivByZero1)
        } else if a1 * ts > u128::MAX {
            Err(PairError::MulOverFlow3)
        } else if r1 == 0 {
            Err(PairError::DivByZero2)
        } else {
            Ok(min_int(a0 * ts / (r0 as int), a1 * ts / (r1 as int)) as u128)
        }
    }
}

/// Pro-rata redemption of `liq` shares out of supply `ts` against held
/// balances `(b0, b1)`.
pub open spec fn burn_amounts_calc(
    liq: Balance,
    b0: Balance,
    b1: Balance,
    ts: Balance,
) -> Result<(Balance, Balance), PairError> {
    if liq * b0 > u128::MAX {
        Err(PairError::MulOverFlow6)
    } else if ts == 0 {
        Err(PairError::DivByZero3)
    } else if liq * b1 > u128::MAX {
        Err(PairError::MulOverFlow7)
    } else {
        Ok(((liq * b0 / (ts as int)) as u128, (liq * b1 / (ts as int)) as u128))
    }
}

/// The pool state after a successful mint: reserves synchronized to the
/// held balances, prices accumulated, fee and deposit shares minted (plus
/// the permanent lock on bootstrap), the fee root refreshed, and a Sync
/// then a Mint event emitted.
pub open spec fn mint_success_state(
    pre: Pair,
    caller: AccountId,
    to: AccountId,
    now: Timestamp,
    fee_liq: Balance,
    shares: Balance,
    post: Pair,
) -> bool {
    let b0 = pre.pool_balance_0();
    let b1 = pre.pool_balance_1();
    let e = now - pre.block_timestamp_last;
    let incs = price_increments(pre.reserve_0 as int, pre.reserve_1 as int, e as int);
    let bootstrap = pre.lp.total_supply + fee_liq == 0;
    &&& post.account == pre.account
    &&& post.token_0 == pre.token_0
    &&& post.token_1 == pre.token_1
    &&& post.ledger_0 == pre.ledger_0
    &&& post.ledger_1 == pre.ledger_1
    &&& post.reserve_0 == b0
    &&& post.reserve_1 == b1
    &&& post.block_timestamp_last == now
    &&& post.price_0_cumulative_last == pre.price_0_cumulative_last + incs.0
    &&& post.price_1_cumulative_last == pre.price_1_cumulative_last + incs.1
    &&& post.root_k_last == (if pre.fee_on() {
        floor_sqrt((b0 * b1) as int)
    } else {
        0int
    })
    &&& post.fee_to == pre.fee_to
    &&& post.owner == pre.owner
    &&& post.locked == pre.locked
    &&& post.lp.total_supply as int == pre.lp.total_supply + fee_liq + shares + (if bootstrap {
        MINIMUM_LIQUIDITY as int
    } else {
        0int
    })
    &&& (forall|a: AccountId|
        post.lp.bal(a) as int == pre.lp.bal(a) + (if a == pre.fee_to {
            fee_liq as int
        } else {
            0int
        }) + (if bootstrap && a == 0 {
            MINIMUM_LIQUIDITY as int
        } else {
            0int
        }) + (if a == to {
            shares as int
        } else {
            0int
        }))
    &&& post.lp.allowances == pre.lp.allowances
    &&& post.events@ == pre.events@.push(Event::Sync { reserve_0: b0, reserve_1: b1 }).push(
        Event::Mint {
            sender: caller,
            amount_0: (b0 - pre.reserve_0) as u128,
            amount_1: (b1 - pre.reserve_1) as u128,
        },
    )
}

/// Relates a mint call's result and post-state to its pre-state, step by
/// step in the order the pool checks the steps.
pub open spec fn mint_result_spec(
    pre: Pair,
    caller: AccountId,
    to: AccountId,
    now: Timestamp,
    r: Result<Balance, PairError>,
    post: Pair,
) -> bool {
    let b0 = pre.pool_balance_0();
    let b1 = pre.pool_balance_1();
    if b0 < pre.reserve_0 {
        r == Err::<Balance, PairError>(PairError::SubUnderFlow1)
    } else if b1 < pre.reserve_1 {
        r == Err::<Balance, PairError>(PairError::SubUnderFlow2)
    } else {
        let a0 = (b0 - pre.reserve_0) as u128;
        let a1 = (b1 - pre.reserve_1) as u128;
        match fee_liquidity_calc(
            pre.fee_on(),
            pre.lp.total_supply,
            pre.root_k_last,
            pre.reserve_0,
            pre.reserve_1,
        ) {
            Err(e) => r == Err::<Balance, PairError>(e),
            Ok(fp) => {
                let fee_liq = fp.0;
                let ts1 = (pre.lp.total_supply + fee_liq) as u128;
                match mint_shares_calc(ts1, a0, a1, pre.reserve_0, pre.reserve_1) {
                    Err(e) => r == Err::<Balance, PairError>(e),
                    Ok(shares) => {
                        if shares == 0 {
                            r == Err::<Balance, PairError>(PairError::InsufficientLiquidityMinted)
                        } else if ts1 + shares + (if ts1 == 0 {
                            MINIMUM_LIQUIDITY as int
                        } else {
                            0int
                        }) > u128::MAX {
                            r == Err::<Balance, PairError>(PairError::Overflow)
                        } else if update_overflows(
                            pre.price_0_cumulative_last as int,
                            pre.price_1_cumulative_last as int,
                            pre.reserve_0 as int,
                            pre.reserve_1 as int,
                            (now - pre.block_timestamp_last) as int,
                        ) {
                            r == Err::<Balance, PairError>(PairError::Overflow)
                        } else if pre.fee_on() && b0 * b1 > u128::MAX {
                            r == Err::<Balance, PairError>(PairError::MulOverFlow4)
                        } else {
                            r == Ok::<Balance, PairError>(shares) && mint_success_state(
                                pre,
                                caller,
                                to,
                                now,
                                fee_liq,
                                shares,
                                post,
                            )
                        }
                    },
                }
            },
        }
    }
}

/// Computes the shares a deposit earns without committing anything.
fn mint_shares(ts: Balance, a0: Balance, a1: Balance, r0: Balance, r1: Balance) -> (r: Result<
    Balance,
    PairError,
>)
    ensures
        r == mint_shares_calc(ts, a0, a1, r0, r1),
{
    if ts == 0 {
        let prod = match a0.checked_mul(a1) {
            Some(p) => p,
            None => return Err(PairError::MulOverFlow1),
        };
        let s = sqrt(prod);
        if s < MINIMUM_LIQUIDITY {
            return Err(PairError::SubUnderFlow3);
        }
        Ok(s - MINIMUM_LIQUIDITY)
    } else {
        let n0 = match a0.checked_mul(ts) {
            Some(n) => n,
            None => return Err(PairError::MulOverFlow2),
        };
        if r0 == 0 {
            return Err(PairError::DivByZero1);
        }
        let n1 = match a1.checked_mul(ts) {
            Some(n) => n,
            None => return Err(PairError::MulOverFlow3),
        };
        if r1 == 0 {
            return Err(PairError::DivByZero2);
        }
        let q0 = n0 / r0;
        let q1 = n1 / r1;
        if q0 <= q1 {
            Ok(q0)
        } else {
            Ok(q1)
        }
    }
}

/// A pro-rata amount `liq * b / ts` with `liq <= ts` never exceeds `b`.
proof fn lemma_pro_rata_le(liq: int, b: int, ts: int)
    requires
        0 <= liq <= ts,
        0 < ts,
        0 <= b,
    ensures
        0 <= liq * b / ts <= b,
{
    vstd::arithmetic::mul::lemma_mul_inequality(liq, ts, b);
    vstd::arithmetic::div_mod::lemma_div_is_ordered(liq * b, ts * b, ts);
    vstd::arithmetic::div_mod::lemma_div_multiples_vanish(b, ts);
    vstd::arithmetic::mul::lemma_mul_nonnegative(liq, b);
    vstd::arithmetic::div_mod::lemma_div_pos_is_pos(liq * b, ts);
}

/// The pool state after a successful burn: `liq` pool-held shares burned,
/// both pro-rata amounts paid out, reserves synchronized, prices
/// accumulated, the fee root refreshed, and a Sync then a Burn event.
pub open spec fn burn_success_state(
    pre: Pair,
    caller: AccountId,
    to: AccountId,
    now: Timestamp,
    fee_liq: Balance,
    a0: Balance,
    a1: Balance,
    post: Pair,
) -> bool {
    let b0 = pre.pool_balance_0();
    let b1 = pre.pool_balance_1();
    let liq = pre.lp.bal(pre.account);
    let nb0 = (if to == pre.account {
        b0 as int
    } else {
        b0 - a0
    }) as u128;
    let nb1 = (if to == pre.account {
        b1 as int
    } else {
        b1 - a1
    }) as u128;
    let e = now - pre.block_timestamp_last;
    let incs = price_increments(pre.reserve_0 as int, pre.reserve_1 as int, e as int);
    &&& post.account == pre.account
    &&& post.token_0 == pre.token_0
    &&& post.token_1 == pre.token_1
    &&& moved(pre.ledger_0, post.ledger_0, pre.account, to, a0)
    &&& moved(pre.ledger_1, post.ledger_1, pre.account, to, a1)
    &&& post.reserve_0 == nb0
    &&& post.reserve_1 == nb1
    &&& post.block_timestamp_last == now
    &&& post.price_0_cumulative_last == pre.price_0_cumulative_last + incs.0
    &&& post.price_1_cumulative_last == pre.price_1_cumulative_last + incs.1
    &&& post.root_k_last == (if pre.fee_on() {
        floor_sqrt((nb0 * nb1) as int)
    } else {
        0int
    })
    &&& post.fee_to == pre.fee_to
    &&& post.owner == pre.owner
    &&& post.locked == pre.locked
    &&& post.lp.total_supply as int == pre.lp.total_supply + fee_liq - liq
    &&& (forall|a: AccountId|
        post.lp.bal(a) as int == pre.lp.bal(a) + (if a == pre.fee_to {
            fee_liq as int
        } else {
            0int
        }) - (if a == pre.account {
            liq as int
        } else {
            0int
        }))
    &&& post.lp.allowances == pre.lp.allowances
    &&& post.events@ == pre.events@.push(Event::Sync { reserve_0: nb0, reserve_1: nb1 }).push(
        Event::Burn { sender: caller, amount_0: a0, amount_1: a1, to },
    )
}

/// Relates a burn call's result and post-state to its pre-state, step by
/// step in the order the pool checks the steps.
pub open spec fn burn_result_spec(
    pre: Pair,
    caller: AccountId,
    to: AccountId,
    now: Timestamp,
    r: Result<(Balance, Balance), PairError>,
    post: Pair,
) -> bool {
    let b0 = pre.pool_balance_0();
    let b1 = pre.pool_balance_1();
    let liq = pre.lp.bal(pre.account);
    match fee_liquidity_calc(
        pre.fee_on(),
        pre.lp.total_supply,
        pre.root_k_last,
        pre.reserve_0,
        pre.reserve_1,
    ) {
        Err(e) => r == Err::<(Balance, Balance), PairError>(e),
        Ok(fp) => {
            let fee_liq = fp.0;
            let ts1 = (pre.lp.total_supply + fee_liq) as u128;
            match burn_amounts_calc(liq, b0, b1, ts1) {
                Err(e) => r == Err::<(Balance, Balance), PairError>(e),
                Ok(am) => {
                    let a0 = am.0;
                    let a1 = am.1;
                    let nb0 = (if to == pre.account {
                        b0 as int
                    } else {
                        b0 - a0
                    }) as u128;
                    let nb1 = (if to == pre.account {
                        b1 as int
                    } else {
                        b1 - a1
                    }) as u128;
                    if a0 == 0 || a1 == 0 {
                        r == Err::<(Balance, Balance), PairError>(
                            PairError::InsufficientLiquidityBurned,
                        )
                    } else if update_overflows(
                        pre.price_0_cumulative_last as int,
                        pre.price_1_cumulative_last as int,
                        pre.reserve_0 as int,
                        pre.reserve_1 as int,
                        (now - pre.block_timestamp_last) as int,
                    ) {
                        r == Err::<(Balance, Balance), PairError>(PairError::Overflow)
                    } else if pre.fee_on() && nb0 * nb1 > u128::MAX {
                        r == Err::<(Balance, Balance), PairError>(PairError::MulOverFlow8)
                    } else {
                        r == Ok::<(Balance, Balance), PairError>((a0, a1)) && burn_success_state(
                            pre,
                            caller,
                            to,
                            now,
                            fee_liq,
                            a0,
                            a1,
                            post,
                        )
                    }
                },
            }
        },
    }
}

/// The constant-product check of a swap, after the 0.3% fee is charged on
/// each input: the fee-adjusted balance product may not fall below the
/// reserve product.
pub open spec fn k_check_holds(b0: int, b1: int, in0: int, in1: int, r0: int, r1: int) -> bool {
    (b0 * 1000 - in0 * 3) * (b1 * 1000 - in1 * 3) >= r0 * r1 * 1000000
}

/// The pool state after a successful swap: outputs paid out, reserves
/// synchronized to the post-transfer balances, prices accumulated, and a
/// Sync then a Swap event emitted. The share ledger and the fee root are
/// untouched.
pub open spec fn swap_success_state(
    pre: Pair,
    caller: AccountId,
    amount_0_out: Balance,
    amount_1_out: Balance,
    in0: Balance,
    in1: Balance,
    b0: Balance,
    b1: Balance,
    to: AccountId,
    now: Timestamp,
    post: Pair,
) -> bool {
    let e = now - pre.block_timestamp_last;
    let incs = price_increments(pre.reserve_0 as int, pre.reserve_1 as int, e as int);
    &&& post.account == pre.account
    &&& post.token_0 == pre.token_0
    &&& post.token_1 == pre.token_1
    &&& (amount_0_out > 0 ==> moved(pre.ledger_0, post.ledger_0, pre.account, to, amount_0_out))
    &&& (amount_0_out == 0 ==> post.ledger_0 == pre.ledger_0)
    &&& (amount_1_out > 0 ==> moved(pre.ledger_1, post.ledger_1, pre.account, to, amount_1_out))
    &&& (amount_1_out == 0 ==> post.ledger_1 == pre.ledger_1)
    &&& post.lp == pre.lp
    &&& post.reserve_0 == b0
    &&& post.reserve_1 == b1
    &&& post.block_timestamp_last == now
    &&& post.price_0_cumulative_last == pre.price_0_cumulative_last + incs.0
    &&& post.price_1_cumulative_last == pre.price_1_cumulative_last + incs.1
    &&& post.root_k_last == pre.root_k_last
    &&& post.fee_to == pre.fee_to
    &&& post.owner == pre.owner
    &&& post.locked == pre.locked
    &&& post.events@ == pre.events@.push(Event::Sync { reserve_0: b0, reserve_1: b1 }).push(
        Event::Swap {
            sender: caller,
            amount_0_in: in0,
            amount_1_in: in1,
            amount_0_out,
            amount_1_out,
            to,
        },
    )
}

/// Relates a swap call's result and post-state to its pre-state, step by
/// step in the order the pool checks the steps: output demanded, outputs
/// below reserves, valid recipient, the optimistic transfers, input
/// derivation, and the fee-adjusted constant-product check.
pub open spec fn swap_result_spec(
    pre: Pair,
    caller: AccountId,
    amount_0_out: Balance,
    amount_1_out: Balance,
    to: AccountId,
    now: Timestamp,
    r: Result<(), PairError>,
    post: Pair,
) -> bool {
    let pb0 = pre.pool_balance_0();
    let pb1 = pre.pool_balance_1();
    if amount_0_out == 0 && amount_1_out == 0 {
        r == Err::<(), PairError>(PairError::InsufficientOutputAmout)
    } else if amount_0_out >= pre.reserve_0 || amount_1_out >= pre.reserve_1 {
        r == Err::<(), PairError>(PairError::InsufficientLiquidity)
    } else if to == pre.token_0 || to == pre.token_1 {
        r == Err::<(), PairError>(PairError::InvalidTo)
    } else if pb0 < amount_0_out || pb1 < amount_1_out {
        r == Err::<(), PairError>(PairError::PSP22Error(Error::InsufficientBalance))
    } else {
        let b0 = (if to == pre.account {
            pb0 as int
        } else {
            pb0 - amount_0_out
        }) as u128;
        let b1 = (if to == pre.account {
            pb1 as int
        } else {
            pb1 - amount_1_out
        }) as u128;
        match swap_amounts_calc(b0, b1, pre.reserve_0, pre.reserve_1, amount_0_out, amount_1_out) {
            Err(e) => r == Err::<(), PairError>(e),
            Ok(ins) => {
                if update_overflows(
                    pre.price_0_cumulative_last as int,
                    pre.price_1_cumulative_last as int,
                    pre.reserve_0 as int,
                    pre.reserve_1 as int,
                    (now - pre.block_timestamp_last) as int,
                ) {
                    r == Err::<(), PairError>(PairError::Overflow)
                } else {
                    r == Ok::<(), PairError>(()) && swap_success_state(
                        pre,
                        caller,
                        amount_0_out,
                        amount_1_out,
                        ins.0,
                        ins.1,
                        b0,
                        b1,
                        to,
                        now,
                        post,
                    )
                }
            },
        }
    }
}

/// Law: a deposit mints shares at most in proportion to the value it
/// adds, so a mint never decreases the invariant product per unit of
/// share. After depositing `(a0, a1)` on reserves `(r0, r1)` at share
/// supply `ts`, with `m` the shares `mint` pays out, the new product per
/// squared share supply is at least the old one:
/// `(r0+a0)*(r1+a1) / (ts+m)^2 >= r0*r1 / ts^2`, in cross-multiplied form.
pub proof fn lemma_mint_preserves_share_value(
    ts: Balance,
    a0: Balance,
    a1: Balance,
    r0: Balance,
    r1: Balance,
    m: Balance,
)
    requires
        ts > 0,
        r0 > 0,
        r1 > 0,
        mint_shares_calc(ts, a0, a1, r0, r1) == Ok::<Balance, PairError>(m),
    ensures
        (r0 + a0) * (r1 + a1) * (ts * ts) >= (r0 * r1) * ((ts + m) * (ts + m)),
{
    let q0 = a0 * ts / (r0 as int);
    let q1 = a1 * ts / (r1 as int);
    vstd::arithmetic::div_mod::lemma_div_pos_is_pos(a0 * ts, r0 as int);
    vstd::arithmetic::div_mod::lemma_div_pos_is_pos(a1 * ts, r1 as int);
    vstd::arithmetic::mul::lemma_mul_nonnegative(a0 as int, ts as int);
    vstd::arithmetic::mul::lemma_mul_nonnegative(a1 as int, ts as int);
    assert(m == min_int(q0, q1));
    vstd::arithmetic::div_mod::lemma_fundamental_div_mod(a0 * ts, r0 as int);
    vstd::arithmetic::div_mod::lemma_mod_bound(a0 * ts, r0 as int);
    vstd::arithmetic::div_mod::lemma_fundamental_div_mod(a1 * ts, r1 as int);
    vstd::arithmetic::div_mod::lemma_mod_bound(a1 * ts, r1 as int);
    vstd::arithmetic::mul::lemma_mul_inequality(m as int, q0, r0 as int);
    vstd::arithmetic::mul::lemma_mul_inequality(m as int, q1, r1 as int);
    assert(m * r0 <= a0 * ts);
    assert(m * r1 <= a1 * ts);
    let x0 = r0 * (ts + m);
    let x1 = r1 * (ts + m);
    assert(x0 <= (r0 + a0) * ts && x0 >= 0) by (nonlinear_arith)
        requires
            m * r0 <= a0 * ts,
            r0 > 0,
            ts > 0,
            m >= 0,
            x0 == r0 * (ts + m),
    ;
    assert(x1 <= (r1 + a1) * ts && x1 >= 0) by (nonlinear_arith)
        requires
            m * r1 <= a1 * ts,
            r1 > 0,
            ts > 0,
            m >= 0,
            x1 == r1 * (ts + m),
    ;
    vstd::arithmetic::mul::lemma_mul_upper_bound(x0, (r0 + a0) * ts, x1, (r1 + a1) * ts);
    assert(x0 * x1 == (r0 * r1) * ((ts + m) * (ts + m))) by (nonlinear_arith)
        requires
            x0 == r0 * (ts + m),
            x1 == r1 * (ts + m),
    ;
    assert(((r0 + a0) * ts) * ((r1 + a1) * ts) == (r0 + a0) * (r1 + a1) * (ts * ts))
        by (nonlinear_arith);
}

/// Law: burning all shares minted by the bootstrap deposit `(a0, a1)`,
/// with no intervening swap and fees off, redeems each deposited amount
/// less the permanently locked shares' pro-rata cut, rounded against the
/// redeemer: `x_i == a_i - ceil(MINIMUM_LIQUIDITY * a_i / s)`, where `s`
/// is the bootstrapped share supply.
pub proof fn lemma_bootstrap_burn_redemption(
    a0: Balance,
    a1: Balance,
    m: Balance,
    x0: Balance,
    x1: Balance,
)
    requires
        mint_shares_calc(0u128, a0, a1, 0u128, 0u128) == Ok::<Balance, PairError>(m),
        m + MINIMUM_LIQUIDITY <= u128::MAX,
        burn_amounts_calc(m, a0, a1, (m + MINIMUM_LIQUIDITY) as u128) == Ok::<
            (Balance, Balance),
            PairError,
        >((x0, x1)),
    ensures
        x0 as int == a0 - (MINIMUM_LIQUIDITY * a0 + (m + MINIMUM_LIQUIDITY) - 1) / (m
            + MINIMUM_LIQUIDITY),
        x1 as int == a1 - (MINIMUM_LIQUIDITY * a1 + (m + MINIMUM_LIQUIDITY) - 1) / (m
            + MINIMUM_LIQUIDITY),
        x0 <= a0,
        x1 <= a1,
{
    let s = m + MINIMUM_LIQUIDITY;
    assert(x0 as int == m * a0 / s && x1 as int == m * a1 / s);
    lemma_floor_division_complement(m as int, a0 as int, s);
    lemma_floor_division_complement(m as int, a1 as int, s);
    lemma_pro_rata_le(m as int, a0 as int, s);
    lemma_pro_rata_le(m as int, a1 as int, s);
}

/// For `0 < s` and `0 <= m <= s` with `d == s - m`:
/// `m * a / s == a - ceil(d * a / s)`, with the ceiling written as
/// `(d * a + s - 1) / s`.
proof fn lemma_floor_division_complement(m: int, a: int, s: int)
    requires
        0 <= m <= s,
        0 < s,
        0 <= a,
    ensures
        m * a / s == a - ((s - m) * a + s - 1) / s,
{
    let d = s - m;
    let q = d * a / s;
    let rem = d * a % s;
    vstd::arithmetic::mul::lemma_mul_nonnegative(d, a);
    vstd::arithmetic::div_mod::lemma_fundamental_div_mod(d * a, s);
    vstd::arithmetic::div_mod::lemma_mod_bound(d * a, s);
    if rem == 0 {
        assert(m * a == s * (a - q)) by (nonlinear_arith)
            requires
                d == s - m,
                d * a == s * q + rem,
                rem == 0,
        ;
        vstd::arithmetic::div_mod::lemma_div_multiples_vanish(a - q, s);
        assert(d * a + s - 1 == s * q + (s - 1)) by (nonlinear_arith)
            requires
                d * a == s * q + rem,
                rem == 0,
        ;
        vstd::arithmetic::div_mod::lemma_div_multiples_vanish_fancy(q, s - 1, s);
    } else {
        assert(m * a == s * (a - q - 1) + (s - rem)) by (nonlinear_arith)
            requires
                d == s - m,
                d * a == s * q + rem,
        ;
        vstd::arithmetic::div_mod::lemma_div_multiples_vanish_fancy(a - q - 1, s - rem, s);
        assert(d * a + s - 1 == s * (q + 1) + (rem - 1)) by (nonlinear_arith)
            requires
                d * a == s * q + rem,
        ;
        vstd::arithmetic::div_mod::lemma_div_multiples_vanish_fancy(q + 1, rem - 1, s);
    }
}

/// Law: the constant-product check holds with equality only in the
/// zero-fee limit. A successful swap that took any input strictly grows
/// the raw reserve product, because the 0.3% fee is charged on top of the
/// break-even input; and a swap that fails the check leaves the reserves
/// unchanged, by `swap`'s own contract.
pub proof fn lemma_swap_strict_growth(b0: int, b1: int, in0: int, in1: int, r0: int, r1: int)
    requires
        r0 > 0,
        r1 > 0,
        0 <= in0 <= b0,
        0 <= in1 <= b1,
        in0 > 0 || in1 > 0,
        k_check_holds(b0, b1, in0, in1, r0, r1),
    ensures
        b0 * b1 > r0 * r1,
{
    let adj0 = b0 * 1000 - in0 * 3;
    let adj1 = b1 * 1000 - in1 * 3;
    vstd::arithmetic::mul::lemma_mul_strictly_positive(r0, r1);
    vstd::arithmetic::mul::lemma_mul_strictly_positive(r0 * r1, 1000000);
    assert(r0 * r1 * 1000000 > 0);
    assert(adj0 >= 0 && adj1 >= 0 && adj0 <= b0 * 1000 && adj1 <= b1 * 1000)
        by (nonlinear_arith)
        requires
            0 <= in0 <= b0,
            0 <= in1 <= b1,
            adj0 == b0 * 1000 - in0 * 3,
            adj1 == b1 * 1000 - in1 * 3,
    ;
    assert(adj0 > 0 && adj1 > 0) by (nonlinear_arith)
        requires
            adj0 >= 0,
            adj1 >= 0,
            adj0 * adj1 > 0,
    ;
    if in0 > 0 {
        assert(adj0 < b0 * 1000);
        vstd::arithmetic::mul::lemma_mul_strict_inequality(adj0, b0 * 1000, adj1);
        vstd::arithmetic::mul::lemma_mul_inequality(adj1, b1 * 1000, b0 * 1000);
        assert((b0 * 1000) * (b1 * 1000) > r0 * r1 * 1000000) by (nonlinear_arith)
            requires
                adj0 * adj1 >= r0 * r1 * 1000000,
                adj0 * adj1 < (b0 * 1000) * adj1,
                adj1 * (b0 * 1000) <= (b1 * 1000) * (b0 * 1000),
        ;
    } else {
        assert(adj1 < b1 * 1000);
        vstd::arithmetic::mul::lemma_mul_strict_inequality(adj1, b1 * 1000, adj0);
        vstd::arithmetic::mul::lemma_mul_inequality(adj0, b0 * 1000, b1 * 1000);
        assert((b0 * 1000) * (b1 * 1000) > r0 * r1 * 1000000) by (nonlinear_arith)
            requires
                adj0 * adj1 >= r0 * r1 * 1000000,
                adj1 * adj0 < (b1 * 1000) * adj0,
                adj0 * (b1 * 1000) <= (b0 * 1000) * (b1 * 1000),
        ;
    }
    assert(b0 * b1 > r0 * r1) by (nonlinear_arith)
        requires
            (b0 * 1000) * (b1 * 1000) > r0 * r1 * 1000000,
    ;
}

/// Law: a deposit that adds none of one token mints zero shares on an
/// operating pool, so `mint` refuses it as `InsufficientLiquidityMinted`.
pub proof fn lemma_zero_contribution_mints_nothing(
    ts: Balance,
    a0: Balance,
    a1: Balance,
    r0: Balance,
    r1: Balance,
)
    requires
        ts > 0,
        r0 > 0,
        r1 > 0,
        a0 == 0 || a1 == 0,
        a0 * ts <= u128::MAX,
        a1 * ts <= u128::MAX,
    ensures
        mint_shares_calc(ts, a0, a1, r0, r1) == Ok::<Balance, PairError>(0u128),
{
    vstd::arithmetic::div_mod::lemma_div_pos_is_pos(a0 * ts, r0 as int);
    vstd::arithmetic::div_mod::lemma_div_pos_is_pos(a1 * ts, r1 as int);
    vstd::arithmetic::mul::lemma_mul_nonnegative(a0 as int, ts as int);
    vstd::arithmetic::mul::lemma_mul_nonnegative(a1 as int, ts as int);
    if a0 == 0 {
        assert((r0 as int) * 0 == 0) by (nonlinear_arith);
        vstd::arithmetic::div_mod::lemma_div_multiples_vanish(0, r0 as int);
        assert(a0 * ts == 0) by (nonlinear_arith)
            requires
                a0 == 0,
        ;
    } else {
        assert((r1 as int) * 0 == 0) by (nonlinear_arith);
        vstd::arithmetic::div_mod::lemma_div_multiples_vanish(0, r1 as int);
        assert(a1 * ts == 0) by (nonlinear_arith)
            requires
                a1 == 0,
        ;
    }
}

/// Law: burning with no pool-held shares redeems nothing, so `burn`
/// refuses it as `InsufficientLiquidityBurned`.
pub proof fn lemma_zero_liquidity_burns_nothing(b0: Balance, b1: Balance, ts: Balance)
    requires
        ts > 0,
    ensures
        burn_amounts_calc(0u128, b0, b1, ts) == Ok::<(Balance, Balance), PairError>((0u128, 0u128)),
{
    assert((ts as int) * 0 == 0) by (nonlinear_arith);
    vstd::arithmetic::div_mod::lemma_div_multiples_vanish(0, ts as int);
    assert(0 * (b0 as int) == 0) by (nonlinear_arith);
    assert(0 * (b1 as int) == 0) by (nonlinear_arith);
}

/// The arithmetic middle of a swap on post-transfer balances `(b0, b1)`:
/// derives the paid-in amounts and runs the fee-adjusted constant-product
/// check, step by step.
pub open spec fn swap_amounts_calc(
    b0: Balance,
    b1: Balance,
    r0: Balance,
    r1: Balance,
    amount_0_out: Balance,
    amount_1_out: Balance,
) -> Result<(Balance, Balance), PairError> {
    let in0 = (if b0 > r0 - amount_0_out {
        b0 - (r0 - amount_0_out)
    } else {
        0int
    }) as u128;
    let in1 = (if b1 > r1 - amount_1_out {
        b1 - (r1 - amount_1_out)
    } else {
        0int
    }) as u128;
    if in0 == 0 && in1 == 0 {
        Err(PairError::InsufficientInputAmount)
    } else if b0 * 1000 > u128::MAX {
        Err(PairError::MulOverFlow9)
    } else if in0 * 3 > u128::MAX {
        Err(PairError::MulOverFlow10)
    } else if b0 * 1000 - in0 * 3 < 0 {
        Err(PairError::SubUnderFlow10)
    } else if b1 * 1000 > u128::MAX {
        Err(PairError::MulOverFlow11)
    } else if in1 * 3 > u128::MAX {
        Err(PairError::MulOverFlow17)
    } else if b1 * 1000 - in1 * 3 < 0 {
        Err(PairError::SubUnderFlow11)
    } else if (b0 * 1000 - in0 * 3) * (b1 * 1000 - in1 * 3) > u128::MAX {
        Err(PairError::MulOverFlow18)
    } else if r0 * r1 > u128::MAX {
        Err(PairError::MulOverFlow5)
    } else if r0 * r1 * 1000000 > u128::MAX {
        Err(PairError::Overflow)
    } else if !k_check_holds(b0 as int, b1 as int, in0 as int, in1 as int, r0 as int, r1 as int) {
        Err(PairError::K)
    } else {
        Ok((in0, in1))
    }
}

/// Computes the swap's arithmetic middle without committing anything.
fn swap_amounts(
    b0: Balance,
    b1: Balance,
    r0: Balance,
    r1: Balance,
    amount_0_out: Balance,
    amount_1_out: Balance,
) -> (r: Result<(Balance, Balance), PairError>)
    requires
        amount_0_out < r0,
        amount_1_out < r1,
    ensures
        r == swap_amounts_calc(b0, b1, r0, r1, amount_0_out, amount_1_out),
{
    let amount_0_in = if b0 > r0 - amount_0_out {
        b0 - (r0 - amount_0_out)
    } else {
        0
    };
    let amount_1_in = if b1 > r1 - amount_1_out {
        b1 - (r1 - amount_1_out)
    } else {
        0
    };
    if amount_0_in == 0 && amount_1_in == 0 {
        return Err(PairError::InsufficientInputAmount);
    }
    let m0 = match b0.checked_mul(1000) {
        Some(x) => x,
        None => return Err(PairError::MulOverFlow9),
    };
    let f0 = match amount_0_in.checked_mul(3) {
        Some(x) => x,
        None => return Err(PairError::MulOverFlow10),
    };
    let adj0 = match m0.checked_sub(f0) {
        Some(x) => x,
        None => return Err(PairError::SubUnderFlow10),
    };
    let m1 = match b1.checked_mul(1000) {
        Some(x) => x,
        None => return Err(PairError::MulOverFlow11),
    };
    let f1 = match amount_1_in.checked_mul(3) {
        Some(x) => x,
        None => return Err(PairError::MulOverFlow17),
    };
    let adj1 = match m1.checked_sub(f1) {
        Some(x) => x,
        None => return Err(PairError::SubUnderFlow11),
    };
    let left = match adj0.checked_mul(adj1) {
        Some(x) => x,
        None => return Err(PairError::MulOverFlow18),
    };
    let k0 = match r0.checked_mul(r1) {
        Some(x) => x,
        None => return Err(PairError::MulOverFlow5),
    };
    let right = match k0.checked_mul(1000000) {
        Some(x) => x,
        None => return Err(PairError::Overflow),
    };
    if left < right {
        return Err(PairError::K);
    }
    Ok((amount_0_in, amount_1_in))
}

/// Law: any completed swap strictly grows the product of the stored
/// reserves, stated directly over `swap`'s own contract: if
/// `swap_result_spec` relates a pre-state to an `Ok` result, the
/// post-state's reserve product exceeds the pre-state's.
pub proof fn lemma_swap_never_decreases_k(
    pre: Pair,
    caller: AccountId,
    amount_0_out: Balance,
    amount_1_out: Balance,
    to: AccountId,
    now: Timestamp,
    post: Pair,
)
    requires
        swap_result_spec(pre, caller, amount_0_out, amount_1_out, to, now, Ok::<(), PairError>(()), post),
    ensures
        post.reserve_0 * post.reserve_1 > pre.reserve_0 * pre.reserve_1,
{
    let pb0 = pre.pool_balance_0();
    let pb1 = pre.pool_balance_1();
    let r0 = pre.reserve_0;
    let r1 = pre.reserve_1;
    assert(amount_0_out < r0 && amount_1_out < r1);
    let b0 = (if to == pre.account {
        pb0 as int
    } else {
        pb0 - amount_0_out
    }) as u128;
    let b1 = (if to == pre.account {
        pb1 as int
    } else {
        pb1 - amount_1_out
    }) as u128;
    let in0 = (if b0 > r0 - amount_0_out {
        b0 - (r0 - amount_0_out)
    } else {
        0int
    }) as u128;
    let in1 = (if b1 > r1 - amount_1_out {
        b1 - (r1 - amount_1_out)
    } else {
        0int
    }) as u128;
    assert(swap_amounts_calc(b0, b1, r0, r1, amount_0_out, amount_1_out) == Ok::<
        (Balance, Balance),
        PairError,
    >((in0, in1)));
    assert(post.reserve_0 == b0 && post.reserve_1 == b1);
    assert(k_check_holds(b0 as int, b1 as int, in0 as int, in1 as int, r0 as int, r1 as int));
    assert(in0 > 0 || in1 > 0);
    lemma_swap_strict_growth(b0 as int, b1 as int, in0 as int, in1 as int, r0 as int, r1 as int);
}

/// Law: with fees off, a completed mint on an operating pool never
/// decreases the reserve product per unit of share, stated directly over
/// `mint`'s own contract: the post-state's reserve product over its
/// squared supply is at least the pre-state's, in cross-multiplied form.
pub proof fn lemma_mint_never_dilutes(
    pre: Pair,
    caller: AccountId,
    to: AccountId,
    now: Timestamp,
    m: Balance,
    post: Pair,
)
    requires
        pre.lp.total_supply > 0,
        !pre.fee_on(),
        mint_result_spec(pre, caller, to, now, Ok::<Balance, PairError>(m), post),
    ensures
        (post.reserve_0 * post.reserve_1) * (pre.lp.total_supply * pre.lp.total_supply) >= (
        pre.reserve_0 * pre.reserve_1) * (post.lp.total_supply * post.lp.total_supply),
{
    let b0 = pre.pool_balance_0();
    let b1 = pre.pool_balance_1();
    let r0 = pre.reserve_0;
    let r1 = pre.reserve_1;
    let ts = pre.lp.total_supply;
    let a0 = (b0 - r0) as u128;
    let a1 = (b1 - r1) as u128;
    assert(fee_liquidity_calc(false, ts, pre.root_k_last, r0, r1) == Ok::<
        (Balance, Balance),
        PairError,
    >((0u128, 0u128)));
    assert(mint_shares_calc(ts, a0, a1, r0, r1) == Ok::<Balance, PairError>(m));
    assert(r0 > 0 && r1 > 0);
    assert(post.reserve_0 == b0 && post.reserve_1 == b1);
    assert(post.lp.total_supply == ts + m);
    lemma_mint_preserves_share_value(ts, a0, a1, r0, r1, m);
    assert(b0 == r0 + a0 && b1 == r1 + a1);
}

/// Computes the protocol-fee step without committing it.
fn fee_step(
    fee_on: bool,
    ts: Balance,
    root_last: Balance,
    reserve_0: Balance,
    reserve_1: Balance,
) -> (r: Result<(Balance, Balance), PairError>)
    ensures
        r == fee_liquidity_calc(fee_on, ts, root_last, reserve_0, reserve_1),
{
    if !fee_on {
        return Ok((0, 0));
    }
    if ts == 0 {
        return Ok((0, root_last));
    }
    let k = match reserve_0.checked_mul(reserve_1) {
        Some(k) => k,
        None => return Err(PairError::MulOverFlow14),
    };
    let root_k = sqrt(k);
    proof {
        lemma_floor_sqrt(k as int);
    }
    if root_k > root_last {
        let num = match ts.checked_mul(root_k - root_last) {
            Some(n) => n,
            None => return Err(PairError::MulOverFlow15),
        };
        let five = match root_k.checked_mul(5) {
            Some(f) => f,
            None => return Err(PairError::MulOverFlow16),
        };
        let den = match five.checked_add(root_last) {
            Some(d) => d,
            None => return Err(PairError::AddOverflow1),
        };
        if den == 0 {
            return Err(PairError::DivByZero5);
        }
        let liq = num / den;
        if ts.checked_add(liq).is_none() {
            return Err(PairError::Overflow);
        }
        Ok((liq, root_k))
    } else {
        Ok((0, root_last))
    }
}

/// Computes the new price accumulators without committing them.
fn price_accum(
    p0: Balance,
    p1: Balance,
    reserve_0: Balance,
    reserve_1: Balance,
    e: u64,
) -> (r: Result<(Balance, Balance), PairError>)
    ensures
        r is Ok <==> !update_overflows(
            p0 as int,
            p1 as int,
            reserve_0 as int,
            reserve_1 as int,
            e as int,
        ),
        r is Err ==> r == Err::<(Balance, Balance), PairError>(PairError::Overflow),
        (r matches Ok(np) ==> {
            let incs = price_increments(reserve_0 as int, reserve_1 as int, e as int);
            np.0 == p0 + incs.0 && np.1 == p1 + incs.1
        }),
{
    if e > 0 && reserve_0 > 0 && reserve_1 > 0 {
        let num0 = match reserve_1.checked_mul(PRICE_SCALE) {
            Some(x) => x,
            None => return Err(PairError::Overflow),
        };
        let inc0 = match (num0 / reserve_0).checked_mul(e as u128) {
            Some(x) => x,
            None => return Err(PairError::Overflow),
        };
        let np0 = match p0.checked_add(inc0) {
            Some(x) => x,
            None => return Err(PairError::Overflow),
        };
        let num1 = match reserve_0.checked_mul(PRICE_SCALE) {
            Some(x) => x,
            None => return Err(PairError::Overflow),
        };
        let inc1 = match (num1 / reserve_1).checked_mul(e as u128) {
            Some(x) => x,
            None => return Err(PairError::Overflow),
        };
        let np1 = match p1.checked_add(inc1) {
            Some(x) => x,
            None => return Err(PairError::Overflow),
        };
        Ok((np0, np1))
    } else {
        Ok((p0, p1))
    }
}

} // verus!
