//! A verified account-to-amount table, the storage shape shared by every
//! fungible-token balance ledger in this crate.
//!
//! The table is a vector of `(account, amount)` entries with pairwise
//! distinct accounts; an absent account holds amount zero.

use vstd::prelude::*;

use crate::AccountId;
use crate::Balance;

verus! {

/// The amount the table `s` records for account `k` (zero when absent);
/// the first matching entry decides.
pub open spec fn bal_get(s: Seq<(AccountId, Balance)>, k: AccountId) -> Balance
    decreases s.len(),
{
    if s.len() == 0 {
        0
    } else if s[0].0 == k {
        s[0].1
    } else {
        bal_get(s.drop_first(), k)
    }
}

/// Whether the table `s` holds an entry for account `k`.
pub open spec fn has_key(s: Seq<(AccountId, Balance)>, k: AccountId) -> bool
    decreases s.len(),
{
    s.len() > 0 && (s[0].0 == k || has_key(s.drop_first(), k))
}

/// All accounts in the table are pairwise distinct.
pub open spec fn unique_keys(s: Seq<(AccountId, Balance)>) -> bool {
    forall|i: int, j: int| 0 <= i < j < s.len() ==> s[i].0 != s[j].0
}

/// The sum of every recorded amount.
pub open spec fn bal_sum(s: Seq<(AccountId, Balance)>) -> int
    decreases s.len(),
{
    if s.len() == 0 {
        0
    } else {
        s[0].1 + bal_sum(s.drop_first())
    }
}

/// Overwriting the (first) entry of `k` at index `i` changes only `k`'s amount.
pub proof fn lemma_bal_get_update(s: Seq<(AccountId, Balance)>, i: int, k: AccountId, v: Balance, k2: AccountId)
    requires
        0 <= i < s.len(),
        s[i].0 == k,
        forall|j: int| 0 <= j < i ==> s[j].0 != k,
    ensures
        bal_get(s.update(i, (k, v)), k2) == if k2 == k {
            v
        } else {
            bal_get(s, k2)
        },
    decreases i,
{
    let t = s.update(i, (k, v));
    if i == 0 {
        assert(t.drop_first() =~= s.drop_first());
    } else {
        assert(t.drop_first() =~= s.drop_first().update(i - 1, (k, v)));
        lemma_bal_get_update(s.drop_first(), i - 1, k, v, k2);
    }
}

/// Overwriting the entry at index `i` moves the sum by the difference.
pub proof fn lemma_bal_sum_update(s: Seq<(AccountId, Balance)>, i: int, k: AccountId, v: Balance)
    requires
        0 <= i < s.len(),
    ensures
        bal_sum(s.update(i, (k, v))) == bal_sum(s) - s[i].1 + v,
    decreases i,
{
    let t = s.update(i, (k, v));
    if i == 0 {
        assert(t.drop_first() =~= s.drop_first());
    } else {
        assert(t.drop_first() =~= s.drop_first().update(i - 1, (k, v)));
        lemma_bal_sum_update(s.drop_first(), i - 1, k, v);
    }
}

/// Appending an entry reads back as expected: an already present account is
/// unaffected, the appended account takes the new amount.
pub proof fn lemma_bal_get_push(s: Seq<(AccountId, Balance)>, e: (AccountId, Balance), k2: AccountId)
    ensures
        bal_get(s.push(e), k2) == if has_key(s, k2) {
            bal_get(s, k2)
        } else if e.0 == k2 {
            e.1
        } else {
            0
        },
    decreases s.len(),
{
    if s.len() == 0 {
        assert(s.push(e).len() == 1);
        assert(s.push(e)[0] == e);
        assert(s.push(e).drop_first() =~= Seq::<(AccountId, Balance)>::empty());
        assert(bal_get(s.push(e).drop_first(), k2) == 0);
        if e.0 == k2 {
            assert(bal_get(s.push(e), k2) == e.1);
        } else {
            assert(bal_get(s.push(e), k2) == bal_get(s.push(e).drop_first(), k2));
        }
        assert(!has_key(s, k2));
        assert(bal_get(s, k2) == 0);
    } else {
        assert(s.push(e)[0] == s[0]);
        assert(s.push(e).drop_first() =~= s.drop_first().push(e));
        lemma_bal_get_push(s.drop_first(), e, k2);
        if s[0].0 == k2 {
            assert(bal_get(s.push(e), k2) == s[0].1);
            assert(has_key(s, k2));
        } else {
            assert(bal_get(s.push(e), k2) == bal_get(s.drop_first().push(e), k2));
            assert(bal_get(s, k2) == bal_get(s.drop_first(), k2));
            assert(has_key(s, k2) == has_key(s.drop_first(), k2));
        }
    }
}

/// Appending an entry adds its amount to the sum.
pub proof fn lemma_bal_sum_push(s: Seq<(AccountId, Balance)>, e: (AccountId, Balance))
    ensures
        bal_sum(s.push(e)) == bal_sum(s) + e.1,
    decreases s.len(),
{
    if s.len() == 0 {
        assert(s.push(e).len() == 1);
        assert(s.push(e)[0] == e);
        assert(s.push(e).drop_first() =~= Seq::<(AccountId, Balance)>::empty());
        assert(bal_sum(s.push(e).drop_first()) == 0);
        assert(bal_sum(s.push(e)) == e.1);
        assert(bal_sum(s) == 0);
    } else {
        assert(s.push(e)[0] == s[0]);
        assert(s.push(e).drop_first() =~= s.drop_first().push(e));
        lemma_bal_sum_push(s.drop_first(), e);
        assert(bal_sum(s.push(e)) == s[0].1 + bal_sum(s.push(e).drop_first()));
    }
}

/// An account without an entry holds amount zero.
pub proof fn lemma_absent_is_zero(s: Seq<(AccountId, Balance)>, k: AccountId)
    requires
        !has_key(s, k),
    ensures
        bal_get(s, k) == 0,
    decreases s.len(),
{
    if s.len() > 0 {
        lemma_absent_is_zero(s.drop_first(), k);
    }
}

/// No single amount exceeds the sum of all amounts.
pub proof fn lemma_bal_le_sum(s: Seq<(AccountId, Balance)>, k: AccountId)
    ensures
        bal_sum(s) >= 0,
        bal_get(s, k) <= bal_sum(s),
    decreases s.len(),
{
    if s.len() > 0 {
        lemma_bal_le_sum(s.drop_first(), k);
    }
}

/// The recorded amount of account `k`.
#[verifier::loop_isolation(false)]
pub fn lookup(v: &Vec<(AccountId, Balance)>, k: AccountId) -> (r: Balance)
    ensures
        r == bal_get(v@, k),
{
    let mut i: usize = 0;
    proof {
        assert(v@.skip(0) =~= v@);
    }
    while i < v.len()
        invariant
            i <= v@.len(),
            bal_get(v@, k) == bal_get(v@.skip(i as int), k),
        decreases v@.len() - i,
    {
        let (key, val) = v[i];
        proof {
            assert(v@.skip(i as int)[0] == v@[i as int]);
            assert(v@.skip(i as int).drop_first() =~= v@.skip(i as int + 1));
        }
        if key == k {
            return val;
        }
        i += 1;
    }
    proof {
        assert(v@.skip(i as int) =~= Seq::<(AccountId, Balance)>::empty());
    }
    0
}

/// Records amount `value` for account `k`, leaving every other account as it was.
#[verifier::loop_isolation(false)]
pub fn store(v: &mut Vec<(AccountId, Balance)>, k: AccountId, value: Balance)
    requires
        unique_keys(old(v)@),
    ensures
        unique_keys(final(v)@),
        forall|k2: AccountId|
            bal_get(final(v)@, k2) == if k2 == k {
                value
            } else {
                bal_get(old(v)@, k2)
            },
        bal_sum(final(v)@) == bal_sum(old(v)@) - bal_get(old(v)@, k) + value,
{
    let ghost s0 = v@;
    let mut i: usize = 0;
    proof {
        assert(s0.skip(0) =~= s0);
    }
    while i < v.len()
        invariant
            v@ == s0,
            unique_keys(s0),
            i <= s0.len(),
            bal_get(s0, k) == bal_get(s0.skip(i as int), k),
            has_key(s0, k) == has_key(s0.skip(i as int), k),
            forall|j: int| 0 <= j < i ==> s0[j].0 != k,
        decreases s0.len() - i,
    {
        let (key, _) = v[i];
        proof {
            assert(s0.skip(i as int)[0] == s0[i as int]);
            assert(s0.skip(i as int).drop_first() =~= s0.skip(i as int + 1));
        }
        if key == k {
            v.set(i, (k, value));
            proof {
                assert(v@ == s0.update(i as int, (k, value)));
                assert forall|k2: AccountId|
                    bal_get(v@, k2) == if k2 == k {
                        value
                    } else {
                        bal_get(s0, k2)
                    } by {
                    lemma_bal_get_update(s0, i as int, k, value, k2);
                }
                lemma_bal_sum_update(s0, i as int, k, value);
                assert(bal_get(s0, k) == s0[i as int].1);
            }
            return ;
        }
        i += 1;
    }
    proof {
        assert(s0.skip(i as int) =~= Seq::<(AccountId, Balance)>::empty());
        assert(!has_key(s0, k));
        assert(bal_get(s0, k) == 0);
    }
    v.push((k, value));
    proof {
        assert forall|k2: AccountId|
            bal_get(v@, k2) == if k2 == k {
                value
            } else {
                bal_get(s0, k2)
            } by {
            lemma_bal_get_push(s0, (k, value), k2);
            if !has_key(s0, k2) {
                lemma_absent_is_zero(s0, k2);
            }
        }
        lemma_bal_sum_push(s0, (k, value));
    }
}

} // verus!
