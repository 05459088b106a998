//! The pro-rata distribution engine.
//!
//! Given a snapshot of holder balances and a collected amount, each
//! holder's share is the floor of `balance * paid / totalShares`. The
//! floor leaves a non-negative residue, which goes in full to the holder
//! with the strictly largest balance, the first such holder on ties, so
//! the whole paid amount is accounted for.

use vstd::prelude::*;

verus! {

use vstd::arithmetic::div_mod::{
    lemma_div_is_ordered, lemma_div_multiples_vanish, lemma_div_pos_is_pos,
    lemma_fundamental_div_mod, lemma_mod_division_less_than_divisor, lemma_multiply_divide_le,
};
use vstd::arithmetic::mul::{
    lemma_mul_inequality, lemma_mul_is_commutative, lemma_mul_is_distributive_add_other_way,
    lemma_mul_nonnegative, lemma_mul_upper_bound,
};

use crate::errors::VaultError;
use crate::token::FundToken;

/// The balances that `ledger` records for `holders`, in input order.
pub open spec fn snapshot(holders: Seq<u64>, ledger: FundToken) -> Seq<int> {
    Seq::new(holders.len(), |i: int| ledger.spec_balance(holders[i]))
}

/// Every listed balance is non-negative.
pub open spec fn all_nonneg(s: Seq<int>) -> bool {
    forall|i: int| 0 <= i < s.len() ==> s[i] >= 0
}

/// The sum of the first `n` balances.
pub open spec fn sum_prefix(s: Seq<int>, n: int) -> int
    decreases n,
{
    if n <= 0 {
        0
    } else {
        sum_prefix(s, n - 1) + s[n - 1]
    }
}

/// A holder's share: the floor of its balance times the paid amount,
/// divided by the sum of all snapshotted balances.
pub open spec fn share_of(b: int, paid: int, total: int) -> int {
    b * paid / total
}

/// The sum of the first `n` shares.
pub open spec fn shares_prefix(s: Seq<int>, paid: int, total: int, n: int) -> int
    decreases n,
{
    if n <= 0 {
        0
    } else {
        shares_prefix(s, paid, total, n - 1) + share_of(s[n - 1], paid, total)
    }
}

/// The emitted payouts among the first `n` holders: every holder whose
/// share is positive, paired with its share, in input order.
pub open spec fn payouts_prefix(holders: Seq<u64>, s: Seq<int>, paid: int, total: int, n: int)
    -> Seq<(u64, int)>
    decreases n,
{
    if n <= 0 {
        Seq::empty()
    } else {
        let p = payouts_prefix(holders, s, paid, total, n - 1);
        if share_of(s[n - 1], paid, total) > 0 {
            p.push((holders[n - 1], share_of(s[n - 1], paid, total)))
        } else {
            p
        }
    }
}

/// The index of the first holder carrying the strictly largest positive
/// balance among the first `n`, or -1 when every one is 0.
pub open spec fn max_idx_prefix(s: Seq<int>, n: int) -> int
    decreases n,
{
    if n <= 0 {
        -1
    } else {
        let m = max_idx_prefix(s, n - 1);
        let mb: int = if m < 0 {
            0
        } else {
            s[m]
        };
        if s[n - 1] > mb {
            n - 1
        } else {
            m
        }
    }
}

/// Exec mirror of [`payouts_prefix`].
pub open spec fn payouts_match(v: Seq<(u64, i64)>, p: Seq<(u64, int)>) -> bool {
    &&& v.len() == p.len()
    &&& forall|k: int| 0 <= k < v.len() ==> v[k].0 == p[k].0 && v[k].1 as int == p[k].1
}

/// Prefix sums of non-negative balances are non-negative and monotone.
pub proof fn lemma_sum_prefix_monotone(s: Seq<int>, m: int, n: int)
    requires
        all_nonneg(s),
        0 <= m <= n <= s.len(),
    ensures
        0 <= sum_prefix(s, m) <= sum_prefix(s, n),
    decreases n,
{
    if n > 0 {
        if m == n {
            lemma_sum_prefix_monotone(s, 0, n - 1);
        } else {
            lemma_sum_prefix_monotone(s, m, n - 1);
        }
    }
}

/// Each balance is at most the sum of any prefix containing it.
pub proof fn lemma_elem_le_sum(s: Seq<int>, i: int, n: int)
    requires
        all_nonneg(s),
        0 <= i < n <= s.len(),
    ensures
        s[i] <= sum_prefix(s, n),
    decreases n,
{
    if i == n - 1 {
        lemma_sum_prefix_monotone(s, 0, n - 1);
    } else {
        lemma_elem_le_sum(s, i, n - 1);
    }
}

/// Floor division distributes sub-additively over addition.
proof fn lemma_div_sum_le(a: int, b: int, t: int)
    requires
        a >= 0,
        b >= 0,
        t > 0,
    ensures
        a / t + b / t <= (a + b) / t,
{
    lemma_fundamental_div_mod(a, t);
    lemma_fundamental_div_mod(b, t);
    lemma_mod_division_less_than_divisor(a, t);
    lemma_mod_division_less_than_divisor(b, t);
    let q = a / t + b / t;
    vstd::arithmetic::mul::lemma_mul_is_distributive_add(t, a / t, b / t);
    assert(t * q == t * (a / t) + t * (b / t));
    assert(t * q <= a + b);
    lemma_div_is_ordered(t * q, a + b, t);
    lemma_div_multiples_vanish(q, t);
}

/// The sum of the first `n` floor shares is non-negative and at most
/// the corresponding fraction of the prefix sum.
pub proof fn lemma_shares_bound(s: Seq<int>, paid: int, total: int, n: int)
    requires
        all_nonneg(s),
        paid >= 0,
        total > 0,
        0 <= n <= s.len(),
    ensures
        0 <= shares_prefix(s, paid, total, n) <= sum_prefix(s, n) * paid / total,
    decreases n,
{
    if n == 0 {
        assert(0 * paid == 0) by (nonlinear_arith);
        lemma_div_pos_is_pos(0, total);
    } else {
        lemma_shares_bound(s, paid, total, n - 1);
        lemma_sum_prefix_monotone(s, 0, n - 1);
        lemma_mul_nonnegative(s[n - 1], paid);
        lemma_mul_nonnegative(sum_prefix(s, n - 1), paid);
        lemma_div_pos_is_pos(s[n - 1] * paid, total);
        lemma_div_sum_le(sum_prefix(s, n - 1) * paid, s[n - 1] * paid, total);
        lemma_mul_is_distributive_add_other_way(paid, sum_prefix(s, n - 1), s[n - 1]);
    }
}

/// One floor share never exceeds the whole paid amount.
pub proof fn lemma_share_le_paid(b: int, paid: int, total: int)
    requires
        0 <= b <= total,
        paid >= 0,
        total > 0,
    ensures
        0 <= share_of(b, paid, total) <= paid,
{
    lemma_mul_nonnegative(b, paid);
    lemma_div_pos_is_pos(b * paid, total);
    lemma_mul_inequality(b, total, paid);
    lemma_mul_is_commutative(total, paid);
    lemma_multiply_divide_le(b * paid, total, paid);
}

/// What the maximum index means: it is in range exactly when some
/// balance is positive, it names a maximal balance, and every earlier
/// balance is strictly smaller.
pub proof fn lemma_max_idx(s: Seq<int>, n: int)
    requires
        all_nonneg(s),
        0 <= n <= s.len(),
    ensures
        -1 <= max_idx_prefix(s, n) < n,
        max_idx_prefix(s, n) >= 0 ==> {
            let m = max_idx_prefix(s, n);
            &&& s[m] > 0
            &&& forall|i: int| 0 <= i < n ==> s[i] <= s[m]
            &&& forall|i: int| 0 <= i < m ==> s[i] < s[m]
        },
        max_idx_prefix(s, n) < 0 ==> sum_prefix(s, n) == 0 && forall|i: int|
            0 <= i < n ==> s[i] == 0,
    decreases n,
{
    if n > 0 {
        lemma_max_idx(s, n - 1);
    }
}

/// What a distribution run computes: the payouts owed, the rounding
/// residue, the holder that receives it, and the paid amount that the
/// run accounts for.
#[derive(Debug, PartialEq, Eq)]
pub struct DistributionReport {
    /// Every holder with a positive floor share, in input order.
    pub payouts: Vec<(u64, i64)>,
    /// The paid amount minus the sum of all floor shares.
    pub residue: i64,
    /// The holder awarded the residue: the first holder carrying the
    /// strictly largest balance. `None` exactly when the residue is 0.
    pub residue_holder: Option<u64>,
    /// The paid amount this distribution accounts for.
    pub paid: i64,
}

/// Snapshots each listed holder's balance from `ledger` and computes
/// the pro-rata distribution of `paid`. Fails with `Math` when the
/// snapshot total overflows, and with `Invalid` when it is zero.
pub fn compute_distribution(holders: &Vec<u64>, ledger: &FundToken, paid: i64) -> (r: Result<
    DistributionReport,
    VaultError,
>)
    requires
        ledger.inv(),
        paid > 0,
    ensures
        ({
            let snap = snapshot(holders@, *ledger);
            let n = holders@.len() as int;
            let total = sum_prefix(snap, n);
            &&& total > i64::MAX ==> r == Err::<DistributionReport, VaultError>(VaultError::Math)
            &&& total == 0 ==> r == Err::<DistributionReport, VaultError>(VaultError::Invalid)
            &&& 0 < total <= i64::MAX ==> (r matches Ok(rep) && {
                    &&& rep.paid == paid
                    &&& payouts_match(
                        rep.payouts@,
                        payouts_prefix(holders@, snap, paid as int, total, n),
                    )
                    &&& rep.residue as int == paid - shares_prefix(snap, paid as int, total, n)
                    &&& 0 <= rep.residue <= paid
                    &&& rep.residue > 0 ==> {
                        let m = max_idx_prefix(snap, n);
                        &&& 0 <= m < n
                        &&& rep.residue_holder == Some(holders@[m])
                        &&& snap[m] > 0
                        &&& forall|i: int| 0 <= i < n ==> snap[i] <= snap[m]
                        &&& forall|i: int| 0 <= i < m ==> snap[i] < snap[m]
                    }
                    &&& rep.residue == 0 ==> rep.residue_holder is None
                })
        }),
{
    let ghost snap = snapshot(holders@, *ledger);
    let n = holders.len();
    proof {
        assert forall|j: int| 0 <= j < snap.len() implies snap[j] >= 0 by {
            crate::holdings::lemma_lookup_bounds(ledger.balances@, holders@[j]);
        }
    }
    let mut bals: Vec<i64> = Vec::new();
    let mut total: i64 = 0;
    let mut max_bal: i64 = 0;
    let mut max_idx: usize = 0;
    let mut i: usize = 0;
    while i < n
        invariant
            ledger.inv(),
            n == holders@.len(),
            snap == snapshot(holders@, *ledger),
            all_nonneg(snap),
            0 <= i <= n,
            bals@.len() == i,
            forall|j: int| 0 <= j < i ==> bals@[j] as int == snap[j],
            total as int == sum_prefix(snap, i as int),
            0 <= total,
            ({
                let m = max_idx_prefix(snap, i as int);
                if m < 0 {
                    max_bal == 0
                } else {
                    max_idx as int == m && max_bal as int == snap[m] && max_bal > 0 && max_idx < n
                }
            }),
        decreases n - i,
    {
        let h = holders[i];
        let b = ledger.balance(h);
        proof {
            assert(snap[i as int] == ledger.spec_balance(h));
            crate::holdings::lemma_lookup_bounds(ledger.balances@, h);
        }
        if b > i64::MAX - total {
            proof {
                assert(sum_prefix(snap, i as int + 1) > i64::MAX);
                lemma_sum_prefix_monotone(snap, i as int + 1, n as int);
            }
            return Err(VaultError::Math);
        }
        total = total + b;
        if b > max_bal {
            max_bal = b;
            max_idx = i;
        }
        bals.push(b);
        i = i + 1;
    }
    if total <= 0 {
        return Err(VaultError::Invalid);
    }
    proof {
        lemma_max_idx(snap, n as int);
    }
    let ghost gtotal = total as int;
    let ghost gpaid = paid as int;
    let mut payouts: Vec<(u64, i64)> = Vec::new();
    let mut distributed: i64 = 0;
    i = 0;
    while i < n
        invariant
            n == holders@.len(),
            all_nonneg(snap),
            snap.len() == n,
            bals@.len() == n,
            forall|j: int| 0 <= j < n ==> bals@[j] as int == snap[j],
            0 <= i <= n,
            gtotal == sum_prefix(snap, n as int),
            0 < gtotal <= i64::MAX,
            total as int == gtotal,
            gpaid == paid as int,
            0 < paid,
            distributed as int == shares_prefix(snap, gpaid, gtotal, i as int),
            0 <= distributed as int <= gpaid,
            payouts_match(payouts@, payouts_prefix(holders@, snap, gpaid, gtotal, i as int)),
        decreases n - i,
    {
        let b = bals[i];
        proof {
            lemma_elem_le_sum(snap, i as int, n as int);
            lemma_share_le_paid(snap[i as int], gpaid, gtotal);
            lemma_shares_bound(snap, gpaid, gtotal, i as int + 1);
            lemma_sum_prefix_monotone(snap, i as int + 1, n as int);
            lemma_mul_nonnegative(sum_prefix(snap, i as int + 1), gpaid);
            lemma_mul_inequality(sum_prefix(snap, i as int + 1), gtotal, gpaid);
            lemma_div_is_ordered(sum_prefix(snap, i as int + 1) * gpaid, gtotal * gpaid, gtotal);
            lemma_mul_is_commutative(gtotal, gpaid);
            lemma_div_multiples_vanish(gpaid, gtotal);
        }
        if b != 0 {
            proof {
                lemma_mul_upper_bound(b as int, i64::MAX as int, paid as int, i64::MAX as int);
            }
            let num: u128 = (b as u128) * (paid as u128);
            let q: u128 = num / (total as u128);
            let share: i64 = q as i64;
            proof {
                assert(num as int == snap[i as int] * gpaid);
                assert(q as int == share_of(snap[i as int], gpaid, gtotal));
                assert(share as int == share_of(snap[i as int], gpaid, gtotal));
            }
            if share > 0 {
                distributed = distributed + share;
                let ghost oldp = payouts@;
                payouts.push((holders[i], share));
                proof {
                    let next = payouts_prefix(holders@, snap, gpaid, gtotal, i as int + 1);
                    assert forall|k: int| 0 <= k < payouts@.len() implies payouts@[k].0
                        == next[k].0 && payouts@[k].1 as int == next[k].1 by {
                        if k < oldp.len() {
                            assert(payouts@[k] == oldp[k]);
                        } else {
                            assert(payouts@[k] == (holders@[i as int], share));
                        }
                    }
                }
            }
        } else {
            proof {
                assert(snap[i as int] == 0);
                assert(share_of(0, gpaid, gtotal) == 0) by {
                    assert(0int * gpaid == 0) by (nonlinear_arith);
                    vstd::arithmetic::div_mod::lemma_div_of0(gtotal);
                }
            }
        }
        i = i + 1;
    }
    let residue = paid - distributed;
    if residue > 0 {
        proof {
            let m = max_idx_prefix(snap, n as int);
            assert(m >= 0);
        }
        Ok(DistributionReport {
            payouts,
            residue,
            residue_holder: Some(holders[max_idx]),
            paid,
        })
    } else {
        Ok(DistributionReport { payouts, residue, residue_holder: None, paid })
    }
}

} // verus!
