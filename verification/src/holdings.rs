//! A small verified association table from holder identities to signed
//! amounts, and a verified identity set. The share ledger keeps balances
//! in the table and its whitelist in the set; the registry keeps its
//! consultant set in the set.

use vstd::prelude::*;

verus! {

use vstd::pervasive::VecAdditionalExecFns;

// ------------------------------------------------------------------
// Amount table: a vector of (identity, amount) pairs with unique keys.
// ------------------------------------------------------------------

/// No identity occurs twice among the entries.
pub open spec fn keys_unique(s: Seq<(u64, i64)>) -> bool {
    forall|i: int, j: int| 0 <= i < j < s.len() ==> s[i].0 != s[j].0
}

/// Every recorded amount is non-negative.
pub open spec fn entries_nonneg(s: Seq<(u64, i64)>) -> bool {
    forall|i: int| 0 <= i < s.len() ==> s[i].1 >= 0
}

/// The amount recorded for `k`, or 0 when `k` has no entry.
pub open spec fn lookup(s: Seq<(u64, i64)>, k: u64) -> int
    decreases s.len(),
{
    if s.len() == 0 {
        0
    } else if s[0].0 == k {
        s[0].1 as int
    } else {
        lookup(s.drop_first(), k)
    }
}

/// The sum of all recorded amounts.
pub open spec fn amount_sum(s: Seq<(u64, i64)>) -> int
    decreases s.len(),
{
    if s.len() == 0 {
        0
    } else {
        s[0].1 + amount_sum(s.drop_first())
    }
}

pub proof fn lemma_sum_nonneg(s: Seq<(u64, i64)>)
    requires
        entries_nonneg(s),
    ensures
        amount_sum(s) >= 0,
    decreases s.len(),
{
    if s.len() > 0 {
        lemma_sum_nonneg(s.drop_first());
    }
}

/// With non-negative entries, each recorded amount lies between 0 and
/// the sum of all amounts.
pub proof fn lemma_lookup_bounds(s: Seq<(u64, i64)>, k: u64)
    requires
        entries_nonneg(s),
    ensures
        0 <= lookup(s, k) <= amount_sum(s),
    decreases s.len(),
{
    if s.len() > 0 {
        lemma_lookup_bounds(s.drop_first(), k);
        lemma_sum_nonneg(s.drop_first());
    }
}

proof fn lemma_lookup_found(s: Seq<(u64, i64)>, k: u64, i: int)
    requires
        0 <= i < s.len(),
        s[i].0 == k,
        forall|j: int| 0 <= j < i ==> s[j].0 != k,
    ensures
        lookup(s, k) == s[i].1 as int,
    decreases i,
{
    if i > 0 {
        lemma_lookup_found(s.drop_first(), k, i - 1);
    }
}

proof fn lemma_lookup_absent(s: Seq<(u64, i64)>, k: u64)
    requires
        forall|j: int| 0 <= j < s.len() ==> s[j].0 != k,
    ensures
        lookup(s, k) == 0,
    decreases s.len(),
{
    if s.len() > 0 {
        lemma_lookup_absent(s.drop_first(), k);
    }
}

proof fn lemma_update_effect(s: Seq<(u64, i64)>, i: int, v: i64, k2: u64)
    requires
        0 <= i < s.len(),
        forall|j: int| 0 <= j < i ==> s[j].0 != s[i].0,
    ensures
        lookup(s.update(i, (s[i].0, v)), k2) == if k2 == s[i].0 {
            v as int
        } else {
            lookup(s, k2)
        },
        amount_sum(s.update(i, (s[i].0, v))) == amount_sum(s) - s[i].1 + v,
    decreases i,
{
    let t = s.update(i, (s[i].0, v));
    if i == 0 {
        assert(t[0] == (s[0].0, v));
        assert(t.drop_first() =~= s.drop_first());
    } else {
        assert(t[0] == s[0]);
        assert(s.drop_first()[i - 1] == s[i]);
        assert(t.drop_first() =~= s.drop_first().update(i - 1, (s[i].0, v)));
        lemma_update_effect(s.drop_first(), i - 1, v, k2);
    }
}

proof fn lemma_push_effect(s: Seq<(u64, i64)>, k: u64, v: i64, k2: u64)
    requires
        forall|j: int| 0 <= j < s.len() ==> s[j].0 != k,
    ensures
        lookup(s.push((k, v)), k2) == if k2 == k {
            v as int
        } else {
            lookup(s, k2)
        },
        amount_sum(s.push((k, v))) == amount_sum(s) + v,
    decreases s.len(),
{
    let t = s.push((k, v));
    assert(t[s.len() as int] == (k, v));
    if s.len() == 0 {
        assert(t[0] == (k, v));
        assert(t.drop_first() =~= Seq::<(u64, i64)>::empty());
        assert(lookup(Seq::<(u64, i64)>::empty(), k2) == 0);
        assert(amount_sum(Seq::<(u64, i64)>::empty()) == 0);
    } else {
        assert(t[0] == s[0]);
        assert(t.drop_first() =~= s.drop_first().push((k, v)));
        lemma_push_effect(s.drop_first(), k, v, k2);
    }
}

/// The amount recorded for `k`.
pub fn table_get(t: &Vec<(u64, i64)>, k: u64) -> (r: i64)
    ensures
        r as int == lookup(t@, k),
{
    let mut i: usize = 0;
    while i < t.len()
        invariant
            0 <= i <= t.len(),
            forall|j: int| 0 <= j < i ==> t@[j].0 != k,
        decreases t.len() - i,
    {
        if t[i].0 == k {
            proof {
                lemma_lookup_found(t@, k, i as int);
            }
            return t[i].1;
        }
        i = i + 1;
    }
    proof {
        lemma_lookup_absent(t@, k);
    }
    0
}

/// Records `v` for `k`, replacing any earlier entry.
pub fn table_set(t: &mut Vec<(u64, i64)>, k: u64, v: i64)
    requires
        keys_unique(old(t)@),
    ensures
        keys_unique(final(t)@),
        lookup(final(t)@, k) == v as int,
        forall|k2: u64| k2 != k ==> lookup(final(t)@, k2) == lookup(old(t)@, k2),
        amount_sum(final(t)@) == amount_sum(old(t)@) - lookup(old(t)@, k) + v,
        entries_nonneg(old(t)@) && v >= 0 ==> entries_nonneg(final(t)@),
{
    let mut i: usize = 0;
    while i < t.len()
        invariant
            0 <= i <= t.len(),
            t@ == old(t)@,
            keys_unique(t@),
            forall|j: int| 0 <= j < i ==> t@[j].0 != k,
        decreases t.len() - i,
    {
        if t[i].0 == k {
            proof {
                let pre = t@;
                let post = pre.update(i as int, (k, v));
                lemma_lookup_found(pre, k, i as int);
                lemma_update_effect(pre, i as int, v, k);
                assert(lookup(post, k) == v as int);
                assert forall|k2: u64| k2 != k implies lookup(post, k2) == lookup(pre, k2) by {
                    lemma_update_effect(pre, i as int, v, k2);
                }
                assert forall|a: int, b: int| 0 <= a < b < post.len() implies post[a].0
                    != post[b].0 by {
                    assert(pre[a].0 != pre[b].0);
                }
                if entries_nonneg(pre) && v >= 0 {
                    assert forall|j: int| 0 <= j < post.len() implies post[j].1 >= 0 by {
                        if j != i as int {
                            assert(post[j] == pre[j]);
                        }
                    }
                }
            }
            t.set(i, (k, v));
            return ;
        }
        i = i + 1;
    }
    proof {
        let pre = t@;
        let post = pre.push((k, v));
        lemma_lookup_absent(pre, k);
        lemma_push_effect(pre, k, v, k);
        assert(lookup(post, k) == v as int);
        assert forall|k2: u64| k2 != k implies lookup(post, k2) == lookup(pre, k2) by {
            lemma_push_effect(pre, k, v, k2);
        }
        assert forall|a: int, b: int| 0 <= a < b < post.len() implies post[a].0 != post[b].0 by {
            if b < pre.len() {
                assert(pre[a].0 != pre[b].0);
            } else {
                assert(post[b].0 == k);
                assert(post[a].0 == pre[a].0);
            }
        }
        if entries_nonneg(pre) && v >= 0 {
            assert forall|j: int| 0 <= j < post.len() implies post[j].1 >= 0 by {
                if j < pre.len() {
                    assert(post[j] == pre[j]);
                }
            }
        }
    }
    t.push((k, v));
}

// ------------------------------------------------------------------
// Identity set: a duplicate-free vector of identities.
// ------------------------------------------------------------------

/// No identity occurs twice.
pub open spec fn elems_unique(s: Seq<u64>) -> bool {
    forall|i: int, j: int| 0 <= i < j < s.len() ==> s[i] != s[j]
}

/// True exactly when `x` is a member of the set.
pub fn idset_contains(v: &Vec<u64>, x: u64) -> (r: bool)
    ensures
        r == v@.contains(x),
{
    let mut i: usize = 0;
    while i < v.len()
        invariant
            0 <= i <= v.len(),
            forall|j: int| 0 <= j < i ==> v@[j] != x,
        decreases v.len() - i,
    {
        if v[i] == x {
            return true;
        }
        i = i + 1;
    }
    false
}

/// Inserts `x`; a no-op when `x` is already a member.
pub fn idset_add(v: &mut Vec<u64>, x: u64)
    requires
        elems_unique(old(v)@),
    ensures
        elems_unique(final(v)@),
        forall|y: u64| final(v)@.contains(y) <==> (old(v)@.contains(y) || y == x),
        old(v)@.contains(x) ==> *final(v) == *old(v),
{
    if !idset_contains(v, x) {
        let ghost pre = v@;
        v.push(x);
        proof {
            assert forall|y: u64| v@.contains(y) implies (pre.contains(y) || y == x) by {
                let i = choose|i: int| 0 <= i < v@.len() && v@[i] == y;
                if i < pre.len() {
                    assert(pre[i] == y);
                }
            }
            assert forall|y: u64| pre.contains(y) implies v@.contains(y) by {
                let i = choose|i: int| 0 <= i < pre.len() && pre[i] == y;
                assert(v@[i] == y);
            }
            assert(v@[pre.len() as int] == x);
        }
    }
}

/// Removes `x`; a no-op when `x` is already absent.
pub fn idset_remove(v: &mut Vec<u64>, x: u64)
    requires
        elems_unique(old(v)@),
    ensures
        elems_unique(final(v)@),
        forall|y: u64| final(v)@.contains(y) <==> (old(v)@.contains(y) && y != x),
        !old(v)@.contains(x) ==> *final(v) == *old(v),
{
    let mut i: usize = 0;
    while i < v.len()
        invariant
            0 <= i <= v.len(),
            *v == *old(v),
            elems_unique(v@),
            forall|j: int| 0 <= j < i ==> v@[j] != x,
        decreases v.len() - i,
    {
        if v[i] == x {
            let ghost pre = v@;
            v.remove(i);
            proof {
                assert(v@ =~= pre.subrange(0, i as int) + pre.subrange(i as int + 1, pre.len() as int));
                assert forall|y: u64| v@.contains(y) implies (pre.contains(y) && y != x) by {
                    let j = choose|j: int| 0 <= j < v@.len() && v@[j] == y;
                    if j < i {
                        assert(pre[j] == y);
                    } else {
                        assert(pre[j + 1] == y);
                    }
                }
                assert forall|y: u64| pre.contains(y) && y != x implies v@.contains(y) by {
                    let j = choose|j: int| 0 <= j < pre.len() && pre[j] == y;
                    if j < i {
                        assert(v@[j] == y);
                    } else {
                        assert(j != i);
                        assert(v@[j - 1] == y);
                    }
                }
                assert forall|a: int, b: int| 0 <= a < b < v@.len() implies v@[a] != v@[b] by {
                    let a2: int = if a < i { a } else { a + 1 };
                    let b2: int = if b < i { b } else { b + 1 };
                    assert(pre[a2] == v@[a] && pre[b2] == v@[b]);
                }
            }
            return ;
        }
        i = i + 1;
    }
    proof {
        assert(!v@.contains(x));
    }
}

} // verus!
