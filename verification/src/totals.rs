//! Sums over finite maps of amounts.
//!
//! Every conservation argument of the crate is an equation between such sums, and every
//! proof that a credit cannot overflow is a bound of one or two entries by the sum.

use vstd::prelude::*;

verus! {

/// The amount that `m` holds for `k`: zero where `m` has no entry.
pub open spec fn amount_at<K>(m: Map<K, nat>, k: K) -> nat {
    if m.contains_key(k) {
        m[k]
    } else {
        0
    }
}

/// The table after `amount` is added to the holding of `who`.
pub open spec fn credited<K>(m: Map<K, nat>, who: K, amount: nat) -> Map<K, nat> {
    m.insert(who, amount_at(m, who) + amount)
}

/// The table after `amount` is taken from the holding of `who`, which must cover it.
pub open spec fn debited<K>(m: Map<K, nat>, who: K, amount: nat) -> Map<K, nat>
    recommends
        amount <= amount_at(m, who),
{
    m.insert(who, (amount_at(m, who) - amount) as nat)
}

/// The sum of all amounts in a finite map.
pub closed spec fn total<K>(m: Map<K, nat>) -> nat
    decreases m.dom().len(),
    when m.dom().finite()
{
    if m.dom().len() == 0 {
        0
    } else {
        let k = m.dom().choose();
        m[k] + total(m.remove(k))
    }
}

/// The empty map sums to zero.
pub proof fn lemma_total_empty<K>()
    ensures
        total(Map::<K, nat>::empty()) == 0,
{
}

/// Any entry can be split off the sum, not only the one the definition picks.
pub proof fn lemma_total_remove<K>(m: Map<K, nat>, k: K)
    requires
        m.dom().finite(),
        m.contains_key(k),
    ensures
        total(m) == m[k] + total(m.remove(k)),
    decreases m.dom().len(),
{
    let c = m.dom().choose();
    if c != k {
        lemma_total_remove(m.remove(c), k);
        lemma_total_remove(m.remove(k), c);
        assert(m.remove(c).remove(k) =~= m.remove(k).remove(c));
    }
}

/// Writing `v` at `k` changes the sum by the difference to the amount held before.
pub proof fn lemma_total_insert<K>(m: Map<K, nat>, k: K, v: nat)
    requires
        m.dom().finite(),
    ensures
        total(m.insert(k, v)) + amount_at(m, k) == total(m) + v,
{
    let n = m.insert(k, v);
    lemma_total_remove(n, k);
    assert(n.remove(k) =~= m.remove(k));
    if m.contains_key(k) {
        lemma_total_remove(m, k);
    } else {
        assert(m.remove(k) =~= m);
    }
}

/// No entry exceeds the sum.
pub proof fn lemma_total_bounds_one<K>(m: Map<K, nat>, k: K)
    requires
        m.dom().finite(),
    ensures
        amount_at(m, k) <= total(m),
{
    if m.contains_key(k) {
        lemma_total_remove(m, k);
    }
}

/// A credit raises the sum by the amount credited.
pub proof fn lemma_total_credited<K>(m: Map<K, nat>, who: K, amount: nat)
    requires
        m.dom().finite(),
    ensures
        total(credited(m, who, amount)) == total(m) + amount,
        credited(m, who, amount).dom().finite(),
{
    lemma_total_insert(m, who, amount_at(m, who) + amount);
}

/// A covered debit lowers the sum by the amount debited.
pub proof fn lemma_total_debited<K>(m: Map<K, nat>, who: K, amount: nat)
    requires
        m.dom().finite(),
        amount <= amount_at(m, who),
    ensures
        total(debited(m, who, amount)) + amount == total(m),
        debited(m, who, amount).dom().finite(),
{
    lemma_total_insert(m, who, (amount_at(m, who) - amount) as nat);
}

} // verus!
