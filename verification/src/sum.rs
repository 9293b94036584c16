//! Sums of 64-bit amounts.

use vstd::prelude::*;

verus! {

/// The sum of all amounts.
pub open spec fn sum(amounts: Seq<u64>) -> int
    decreases amounts.len(),
{
    if amounts.len() == 0 {
        0
    } else {
        sum(amounts.drop_last()) + amounts.last()
    }
}

/// The sum of the first amounts never exceeds the sum of all.
proof fn lemma_partial_sum(amounts: Seq<u64>, n: int)
    requires
        0 <= n <= amounts.len(),
    ensures
        0 <= sum(amounts.take(n)) <= sum(amounts),
    decreases amounts.len(),
{
    if n < amounts.len() {
        assert(amounts.drop_last().take(n) == amounts.take(n));
        lemma_partial_sum(amounts.drop_last(), n);
    } else {
        assert(amounts.take(n) == amounts);
        if n > 0 {
            lemma_partial_sum(amounts.drop_last(), n - 1);
        }
    }
}

/// A sum is never negative, and it is zero where every amount is.
pub proof fn sum_of_nothing_is_zero(amounts: Seq<u64>)
    ensures
        sum(amounts) >= 0,
        (forall|i: int| 0 <= i < amounts.len() ==> #[trigger] amounts[i] == 0) ==> sum(amounts)
            == 0,
    decreases amounts.len(),
{
    if amounts.len() > 0 {
        let before = amounts.drop_last();
        sum_of_nothing_is_zero(before);
        if forall|i: int| 0 <= i < amounts.len() ==> #[trigger] amounts[i] == 0 {
            assert(forall|i: int|
                0 <= i < before.len() ==> #[trigger] before[i] == amounts[i]);
        }
    }
}

/// Amounts that are each no larger have no larger a sum.
pub proof fn sum_is_monotone(a: Seq<u64>, b: Seq<u64>)
    requires
        a.len() == b.len(),
        forall|i: int| 0 <= i < a.len() ==> #[trigger] a[i] <= #[trigger] b[i],
    ensures
        sum(a) <= sum(b),
    decreases a.len(),
{
    if a.len() > 0 {
        let x = a.drop_last();
        let y = b.drop_last();
        assert forall|i: int| 0 <= i < x.len() implies #[trigger] x[i] <= #[trigger] y[i] by {
            assert(a[i] <= b[i]);
        }
        assert(a[a.len() - 1] <= b[b.len() - 1]);
        sum_is_monotone(x, y);
    }
}

/// The sum of all amounts, or `None` where it does not fit in 64 bits.
pub fn checked_sum(amounts: &[u64]) -> (r: Option<u64>)
    ensures
        r == if sum(amounts@) <= u64::MAX {
            Some(sum(amounts@) as u64)
        } else {
            None
        },
{
    let mut total: u64 = 0;
    let mut i: usize = 0;
    while i < amounts.len()
        invariant
            i <= amounts@.len(),
            total == sum(amounts@.take(i as int)),
        decreases amounts@.len() - i,
    {
        proof {
            assert(amounts@.take(i + 1).drop_last() == amounts@.take(i as int));
            lemma_partial_sum(amounts@, i + 1);
        }
        if amounts[i] > u64::MAX - total {
            return None;
        }
        total = total + amounts[i];
        i += 1;
    }
    assert(amounts@.take(i as int) == amounts@);
    Some(total)
}

/// Nothing sums to zero, and a further amount adds exactly itself.
pub proof fn further_amount_adds_itself(amounts: Seq<u64>, amount: u64)
    ensures
        sum(Seq::<u64>::empty()) == 0,
        sum(amounts.push(amount)) == sum(amounts) + amount,
{
    assert(amounts.push(amount).drop_last() == amounts);
}

} // verus!
