//! Sums of integer sequences and rounding of proportions.

use vstd::prelude::*;

verus! {

/// The sum of the entries of a sequence.
pub open spec fn total(values: Seq<int>) -> int
    decreases values.len(),
{
    if values.len() == 0 {
        0
    } else {
        total(values.drop_last()) + values.last()
    }
}

/// Whether no entry is negative.
pub open spec fn non_negative(values: Seq<int>) -> bool {
    forall|i: int| 0 <= i < values.len() ==> values[i] >= 0
}

/// The quotient `num / den` rounded to the nearest integer, a half upwards.
pub open spec fn round_half_up(num: int, den: int) -> int {
    (2 * num + den) / (2 * den)
}

/// The sum of the first `n + 1` entries is the sum of the first `n` plus the
/// entry at `n`.
pub proof fn lemma_total_take_next(values: Seq<int>, n: int)
    requires
        0 <= n < values.len(),
    ensures
        total(values.take(n + 1)) == total(values.take(n)) + values[n],
{
    assert(values.take(n + 1).drop_last() =~= values.take(n));
}

/// A sum of non-negative entries is non-negative.
pub proof fn lemma_total_non_negative(values: Seq<int>)
    requires
        non_negative(values),
    ensures
        total(values) >= 0,
    decreases values.len(),
{
    if values.len() > 0 {
        lemma_total_non_negative(values.drop_last());
    }
}

/// No entry of a non-negative sequence exceeds the sum.
pub proof fn lemma_entry_at_most_total(values: Seq<int>, i: int)
    requires
        non_negative(values),
        0 <= i < values.len(),
    ensures
        values[i] <= total(values),
    decreases values.len(),
{
    let front = values.drop_last();
    if i == values.len() - 1 {
        lemma_total_non_negative(front);
    } else {
        lemma_entry_at_most_total(front, i);
    }
}

/// A sum is at most the length times a bound on the entries.
pub proof fn lemma_total_at_most(values: Seq<int>, bound: int)
    requires
        forall|i: int| 0 <= i < values.len() ==> values[i] <= bound,
    ensures
        total(values) <= values.len() * bound,
    decreases values.len(),
{
    if values.len() > 0 {
        let front = values.drop_last();
        lemma_total_at_most(front, bound);
        assert(front.len() * bound + bound == values.len() * bound) by (nonlinear_arith)
            requires
                front.len() + 1 == values.len(),
        ;
    }
}

/// Replacing one entry changes the sum by the difference.
pub proof fn lemma_total_update(values: Seq<int>, i: int, value: int)
    requires
        0 <= i < values.len(),
    ensures
        total(values.update(i, value)) == total(values) - values[i] + value,
    decreases values.len(),
{
    let changed = values.update(i, value);
    if i == values.len() - 1 {
        assert(changed.drop_last() =~= values.drop_last());
    } else {
        lemma_total_update(values.drop_last(), i, value);
        assert(changed.drop_last() =~= values.drop_last().update(i, value));
    }
}

/// The sum is the first entry plus the sum of the rest.
pub proof fn lemma_total_drop_first(values: Seq<int>)
    requires
        values.len() > 0,
    ensures
        total(values) == values[0] + total(values.drop_first()),
    decreases values.len(),
{
    if values.len() == 1 {
        assert(values.drop_first() =~= Seq::<int>::empty());
        assert(values.drop_last() =~= Seq::<int>::empty());
    } else {
        lemma_total_drop_first(values.drop_last());
        assert(values.drop_last().drop_first() =~= values.drop_first().drop_last());
    }
}

/// The sum of entrywise sums is the sum of the sums.
pub proof fn lemma_total_of_sums(a: Seq<int>, b: Seq<int>, c: Seq<int>)
    requires
        a.len() == b.len(),
        a.len() == c.len(),
        forall|i: int| 0 <= i < c.len() ==> c[i] == a[i] + b[i],
    ensures
        total(c) == total(a) + total(b),
    decreases c.len(),
{
    if c.len() > 0 {
        lemma_total_of_sums(a.drop_last(), b.drop_last(), c.drop_last());
    }
}

/// A rounded proportion of an amount lies between zero and the amount.
pub proof fn lemma_round_within(amount: int, part: int, whole: int)
    requires
        0 <= amount,
        0 <= part <= whole,
        0 < whole,
    ensures
        0 <= round_half_up(amount * part, whole) <= amount,
{
    let num = 2 * (amount * part) + whole;
    let den = 2 * whole;
    assert(0 <= amount * part <= amount * whole) by (nonlinear_arith)
        requires
            0 <= amount,
            0 <= part <= whole,
    ;
    assert(num < (amount + 1) * den) by (nonlinear_arith)
        requires
            num == 2 * (amount * part) + whole,
            den == 2 * whole,
            amount * part <= amount * whole,
            0 < whole,
    ;
    assert(0 <= num / den <= amount) by (nonlinear_arith)
        requires
            0 <= num < (amount + 1) * den,
            0 < den,
    ;
}

/// Computes a rounded proportion of an amount.
pub fn round_share(amount: u32, part: u64, whole: u128) -> (share: u32)
    requires
        part <= whole,
        0 < whole,
        whole <= 0x10_0000_0000_0000_0000_0000_0000,
    ensures
        share == round_half_up(amount * part, whole as int),
        share <= amount,
{
    proof {
        lemma_round_within(amount as int, part as int, whole as int);
        assert(0 <= amount * part <= 0xffff_ffff * 0xffff_ffff_ffff_ffff) by (nonlinear_arith)
            requires
                0 <= amount <= 0xffff_ffff,
                0 <= part <= 0xffff_ffff_ffff_ffff,
        ;
    }
    let product: u128 = (amount as u128) * (part as u128);
    let rounded: u128 = (2 * product + whole) / (2 * whole);
    rounded as u32
}

} // verus!
