//! Small arithmetic helpers and lemmas about sums over sequences.
use vstd::prelude::*;

verus! {

/// The larger of two values.
pub fn max(a: u128, b: u128) -> (r: u128)
    ensures
        r >= a,
        r >= b,
        r == a || r == b,
{
    if a > b {
        a
    } else {
        b
    }
}

} // verus!

verus! {

/// The sum of a sequence of integers.
pub open spec fn sum(s: Seq<int>) -> int
    decreases s.len(),
{
    if s.len() == 0 {
        0
    } else {
        sum(s.drop_last()) + s.last()
    }
}

/// Whether every element of a sequence is non-negative.
pub open spec fn all_nonneg(s: Seq<int>) -> bool {
    forall|i: int| 0 <= i < s.len() ==> #[trigger] s[i] >= 0
}

pub proof fn lemma_sum_push(s: Seq<int>, v: int)
    ensures
        sum(s.push(v)) == sum(s) + v,
{
    assert(s.push(v).drop_last() =~= s);
}

pub proof fn lemma_sum_update(s: Seq<int>, i: int, v: int)
    requires
        0 <= i < s.len(),
    ensures
        sum(s.update(i, v)) == sum(s) - s[i] + v,
    decreases s.len(),
{
    let t = s.update(i, v);
    if i == s.len() - 1 {
        assert(t.drop_last() =~= s.drop_last());
    } else {
        lemma_sum_update(s.drop_last(), i, v);
        assert(t.drop_last() =~= s.drop_last().update(i, v));
    }
}

pub proof fn lemma_sum_nonneg(s: Seq<int>)
    requires
        all_nonneg(s),
    ensures
        sum(s) >= 0,
    decreases s.len(),
{
    if s.len() > 0 {
        lemma_sum_nonneg(s.drop_last());
    }
}

pub proof fn lemma_sum_ge_elem(s: Seq<int>, i: int)
    requires
        all_nonneg(s),
        0 <= i < s.len(),
    ensures
        s[i] <= sum(s),
    decreases s.len(),
{
    if i == s.len() - 1 {
        lemma_sum_nonneg(s.drop_last());
    } else {
        lemma_sum_ge_elem(s.drop_last(), i);
    }
}

/// A fair share `b * part / whole` of `b` is at most `b`, and all of it when
/// `part` is the whole.
pub proof fn lemma_share_bounded(b: int, part: int, whole: int)
    requires
        0 <= b,
        0 <= part <= whole,
        0 < whole,
    ensures
        0 <= b * part / whole <= b,
        part == whole ==> b * part / whole == b,
{
    vstd::arithmetic::mul::lemma_mul_inequality(part, whole, b);
    vstd::arithmetic::mul::lemma_mul_nonnegative(b, part);
    vstd::arithmetic::div_mod::lemma_div_is_ordered(b * part, b * whole, whole);
    vstd::arithmetic::div_mod::lemma_div_by_multiple(b, whole);
    vstd::arithmetic::div_mod::lemma_div_pos_is_pos(b * part, whole);
    assert(b * whole == whole * b) by (nonlinear_arith);
    assert(part * b == b * part) by (nonlinear_arith);
}

} // verus!
