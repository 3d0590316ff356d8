//! Natural numbers of any size.
//!
//! A number is held as a sequence of limbs, each a digit in base 2^32, the
//! least significant first. There is just enough arithmetic for comparing
//! products of many small factors exactly: multiplying by one limb, and
//! comparing.

use vstd::prelude::*;

verus! {

/// The base of the digits.
pub const RADIX: u64 = 0x1_0000_0000;

/// The weight of the limb at `position`: the radix to that power.
pub open spec fn weight(position: nat) -> nat
    decreases position,
{
    if position == 0 {
        1
    } else {
        RADIX as nat * weight((position - 1) as nat)
    }
}

/// The number that `limbs` stand for.
pub open spec fn value(limbs: Seq<u32>) -> nat
    decreases limbs.len(),
{
    if limbs.len() == 0 {
        0
    } else {
        value(limbs.drop_last()) + limbs.last() as nat * weight((limbs.len() - 1) as nat)
    }
}

/// The product of `factors`.
pub open spec fn product(factors: Seq<u32>) -> nat
    decreases factors.len(),
{
    if factors.len() == 0 {
        1
    } else {
        product(factors.drop_last()) * factors.last() as nat
    }
}

/// A number is below the weight of the first limb that it does not have.
pub proof fn lemma_value_bound(limbs: Seq<u32>)
    ensures
        value(limbs) < weight(limbs.len()),
    decreases limbs.len(),
{
    if limbs.len() > 0 {
        let lower = value(limbs.drop_last());
        let top = limbs.last() as nat;
        let unit = weight((limbs.len() - 1) as nat);
        lemma_value_bound(limbs.drop_last());
        assert(lower + top * unit < RADIX as nat * unit) by (nonlinear_arith)
            requires
                lower < unit,
                top < RADIX as nat,
        ;
    }
}

/// Numbers whose limbs agree from `from` on differ by as much as the
/// numbers of their limbs below `from`.
pub proof fn lemma_value_split(a: Seq<u32>, b: Seq<u32>, from: int)
    requires
        a.len() == b.len(),
        0 <= from <= a.len(),
        forall|i: int| from <= i < a.len() ==> a[i] == b[i],
    ensures
        value(a) - value(b) == value(a.subrange(0, from)) - value(b.subrange(0, from)),
    decreases a.len() - from,
{
    if from == a.len() {
        assert(a.subrange(0, from) =~= a);
        assert(b.subrange(0, from) =~= b);
    } else {
        lemma_value_split(a, b, from + 1);
        let longer_a = a.subrange(0, from + 1);
        let longer_b = b.subrange(0, from + 1);
        assert(longer_a.drop_last() =~= a.subrange(0, from));
        assert(longer_b.drop_last() =~= b.subrange(0, from));
        assert(longer_a.last() == longer_b.last());
    }
}

/// Multiplies the number in `limbs` by `factor`.
pub fn scale(limbs: &mut Vec<u32>, factor: u32)
    ensures
        value(final(limbs)@) == value(old(limbs)@) * factor as nat,
{
    let ghost before = limbs@;
    let mut carry: u64 = 0;
    let mut i: usize = 0;
    assert(limbs@.subrange(0, 0) =~= Seq::<u32>::empty());
    assert(value(limbs@.subrange(0, 0)) == 0);
    while i < limbs.len()
        invariant
            i <= limbs@.len(),
            limbs@.len() == before.len(),
            carry < RADIX,
            forall|k: int| i <= k < before.len() ==> limbs@[k] == before[k],
            value(limbs@.subrange(0, i as int)) + carry as nat * weight(i as nat) == value(
                before.subrange(0, i as int),
            ) * factor as nat,
        decreases limbs@.len() - i,
    {
        let ghost lower = limbs@.subrange(0, i as int);
        let limb: u64 = limbs[i] as u64;
        assert(limb * factor as u64 + carry < RADIX * RADIX) by (nonlinear_arith)
            requires
                limb < RADIX,
                factor < RADIX,
                carry < RADIX,
        ;
        let total: u64 = limb * factor as u64 + carry;
        let digit: u32 = (total % RADIX) as u32;
        let next_carry: u64 = total / RADIX;
        limbs.set(i, digit);
        proof {
            let unit = weight(i as nat);
            let next = limbs@.subrange(0, i + 1);
            let next_before = before.subrange(0, i + 1);
            assert(next.drop_last() =~= lower);
            assert(next.last() == digit);
            assert(next_before.drop_last() =~= before.subrange(0, i as int));
            assert(next_before.last() == before[i as int]);
            assert(weight((i + 1) as nat) == RADIX as nat * unit);
            let earlier = value(before.subrange(0, i as int));
            let limb = before[i as int] as nat;
            assert(total == limb * factor as nat + carry as nat) by (nonlinear_arith)
                requires
                    total == limb * factor as u64 + carry,
                    limb * factor as u64 + carry < RADIX * RADIX,
            ;
            assert(total == digit as nat + RADIX as nat * next_carry as nat);
            assert(value(lower) + digit as nat * unit + next_carry as nat * (RADIX as nat * unit)
                == (earlier + limb * unit) * factor as nat) by (nonlinear_arith)
                requires
                    value(lower) + carry as nat * unit == earlier * factor as nat,
                    limb * factor as nat + carry as nat == digit as nat + RADIX as nat
                        * next_carry as nat,
            ;
        }
        carry = next_carry;
        i = i + 1;
    }
    assert(limbs@.subrange(0, i as int) =~= limbs@);
    assert(before.subrange(0, i as int) =~= before);
    if carry > 0 {
        let ghost lower = limbs@;
        limbs.push(carry as u32);
        assert(limbs@.drop_last() =~= lower);
    }
}

/// The number that is the product of `factors`.
pub fn multiply_all(factors: &[u32]) -> (limbs: Vec<u32>)
    ensures
        value(limbs@) == product(factors@),
{
    let mut limbs: Vec<u32> = Vec::new();
    limbs.push(1);
    assert(limbs@.drop_last() =~= Seq::<u32>::empty());
    assert(value(limbs@) == 1) by {
        assert(value(limbs@.drop_last()) == 0);
    }
    let mut i: usize = 0;
    assert(factors@.subrange(0, 0) =~= Seq::<u32>::empty());
    while i < factors.len()
        invariant
            i <= factors@.len(),
            value(limbs@) == product(factors@.subrange(0, i as int)),
        decreases factors@.len() - i,
    {
        proof {
            let next = factors@.subrange(0, i + 1);
            assert(next.drop_last() =~= factors@.subrange(0, i as int));
            assert(next.last() == factors@[i as int]);
        }
        scale(&mut limbs, factors[i]);
        i = i + 1;
    }
    assert(factors@.subrange(0, i as int) =~= factors@);
    limbs
}

/// Appends zero limbs until there are `length` limbs, which leaves the
/// number as it is.
fn extend(limbs: &mut Vec<u32>, length: usize)
    ensures
        value(final(limbs)@) == value(old(limbs)@),
        final(limbs)@.len() >= length,
        final(limbs)@.len() >= old(limbs)@.len(),
        final(limbs)@.len() == length || final(limbs)@.len() == old(limbs)@.len(),
{
    while limbs.len() < length
        invariant
            value(limbs@) == value(old(limbs)@),
            limbs@.len() >= old(limbs)@.len(),
            limbs@.len() <= length || limbs@.len() == old(limbs)@.len(),
        decreases length - limbs@.len(),
    {
        let ghost lower = limbs@;
        limbs.push(0);
        assert(limbs@.drop_last() =~= lower);
        assert(limbs@.last() == 0);
        assert(value(limbs@) == value(lower));
    }
}

/// Whether the number of `a` is at most the number of `b`.
pub fn less_or_equal(a: Vec<u32>, b: Vec<u32>) -> (ordered: bool)
    ensures
        ordered == (value(a@) <= value(b@)),
{
    let ghost first = value(a@);
    let ghost second = value(b@);
    let mut left = a;
    let mut right = b;
    let length = if left.len() > right.len() {
        left.len()
    } else {
        right.len()
    };
    extend(&mut left, length);
    extend(&mut right, length);
    let mut i: usize = length;
    while i > 0
        invariant
            i <= length,
            left@.len() == length,
            right@.len() == length,
            first == value(a@),
            second == value(b@),
            value(left@) == first,
            value(right@) == second,
            forall|k: int| i <= k < length ==> left@[k] == right@[k],
        decreases i,
    {
        i = i - 1;
        if left[i] != right[i] {
            proof {
                lemma_value_split(left@, right@, i + 1);
                let upto_a = left@.subrange(0, i + 1);
                let upto_b = right@.subrange(0, i + 1);
                assert(upto_a.drop_last() =~= left@.subrange(0, i as int));
                assert(upto_b.drop_last() =~= right@.subrange(0, i as int));
                lemma_value_bound(left@.subrange(0, i as int));
                lemma_value_bound(right@.subrange(0, i as int));
                let unit = weight(i as nat);
                let low_a = value(left@.subrange(0, i as int));
                let low_b = value(right@.subrange(0, i as int));
                let top_a = left@[i as int] as nat;
                let top_b = right@[i as int] as nat;
                assert(upto_a.last() == left@[i as int]);
                assert(upto_b.last() == right@[i as int]);
                assert(value(upto_a) == low_a + top_a * unit);
                assert(value(upto_b) == low_b + top_b * unit);
                assert(first - second == value(upto_a) - value(upto_b));
                if top_a < top_b {
                    assert(low_a + top_a * unit < low_b + top_b * unit) by (nonlinear_arith)
                        requires
                            low_a < unit,
                            top_a < top_b,
                    ;
                } else {
                    assert(low_b + top_b * unit < low_a + top_a * unit) by (nonlinear_arith)
                        requires
                            low_b < unit,
                            top_b < top_a,
                    ;
                }
            }
            return left[i] < right[i];
        }
    }
    proof {
        lemma_value_split(left@, right@, 0);
        assert(left@.subrange(0, 0) =~= right@.subrange(0, 0));
    }
    true
}

} // verus!
