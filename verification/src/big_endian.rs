//! Numbers written as big-endian bytes.

use vstd::prelude::*;

verus! {

/// 256 to the power `n`.
pub open spec fn pow256(n: nat) -> nat
    decreases n,
{
    if n == 0 {
        1
    } else {
        256 * pow256((n - 1) as nat)
    }
}

/// The number that `bytes` spell, most significant byte first.
pub open spec fn be_value(bytes: Seq<u8>) -> nat
    decreases bytes.len(),
{
    if bytes.len() == 0 {
        0
    } else {
        256 * be_value(bytes.drop_last()) + bytes.last() as nat
    }
}

pub proof fn lemma_pow256_positive(n: nat)
    ensures
        pow256(n) > 0,
    decreases n,
{
    if n > 0 {
        lemma_pow256_positive((n - 1) as nat);
    }
}

pub proof fn lemma_pow256_monotonic(smaller: nat, larger: nat)
    requires
        smaller <= larger,
    ensures
        pow256(smaller) <= pow256(larger),
    decreases larger,
{
    if smaller < larger {
        lemma_pow256_monotonic(smaller, (larger - 1) as nat);
        lemma_pow256_positive((larger - 1) as nat);
    }
}

/// `n` bytes spell a number below 256 to the power `n`.
pub proof fn lemma_be_value_bound(bytes: Seq<u8>)
    ensures
        be_value(bytes) < pow256(bytes.len()),
    decreases bytes.len(),
{
    if bytes.len() > 0 {
        lemma_be_value_bound(bytes.drop_last());
    }
}

/// The number spelled by two byte strings written one after the other.
pub proof fn lemma_be_value_concat(high: Seq<u8>, low: Seq<u8>)
    ensures
        be_value(high + low) == be_value(high) * pow256(low.len()) + be_value(low),
    decreases low.len(),
{
    if low.len() == 0 {
        assert(high + low =~= high);
        assert(pow256(low.len()) == 1);
        assert(be_value(low) == 0);
    } else {
        let shorter = low.drop_last();
        let scale = pow256(shorter.len());
        assert((high + low).drop_last() =~= high + shorter);
        assert((high + low).last() == low.last());
        lemma_be_value_concat(high, shorter);
        assert(be_value(high + low) == 256 * (be_value(high) * scale + be_value(shorter))
            + low.last() as nat);
        assert(pow256(low.len()) == 256 * scale);
        assert(be_value(low) == 256 * be_value(shorter) + low.last() as nat);
        assert(256 * (be_value(high) * scale) == be_value(high) * (256 * scale))
            by (nonlinear_arith);
    }
}

/// Zero bytes spell zero.
pub proof fn lemma_be_value_zeros(bytes: Seq<u8>)
    requires
        forall|i: int| 0 <= i < bytes.len() ==> bytes[i] == 0,
    ensures
        be_value(bytes) == 0,
    decreases bytes.len(),
{
    if bytes.len() > 0 {
        lemma_be_value_zeros(bytes.drop_last());
    }
}

/// Zero bytes in front do not change the number.
pub proof fn lemma_be_value_skip_zeros(bytes: Seq<u8>, zeros: int)
    requires
        0 <= zeros <= bytes.len(),
        forall|i: int| 0 <= i < zeros ==> bytes[i] == 0,
    ensures
        be_value(bytes) == be_value(bytes.subrange(zeros, bytes.len() as int)),
{
    let high = bytes.subrange(0, zeros);
    let low = bytes.subrange(zeros, bytes.len() as int);
    assert(bytes =~= high + low);
    lemma_be_value_zeros(high);
    lemma_be_value_concat(high, low);
    assert(0 * pow256(low.len()) == 0);
}

/// The first byte and the rest: the number is the first byte times a power
/// of 256, plus what the rest spells.
pub proof fn lemma_be_value_first(bytes: Seq<u8>)
    requires
        bytes.len() > 0,
    ensures
        be_value(bytes) == bytes[0] * pow256((bytes.len() - 1) as nat) + be_value(
            bytes.subrange(1, bytes.len() as int),
        ),
        be_value(bytes.subrange(1, bytes.len() as int)) < pow256((bytes.len() - 1) as nat),
{
    let high = seq![bytes[0]];
    let low = bytes.subrange(1, bytes.len() as int);
    assert(bytes =~= high + low);
    lemma_be_value_concat(high, low);
    assert(high.drop_last() =~= Seq::<u8>::empty());
    assert(be_value(high) == bytes[0]) by {
        reveal_with_fuel(be_value, 2);
    }
    lemma_be_value_bound(low);
}

/// Byte strings of one length that spell the same number are the same.
pub proof fn lemma_be_value_injective(left: Seq<u8>, right: Seq<u8>)
    requires
        left.len() == right.len(),
        be_value(left) == be_value(right),
    ensures
        left == right,
    decreases left.len(),
{
    if left.len() > 0 {
        lemma_be_value_injective(left.drop_last(), right.drop_last());
        assert(left =~= left.drop_last().push(left.last()));
        assert(right =~= right.drop_last().push(right.last()));
    } else {
        assert(left =~= right);
    }
}

} // verus!
