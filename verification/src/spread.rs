//! Plain/spread lookups: the bounds that the SHA-256 style spread tables impose.

use vstd::prelude::*;
use vstd::arithmetic::power2::pow2;

verus! {

/// The spread form of `x`: bit `i` of `x` moves to bit `2 * i`.
pub open spec fn spread(x: nat) -> nat
    decreases x,
{
    if x == 0 {
        0
    } else {
        (x % 2) + 4 * spread(x / 2)
    }
}

/// Exclusive bound of the spread forms of the `n`-bit values.
pub open spec fn spec_spread_bound(n: nat) -> nat {
    ((pow2(2 * n) - 1) / 3 + 1) as nat
}

/// Computes `(2^(2n) - 1) / 3 + 1`, the smallest value that no spread form of an
/// `n`-bit number reaches.
pub fn spread_bound(n: u32) -> (r: u64)
    requires
        n < 32,
    ensures
        r == spec_spread_bound(n as nat),
{
    let shift: u64 = 2 * (n as u64);
    proof {
        vstd::bits::lemma_u64_pow2_no_overflow(shift as nat);
        vstd::bits::lemma_u64_shl_is_mul(1u64, shift);
    }
    let p: u64 = 1u64 << shift;
    (p - 1) / 3 + 1
}

/// The three-spaced spread form of `x`: bit `i` of `x` moves to bit `3 * i`.
pub open spec fn spread3(x: nat) -> nat
    decreases x,
{
    if x == 0 {
        0
    } else {
        (x % 2) + 8 * spread3(x / 2)
    }
}

proof fn lemma_pow2_step(n: nat, k: nat)
    ensures
        pow2(k * (n + 1)) == pow2(k) * pow2(k * n),
{
    assert(k * (n + 1) == k + k * n) by (nonlinear_arith);
    vstd::arithmetic::power2::lemma_pow2_adds(k, k * n);
}

/// Three times the spread form of `2^n - 1` (all `n` low bits set) is `4^n - 1`.
pub proof fn lemma_spread_of_ones(n: nat)
    ensures
        3 * spread((pow2(n) - 1) as nat) == pow2(2 * n) - 1,
    decreases n,
{
    vstd::arithmetic::power2::lemma_pow2_pos(n);
    vstd::arithmetic::power2::lemma_pow2_pos(2 * n);
    if n == 0 {
        vstd::arithmetic::power2::lemma2_to64();
    } else {
        let m = (n - 1) as nat;
        lemma_spread_of_ones(m);
        vstd::arithmetic::power2::lemma_pow2_pos(m);
        vstd::arithmetic::power2::lemma_pow2_unfold(n);
        lemma_pow2_step(m, 2);
        vstd::arithmetic::power2::lemma2_to64();
        let x = (pow2(n) - 1) as nat;
        assert(x % 2 == 1 && x / 2 == pow2(m) - 1);
        assert(spread(x) == 1 + 4 * spread((pow2(m) - 1) as nat));
    }
}

/// `spread_bound(n)` is one past the spread form of the largest `n`-bit value.
pub proof fn lemma_spread_bound_is_max_plus_one(n: nat)
    ensures
        spec_spread_bound(n) == spread((pow2(n) - 1) as nat) + 1,
{
    lemma_spread_of_ones(n);
}

proof fn lemma_spread_monotone_to_ones(x: nat, n: nat)
    requires
        x < pow2(n),
    ensures
        spread(x) <= spread((pow2(n) - 1) as nat),
    decreases n,
{
    vstd::arithmetic::power2::lemma_pow2_pos(n);
    if n == 0 {
        vstd::arithmetic::power2::lemma2_to64();
    } else if x > 0 {
        let m = (n - 1) as nat;
        vstd::arithmetic::power2::lemma_pow2_unfold(n);
        vstd::arithmetic::power2::lemma_pow2_pos(m);
        lemma_spread_monotone_to_ones(x / 2, m);
        let top = (pow2(n) - 1) as nat;
        assert(top % 2 == 1 && top / 2 == pow2(m) - 1);
        assert(spread(top) == 1 + 4 * spread((pow2(m) - 1) as nat));
    }
}

/// Every `n`-bit value has a spread form below `spread_bound(n)`: the range check that
/// the plain/spread table enforces admits the spread of every value of the tag's width.
pub proof fn lemma_spread_below_bound(x: nat, n: nat)
    requires
        x < pow2(n),
    ensures
        spread(x) < spec_spread_bound(n),
{
    lemma_spread_monotone_to_ones(x, n);
    lemma_spread_bound_is_max_plus_one(n);
}

/// Seven times the three-spaced spread form of `2^n - 1` is `8^n - 1`.
pub proof fn lemma_spread3_of_ones(n: nat)
    ensures
        7 * spread3((pow2(n) - 1) as nat) == pow2(3 * n) - 1,
    decreases n,
{
    vstd::arithmetic::power2::lemma_pow2_pos(n);
    vstd::arithmetic::power2::lemma_pow2_pos(3 * n);
    if n == 0 {
        vstd::arithmetic::power2::lemma2_to64();
    } else {
        let m = (n - 1) as nat;
        lemma_spread3_of_ones(m);
        vstd::arithmetic::power2::lemma_pow2_pos(m);
        vstd::arithmetic::power2::lemma_pow2_unfold(n);
        lemma_pow2_step(m, 3);
        vstd::arithmetic::power2::lemma2_to64();
        let x = (pow2(n) - 1) as nat;
        assert(x % 2 == 1 && x / 2 == pow2(m) - 1);
        assert(spread3(x) == 1 + 8 * spread3((pow2(m) - 1) as nat));
    }
}

proof fn lemma_spread3_monotone_to_ones(x: nat, n: nat)
    requires
        x < pow2(n),
    ensures
        spread3(x) <= spread3((pow2(n) - 1) as nat),
    decreases n,
{
    vstd::arithmetic::power2::lemma_pow2_pos(n);
    if n == 0 {
        vstd::arithmetic::power2::lemma2_to64();
    } else if x > 0 {
        let m = (n - 1) as nat;
        vstd::arithmetic::power2::lemma_pow2_unfold(n);
        vstd::arithmetic::power2::lemma_pow2_pos(m);
        lemma_spread3_monotone_to_ones(x / 2, m);
        let top = (pow2(n) - 1) as nat;
        assert(top % 2 == 1 && top / 2 == pow2(m) - 1);
        assert(spread3(top) == 1 + 8 * spread3((pow2(m) - 1) as nat));
    }
}

/// Every value below `2^t` has a three-spaced spread form of at most `(8^t - 1) / 7`,
/// the bound that the tag-`t` row of the three-column spread lookup asserts.
pub proof fn lemma_spread3_within_bound(x: nat, t: nat)
    requires
        x < pow2(t),
    ensures
        spread3(x) <= (pow2(3 * t) - 1) / 7,
{
    lemma_spread3_monotone_to_ones(x, t);
    lemma_spread3_of_ones(t);
}


/// The spread bound of zero bits is 1, and the bound grows with the number of bits.
pub proof fn lemma_spread_bound_grows(m: nat, n: nat)
    ensures
        spec_spread_bound(0) == 1,
        m < n ==> spec_spread_bound(m) < spec_spread_bound(n),
{
    vstd::arithmetic::power2::lemma2_to64();
    if m < n {
        lemma_spread_bound_is_max_plus_one(m);
        lemma_spread_bound_is_max_plus_one(n);
        lemma_spread_of_ones(m);
        lemma_spread_of_ones(n);
        vstd::arithmetic::power2::lemma_pow2_strictly_increases(2 * m, 2 * n);
    }
}

} // verus!
