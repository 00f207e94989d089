//! Integer square root over unbounded unsigned integers.
use num_bigint::BigUint;
use vstd::arithmetic::power2::{
    lemma2_to64, lemma_pow2_adds, lemma_pow2_pos, lemma_pow2_strictly_increases, lemma_pow2_unfold, pow2,
};
use vstd::prelude::*;

verus! {

#[verifier::external_type_specification]
#[verifier::external_body]
pub struct ExBigUint(BigUint);

/// The number that a `BigUint` holds.
pub uninterp spec fn big_value(b: BigUint) -> nat;

/// The fewest binary digits that write `n` (none for zero).
pub open spec fn bit_length(n: nat) -> nat
    decreases n,
{
    if n == 0 {
        0
    } else {
        1 + bit_length(n / 2)
    }
}

/// `r` is the square root of `n`, rounded down.
pub open spec fn is_floor_sqrt(n: nat, r: nat) -> bool {
    r * r <= n && n < (r + 1) * (r + 1)
}

/// Relies on `BigUint::from(u64)`: the same number, unbounded.
#[verifier::external_body]
fn big_from_u64(v: u64) -> (r: BigUint)
    ensures
        big_value(r) == v,
{
    BigUint::from(v)
}

/// Relies on `Clone for BigUint`: an equal number.
#[verifier::external_body]
fn big_clone(a: &BigUint) -> (r: BigUint)
    ensures
        big_value(r) == big_value(*a),
{
    a.clone()
}

/// Relies on `PartialOrd for BigUint`: numeric comparison.
#[verifier::external_body]
fn big_lt(a: &BigUint, b: &BigUint) -> (r: bool)
    ensures
        r == (big_value(*a) < big_value(*b)),
{
    a < b
}

/// Relies on `BigUint::bits`: the fewest bits that express the number.
#[verifier::external_body]
fn big_bits(a: &BigUint) -> (r: u64)
    ensures
        r == bit_length(big_value(*a)),
{
    a.bits()
}

/// Relies on `Add for BigUint`: the exact sum.
#[verifier::external_body]
fn big_add(a: BigUint, b: BigUint) -> (r: BigUint)
    ensures
        big_value(r) == big_value(a) + big_value(b),
{
    a + b
}

/// Relies on `Div for BigUint`: the quotient rounded down; it panics on a
/// zero divisor.
#[verifier::external_body]
fn big_div(a: BigUint, b: BigUint) -> (r: BigUint)
    requires
        big_value(b) > 0,
    ensures
        big_value(r) == big_value(a) / big_value(b),
{
    a / b
}

/// Relies on `Shl<u64> for BigUint`: multiplication by `2^s`.
#[verifier::external_body]
fn big_shl(a: BigUint, s: u64) -> (r: BigUint)
    ensures
        big_value(r) == big_value(a) * pow2(s as nat),
{
    a << s
}

/// Relies on `Shr<u64> for BigUint`: division by `2^s`, rounded down.
#[verifier::external_body]
fn big_shr(a: BigUint, s: u64) -> (r: BigUint)
    ensures
        big_value(r) == big_value(a) / pow2(s as nat),
{
    a >> s
}

/// A number is below two to the power of its bit length; from 2 on, that
/// length is at least 2.
proof fn lemma_bit_length(n: nat)
    ensures
        n < pow2(bit_length(n)),
        n >= 2 ==> bit_length(n) >= 2,
    decreases n,
{
    if n == 0 {
        lemma_pow2_pos(0);
    } else {
        lemma_bit_length(n / 2);
        lemma_pow2_unfold(bit_length(n));
        if n >= 2 {
            assert(n / 2 >= 1);
        }
    }
}

/// One Newton step from any positive `x` stays at or above the square root:
/// `(n / x + x) / 2` rounded down is at least `floor(sqrt(n))`.
proof fn lemma_newton_step(n: nat, x: nat)
    requires
        x > 0,
    ensures
        n < ((n / x + x) / 2 + 1) * ((n / x + x) / 2 + 1),
{
    let q = n / x;
    let m1 = (q + x) / 2 + 1;
    assert(n < x * (q + 1)) by (nonlinear_arith)
        requires
            x > 0,
            q == n / x,
    ;
    assert(q + 1 <= 2 * m1 - x);
    assert(x * (q + 1) <= x * (2 * m1 - x)) by (nonlinear_arith)
        requires
            x > 0,
            q + 1 <= 2 * m1 - x,
    ;
    assert(x * (2 * m1 - x) <= m1 * m1) by (nonlinear_arith);
}

/// Two square roots rounded down of one number are equal.
pub proof fn lemma_floor_sqrt_unique(n: nat, r1: nat, r2: nat)
    requires
        is_floor_sqrt(n, r1),
        is_floor_sqrt(n, r2),
    ensures
        r1 == r2,
{
    if r1 < r2 {
        assert((r1 + 1) * (r1 + 1) <= r2 * r2) by (nonlinear_arith)
            requires
                r1 + 1 <= r2,
        ;
    } else if r2 < r1 {
        assert((r2 + 1) * (r2 + 1) <= r1 * r1) by (nonlinear_arith)
            requires
                r2 + 1 <= r1,
        ;
    }
}

/// The starting bounds `2^(b-1)` and `2^(b+1)`, with `b` half the bit
/// length of `n` rounded up, enclose the square root from above.
proof fn lemma_initial_bounds(n: nat, b: nat)
    requires
        n >= 2,
        b == bit_length(n) / 2 + bit_length(n) % 2,
    ensures
        b >= 1,
        pow2((b - 1) as nat) < pow2(b + 1),
        n < (pow2(b + 1) + 1) * (pow2(b + 1) + 1),
        n < ((pow2((b - 1) as nat) + pow2(b + 1)) / 2 + 1) * ((pow2((b - 1) as nat) + pow2(b
            + 1)) / 2 + 1),
{
    let k = bit_length(n);
    lemma_bit_length(n);
    let h = pow2((b - 1) as nat);
    let p = pow2(b);
    lemma_pow2_unfold(b);
    lemma_pow2_unfold(b + 1);
    assert(pow2(b + 1) == 4 * h);
    lemma_pow2_adds(b, b);
    if k < b + b {
        lemma_pow2_strictly_increases(k, b + b);
    }
    assert(n < p * p);
    assert(p * p < (p + 1) * (p + 1)) by (nonlinear_arith);
    assert((h + 4 * h) / 2 >= p);
    assert(4 * h >= p);
    assert((p + 1) * (p + 1) <= (4 * h + 1) * (4 * h + 1)) by (nonlinear_arith)
        requires
            4 * h >= p,
    ;
    let c = (h + 4 * h) / 2;
    assert((p + 1) * (p + 1) <= (c + 1) * (c + 1)) by (nonlinear_arith)
        requires
            c >= p,
    ;
}

pub struct Math {}

impl Math {
    /// The square root of `m`, rounded down. It starts from bounds taken from
    /// the bit length of `m`, and refines them by halving the sum of the
    /// bounds until the lower bound `m / upper` reaches the upper one.
    pub fn sqrt(m: BigUint) -> (r: BigUint)
        ensures
            is_floor_sqrt(big_value(m), big_value(r)),
    {
        let two = big_from_u64(2);
        if big_lt(&m, &two) {
            proof {
                let n = big_value(m);
                assert(n * n <= n) by (nonlinear_arith)
                    requires
                        n < 2,
                ;
                assert(n < (n + 1) * (n + 1)) by (nonlinear_arith);
            }
            return m;
        }
        let ghost n = big_value(m);
        let k = big_bits(&m);
        let bits: u64 = k / 2 + k % 2;
        proof {
            lemma_initial_bounds(n, bits as nat);
        }
        let one = big_from_u64(1);
        let mut start = big_shl(big_clone(&one), bits - 1);
        let mut end = big_shl(one, bits + 1);
        while big_lt(&start, &end)
            invariant
                big_value(m) == n,
                n >= 2,
                big_value(end) > 0,
                n < (big_value(end) + 1) * (big_value(end) + 1),
                big_value(start) < big_value(end) ==> n < ((big_value(start) + big_value(end)) / 2
                    + 1) * ((big_value(start) + big_value(end)) / 2 + 1),
                big_value(start) < big_value(end) || big_value(start) == n / big_value(end),
            decreases big_value(end),
        {
            let ghost e0 = big_value(end);
            let ghost s0 = big_value(start);
            let sum = big_add(big_clone(&start), big_clone(&end));
            end = big_shr(sum, 1);
            proof {
                lemma2_to64();
                let e = big_value(end);
                assert(e == (s0 + e0) / 2);
                assert(n < (e + 1) * (e + 1));
                if e == 0 {
                    assert((e + 1) * (e + 1) == 1) by (nonlinear_arith)
                        requires
                            e == 0,
                    ;
                }
                assert(e < e0);
            }
            start = big_div(big_clone(&m), big_clone(&end));
            proof {
                lemma_newton_step(n, big_value(end));
            }
        }
        proof {
            let e = big_value(end);
            assert(e * e <= n) by (nonlinear_arith)
                requires
                    e > 0,
                    n / e >= e,
            ;
        }
        end
    }
}

} // verus!
