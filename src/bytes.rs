//! Little-endian encoding of unsigned integers, as the wire formats use it.
use vstd::prelude::*;

verus! {

/// The number that a byte sequence encodes little-endian: the first byte is
/// the least significant digit in base 256.
pub open spec fn le_value(s: Seq<u8>) -> nat
    decreases s.len(),
{
    if s.len() == 0 {
        0
    } else {
        s[0] as nat + 256 * le_value(s.drop_first())
    }
}

/// The `k` least significant base-256 digits of `x`, least significant first.
pub open spec fn le_bytes(x: nat, k: nat) -> Seq<u8>
    decreases k,
{
    if k == 0 {
        Seq::empty()
    } else {
        seq![(x % 256) as u8] + le_bytes(x / 256, (k - 1) as nat)
    }
}

pub proof fn lemma_le_bytes_len(x: nat, k: nat)
    ensures
        le_bytes(x, k).len() == k,
    decreases k,
{
    if k > 0 {
        lemma_le_bytes_len(x / 256, (k - 1) as nat);
    }
}

/// `256` to the power `k`.
pub open spec fn pow256(k: nat) -> nat
    decreases k,
{
    if k == 0 {
        1
    } else {
        256 * pow256((k - 1) as nat)
    }
}

pub proof fn lemma_pow256_monotone(a: nat, b: nat)
    requires
        a <= b,
    ensures
        1 <= pow256(a) <= pow256(b),
    decreases b,
{
    if b > 0 {
        if a < b {
            lemma_pow256_monotone(a, (b - 1) as nat);
        } else {
            lemma_pow256_monotone((a - 1) as nat, (b - 1) as nat);
        }
    }
}

pub proof fn lemma_pow256_eight()
    ensures
        pow256(8) == 0x1_0000_0000_0000_0000,
{
    reveal_with_fuel(pow256, 9);
}

/// A sequence of `k` bytes encodes a number below `256^k`.
pub proof fn lemma_le_value_bound(s: Seq<u8>)
    ensures
        le_value(s) < pow256(s.len()),
    decreases s.len(),
{
    if s.len() > 0 {
        let v = le_value(s.drop_first());
        let p = pow256((s.len() - 1) as nat);
        lemma_le_value_bound(s.drop_first());
        assert(s[0] as nat + 256 * v < 256 * p) by (nonlinear_arith)
            requires
                s[0] < 256,
                v < p,
        ;
    }
}

/// Encoding a number below `256^k` into `k` bytes and reading them back gives
/// the number.
pub proof fn lemma_le_round_trip(x: nat, k: nat)
    requires
        x < pow256(k),
    ensures
        le_bytes(x, k).len() == k,
        le_value(le_bytes(x, k)) == x,
    decreases k,
{
    if k > 0 {
        let p = pow256((k - 1) as nat);
        assert(x / 256 < p) by (nonlinear_arith)
            requires
                x < 256 * p,
        ;
        lemma_le_round_trip(x / 256, (k - 1) as nat);
        assert(le_bytes(x, k).drop_first() =~= le_bytes(x / 256, (k - 1) as nat));
    }
}

/// Reads the unsigned 64-bit integer stored little-endian in
/// `s[start..start + 8]`.
pub fn read_u64_le(s: &[u8], start: usize) -> (r: u64)
    requires
        start + 8 <= s@.len(),
    ensures
        r as nat == le_value(s@.subrange(start as int, start + 8)),
{
    let len: usize = s.len();
    let mut acc: u64 = 0;
    let mut i: usize = 8;
    proof {
        assert(s@.subrange(start + 8, start + 8) =~= Seq::<u8>::empty());
    }
    while i > 0
        invariant
            i <= 8,
            start + 8 <= s@.len(),
            len == s@.len(),
            acc as nat == le_value(s@.subrange(start + i, start + 8)),
        decreases i,
    {
        let b = s[start + (i - 1)];
        proof {
            let tail = s@.subrange(start + i, start + 8);
            let next = s@.subrange(start + i - 1, start + 8);
            assert(next.drop_first() =~= tail);
            lemma_le_value_bound(tail);
            lemma_pow256_monotone(tail.len(), 7);
            lemma_pow256_eight();
            reveal_with_fuel(pow256, 8);
            assert(acc * 256 + b < 0x1_0000_0000_0000_0000) by (nonlinear_arith)
                requires
                    acc < pow256(7),
                    pow256(7) == 0x100_0000_0000_0000,
                    b < 256,
            ;
        }
        acc = acc * 256 + b as u64;
        i = i - 1;
    }
    acc
}

/// Appends `x` to `data` as eight little-endian bytes.
pub fn push_u64_le(data: &mut Vec<u8>, x: u64)
    ensures
        final(data)@ == old(data)@ + le_bytes(x as nat, 8),
{
    let mut cur: u64 = x;
    let mut i: usize = 0;
    while i < 8
        invariant
            i <= 8,
            data@ + le_bytes(cur as nat, (8 - i) as nat) == old(data)@ + le_bytes(x as nat, 8),
        decreases 8 - i,
    {
        let ghost before = data@;
        let ghost rest = le_bytes((cur / 256) as nat, (7 - i) as nat);
        data.push((cur % 256) as u8);
        proof {
            assert(le_bytes(cur as nat, (8 - i) as nat) == seq![(cur % 256) as u8] + rest);
            assert(data@ + rest =~= before + (seq![(cur % 256) as u8] + rest));
        }
        cur = cur / 256;
        i = i + 1;
    }
    proof {
        assert(data@ + le_bytes(cur as nat, 0) =~= data@);
    }
}

} // verus!
