//! Pseudo-random placement and density steps of the starfield.
use vstd::prelude::*;

verus! {

/// Folds the high half of `x` into the low half.
pub open spec fn fold_high(x: u32) -> u32 {
    x ^ (x >> 16u32)
}

/// `x` times the mixing constant 0x45d9f3b, modulo 2^32.
pub open spec fn mix_mul(x: u32) -> u32 {
    ((x as nat * 0x45d9f3b) % 0x1_0000_0000) as u32
}

/// Integer hash: fold, multiply, fold, multiply, fold.
pub open spec fn spec_hash_u32(x: u32) -> u32 {
    fold_high(mix_mul(fold_high(mix_mul(fold_high(x)))))
}

/// Integer hash that spreads consecutive seeds over the whole `u32`
/// range, used to place stars.
pub fn hash_u32(x: u32) -> (h: u32)
    ensures
        h == spec_hash_u32(x),
{
    let mut x = x;
    x = x ^ (x >> 16);
    x = x.wrapping_mul(0x45d9f3b);
    x = x ^ (x >> 16);
    x = x.wrapping_mul(0x45d9f3b);
    x = x ^ (x >> 16);
    x
}

/// `x` times the inverse of the mixing constant modulo 2^32 (0x119de1f3,
/// since 0x45d9f3b * 0x119de1f3 leaves 1 modulo 2^32): undoes `mix_mul`.
pub open spec fn unmix_mul(x: u32) -> u32 {
    ((x as nat * 0x119de1f3) % 0x1_0000_0000) as u32
}

/// Undoes the hash step by step.
pub open spec fn spec_unhash_u32(h: u32) -> u32 {
    fold_high(unmix_mul(fold_high(unmix_mul(fold_high(h)))))
}

proof fn lemma_fold_high_involution(x: u32)
    ensures
        fold_high(fold_high(x)) == x,
{
    assert((x ^ (x >> 16u32)) ^ ((x ^ (x >> 16u32)) >> 16u32) == x) by (bit_vector);
}

proof fn lemma_unmix_mul(x: u32)
    ensures
        unmix_mul(mix_mul(x)) == x,
{
    let m: int = 0x1_0000_0000;
    let c: int = 0x45d9f3b;
    let d: int = 0x119de1f3;
    assert((c * d) % m == 1);
    vstd::arithmetic::div_mod::lemma_mul_mod_noop_left(x as int * c, d, m);
    vstd::arithmetic::mul::lemma_mul_is_associative(x as int, c, d);
    vstd::arithmetic::div_mod::lemma_mul_mod_noop_right(x as int, c * d, m);
    vstd::arithmetic::div_mod::lemma_small_mod(x as nat, m as nat);
}

/// The hash is a bijection of `u32`: the unhash undoes it, so distinct
/// seeds never collide; and seed 0 hashes to 0.
pub proof fn lemma_hash_u32_bijective(a: u32, b: u32)
    ensures
        spec_unhash_u32(spec_hash_u32(a)) == a,
        spec_hash_u32(a) == spec_hash_u32(b) ==> a == b,
        spec_hash_u32(0) == 0,
{
    assert forall|x: u32| spec_unhash_u32(#[trigger] spec_hash_u32(x)) == x by {
        let f0 = fold_high(x);
        let m0 = mix_mul(f0);
        let f1 = fold_high(m0);
        let m1 = mix_mul(f1);
        lemma_fold_high_involution(m1);
        lemma_unmix_mul(f1);
        lemma_fold_high_involution(m0);
        lemma_unmix_mul(f0);
        lemma_fold_high_involution(x);
    }
    assert(spec_unhash_u32(spec_hash_u32(b)) == b);
    assert(fold_high(0) == 0) by (bit_vector);
}

/// Star count after the density key: 250, 500 and 1000 stars in turn; any
/// other count goes back to 250.
pub open spec fn spec_next_density(d: usize) -> usize {
    if d == 250 {
        500
    } else if d == 500 {
        1000
    } else {
        250
    }
}

/// The star count that follows `d` in the density cycle.
pub fn next_density(d: usize) -> (n: usize)
    ensures
        n == spec_next_density(d),
{
    match d {
        250 => 500,
        500 => 1000,
        _ => 250,
    }
}

/// The density cycle has period three, and every count leads into it.
pub proof fn lemma_density_cycle(d: usize)
    ensures
        spec_next_density(spec_next_density(spec_next_density(spec_next_density(d))))
            == spec_next_density(d),
        spec_next_density(d) == 250 || spec_next_density(d) == 500 || spec_next_density(d) == 1000,
{
}


/// The density key steps 250 stars to 500, 500 to 1000 and 1000 back to 250;
/// any other count goes to 250.
pub proof fn lemma_density_table(d: usize)
    ensures
        spec_next_density(250) == 500,
        spec_next_density(500) == 1000,
        spec_next_density(1000) == 250,
        d != 250 && d != 500 ==> spec_next_density(d) == 250,
{
}

} // verus!
