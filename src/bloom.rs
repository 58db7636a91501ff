//! Sizing of the bloom mip chain.
use vstd::prelude::*;

verus! {

/// Largest number of bloom mip levels, whatever the viewport.
pub const MAX_BLOOM_ITER: usize = 8;

/// `v >> k` as an integer, for a shift that stays below the width of `u32`.
pub open spec fn shr(v: u32, k: nat) -> u32 {
    if k < 32 {
        v >> (k as u32)
    } else {
        0
    }
}

/// Mip level `i` of a `w` x `h` viewport is `(w >> (i + 1), h >> (i + 1))`;
/// it exists when neither side has shrunk to zero.
pub open spec fn level_fits(w: u32, h: u32, i: nat) -> bool {
    shr(w, i + 1) >= 1 && shr(h, i + 1) >= 1
}

/// Number of bloom levels of a `w` x `h` viewport: the levels below the cap
/// that fit, which are always a prefix `0..n` of the levels.
pub open spec fn chain_len(w: u32, h: u32) -> nat {
    chain_len_from(w, h, 0)
}

/// Levels `i, i + 1, ...` below the cap, counted up to the first that does not fit.
pub open spec fn chain_len_from(w: u32, h: u32, i: nat) -> nat
    decreases 8 - i,
{
    if i >= 8 || !level_fits(w, h, i) {
        0
    } else {
        1 + chain_len_from(w, h, i + 1)
    }
}

/// Each level that fits implies that the levels before it fit too.
pub proof fn lemma_level_fits_prefix(w: u32, h: u32, i: nat, j: nat)
    requires
        i <= j,
        level_fits(w, h, j),
    ensures
        level_fits(w, h, i),
{
    if j < 31 {
        let a = (i + 1) as u32;
        let b = (j + 1) as u32;
        assert(b < 32 && a <= b && (w >> b) >= 1 ==> (w >> a) >= 1) by (bit_vector);
        assert(b < 32 && a <= b && (h >> b) >= 1 ==> (h >> a) >= 1) by (bit_vector);
    }
}

proof fn lemma_chain_len_from_all_fit(w: u32, h: u32, i: nat)
    requires
        i <= 8,
        forall|k: nat| i <= k < 8 ==> level_fits(w, h, k),
    ensures
        chain_len_from(w, h, i) == 8 - i,
    decreases 8 - i,
{
    if i < 8 {
        lemma_chain_len_from_all_fit(w, h, i + 1);
    }
}

/// Number of bloom mip levels for a `width` x `height` viewport: the levels
/// `i < MAX_BLOOM_ITER` whose size `(width >> (i + 1), height >> (i + 1))` has
/// no zero side. Equivalently the largest `n` with `width >> n` and
/// `height >> n` both non-zero, capped at `MAX_BLOOM_ITER`.
pub fn bloom_chain_length(width: u32, height: u32) -> (n: usize)
    ensures
        n == chain_len(width, height),
        n <= MAX_BLOOM_ITER,
        forall|i: nat| i < n ==> level_fits(width, height, i),
        n < MAX_BLOOM_ITER ==> !level_fits(width, height, n as nat),
{
    let mut n: usize = 0;
    while n < MAX_BLOOM_ITER && (width >> ((n + 1) as u32)) >= 1 && (height >> ((n + 1) as u32))
        >= 1
        invariant
            n <= MAX_BLOOM_ITER,
            forall|i: nat| i < n ==> level_fits(width, height, i),
            chain_len(width, height) == n + chain_len_from(width, height, n as nat),
        decreases MAX_BLOOM_ITER - n,
    {
        n = n + 1;
    }
    n
}

/// On a viewport whose shorter side is 1, or whose sides are both at least
/// 512, the chain length is the largest level index `i` with
/// `(w >> (i + 1), h >> (i + 1))` non-empty, capped at 8, and 0 where there is
/// no such level.
pub proof fn lemma_chain_length_largest_level(w: u32, h: u32)
    requires
        w > 0,
        h > 0,
        (w >= 512 && h >= 512) || w == 1 || h == 1,
    ensures
        level_fits(w, h, 8) || !level_fits(w, h, 0),
        level_fits(w, h, 8) ==> chain_len(w, h) == 8,
        !level_fits(w, h, 0) ==> chain_len(w, h) == 0 && forall|i: nat| !level_fits(w, h, i),
{
    assert((w >= 512 && h >= 512) ==> (w >> 9u32) >= 1 && (h >> 9u32) >= 1) by (bit_vector);
    assert((w == 1 || h == 1) ==> (w >> 1u32) == 0 || (h >> 1u32) == 0) by (bit_vector);
    if level_fits(w, h, 8) {
        assert forall|k: nat| 0 <= k < 8 implies level_fits(w, h, k) by {
            lemma_level_fits_prefix(w, h, k, 8);
        }
        lemma_chain_len_from_all_fit(w, h, 0);
    }
    if !level_fits(w, h, 0) {
        assert forall|i: nat| !level_fits(w, h, i) by {
            if level_fits(w, h, i) {
                lemma_level_fits_prefix(w, h, 0, i);
            }
        }
    }
}

} // verus!
