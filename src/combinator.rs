//! Offset arithmetic shared by encoders and decoders.
use vstd::arithmetic::power2::{lemma2_to64, lemma_pow2_strictly_increases, pow2};
use vstd::bits::lemma_usize_low_bits_mask_is_mod;
use vstd::prelude::*;

verus! {

/// `n` is a power of two.
pub open spec fn is_pow2(n: usize) -> bool {
    exists|k: nat| pow2(k) == n
}

/// The smallest multiple of `n` that is at least `x`.
pub open spec fn align_up(x: int, n: int) -> int {
    if x % n == 0 {
        x
    } else {
        x + (n - x % n)
    }
}

proof fn lemma_align_bits(x: usize, n: usize)
    requires
        is_pow2(n),
        x + n - 1 <= usize::MAX,
    ensures
        n > 0,
        ({
            let r = (x + n - 1) as usize & !((n - 1) as usize);
            r == align_up(x as int, n as int) && r % n == 0 && x <= r < x + n
        }),
{
    let k = choose|k: nat| pow2(k) == n;
    vstd::arithmetic::power2::lemma_pow2_pos(k);
    let m = (n - 1) as usize;
    let y = (x + m) as usize;
    let r = y & !m;
    assert(r & m == 0 && r <= y && y - r <= m) by (bit_vector)
        requires
            m == n - 1,
            y == x + m,
            r == y & !m,
    ;
    vstd::layout::unsigned_int_max_values();
    if k >= usize::BITS {
        if k > usize::BITS {
            lemma_pow2_strictly_increases(usize::BITS as nat, k);
        }
    }
    lemma_usize_low_bits_mask_is_mod(r, k);
    assert(r % n == 0);
    assert(r == align_up(x as int, n as int)) by (nonlinear_arith)
        requires
            r % n == 0,
            x <= r,
            r <= x + m,
            m == n - 1,
            n > 0,
    {
        vstd::arithmetic::div_mod::lemma_fundamental_div_mod(x as int, n as int);
        vstd::arithmetic::div_mod::lemma_fundamental_div_mod(r as int, n as int);
    }
}

/// Align `x` to the next multiple of `n`, a power of two.
pub fn align_n2(x: usize, n: usize) -> (r: usize)
    requires
        is_pow2(n),
        x + n - 1 <= usize::MAX,
    ensures
        r == align_up(x as int, n as int),
        r % n == 0,
        x <= r < x + n,
{
    proof {
        lemma_align_bits(x, n);
    }
    (x + (n - 1)) & !(n - 1)
}

/// Align `x` to the next multiple of 4.
pub fn align32(x: usize) -> (r: usize)
    requires
        x + 3 <= usize::MAX,
    ensures
        r == align_up(x as int, 4),
        r % 4 == 0,
        x <= r < x + 4,
{
    proof {
        lemma2_to64();
        assert(pow2(2) == 4);
        lemma_align_bits(x, 4);
    }
    (x + 3) & !3
}

} // verus!
