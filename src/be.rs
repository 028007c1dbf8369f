//! Big-endian byte encodings of unsigned integers, as mathematical sequences.
use vstd::arithmetic::div_mod::lemma_fundamental_div_mod;
use vstd::arithmetic::power::{lemma_pow_positive, pow};
use vstd::prelude::*;

verus! {

/// The `n` low-order bytes of `v`, most significant first.
pub open spec fn be_bytes(v: nat, n: nat) -> Seq<u8>
    decreases n,
{
    if n == 0 {
        Seq::empty()
    } else {
        be_bytes(v / 256, (n - 1) as nat).push((v % 256) as u8)
    }
}

/// The unsigned integer whose big-endian encoding is `s`.
pub open spec fn be_value(s: Seq<u8>) -> nat
    decreases s.len(),
{
    if s.len() == 0 {
        0
    } else {
        be_value(s.drop_last()) * 256 + s.last() as nat
    }
}

/// The largest value that `n` bytes can hold.
pub open spec fn max_be(n: nat) -> nat {
    (pow(256, n) - 1) as nat
}

pub proof fn lemma_be_bytes_len(v: nat, n: nat)
    ensures
        be_bytes(v, n).len() == n,
    decreases n,
{
    if n > 0 {
        lemma_be_bytes_len(v / 256, (n - 1) as nat);
    }
}

/// Decoding the `n`-byte encoding of a value that fits in `n` bytes gives the value back.
pub proof fn lemma_be_round_trip(v: nat, n: nat)
    requires
        v < pow(256, n),
    ensures
        be_value(be_bytes(v, n)) == v,
    decreases n,
{
    if n == 0 {
        vstd::arithmetic::power::lemma_pow0(256);
    } else {
        let m = (n - 1) as nat;
        lemma_pow_positive(256, m);
        assert(pow(256, n) == 256 * pow(256, m)) by {
            vstd::arithmetic::power::lemma_pow_adds(256, 1, m);
            vstd::arithmetic::power::lemma_pow1(256);
        }
        lemma_fundamental_div_mod(v as int, 256);
        assert(v / 256 < pow(256, m)) by (nonlinear_arith)
            requires
                v < 256 * pow(256, m),
                v == 256 * (v / 256) + v % 256,
                0 <= v % 256 < 256,
        ;
        lemma_be_round_trip(v / 256, m);
        let s = be_bytes(v, n);
        assert(s.drop_last() == be_bytes(v / 256, m));
        assert(s.last() as nat == v % 256);
    }
}


/// A big-endian value never reaches 256 to the power of its byte count.
pub proof fn lemma_be_value_bound(s: Seq<u8>)
    ensures
        be_value(s) < pow(256, s.len()),
    decreases s.len(),
{
    if s.len() == 0 {
        vstd::arithmetic::power::lemma_pow0(256);
    } else {
        let d = s.drop_last();
        lemma_be_value_bound(d);
        let p = pow(256, d.len());
        assert(pow(256, s.len()) == 256 * p) by {
            reveal(pow);
        }
        let hi = be_value(d);
        let lo = s.last() as nat;
        assert(hi * 256 + lo < 256 * p) by (nonlinear_arith)
            requires
                hi < p,
                lo < 256,
        ;
    }
}

/// Concrete powers of 256 up to the eighth.
pub proof fn lemma_pow256_values()
    ensures
        pow(256, 0) == 1,
        pow(256, 1) == 0x100,
        pow(256, 2) == 0x1_0000,
        pow(256, 3) == 0x100_0000,
        pow(256, 4) == 0x1_0000_0000,
        pow(256, 7) == 0x100_0000_0000_0000,
        pow(256, 8) == 0x1_0000_0000_0000_0000,
{
    reveal(pow);
    assert(pow(256, 0) == 1);
    assert(pow(256, 1) == 0x100);
    assert(pow(256, 2) == 0x1_0000);
    assert(pow(256, 3) == 0x100_0000);
    assert(pow(256, 4) == 0x1_0000_0000);
    assert(pow(256, 5) == 0x100_0000_0000);
    assert(pow(256, 6) == 0x1_0000_0000_0000);
    assert(pow(256, 7) == 0x100_0000_0000_0000);
    assert(pow(256, 8) == 0x1_0000_0000_0000_0000);
}

/// The largest value of a field of one to four bytes.
pub proof fn lemma_max_be_values()
    ensures
        max_be(1) == 0xff,
        max_be(2) == 0xffff,
        max_be(3) == 0xff_ffff,
        max_be(4) == 0xffff_ffff,
{
    lemma_pow256_values();
}

/// The byte sequences that shifts and truncating casts produce for a 32-bit value.
pub proof fn lemma_be_bytes_u32(v: u32)
    ensures
        be_bytes(v as nat, 1) == seq![v as u8],
        be_bytes(v as nat, 2) == seq![(v >> 8) as u8, v as u8],
        be_bytes(v as nat, 3) == seq![(v >> 16) as u8, (v >> 8) as u8, v as u8],
        be_bytes(v as nat, 4) == seq![(v >> 24) as u8, (v >> 16) as u8, (v >> 8) as u8, v as u8],
{
    assert(v / 256 == v >> 8) by (bit_vector);
    assert(v / 256 / 256 == v >> 16) by (bit_vector);
    assert(v / 256 / 256 / 256 == v >> 24) by (bit_vector);
    assert((v % 256) as u8 == v as u8) by (bit_vector);
    assert(((v >> 8) % 256) as u8 == (v >> 8) as u8) by (bit_vector);
    assert(((v >> 16) % 256) as u8 == (v >> 16) as u8) by (bit_vector);
    assert(((v >> 24) % 256) as u8 == (v >> 24) as u8) by (bit_vector);
    reveal_with_fuel(be_bytes, 5);
    assert(be_bytes(v as nat, 1) =~= seq![v as u8]);
    assert(be_bytes(v as nat, 2) =~= seq![(v >> 8) as u8, v as u8]);
    assert(be_bytes(v as nat, 3) =~= seq![(v >> 16) as u8, (v >> 8) as u8, v as u8]);
    assert(be_bytes(v as nat, 4) =~= seq![
        (v >> 24) as u8,
        (v >> 16) as u8,
        (v >> 8) as u8,
        v as u8,
    ]);
}

/// Read an entire slice as a big-endian value.
///
/// Fails with `"empty"` on an empty slice and with `"overflow"` on one longer
/// than eight bytes, whose value might not fit in a `u64`.
pub fn bytes_to_u64(s: &[u8]) -> (r: Result<u64, &'static str>)
    ensures
        s@.len() == 0 ==> r == Err::<u64, &'static str>("empty"),
        s@.len() > 8 ==> r == Err::<u64, &'static str>("overflow"),
        1 <= s@.len() <= 8 ==> r == Ok::<u64, &'static str>(be_value(s@) as u64),
        r is Ok ==> r->Ok_0 as nat == be_value(s@),
{
    let mut u: u64 = 0;
    if s.len() == 0 {
        return Err("empty");
    }
    if s.len() > 8 {
        return Err("overflow");
    }
    let mut i: usize = 0;
    while i < s.len()
        invariant
            s@.len() <= 8,
            i <= s@.len(),
            u as nat == be_value(s@.take(i as int)),
        decreases s@.len() - i,
    {
        proof {
            lemma_be_value_bound(s@.take(i as int));
            lemma_pow256_values();
            vstd::arithmetic::power::lemma_pow_increases(256, i as nat, 7);
        }
        let c = s[i];
        assert(u < 0x100_0000_0000_0000);
        assert((u << 8) | (c as u64) == u * 256 + c) by (bit_vector)
            requires
                u < 0x100_0000_0000_0000,
        ;
        let u1 = u << 8;
        u = u1 | (c as u64);
        assert(s@.take(i + 1).drop_last() =~= s@.take(i as int));
        i = i + 1;
    }
    assert(s@.take(i as int) =~= s@);
    Ok(u)
}

} // verus!
