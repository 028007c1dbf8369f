//! Properties that relate the writer's operations to one another.
use crate::be::{be_bytes, be_value, lemma_be_bytes_len, lemma_be_round_trip, lemma_max_be_values, max_be};
use crate::combinator::{align_up, is_pow2};
use crate::gen::{
    adjust_spec, align_spec, lemma_run_append, run_spec, splice, step_spec, then_spec, write_be_spec,
    GenError, GenStep, Outcome, Width,
};
use vstd::arithmetic::power::lemma_pow_positive;
use vstd::prelude::*;

verus! {

/// A value written as a big-endian field where the buffer has room for it is
/// read back unchanged: decoding the field's bytes (as `bytes_to_u64` does)
/// gives the value, the offset moves past the field, and no byte outside the
/// field changes.
pub proof fn law_write_read_back(buf: Seq<u8>, idx: usize, v: nat, w: Width)
    requires
        idx + w.len() <= buf.len(),
        v <= max_be(w.len()),
    ensures
        write_be_spec(buf, idx, v, w).1 == Ok::<usize, GenError>((idx + w.len()) as usize),
        be_value(write_be_spec(buf, idx, v, w).0.subrange(idx as int, idx + w.len())) == v,
        write_be_spec(buf, idx, v, w).0.len() == buf.len(),
        forall|k: int|
            0 <= k < buf.len() && !(idx <= k < idx + w.len()) ==> #[trigger] write_be_spec(
                buf,
                idx,
                v,
                w,
            ).0[k] == buf[k],
{
    let data = be_bytes(v, w.len());
    lemma_be_bytes_len(v, w.len());
    lemma_pow_positive(256, w.len());
    lemma_be_round_trip(v, w.len());
    let out = splice(buf, idx as int, data);
    assert(out.subrange(idx as int, idx + w.len()) =~= data);
}

/// A write that does not fit fails with the capacity it would have needed and
/// leaves the buffer as it was.
pub proof fn law_write_too_small(buf: Seq<u8>, idx: usize, v: nat, w: Width)
    requires
        buf.len() < idx + w.len(),
        idx + w.len() <= usize::MAX,
    ensures
        write_be_spec(buf, idx, v, w) == (buf, Err::<usize, GenError>(
            GenError::BufferTooSmall((idx + w.len()) as usize),
        )),
{
    lemma_be_bytes_len(v, w.len());
}

/// Composition fails fast: when `a` succeeds and `b` then fails, running
/// `[a, b, c]` ends with exactly what `b` alone gave, whatever `c` is.
pub proof fn law_fail_fast(buf: Seq<u8>, idx: usize, a: GenStep, b: GenStep, c: GenStep)
    requires
        step_spec(buf, idx, a).1 is Ok,
        step_spec(step_spec(buf, idx, a).0, step_spec(buf, idx, a).1->Ok_0, b).1 is Err,
    ensures
        run_spec(buf, idx, seq![a, b, c]) == step_spec(
            step_spec(buf, idx, a).0,
            step_spec(buf, idx, a).1->Ok_0,
            b,
        ),
{
    let s = seq![a, b, c];
    assert(s[0] == a);
    assert(s.drop_first() =~= seq![b, c]);
    assert(seq![b, c][0] == b);
    let out_a = step_spec(buf, idx, a);
    assert(run_spec(out_a.0, out_a.1->Ok_0, seq![b, c]) == step_spec(out_a.0, out_a.1->Ok_0, b));
}

/// Composition is associative: running `s2` then `s3` after an outcome is the
/// same as running `s2 + s3` after it.
pub proof fn law_then_assoc(out: Outcome, s2: Seq<GenStep>, s3: Seq<GenStep>)
    ensures
        then_spec(then_spec(out, s2), s3) == then_spec(out, s2 + s3),
{
    if let Ok(j) = out.1 {
        lemma_run_append(out.0, j, s2, s3);
    }
}

/// Aligning a second time to the same boundary does nothing.
pub proof fn law_align_idempotent(buf: Seq<u8>, idx: usize, n: usize)
    requires
        buf.len() <= usize::MAX,
        is_pow2(n),
        align_spec(buf, idx, n).1 is Ok,
    ensures
        align_spec(buf, align_spec(buf, idx, n).1->Ok_0, n) == align_spec(buf, idx, n),
{
    let k = choose|k: nat| vstd::arithmetic::power2::pow2(k) == n;
    vstd::arithmetic::power2::lemma_pow2_pos(k);
    let x = idx as int;
    let m = n as int;
    let a = align_up(x, m);
    vstd::arithmetic::div_mod::lemma_fundamental_div_mod(x, m);
    vstd::arithmetic::div_mod::lemma_mod_pos_bound(x, m);
    assert(a >= x);
    if x % m != 0 {
        assert(a == (x / m + 1) * m) by (nonlinear_arith)
            requires
                x == m * (x / m) + x % m,
                a == x + (m - x % m),
        ;
        vstd::arithmetic::div_mod::lemma_mod_multiples_basic(x / m + 1, m);
    }
    assert(a % m == 0);
    assert(a <= buf.len());
    let j = align_spec(buf, idx, n).1->Ok_0;
    assert(j as int == a);
    assert(align_up(j as int, m) == a);
}

/// A backpatched 16-bit length above 65535 is refused, and the buffer is left
/// as it was.
pub proof fn law_adjust_u16_overflow(buf: Seq<u8>, idx: usize, start: usize, offset: usize)
    requires
        start <= idx,
        idx - start > 0xffff,
    ensures
        adjust_spec(buf, idx, start, offset, Width::U16) == (buf, Err::<usize, GenError>(
            GenError::InvalidOffset,
        )),
{
    lemma_max_be_values();
}

} // verus!
