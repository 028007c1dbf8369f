//! The cursor-based writer: bounds-checked big-endian writes into a fixed-size
//! buffer, threaded as a `(buffer, offset)` pair.
//!
//! Every write either succeeds, having written exactly its bytes and advanced
//! the offset past them, or fails and leaves both the buffer and the offset as
//! they were. The buffer is never grown: its length is the capacity.
use crate::be::{be_bytes, lemma_be_bytes_len, lemma_be_bytes_u32, lemma_max_be_values, max_be};
use crate::combinator::{align_n2, align_up, is_pow2};
use vstd::prelude::*;

verus! {

/// Why a write could not be performed.
#[derive(Debug, Clone, Copy, PartialEq, Eq, Structural)]
pub enum GenError {
    /// The buffer is too small; the value is the smallest capacity that would have sufficed.
    BufferTooSmall(usize),
    /// A backpatched length was negative or did not fit its field.
    InvalidOffset,
    /// A failure raised by the caller's own encoding logic.
    CustomError(u32),
    /// A writer that is not implemented yet.
    NotYetImplemented,
}

/// Width of a big-endian integer field.
#[derive(Debug, Clone, Copy, PartialEq, Eq, Structural)]
pub enum Width {
    U8,
    U16,
    U24,
    U32,
}

impl Width {
    /// Number of bytes of a field of this width.
    pub open spec fn len(self) -> nat {
        match self {
            Width::U8 => 1,
            Width::U16 => 2,
            Width::U24 => 3,
            Width::U32 => 4,
        }
    }

    /// Largest value that a field of this width holds.
    pub fn max_value(&self) -> (m: u32)
        ensures
            m == max_be(self.len()),
    {
        proof {
            lemma_max_be_values();
        }
        match self {
            Width::U8 => 0xff,
            Width::U16 => 0xffff,
            Width::U24 => 0xff_ffff,
            Width::U32 => 0xffff_ffff,
        }
    }

    /// Number of bytes of a field of this width.
    pub fn nbytes(&self) -> (n: usize)
        ensures
            n == self.len(),
    {
        match self {
            Width::U8 => 1,
            Width::U16 => 2,
            Width::U24 => 3,
            Width::U32 => 4,
        }
    }
}

/// What a step leaves behind: the buffer's contents, and the new offset or the error.
pub type Outcome = (Seq<u8>, Result<usize, GenError>);

/// `buf` with the bytes from `idx` on replaced by `data`.
pub open spec fn splice(buf: Seq<u8>, idx: int, data: Seq<u8>) -> Seq<u8> {
    buf.subrange(0, idx) + data + buf.subrange(idx + data.len(), buf.len() as int)
}

/// Moving the offset to `target` without writing.
pub open spec fn advance_spec(buf: Seq<u8>, target: int) -> Outcome {
    if target <= buf.len() {
        (buf, Ok(target as usize))
    } else {
        (buf, Err(GenError::BufferTooSmall(target as usize)))
    }
}

/// Writing `data` at offset `idx`.
pub open spec fn write_spec(buf: Seq<u8>, idx: usize, data: Seq<u8>) -> Outcome {
    if idx + data.len() <= buf.len() {
        (splice(buf, idx as int, data), Ok((idx + data.len()) as usize))
    } else {
        (buf, Err(GenError::BufferTooSmall((idx + data.len()) as usize)))
    }
}

/// Writing `v` as a big-endian field of width `w` at offset `idx`.
pub open spec fn write_be_spec(buf: Seq<u8>, idx: usize, v: nat, w: Width) -> Outcome {
    write_spec(buf, idx, be_bytes(v, w.len()))
}

/// True when `out` describes `r`: on success, the returned cursor's current
/// contents and offset; on an error, the error and the buffer's contents
/// `after` the call.
pub open spec fn lands(r: Result<(&mut Vec<u8>, usize), GenError>, after: Seq<u8>, out: Outcome) -> bool {
    match r {
        Ok((b, j)) => out == (b@, Ok::<usize, GenError>(j)),
        Err(e) => out == (after, Err::<usize, GenError>(e)),
    }
}

fn put_be(buf: &mut Vec<u8>, idx: usize, v: u32, w: Width) -> (r: Result<usize, GenError>)
    requires
        idx + w.len() <= usize::MAX,
        v <= max_be(w.len()),
    ensures
        (final(buf)@, r) == write_be_spec(old(buf)@, idx, v as nat, w),
{
    proof {
        lemma_be_bytes_u32(v);
    }
    let n = w.nbytes();
    if buf.len() < n || idx > buf.len() - n {
        return Err(GenError::BufferTooSmall(idx + n));
    }
    let ghost old_buf = buf@;
    match w {
        Width::U8 => {
            buf[idx] = v as u8;
        },
        Width::U16 => {
            buf[idx] = (v >> 8) as u8;
            buf[idx + 1] = v as u8;
        },
        Width::U24 => {
            buf[idx] = (v >> 16) as u8;
            buf[idx + 1] = (v >> 8) as u8;
            buf[idx + 2] = v as u8;
        },
        Width::U32 => {
            buf[idx] = (v >> 24) as u8;
            buf[idx + 1] = (v >> 16) as u8;
            buf[idx + 2] = (v >> 8) as u8;
            buf[idx + 3] = v as u8;
        },
    }
    assert(buf@ =~= splice(old_buf, idx as int, be_bytes(v as nat, w.len())));
    Ok(idx + n)
}

/// Moving the offset `n` bytes forward without writing.
pub open spec fn skip_spec(buf: Seq<u8>, idx: usize, n: usize) -> Outcome {
    advance_spec(buf, idx + n)
}

/// Moving the offset forward to the next multiple of `n` without writing.
pub open spec fn align_spec(buf: Seq<u8>, idx: usize, n: usize) -> Outcome {
    advance_spec(buf, align_up(idx as int, n as int))
}

/// Writing the number of bytes from `start` to `idx` as a field of width `w` at
/// `offset`, and staying at `idx`.
pub open spec fn adjust_spec(buf: Seq<u8>, idx: usize, start: usize, offset: usize, w: Width) -> Outcome {
    if idx < start || idx - start > max_be(w.len()) {
        (buf, Err(GenError::InvalidOffset))
    } else {
        let out = write_be_spec(buf, offset, (idx - start) as nat, w);
        (
            out.0,
            match out.1 {
                Ok(_) => Ok(idx),
                Err(e) => Err(e),
            },
        )
    }
}

fn put_copy(buf: &mut Vec<u8>, idx: usize, val: &[u8], l: usize) -> (r: Result<usize, GenError>)
    requires
        l <= val@.len(),
        idx + l <= usize::MAX,
    ensures
        (final(buf)@, r) == write_spec(old(buf)@, idx, val@.take(l as int)),
{
    if l > buf.len() || idx > buf.len() - l {
        return Err(GenError::BufferTooSmall(idx + l));
    }
    let ghost old_buf = buf@;
    let mut k: usize = 0;
    while k < l
        invariant
            k <= l,
            l <= val@.len(),
            idx + l <= old_buf.len(),
            idx + l <= usize::MAX,
            buf@ =~= splice(old_buf, idx as int, val@.take(k as int)),
        decreases l - k,
    {
        buf[idx + k] = val[k];
        k = k + 1;
        assert(buf@ =~= splice(old_buf, idx as int, val@.take(k as int)));
    }
    Ok(idx + l)
}

fn advance(len: usize, idx: usize, n: usize) -> (r: Result<usize, GenError>)
    requires
        idx + n <= usize::MAX,
    ensures
        r == (if idx + n <= len {
            Ok::<usize, GenError>((idx + n) as usize)
        } else {
            Err::<usize, GenError>(GenError::BufferTooSmall((idx + n) as usize))
        }),
{
    if n > len || idx > len - n {
        Err(GenError::BufferTooSmall(idx + n))
    } else {
        Ok(idx + n)
    }
}

fn adjust(buf: &mut Vec<u8>, idx: usize, start: usize, offset: usize, w: Width) -> (r: Result<usize, GenError>)
    requires
        offset + w.len() <= usize::MAX,
    ensures
        (final(buf)@, r) == adjust_spec(old(buf)@, idx, start, offset, w),
{
    if idx < start {
        return Err(GenError::InvalidOffset);
    }
    let l = idx - start;
    if l > w.max_value() as usize {
        return Err(GenError::InvalidOffset);
    }
    match put_be(buf, offset, l as u32, w) {
        Ok(_) => Ok(idx),
        Err(e) => Err(e),
    }
}

/// Write a byte at the cursor.
pub fn set_be_u8(x: (&mut Vec<u8>, usize), v: u8) -> (r: Result<(&mut Vec<u8>, usize), GenError>)
    requires
        x.1 + 1 <= usize::MAX,
    ensures
        lands(r, final(x.0)@, write_be_spec(old(x.0)@, x.1, v as nat, Width::U8)),
        r matches Ok((b, _)) ==> final(b)@ == final(x.0)@,
{
    proof {
        lemma_max_be_values();
    }
    let (i, idx) = x;
    match put_be(i, idx, v as u32, Width::U8) {
        Ok(j) => Ok((i, j)),
        Err(e) => Err(e),
    }
}

/// Write a 16-bit value, big-endian, at the cursor.
pub fn set_be_u16(x: (&mut Vec<u8>, usize), v: u16) -> (r: Result<(&mut Vec<u8>, usize), GenError>)
    requires
        x.1 + 2 <= usize::MAX,
    ensures
        lands(r, final(x.0)@, write_be_spec(old(x.0)@, x.1, v as nat, Width::U16)),
        r matches Ok((b, _)) ==> final(b)@ == final(x.0)@,
{
    proof {
        lemma_max_be_values();
    }
    let (i, idx) = x;
    match put_be(i, idx, v as u32, Width::U16) {
        Ok(j) => Ok((i, j)),
        Err(e) => Err(e),
    }
}

/// Write `v`, below 2^24, as three big-endian bytes at the cursor.
pub fn set_be_u24(x: (&mut Vec<u8>, usize), v: u32) -> (r: Result<(&mut Vec<u8>, usize), GenError>)
    requires
        x.1 + 3 <= usize::MAX,
        v <= 0xff_ffff,
    ensures
        lands(r, final(x.0)@, write_be_spec(old(x.0)@, x.1, v as nat, Width::U24)),
        r matches Ok((b, _)) ==> final(b)@ == final(x.0)@,
{
    proof {
        lemma_max_be_values();
    }
    let (i, idx) = x;
    match put_be(i, idx, v, Width::U24) {
        Ok(j) => Ok((i, j)),
        Err(e) => Err(e),
    }
}

/// Write a 32-bit value, big-endian, at the cursor.
pub fn set_be_u32(x: (&mut Vec<u8>, usize), v: u32) -> (r: Result<(&mut Vec<u8>, usize), GenError>)
    requires
        x.1 + 4 <= usize::MAX,
    ensures
        lands(r, final(x.0)@, write_be_spec(old(x.0)@, x.1, v as nat, Width::U32)),
        r matches Ok((b, _)) ==> final(b)@ == final(x.0)@,
{
    proof {
        lemma_max_be_values();
    }
    let (i, idx) = x;
    match put_be(i, idx, v, Width::U32) {
        Ok(j) => Ok((i, j)),
        Err(e) => Err(e),
    }
}

/// Copy the first `l` bytes of `val` to the cursor.
pub fn gen_copy<'a>(x: (&'a mut Vec<u8>, usize), val: &[u8], l: usize) -> (r: Result<
    (&'a mut Vec<u8>, usize),
    GenError,
>)
    requires
        l <= val@.len(),
        x.1 + l <= usize::MAX,
    ensures
        lands(r, final(x.0)@, write_spec(old(x.0)@, x.1, val@.take(l as int))),
        r matches Ok((b, _)) ==> final(b)@ == final(x.0)@,
{
    let (i, idx) = x;
    match put_copy(i, idx, val, l) {
        Ok(j) => Ok((i, j)),
        Err(e) => Err(e),
    }
}

/// Move the cursor `n` bytes forward, leaving those bytes as they are.
pub fn gen_skip(x: (&mut Vec<u8>, usize), n: usize) -> (r: Result<(&mut Vec<u8>, usize), GenError>)
    requires
        x.1 + n <= usize::MAX,
    ensures
        lands(r, final(x.0)@, skip_spec(old(x.0)@, x.1, n)),
        r matches Ok((b, _)) ==> final(b)@ == final(x.0)@,
{
    let (i, idx) = x;
    match advance(i.len(), idx, n) {
        Ok(j) => Ok((i, j)),
        Err(e) => Err(e),
    }
}

/// Move the cursor forward to the next multiple of `n`, a power of two. The
/// bytes passed over keep whatever the buffer held: they are not zeroed.
pub fn gen_align(x: (&mut Vec<u8>, usize), n: usize) -> (r: Result<(&mut Vec<u8>, usize), GenError>)
    requires
        is_pow2(n),
        x.1 + n - 1 <= usize::MAX,
    ensures
        lands(r, final(x.0)@, align_spec(old(x.0)@, x.1, n)),
        r matches Ok((b, _)) ==> final(b)@ == final(x.0)@,
{
    let (i, idx) = x;
    let a = align_n2(idx, n);
    if a > i.len() {
        Err(GenError::BufferTooSmall(a))
    } else {
        Ok((i, a))
    }
}

/// Write the number of bytes from `start` to the cursor as a field of width `w`
/// at `offset`, where a placeholder was written before, and stay at the cursor.
///
/// Fails with `InvalidOffset` when the cursor lies before `start` or the length
/// does not fit the field; the buffer is then left as it was.
pub fn gen_adjust_length(x: (&mut Vec<u8>, usize), start: usize, offset: usize, w: Width) -> (r: Result<
    (&mut Vec<u8>, usize),
    GenError,
>)
    requires
        offset + w.len() <= usize::MAX,
    ensures
        lands(r, final(x.0)@, adjust_spec(old(x.0)@, x.1, start, offset, w)),
        r matches Ok((b, _)) ==> final(b)@ == final(x.0)@,
        x.1 < start || x.1 - start > max_be(w.len()) ==> r == Err::<(&mut Vec<u8>, usize), GenError>(
            GenError::InvalidOffset,
        ) && final(x.0)@ == old(x.0)@,
        r matches Ok((_, j)) ==> j == x.1,
{
    let (i, idx) = x;
    match adjust(i, idx, start, offset, w) {
        Ok(j) => Ok((i, j)),
        Err(e) => Err(e),
    }
}

/// Write the number of bytes from `start` to the cursor as a 16-bit field at
/// `offset`, and stay at the cursor.
pub fn gen_adjust_length_u16(x: (&mut Vec<u8>, usize), start: usize, offset: usize) -> (r: Result<
    (&mut Vec<u8>, usize),
    GenError,
>)
    requires
        offset + 2 <= usize::MAX,
    ensures
        lands(r, final(x.0)@, adjust_spec(old(x.0)@, x.1, start, offset, Width::U16)),
        r matches Ok((b, _)) ==> final(b)@ == final(x.0)@,
{
    gen_adjust_length(x, start, offset, Width::U16)
}

/// One step of an encoding, as data, so that a list of steps can be run in order.
#[derive(Debug)]
pub enum GenStep {
    BeU8(u8),
    BeU16(u16),
    /// A value below 2^24, in three bytes.
    BeU24(u32),
    BeU32(u32),
    /// Bytes copied as they are.
    Copy(Vec<u8>),
    Skip(usize),
    /// Move forward to the next multiple of a power of two.
    Align(usize),
    /// Backpatch a length: `(width, start, offset)` as in [`gen_adjust_length`].
    AdjustLength(Width, usize, usize),
    /// Fail with `CustomError` of the code.
    Fail(u32),
}

/// What running step `s` at offset `idx` does.
pub open spec fn step_spec(buf: Seq<u8>, idx: usize, s: GenStep) -> Outcome {
    match s {
        GenStep::BeU8(v) => write_be_spec(buf, idx, v as nat, Width::U8),
        GenStep::BeU16(v) => write_be_spec(buf, idx, v as nat, Width::U16),
        GenStep::BeU24(v) => write_be_spec(buf, idx, v as nat, Width::U24),
        GenStep::BeU32(v) => write_be_spec(buf, idx, v as nat, Width::U32),
        GenStep::Copy(v) => write_spec(buf, idx, v@),
        GenStep::Skip(n) => skip_spec(buf, idx, n),
        GenStep::Align(n) => align_spec(buf, idx, n),
        GenStep::AdjustLength(w, start, offset) => adjust_spec(buf, idx, start, offset, w),
        GenStep::Fail(code) => (buf, Err(GenError::CustomError(code))),
    }
}

/// Step `s` is well formed, and nothing it computes from an offset up to
/// `bound` overflows a `usize`.
pub open spec fn step_fits(s: GenStep, bound: nat) -> bool {
    match s {
        GenStep::BeU8(_) => bound + 1 <= usize::MAX,
        GenStep::BeU16(_) => bound + 2 <= usize::MAX,
        GenStep::BeU24(v) => bound + 3 <= usize::MAX && v <= 0xff_ffff,
        GenStep::BeU32(_) => bound + 4 <= usize::MAX,
        GenStep::Copy(v) => bound + v@.len() <= usize::MAX,
        GenStep::Skip(n) => bound + n <= usize::MAX,
        GenStep::Align(n) => is_pow2(n) && bound + n - 1 <= usize::MAX,
        GenStep::AdjustLength(w, _, offset) => offset + w.len() <= usize::MAX,
        GenStep::Fail(_) => true,
    }
}

/// Running `steps` in order from offset `idx`, stopping at the first error.
pub open spec fn run_spec(buf: Seq<u8>, idx: usize, steps: Seq<GenStep>) -> Outcome
    decreases steps.len(),
{
    if steps.len() == 0 {
        (buf, Ok(idx))
    } else {
        let out = step_spec(buf, idx, steps[0]);
        match out.1 {
            Ok(j) => run_spec(out.0, j, steps.drop_first()),
            Err(e) => (out.0, Err(e)),
        }
    }
}

/// Running `s2` after what `s1` left, unless `s1` failed.
pub open spec fn then_spec(out: Outcome, s2: Seq<GenStep>) -> Outcome {
    match out.1 {
        Ok(j) => run_spec(out.0, j, s2),
        Err(e) => (out.0, Err(e)),
    }
}

/// Running two lists one after the other is running their concatenation.
pub proof fn lemma_run_append(buf: Seq<u8>, idx: usize, s1: Seq<GenStep>, s2: Seq<GenStep>)
    ensures
        run_spec(buf, idx, s1 + s2) == then_spec(run_spec(buf, idx, s1), s2),
    decreases s1.len(),
{
    if s1.len() == 0 {
        assert(s1 + s2 =~= s2);
    } else {
        assert((s1 + s2)[0] == s1[0]);
        assert((s1 + s2).drop_first() =~= s1.drop_first() + s2);
        let out = step_spec(buf, idx, s1[0]);
        if let Ok(j) = out.1 {
            lemma_run_append(out.0, j, s1.drop_first(), s2);
        }
    }
}

proof fn lemma_run_one(buf: Seq<u8>, idx: usize, s: GenStep)
    ensures
        run_spec(buf, idx, seq![s]) == step_spec(buf, idx, s),
{
    let out = step_spec(buf, idx, s);
    assert(seq![s][0] == s);
    assert(seq![s].drop_first() =~= Seq::<GenStep>::empty());
    if let Ok(j) = out.1 {
        assert(run_spec(out.0, j, Seq::<GenStep>::empty()) == (out.0, Ok::<usize, GenError>(j)));
    }
}

fn step_at(buf: &mut Vec<u8>, idx: usize, s: &GenStep) -> (r: Result<usize, GenError>)
    requires
        step_fits(*s, idx as nat),
    ensures
        (final(buf)@, r) == step_spec(old(buf)@, idx, *s),
        final(buf)@.len() == old(buf)@.len(),
        r matches Ok(j) ==> j <= old(buf)@.len() || j == idx,
{
    proof {
        lemma_max_be_values();
    }
    match s {
        GenStep::BeU8(v) => put_be(buf, idx, *v as u32, Width::U8),
        GenStep::BeU16(v) => put_be(buf, idx, *v as u32, Width::U16),
        GenStep::BeU24(v) => put_be(buf, idx, *v, Width::U24),
        GenStep::BeU32(v) => put_be(buf, idx, *v, Width::U32),
        GenStep::Copy(v) => {
            let r = put_copy(buf, idx, v.as_slice(), v.len());
            assert(v@.take(v@.len() as int) =~= v@);
            r
        },
        GenStep::Skip(n) => advance(buf.len(), idx, *n),
        GenStep::Align(n) => {
            let a = align_n2(idx, *n);
            if a > buf.len() {
                Err(GenError::BufferTooSmall(a))
            } else {
                Ok(a)
            }
        },
        GenStep::AdjustLength(w, start, offset) => adjust(buf, idx, *start, *offset, *w),
        GenStep::Fail(code) => Err(GenError::CustomError(*code)),
    }
}

fn run_at(buf: &mut Vec<u8>, idx: usize, steps: &[GenStep]) -> (r: Result<usize, GenError>)
    requires
        idx <= old(buf)@.len(),
        forall|k: int| 0 <= k < steps@.len() ==> step_fits(#[trigger] steps@[k], old(buf)@.len() as nat),
    ensures
        (final(buf)@, r) == run_spec(old(buf)@, idx, steps@),
{
    let ghost buf0 = buf@;
    let mut cur = idx;
    let mut i: usize = 0;
    while i < steps.len()
        invariant
            i <= steps@.len(),
            buf0 == old(buf)@,
            buf@.len() == buf0.len(),
            cur <= buf0.len(),
            forall|k: int| 0 <= k < steps@.len() ==> step_fits(#[trigger] steps@[k], buf0.len() as nat),
            run_spec(buf0, idx, steps@.take(i as int)) == (buf@, Ok::<usize, GenError>(cur)),
        decreases steps@.len() - i,
    {
        let ghost before = buf@;
        let s = &steps[i];
        assert(step_fits(steps@[i as int], buf0.len() as nat));
        let r = step_at(buf, cur, s);
        proof {
            lemma_run_append(buf0, idx, steps@.take(i as int), seq![*s]);
            lemma_run_one(before, cur, *s);
            assert(steps@.take(i + 1) =~= steps@.take(i as int) + seq![*s]);
        }
        match r {
            Ok(j) => {
                cur = j;
            },
            Err(e) => {
                proof {
                    assert(run_spec(buf0, idx, steps@.take(i + 1)) == (buf@, Err::<usize, GenError>(e)));
                    lemma_run_append(buf0, idx, steps@.take(i + 1), steps@.skip(i + 1));
                    assert(steps@.take(i + 1) + steps@.skip(i + 1) =~= steps@);
                }
                return Err(e);
            },
        }
        i = i + 1;
    }
    assert(steps@.take(i as int) =~= steps@);
    Ok(cur)
}

/// Run one step at the cursor.
pub fn gen_step<'a>(x: (&'a mut Vec<u8>, usize), s: &GenStep) -> (r: Result<(&'a mut Vec<u8>, usize), GenError>)
    requires
        step_fits(*s, x.1 as nat),
    ensures
        lands(r, final(x.0)@, step_spec(old(x.0)@, x.1, *s)),
        r matches Ok((b, _)) ==> final(b)@ == final(x.0)@,
{
    let (i, idx) = x;
    match step_at(i, idx, s) {
        Ok(j) => Ok((i, j)),
        Err(e) => Err(e),
    }
}

/// Run `steps` in order, each from where the one before left the cursor. The
/// first error ends the run and is returned as it is; the steps after it do
/// not run, and what the steps before it wrote stays written.
pub fn do_gen<'a>(x: (&'a mut Vec<u8>, usize), steps: &[GenStep]) -> (r: Result<(&'a mut Vec<u8>, usize), GenError>)
    requires
        x.1 <= old(x.0)@.len(),
        forall|k: int| 0 <= k < steps@.len() ==> step_fits(#[trigger] steps@[k], old(x.0)@.len() as nat),
    ensures
        lands(r, final(x.0)@, run_spec(old(x.0)@, x.1, steps@)),
        r matches Ok((b, _)) ==> final(b)@ == final(x.0)@,
{
    let (i, idx) = x;
    match run_at(i, idx, steps) {
        Ok(j) => Ok((i, j)),
        Err(e) => Err(e),
    }
}

/// Run `s` if `cond` holds; otherwise leave the cursor as it is.
pub fn gen_cond<'a>(x: (&'a mut Vec<u8>, usize), cond: bool, s: &GenStep) -> (r: Result<(&'a mut Vec<u8>, usize), GenError>)
    requires
        step_fits(*s, x.1 as nat),
    ensures
        lands(
            r,
            final(x.0)@,
            if cond {
                step_spec(old(x.0)@, x.1, *s)
            } else {
                (old(x.0)@, Ok(x.1))
            },
        ),
        r matches Ok((b, _)) ==> final(b)@ == final(x.0)@,
{
    if cond {
        gen_step(x, s)
    } else {
        Ok(x)
    }
}

/// Run `a` if `cond` holds, else `b`.
pub fn gen_if_else<'a>(x: (&'a mut Vec<u8>, usize), cond: bool, a: &GenStep, b: &GenStep) -> (r: Result<
    (&'a mut Vec<u8>, usize),
    GenError,
>)
    requires
        step_fits(*a, x.1 as nat),
        step_fits(*b, x.1 as nat),
    ensures
        lands(
            r,
            final(x.0)@,
            if cond {
                step_spec(old(x.0)@, x.1, *a)
            } else {
                step_spec(old(x.0)@, x.1, *b)
            },
        ),
        r matches Ok((c, _)) ==> final(c)@ == final(x.0)@,
{
    if cond {
        gen_step(x, a)
    } else {
        gen_step(x, b)
    }
}

/// The step that writes `v` as a field of width `w`.
pub open spec fn be_step(v: u32, w: Width) -> GenStep {
    match w {
        Width::U8 => GenStep::BeU8(v as u8),
        Width::U16 => GenStep::BeU16(v as u16),
        Width::U24 => GenStep::BeU24(v),
        Width::U32 => GenStep::BeU32(v),
    }
}

/// Writing each of `items` in order as a field of width `w`.
pub open spec fn many_spec(buf: Seq<u8>, idx: usize, items: Seq<u32>, w: Width) -> Outcome {
    run_spec(buf, idx, items.map_values(|v: u32| be_step(v, w)))
}

fn many_at(buf: &mut Vec<u8>, idx: usize, items: &[u32], w: Width) -> (r: Result<usize, GenError>)
    requires
        idx <= old(buf)@.len(),
        old(buf)@.len() + w.len() <= usize::MAX,
        forall|k: int| 0 <= k < items@.len() ==> #[trigger] items@[k] <= max_be(w.len()),
    ensures
        (final(buf)@, r) == many_spec(old(buf)@, idx, items@, w),
{
    let ghost buf0 = buf@;
    let ghost steps = items@.map_values(|v: u32| be_step(v, w));
    let mut cur = idx;
    let mut i: usize = 0;
    while i < items.len()
        invariant
            i <= items@.len(),
            buf0 == old(buf)@,
            steps == items@.map_values(|v: u32| be_step(v, w)),
            buf@.len() == buf0.len(),
            cur <= buf0.len(),
            buf0.len() + w.len() <= usize::MAX,
            forall|k: int| 0 <= k < items@.len() ==> #[trigger] items@[k] <= max_be(w.len()),
            run_spec(buf0, idx, steps.take(i as int)) == (buf@, Ok::<usize, GenError>(cur)),
        decreases items@.len() - i,
    {
        let ghost before = buf@;
        let v = items[i];
        proof {
            lemma_max_be_values();
        }
        let r = put_be(buf, cur, v, w);
        proof {
            assert(steps[i as int] == be_step(v, w));
            assert(step_spec(before, cur, steps[i as int]) == write_be_spec(before, cur, v as nat, w));
            lemma_be_bytes_len(v as nat, w.len());
            lemma_run_append(buf0, idx, steps.take(i as int), seq![steps[i as int]]);
            lemma_run_one(before, cur, steps[i as int]);
            assert(steps.take(i + 1) =~= steps.take(i as int) + seq![steps[i as int]]);
        }
        match r {
            Ok(j) => {
                cur = j;
            },
            Err(e) => {
                proof {
                    lemma_run_append(buf0, idx, steps.take(i + 1), steps.skip(i + 1));
                    assert(steps.take(i + 1) + steps.skip(i + 1) =~= steps);
                }
                return Err(e);
            },
        }
        i = i + 1;
    }
    assert(steps.take(i as int) =~= steps);
    Ok(cur)
}

/// Write each of `items`, in order, as a big-endian field of width `w`,
/// stopping at the first error.
pub fn gen_many<'a>(x: (&'a mut Vec<u8>, usize), items: &[u32], w: Width) -> (r: Result<(&'a mut Vec<u8>, usize), GenError>)
    requires
        x.1 <= old(x.0)@.len(),
        old(x.0)@.len() + w.len() <= usize::MAX,
        forall|k: int| 0 <= k < items@.len() ==> #[trigger] items@[k] <= max_be(w.len()),
    ensures
        lands(r, final(x.0)@, many_spec(old(x.0)@, x.1, items@, w)),
        r matches Ok((b, _)) ==> final(b)@ == final(x.0)@,
{
    let (i, idx) = x;
    match many_at(i, idx, items, w) {
        Ok(j) => Ok((i, j)),
        Err(e) => Err(e),
    }
}

} // verus!
