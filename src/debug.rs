//! Wrappers that render values as hexadecimal text, for debugging.
use vstd::prelude::*;
use vstd::string::{StrSliceExecFns, StringExecFns};

verus! {

/// The lowercase hexadecimal digit for `d`, below 16.
pub open spec fn hex_digit(d: nat) -> char {
    seq!['0', '1', '2', '3', '4', '5', '6', '7', '8', '9', 'a', 'b', 'c', 'd', 'e', 'f'][d as int]
}

/// The `n` low-order hexadecimal digits of `v`, most significant first.
pub open spec fn hex_digits(v: nat, n: nat) -> Seq<char>
    decreases n,
{
    if n == 0 {
        Seq::empty()
    } else {
        hex_digits(v / 16, (n - 1) as nat).push(hex_digit(v % 16))
    }
}

/// The hexadecimal text of a byte slice: two digits per byte, separated by
/// spaces.
pub open spec fn hex_bytes(s: Seq<u8>) -> Seq<char>
    decreases s.len(),
{
    if s.len() == 0 {
        Seq::empty()
    } else if s.len() == 1 {
        hex_digits(s[0] as nat, 2)
    } else {
        hex_bytes(s.drop_last()).push(' ') + hex_digits(s.last() as nat, 2)
    }
}

fn push_digit(out: &mut String, d: u8)
    requires
        d < 16,
    ensures
        final(out)@ == old(out)@.push(hex_digit(d as nat)),
{
    let digits = "0123456789abcdef";
    proof {
        reveal_strlit("0123456789abcdef");
    }
    let one = digits.substring_char(d as usize, d as usize + 1);
    assert(one@ =~= seq![hex_digit(d as nat)]);
    out.append(one);
}

/// Append the `n` low-order hexadecimal digits of `v` to `out`.
fn push_hex(out: &mut String, v: u16, n: usize)
    requires
        n <= 4,
    ensures
        final(out)@ == old(out)@ + hex_digits(v as nat, n as nat),
    decreases n,
{
    if n > 0 {
        push_hex(out, v / 16, n - 1);
        push_digit(out, (v % 16) as u8);
        assert(hex_digits(v as nat, n as nat) == hex_digits((v / 16) as nat, (n - 1) as nat).push(
            hex_digit((v % 16) as nat),
        ));
    } else {
        assert(old(out)@ + Seq::<char>::empty() =~= old(out)@);
    }
}

/// A byte shown as `0x` and two hexadecimal digits.
pub struct HexU8(pub u8);

impl HexU8 {
    pub fn to_string(&self) -> (r: String)
        ensures
            r@ == seq!['0', 'x'] + hex_digits(self.0 as nat, 2),
    {
        proof {
            reveal_strlit("0x");
        }
        let mut out = String::from_str("0x");
        push_hex(&mut out, self.0 as u16, 2);
        assert(hex_digits(self.0 as nat, 2) == hex_digits((self.0 as u16) as nat, 2));
        out
    }
}

/// A 16-bit value shown as `0x` and four hexadecimal digits.
pub struct HexU16(pub u16);

impl HexU16 {
    pub fn to_string(&self) -> (r: String)
        ensures
            r@ == seq!['0', 'x'] + hex_digits(self.0 as nat, 4),
    {
        proof {
            reveal_strlit("0x");
        }
        let mut out = String::from_str("0x");
        push_hex(&mut out, self.0, 4);
        out
    }
}

/// A byte slice shown as its bytes in hexadecimal, between brackets.
pub struct HexSlice<'a>(pub &'a [u8]);

impl<'a> HexSlice<'a> {
    pub fn to_string(&self) -> (r: String)
        ensures
            r@ == seq!['['] + hex_bytes(self.0@) + seq![']'],
    {
        proof {
            reveal_strlit("[");
            reveal_strlit("]");
        }
        let s = self.0;
        let mut out = String::from_str("[");
        let mut i: usize = 0;
        while i < s.len()
            invariant
                i <= s@.len(),
                out@ == seq!['['] + hex_bytes(s@.take(i as int)),
            decreases s@.len() - i,
        {
            let ghost before = out@;
            if i > 0 {
                proof {
                    reveal_strlit(" ");
                }
                out.append(" ");
            }
            push_hex(&mut out, s[i] as u16, 2);
            proof {
                let t = s@.take(i + 1);
                assert(t.drop_last() =~= s@.take(i as int));
                assert(t.last() == s@[i as int]);
                if i == 0 {
                    assert(s@.take(0) =~= Seq::<u8>::empty());
                    assert(hex_bytes(s@.take(0)) =~= Seq::<char>::empty());
                    assert(out@ =~= seq!['['] + hex_bytes(t));
                } else {
                    assert(hex_bytes(t) == hex_bytes(s@.take(i as int)).push(' ') + hex_digits(
                        s@[i as int] as nat,
                        2,
                    ));
                    assert(out@ =~= seq!['['] + hex_bytes(t));
                }
            }
            i = i + 1;
        }
        assert(s@.take(i as int) =~= s@);
        out.append("]");
        out
    }
}

} // verus!
