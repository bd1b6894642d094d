//! Building the bytes of texts: literals, decimal numbers, and single characters.
use crate::markup::copy_range;
use vstd::prelude::*;
use vstd::string::StringSliceAdditionalSpecFns;

verus! {

/// The decimal digits of `n`, most significant first, with no leading zero.
pub open spec fn decimal_spec(n: nat) -> Seq<u8>
    decreases n,
{
    if n < 10 {
        seq![(0x30 + n) as u8]
    } else {
        decimal_spec(n / 10).push((0x30 + n % 10) as u8)
    }
}

/// The UTF-8 encoding of the character whose code is the byte `b`.
pub open spec fn char_utf8(b: u8) -> Seq<u8> {
    if b < 0x80 {
        seq![b]
    } else {
        seq![(0xc0 + b / 64) as u8, (0x80 + b % 64) as u8]
    }
}

/// The bytes of `s`.
pub fn str_bytes(s: &str) -> (r: Vec<u8>)
    ensures
        r@ == s.spec_bytes(),
{
    let b = s.as_bytes();
    copy_range(b, 0, b.len())
}

/// Appends the bytes of `s` to `out`.
pub fn push_str(out: &mut Vec<u8>, s: &str)
    ensures
        final(out)@ == old(out)@ + s.spec_bytes(),
{
    let b = s.as_bytes();
    let mut i: usize = 0;
    while i < b.len()
        invariant
            0 <= i <= b@.len(),
            b@ == s.spec_bytes(),
            out@ == old(out)@ + b@.subrange(0, i as int),
        decreases b@.len() - i,
    {
        out.push(b[i]);
        proof {
            assert(out@ =~= old(out)@ + b@.subrange(0, i + 1));
        }
        i = i + 1;
    }
    proof {
        assert(b@.subrange(0, i as int) =~= b@);
    }
}

/// Appends the decimal digits of `n` to `out`.
pub fn push_decimal(out: &mut Vec<u8>, n: u64)
    ensures
        final(out)@ == old(out)@ + decimal_spec(n as nat),
    decreases n,
{
    if n >= 10 {
        push_decimal(out, n / 10);
    }
    out.push((0x30 + n % 10) as u8);
    proof {
        if n >= 10 {
            assert(decimal_spec(n as nat) == decimal_spec((n / 10) as nat).push(
                (0x30 + n % 10) as u8,
            ));
        }
        assert(final(out)@ =~= old(out)@ + decimal_spec(n as nat));
    }
}

/// Appends the UTF-8 encoding of the character whose code is `b` to `out`.
pub fn push_char(out: &mut Vec<u8>, b: u8)
    ensures
        final(out)@ == old(out)@ + char_utf8(b),
{
    if b < 0x80 {
        out.push(b);
    } else {
        out.push(0xc0 + b / 64);
        out.push(0x80 + b % 64);
    }
    proof {
        assert(final(out)@ =~= old(out)@ + char_utf8(b));
    }
}

} // verus!
