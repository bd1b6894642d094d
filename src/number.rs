//! Decimal numbers of the markup grammar, held as fixed-point thousandths.
use vstd::prelude::*;

verus! {

/// Every number of the grammar lies strictly between `-MAX_MILLI` and `MAX_MILLI`.
pub const MAX_MILLI: i64 = 1_000_000_000_000;

/// Largest number of digits before the decimal point.
pub const MAX_INT_DIGITS: usize = 9;

/// Largest number of digits after the decimal point.
pub const MAX_FRAC_DIGITS: usize = 3;

pub open spec fn is_digit(b: u8) -> bool {
    0x30 <= b <= 0x39
}

pub open spec fn all_digits(s: Seq<u8>) -> bool {
    forall|i: int| 0 <= i < s.len() ==> is_digit(#[trigger] s[i])
}

/// The value of a string of decimal digits.
pub open spec fn digits_val(s: Seq<u8>) -> nat
    decreases s.len(),
{
    if s.len() == 0 {
        0
    } else {
        digits_val(s.drop_last()) * 10 + (s.last() - 0x30) as nat
    }
}

pub open spec fn pow10(n: nat) -> nat
    decreases n,
{
    if n == 0 {
        1
    } else {
        10 * pow10((n - 1) as nat)
    }
}

/// The first index at or after `i` where `s` holds `b`, or `s.len()` if there is none.
pub open spec fn find_from(s: Seq<u8>, b: u8, i: int) -> int
    decreases s.len() - i,
{
    if i >= s.len() {
        s.len() as int
    } else if s[i] == b {
        i
    } else {
        find_from(s, b, i + 1)
    }
}

/// `s` without a leading `+` or `-`.
pub open spec fn unsigned_part(s: Seq<u8>) -> Seq<u8> {
    if s.len() > 0 && (s[0] == 0x2d || s[0] == 0x2b) {
        s.drop_first()
    } else {
        s
    }
}

pub open spec fn int_part(s: Seq<u8>) -> Seq<u8> {
    let u = unsigned_part(s);
    u.take(find_from(u, 0x2e, 0))
}

pub open spec fn frac_part(s: Seq<u8>) -> Seq<u8> {
    let u = unsigned_part(s);
    let d = find_from(u, 0x2e, 0);
    if d < u.len() {
        u.skip(d + 1)
    } else {
        Seq::empty()
    }
}

/// Whether `s` is a decimal number of the grammar: an optional sign, up to nine
/// digits, and optionally a point followed by up to three digits; at least one digit.
pub open spec fn is_number(s: Seq<u8>) -> bool {
    let ip = int_part(s);
    let fp = frac_part(s);
    all_digits(ip) && all_digits(fp) && ip.len() + fp.len() >= 1 && ip.len() <= MAX_INT_DIGITS
        && fp.len() <= MAX_FRAC_DIGITS
}

/// The value of a number of the grammar, in thousandths.
pub open spec fn milli_value(s: Seq<u8>) -> int {
    let fp = frac_part(s);
    let mag = digits_val(int_part(s)) * 1000 + digits_val(fp) * pow10(
        (MAX_FRAC_DIGITS - fp.len()) as nat,
    );
    if s.len() > 0 && s[0] == 0x2d {
        -mag
    } else {
        mag as int
    }
}

/// The number `s` denotes in thousandths, or `None` if it is malformed.
pub open spec fn parse_milli_spec(s: Seq<u8>) -> Option<i64> {
    if is_number(s) {
        Some(milli_value(s) as i64)
    } else {
        None
    }
}

proof fn lemma_digits_val_bound(s: Seq<u8>)
    requires
        all_digits(s),
    ensures
        digits_val(s) < pow10(s.len()),
    decreases s.len(),
{
    if s.len() > 0 {
        assert(all_digits(s.drop_last())) by {
            assert forall|i: int| 0 <= i < s.drop_last().len() implies is_digit(
                #[trigger] s.drop_last()[i],
            ) by {
                assert(is_digit(s[i]));
            }
        }
        lemma_digits_val_bound(s.drop_last());
        assert(is_digit(s[s.len() - 1]));
    }
}

/// Reads the digits `s[lo..hi]`; `None` unless all of them are digits.
fn read_digits(s: &[u8], lo: usize, hi: usize) -> (r: Option<u64>)
    requires
        lo <= hi <= s@.len(),
        hi - lo <= 9,
    ensures
        r is Some <==> all_digits(s@.subrange(lo as int, hi as int)),
        r is Some ==> r->0 == digits_val(s@.subrange(lo as int, hi as int)),
        r is Some ==> r->0 < 1_000_000_000,
{
    proof {
        lemma_pow10_values();
    }
    let mut acc: u64 = 0;
    let mut i = lo;
    while i < hi
        invariant
            lo <= i <= hi <= s@.len(),
            hi - lo <= 9,
            all_digits(s@.subrange(lo as int, i as int)),
            acc == digits_val(s@.subrange(lo as int, i as int)),
            acc < pow10((i - lo) as nat),
            pow10((i - lo) as nat) <= 1_000_000_000,
            pow10(9) == 1_000_000_000,
        decreases hi - i,
    {
        let c = s[i];
        if !(0x30 <= c && c <= 0x39) {
            proof {
                let t = s@.subrange(lo as int, hi as int);
                assert(t[i - lo] == c);
            }
            return None;
        }
        proof {
            let a = s@.subrange(lo as int, i as int);
            let b = s@.subrange(lo as int, i + 1);
            assert(b.drop_last() =~= a);
            assert(all_digits(b)) by {
                assert forall|k: int| 0 <= k < b.len() implies is_digit(#[trigger] b[k]) by {
                    if k < a.len() {
                        assert(b[k] == a[k]);
                    }
                }
            }
            let p = pow10((i - lo) as nat);
            let d = (c - 0x30) as int;
            assert(pow10((i + 1 - lo) as nat) == 10 * p);
            assert(acc * 10 + d < 10 * p) by (nonlinear_arith)
                requires
                    acc < p,
                    0 <= d <= 9,
            ;
            lemma_pow10_mono((i + 1 - lo) as nat, 9);
        }
        acc = acc * 10 + (c - 0x30) as u64;
        i = i + 1;
    }
    Some(acc)
}

proof fn lemma_pow10_values()
    ensures
        pow10(0) == 1,
        pow10(1) == 10,
        pow10(2) == 100,
        pow10(3) == 1000,
        pow10(9) == 1_000_000_000,
{
    reveal_with_fuel(pow10, 10);
}

proof fn lemma_pow10_mono(a: nat, b: nat)
    requires
        a <= b,
    ensures
        pow10(a) <= pow10(b),
    decreases b,
{
    if a < b {
        lemma_pow10_mono(a, (b - 1) as nat);
    }
}

/// The position of the first `.` in `s[lo..hi]`, or `hi`.
fn find_dot(s: &[u8], lo: usize, hi: usize) -> (r: usize)
    requires
        lo <= hi <= s@.len(),
    ensures
        r - lo == find_from(s@.subrange(lo as int, hi as int), 0x2e, 0),
        lo <= r <= hi,
{
    let ghost u = s@.subrange(lo as int, hi as int);
    let mut dot = lo;
    while dot < hi && s[dot] != 0x2e
        invariant
            lo <= dot <= hi <= s@.len(),
            u == s@.subrange(lo as int, hi as int),
            find_from(u, 0x2e, (dot - lo) as int) == find_from(u, 0x2e, 0),
        decreases hi - dot,
    {
        proof {
            assert(u[dot - lo] == s@[dot as int]);
        }
        dot = dot + 1;
    }
    proof {
        if dot < hi {
            assert(u[dot - lo] == s@[dot as int]);
        }
    }
    dot
}

/// Parses `s[lo..hi]` as a number of the grammar, in thousandths.
pub fn parse_milli(s: &[u8], lo: usize, hi: usize) -> (r: Option<i64>)
    requires
        lo <= hi <= s@.len(),
    ensures
        r == parse_milli_spec(s@.subrange(lo as int, hi as int)),
        r is Some ==> -MAX_MILLI < r->0 < MAX_MILLI,
{
    let ghost t = s@.subrange(lo as int, hi as int);
    let mut start = lo;
    if lo < hi && (s[lo] == 0x2d || s[lo] == 0x2b) {
        start = lo + 1;
    }
    let ghost u = unsigned_part(t);
    proof {
        assert(u =~= s@.subrange(start as int, hi as int));
    }
    let dot = find_dot(s, start, hi);
    let frac_lo = if dot < hi { dot + 1 } else { hi };
    let ghost ip = int_part(t);
    let ghost fp = frac_part(t);
    proof {
        assert(ip =~= s@.subrange(start as int, dot as int));
        assert(fp =~= s@.subrange(frac_lo as int, hi as int));
    }
    if dot - start > MAX_INT_DIGITS || hi - frac_lo > MAX_FRAC_DIGITS || (dot - start) + (hi
        - frac_lo) == 0 {
        return None;
    }
    let iv = read_digits(s, start, dot);
    let fv = read_digits(s, frac_lo, hi);
    match (iv, fv) {
        (Some(a), Some(b)) => {
            proof {
                lemma_pow10_values();
                lemma_digits_val_bound(fp);
                lemma_pow10_mono(fp.len(), 3);
            }
            let scale: u64 = if hi - frac_lo == 0 {
                1000
            } else if hi - frac_lo == 1 {
                100
            } else if hi - frac_lo == 2 {
                10
            } else {
                1
            };
            assert(scale == pow10((MAX_FRAC_DIGITS - fp.len()) as nat));
            assert(b * scale < 1000) by (nonlinear_arith)
                requires
                    b < pow10(fp.len()),
                    scale * pow10(fp.len()) == 1000,
            ;
            assert(a * 1000 <= 999_999_999_000) by (nonlinear_arith)
                requires
                    a < 1_000_000_000,
            ;
            let mag = a * 1000 + b * scale;
            if lo < hi && s[lo] == 0x2d {
                Some(-(mag as i64))
            } else {
                Some(mag as i64)
            }
        },
        _ => None,
    }
}

} // verus!
