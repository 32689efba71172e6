//! Exact decimal text of 256-bit integers and of the real numbers that WADs
//! stand for. A WAD is turned into a decimal number by text, never by a cast
//! to a binary float, so no digit is lost on the way.

use crate::wad::{wad, WI256};
use vstd::arithmetic::div_mod::lemma_div_multiples_vanish;
use ethers::types::{I256, U256};
use vstd::arithmetic::div_mod::lemma_div_denominator;
use vstd::prelude::*;

verus! {

/// The ASCII code of `'0'`.
pub const DIGIT_ZERO: u8 = 48;

/// The ASCII code of `'0'`, in specifications.
pub open spec fn zero_code() -> u8 {
    DIGIT_ZERO
}

/// 10^k.
pub open spec fn pow10(k: nat) -> int
    decreases k,
{
    if k == 0 {
        1
    } else {
        10 * pow10((k - 1) as nat)
    }
}

/// The decimal digits of `n` in ASCII, most significant first, with no
/// leading zero (zero itself is `"0"`).
pub open spec fn dec_digits(n: nat) -> Seq<u8>
    decreases n,
{
    if n < 10 {
        seq![(zero_code() + n) as u8]
    } else {
        dec_digits(n / 10).push((zero_code() + n % 10) as u8)
    }
}

/// The `k` lowest decimal digits of `n` in ASCII, zeros included, most
/// significant first.
pub open spec fn low_digits(n: nat, k: nat) -> Seq<u8>
    decreases k,
{
    if k == 0 {
        seq![]
    } else {
        low_digits(n / 10, (k - 1) as nat).push((zero_code() + n % 10) as u8)
    }
}

/// The text of an integer: a `-` before a negative one, then the digits of
/// its magnitude.
pub open spec fn int_text(v: int) -> Seq<u8> {
    if v < 0 {
        seq!['-' as u8] + dec_digits((-v) as nat)
    } else {
        dec_digits(v as nat)
    }
}

/// The exact decimal text of `v / 10^18`: a `-` where `v` is negative, the
/// digits of the whole part, a point, and all eighteen fractional digits.
pub open spec fn wad_text(v: int) -> Seq<u8> {
    let m = if v < 0 { -v } else { v };
    let body = dec_digits((m / wad()) as nat) + seq!['.' as u8] + low_digits(m as nat, 18);
    if v < 0 {
        seq!['-' as u8] + body
    } else {
        body
    }
}

proof fn lemma_pow10_positive(k: nat)
    ensures
        pow10(k) >= 1,
    decreases k,
{
    if k > 0 {
        lemma_pow10_positive((k - 1) as nat);
    }
}

proof fn lemma_pow10_18()
    ensures
        pow10(18) == wad(),
{
    reveal_with_fuel(pow10, 19);
}

/// The number of digits bounds the magnitude.
proof fn lemma_digits_len(n: nat)
    ensures
        dec_digits(n).len() >= 1,
        n < pow10(dec_digits(n).len()),
        n >= 10 ==> n >= pow10((dec_digits(n).len() - 1) as nat),
    decreases n,
{
    if n >= 10 {
        lemma_digits_len(n / 10);
        let k = dec_digits(n / 10).len();
        if n / 10 >= 10 {
            assert(n >= 10 * pow10((k - 1) as nat));
        } else {
            assert(k == 1);
            reveal_with_fuel(pow10, 2);
        }
    } else {
        reveal_with_fuel(pow10, 2);
    }
}

/// Low digits of zero are zeros.
proof fn lemma_low_digits_zero(k: nat)
    ensures
        low_digits(0, k) == Seq::new(k, |i: int| zero_code()),
    decreases k,
{
    if k > 0 {
        lemma_low_digits_zero((k - 1) as nat);
        assert(low_digits(0, k) =~= Seq::new(k, |i: int| zero_code()));
    }
}

/// Below 10^k, the k low digits are the digits padded with zeros.
proof fn lemma_low_digits_pad(n: nat, k: nat)
    requires
        k >= 1,
        n < pow10(k),
    ensures
        dec_digits(n).len() <= k,
        low_digits(n, k) == Seq::new((k - dec_digits(n).len()) as nat, |i: int| zero_code())
            + dec_digits(n),
    decreases k,
{
    if n < 10 {
        lemma_low_digits_zero((k - 1) as nat);
        assert(low_digits(n, k) =~= Seq::new((k - 1) as nat, |i: int| zero_code()) + dec_digits(n));
    } else {
        if k == 1 {
            reveal_with_fuel(pow10, 2);
        }
        lemma_low_digits_pad(n / 10, (k - 1) as nat);
        let z = Seq::new((k - dec_digits(n).len()) as nat, |i: int| zero_code());
        assert(low_digits(n, k) =~= z + dec_digits(n));
    }
}

/// At or above 10^k, the digits split into the digits of `n / 10^k` and the
/// k low digits.
proof fn lemma_digits_split(n: nat, k: nat)
    requires
        n >= pow10(k),
    ensures
        dec_digits(n) == dec_digits((n as int / pow10(k)) as nat) + low_digits(n, k),
    decreases k,
{
    if k == 0 {
        assert(dec_digits(n) =~= dec_digits((n as int / pow10(k)) as nat) + low_digits(n, k));
    } else {
        lemma_pow10_positive((k - 1) as nat);
        lemma_digits_split(n / 10, (k - 1) as nat);
        lemma_div_denominator(n as int, 10, pow10((k - 1) as nat));
        assert(dec_digits(n) =~= dec_digits((n as int / pow10(k)) as nat) + low_digits(n, k));
    }
}

/// Relies on the `Display` of `I256`: a `-` before a negative value, then the
/// decimal digits of the magnitude as `U256` prints them.
#[verifier::external_body]
fn i256_text(a: WI256) -> (r: Vec<u8>)
    ensures
        r@ == int_text(a@),
{
    I256::from_raw(U256(a.limbs)).to_string().into_bytes()
}

/// Appends `src[from..to]` to `out`.
fn push_range(out: &mut Vec<u8>, src: &Vec<u8>, from: usize, to: usize)
    requires
        from <= to <= src.len(),
    ensures
        final(out)@ == old(out)@ + src@.subrange(from as int, to as int),
{
    let mut i: usize = from;
    while i < to
        invariant
            from <= i <= to <= src.len(),
            out@ == old(out)@ + src@.subrange(from as int, i as int),
        decreases to - i,
    {
        out.push(src[i]);
        i = i + 1;
        assert(out@ =~= old(out)@ + src@.subrange(from as int, i as int));
    }
}

/// The text of a WAD whose magnitude is below one: a zero whole part, and
/// the digits of the magnitude padded with zeros to eighteen.
proof fn lemma_text_small(v: int, m: nat)
    requires
        m == (if v < 0 { -v } else { v }),
        m < wad(),
    ensures
        dec_digits(m).len() <= 18,
        wad_text(v) == (if v < 0 { seq!['-' as u8] } else { seq![] }) + seq![zero_code(), '.' as u8]
            + Seq::new((18 - dec_digits(m).len()) as nat, |i: int| zero_code()) + dec_digits(m),
{
    lemma_pow10_18();
    lemma_low_digits_pad(m, 18);
    assert(m as int / wad() == 0);
    assert(dec_digits(0) =~= seq![zero_code()]);
    let sign: Seq<u8> = if v < 0 { seq!['-' as u8] } else { seq![] };
    assert(wad_text(v) =~= sign + seq![zero_code(), '.' as u8]
        + Seq::new((18 - dec_digits(m).len()) as nat, |i: int| zero_code()) + dec_digits(m));
}

/// The text of a WAD whose magnitude is one or more: the point goes before
/// the eighteen last digits of the magnitude.
proof fn lemma_text_large(v: int, m: nat)
    requires
        m == (if v < 0 { -v } else { v }),
        m >= wad(),
    ensures
        dec_digits(m).len() > 18,
        wad_text(v) == (if v < 0 { seq!['-' as u8] } else { seq![] })
            + dec_digits(m).subrange(0, dec_digits(m).len() - 18) + seq!['.' as u8]
            + dec_digits(m).subrange(dec_digits(m).len() - 18, dec_digits(m).len() as int),
{
    lemma_pow10_18();
    lemma_digits_split(m, 18);
    let q = (m as int / pow10(18)) as nat;
    lemma_digits_len(q);
    lemma_low_digits_len(m, 18);
    let d = dec_digits(m);
    let n = d.len();
    assert(d.subrange(0, n - 18) =~= dec_digits(q));
    assert(d.subrange(n - 18, n as int) =~= low_digits(m, 18));
    let sign: Seq<u8> = if v < 0 { seq!['-' as u8] } else { seq![] };
    assert(wad_text(v) =~= sign + d.subrange(0, n - 18) + seq!['.' as u8] + d.subrange(n - 18, n as int));
}

/// The exact decimal text of the real number that `w` stands for, that is of
/// `w / 10^18`, with all eighteen fractional digits. It is made from the
/// integer's own decimal text by placing the point, so nothing is rounded.
pub fn wad_decimal_text(w: WI256) -> (r: Vec<u8>)
    ensures
        r@ == wad_text(w@),
{
    let s = i256_text(w);
    let neg = w.is_negative();
    let ghost m: nat = if w@ < 0 { (-w@) as nat } else { w@ as nat };
    let ghost d = dec_digits(m);
    let start: usize = if neg { 1 } else { 0 };
    proof {
        lemma_digits_len(m);
        assert(s@.subrange(start as int, s@.len() as int) =~= d);
    }
    let n: usize = s.len() - start;
    let mut out: Vec<u8> = Vec::new();
    if neg {
        out.push('-' as u8);
    }
    let ghost prefix = out@;
    assert(prefix =~= (if w@ < 0 { seq!['-' as u8] } else { seq![] }));
    if n <= 18 {
        proof {
            lemma_pow10_18();
            if m >= wad() {
                lemma_text_large(w@, m);
            }
            lemma_text_small(w@, m);
        }
        out.push(DIGIT_ZERO);
        out.push('.' as u8);
        let mut z: usize = 0;
        while z < 18 - n
            invariant
                n <= 18,
                z <= 18 - n,
                out@ == prefix + seq![zero_code(), '.' as u8] + Seq::new(z as nat, |i: int| zero_code()),
            decreases 18 - n - z,
        {
            out.push(DIGIT_ZERO);
            z = z + 1;
            assert(out@ =~= prefix + seq![zero_code(), '.' as u8] + Seq::new(z as nat, |i: int| zero_code()));
        }
        push_range(&mut out, &s, start, s.len());
        assert(out@ =~= wad_text(w@));
    } else {
        proof {
            lemma_pow10_18();
            if m < wad() {
                lemma_text_small(w@, m);
            }
            lemma_text_large(w@, m);
            assert(s@.subrange(start as int, start + n - 18) =~= d.subrange(0, n - 18));
            assert(s@.subrange(start + n - 18, s@.len() as int) =~= d.subrange(n - 18, n as int));
        }
        push_range(&mut out, &s, start, start + n - 18);
        out.push('.' as u8);
        push_range(&mut out, &s, start + n - 18, s.len());
        assert(out@ =~= wad_text(w@));
    }
    out
}

proof fn lemma_low_digits_len(n: nat, k: nat)
    ensures
        low_digits(n, k).len() == k,
    decreases k,
{
    if k > 0 {
        lemma_low_digits_len(n / 10, (k - 1) as nat);
    }
}

/// The low digits of a multiple of 10^k are all zeros.
proof fn lemma_low_digits_of_multiple(c: nat, k: nat)
    ensures
        low_digits((c * pow10(k)) as nat, k) == Seq::new(k, |i: int| zero_code()),
    decreases k,
{
    if k > 0 {
        let p = pow10((k - 1) as nat);
        lemma_pow10_positive((k - 1) as nat);
        let x = c * pow10(k);
        assert(x == (c * p) * 10) by (nonlinear_arith)
            requires
                x == c * pow10(k),
                pow10(k) == 10 * p,
        ;
        assert(x / 10 == c * p && x % 10 == 0) by (nonlinear_arith)
            requires
                x == (c * p) * 10,
                c >= 0,
                p >= 1,
        ;
        lemma_low_digits_of_multiple(c, (k - 1) as nat);
        assert(low_digits(x as nat, k) =~= Seq::new(k, |i: int| zero_code()));
    }
}

/// Scaling a non-negative integer `n` up to a WAD and reading it back gives
/// `n` exactly: the text of `n * 10^18` is the digits of `n`, a point and
/// eighteen zeros.
pub proof fn lemma_decode_scale_up(n: int)
    requires
        0 <= n,
        crate::wad::fits_i256(n * wad()),
    ensures
        (n * wad()) / wad() == n,
        wad_text(n * wad()) == dec_digits(n as nat) + seq!['.' as u8] + Seq::new(
            18,
            |i: int| zero_code(),
        ),
{
    lemma_div_multiples_vanish(n, wad());
    lemma_pow10_18();
    assert(n * wad() >= 0) by (nonlinear_arith)
        requires
            n >= 0,
    ;
    lemma_low_digits_of_multiple(n as nat, 18);
}

} // verus!
