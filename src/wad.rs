//! 256-bit scaled integers and the scaling by 10^18.

use ethers::types::{I256, U256};
use vstd::prelude::*;

verus! {

/// The number of units in one whole: a WAD is a real number times 10^18.
pub const WAD_SCALE: u128 = 1_000_000_000_000_000_000;

/// 10^18 as a mathematical integer.
pub open spec fn wad() -> int {
    1_000_000_000_000_000_000
}

/// 2^64, the weight of one limb.
pub open spec fn limb() -> int {
    0x1_0000_0000_0000_0000
}

/// 2^255, the bound of a signed 256-bit integer.
pub open spec fn half_range() -> int {
    0x8000_0000_0000_0000 * limb() * limb() * limb()
}

/// Whether `x` fits a signed 256-bit integer.
pub open spec fn fits_i256(x: int) -> bool {
    -half_range() <= x < half_range()
}

/// Whether `x` fits an unsigned 256-bit integer.
pub open spec fn fits_u256(x: int) -> bool {
    0 <= x < 2 * half_range()
}

/// The unsigned value of four little-endian 64-bit limbs.
pub open spec fn limbs_value(l: [u64; 4]) -> int {
    l[0] as int + l[1] as int * limb() + l[2] as int * limb() * limb()
        + l[3] as int * limb() * limb() * limb()
}

/// The magnitude of `x`.
pub open spec fn abs(x: int) -> int {
    if x < 0 {
        -x
    } else {
        x
    }
}

/// Quotient of `a` by `b` rounded toward zero, as signed division in Rust.
pub open spec fn trunc_div(a: int, b: int) -> int {
    if (a < 0) != (b < 0) {
        -(abs(a) / abs(b))
    } else {
        abs(a) / abs(b)
    }
}

/// Why scaling failed.
#[derive(Clone, Copy, Debug, PartialEq, Eq, Structural)]
pub enum WadError {
    /// The product does not fit 256 bits.
    ArithmeticOverflow,
}

/// A signed 256-bit integer in two's complement, as four little-endian limbs.
/// Read as a WAD it stands for `self@ / 10^18`.
#[derive(Clone, Copy, Debug)]
pub struct WI256 {
    pub limbs: [u64; 4],
}

/// An unsigned 256-bit integer, as four little-endian limbs.
#[derive(Clone, Copy, Debug)]
pub struct WU256 {
    pub limbs: [u64; 4],
}

impl View for WI256 {
    type V = int;

    open spec fn view(&self) -> int {
        if self.limbs[3] >= 0x8000_0000_0000_0000 {
            limbs_value(self.limbs) - 2 * half_range()
        } else {
            limbs_value(self.limbs)
        }
    }
}

impl View for WU256 {
    type V = int;

    open spec fn view(&self) -> int {
        limbs_value(self.limbs)
    }
}

proof fn lemma_limbs_bounds(l: [u64; 4])
    ensures
        0 <= limbs_value(l) < 2 * half_range(),
        l[3] >= 0x8000_0000_0000_0000 <==> limbs_value(l) >= half_range(),
{
}

impl WI256 {
    /// Every value of the type is a signed 256-bit integer.
    pub proof fn lemma_fits(self)
        ensures
            fits_i256(self@),
    {
        lemma_limbs_bounds(self.limbs);
    }

    /// Whether the value is below zero.
    pub fn is_negative(&self) -> (r: bool)
        ensures
            r == (self@ < 0),
    {
        proof {
            lemma_limbs_bounds(self.limbs);
        }
        self.limbs[3] >= 0x8000_0000_0000_0000u64
    }

    /// Whether the value is the unsigned 64-bit integer `v`.
    pub fn equals_u64(&self, v: u64) -> (r: bool)
        ensures
            r == (self@ == v as int),
    {
        self.limbs[0] == v && self.limbs[1] == 0 && self.limbs[2] == 0 && self.limbs[3] == 0
    }

    /// The value of a 128-bit integer.
    pub fn from_i128(x: i128) -> (r: WI256)
        ensures
            r@ == x as int,
    {
        i256_from_i128(x)
    }
}

impl WU256 {
    /// Every value of the type is an unsigned 256-bit integer.
    pub proof fn lemma_fits(self)
        ensures
            fits_u256(self@),
    {
        lemma_limbs_bounds(self.limbs);
    }
}

/// Relies on `I256::from(i128)`: sign extension keeps the value.
#[verifier::external_body]
fn i256_from_i128(x: i128) -> (r: WI256)
    ensures
        r@ == x as int,
{
    WI256 { limbs: I256::from(x).into_raw().0 }
}

/// Relies on `I256::checked_mul`: the exact product, or `None` where it does
/// not fit 256 bits.
#[verifier::external_body]
fn i256_checked_mul(a: WI256, b: WI256) -> (r: Option<WI256>)
    ensures
        fits_i256(a@ * b@) ==> r.is_some() && r.unwrap()@ == a@ * b@,
        !fits_i256(a@ * b@) ==> r.is_none(),
{
    let x = I256::from_raw(U256(a.limbs)).checked_mul(I256::from_raw(U256(b.limbs)));
    x.map(|v| WI256 { limbs: v.into_raw().0 })
}

/// Scales an integer up to a WAD: `a * 10^18`, or `ArithmeticOverflow`
/// where the product does not fit 256 bits.
pub fn to_wad(a: WI256) -> (r: Result<WI256, WadError>)
    ensures
        fits_i256(a@ * wad()) <==> r.is_ok(),
        r.is_ok() ==> r.unwrap()@ == a@ * wad(),
        r.is_err() ==> r == Err::<WI256, WadError>(WadError::ArithmeticOverflow),
{
    let scale = WI256::from_i128(WAD_SCALE as i128);
    match i256_checked_mul(a, scale) {
        Some(v) => Ok(v),
        None => Err(WadError::ArithmeticOverflow),
    }
}

/// Relies on `I256::checked_div`: the quotient rounded toward zero, or
/// `None` for a zero divisor and for the one quotient that does not fit.
#[verifier::external_body]
pub(crate) fn i256_checked_div(a: WI256, b: WI256) -> (r: Option<WI256>)
    ensures
        b@ == 0 || (a@ == -half_range() && b@ == -1) ==> r.is_none(),
        b@ != 0 && !(a@ == -half_range() && b@ == -1) ==> r.is_some() && r.unwrap()@ == trunc_div(
            a@,
            b@,
        ),
{
    let x = I256::from_raw(U256(a.limbs)).checked_div(I256::from_raw(U256(b.limbs)));
    x.map(|v| WI256 { limbs: v.into_raw().0 })
}

/// Relies on `U256::checked_div`: the quotient rounded down, or `None` for
/// a zero divisor.
#[verifier::external_body]
pub(crate) fn u256_checked_div(a: WU256, b: WU256) -> (r: Option<WU256>)
    ensures
        b@ == 0 ==> r.is_none(),
        b@ != 0 ==> r.is_some() && r.unwrap()@ == a@ / b@,
{
    U256(a.limbs).checked_div(U256(b.limbs)).map(|v| WU256 { limbs: v.0 })
}

/// Relies on `U256::from(u128)`: the value is kept.
#[verifier::external_body]
fn u256_from_u128(x: u128) -> (r: WU256)
    ensures
        r@ == x as int,
{
    WU256 { limbs: U256::from(x).0 }
}

impl WU256 {
    /// The value of a 128-bit unsigned integer.
    pub fn from_u128(x: u128) -> (r: WU256)
        ensures
            r@ == x as int,
    {
        u256_from_u128(x)
    }
}

} // verus!
