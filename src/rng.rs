//! Samplers of fuzz inputs: one over the whole non-negative range of a
//! 256-bit integer, one over the domain on which the WAD exponential is
//! defined.

use crate::wad::{half_range, limbs_value, wad, WU256, WI256, WAD_SCALE};
use rand::rngs::ThreadRng;
use rand::Rng;
use vstd::prelude::*;

verus! {

/// The largest raw input, `135.305999368893231589` as a WAD, on which the
/// exponential neither overflows nor underflows.
pub const EXP_INPUT_BOUND: i128 = 135305999368893231589;

/// The most draws that the rejection sampler makes before it gives up.
pub const MAX_DRAWS: u64 = 0xffff_ffff_ffff_ffff;

/// The largest signed 256-bit integer divided by 10^18.
pub open spec fn max_positive_sample() -> int {
    (half_range() - 1) / wad()
}

#[verifier::external_type_specification]
#[verifier::external_body]
pub struct ExThreadRng(ThreadRng);

/// Relies on `Rng::gen` for `[u64; 4]`: four uniform random limbs. Nothing
/// is known of them.
#[verifier::external_body]
fn draw_limbs(rng: &mut ThreadRng) -> (r: [u64; 4]) {
    rng.gen()
}

/// Relies on `Rng::gen_range` over an inclusive range: a value inside it.
/// The range must not be empty, or the call panics.
#[verifier::external_body]
fn draw_between(rng: &mut ThreadRng, lo: i128, hi: i128) -> (r: i128)
    requires
        lo <= hi,
    ensures
        lo <= r <= hi,
{
    rng.gen_range(lo..=hi)
}

/// The largest unsigned 256-bit integer divided by 10^18: the largest whole
/// number that a WAD in 256 unsigned bits can hold.
pub open spec fn wad_max_value() -> int {
    (2 * half_range() - 1) / wad()
}

/// The largest whole number that a WAD in 256 unsigned bits can hold.
pub fn wad_max() -> (r: WU256)
    ensures
        r@ == wad_max_value(),
{
    let all_ones = WU256 { limbs: [u64::MAX, u64::MAX, u64::MAX, u64::MAX] };
    assert(all_ones@ == 2 * half_range() - 1);
    crate::wad::u256_checked_div(all_ones, WU256::from_u128(WAD_SCALE)).unwrap()
}

/// A draw of four limbs read as a signed 256-bit integer.
pub open spec fn signed_draw(limbs: [u64; 4]) -> int {
    (WI256 { limbs })@
}

/// What the rejection sampler makes of a run of draws: the first draw that is
/// not negative, divided by 10^18; `None` where every draw is negative.
pub open spec fn first_sample(draws: Seq<[u64; 4]>) -> Option<int>
    decreases draws.len(),
{
    if draws.len() == 0 {
        None
    } else if signed_draw(draws[0]) >= 0 {
        Some(signed_draw(draws[0]) / wad())
    } else {
        first_sample(draws.drop_first())
    }
}

/// The WAD that a draw of four limbs gives as an unsigned sample: the
/// 256-bit value divided by 10^18, rounded down.
pub fn unsigned_sample_of(limbs: [u64; 4]) -> (r: WU256)
    ensures
        r@ == limbs_value(limbs) / wad(),
{
    let num = WU256 { limbs };
    proof {
        num.lemma_fits();
    }
    crate::wad::u256_checked_div(num, WU256::from_u128(WAD_SCALE)).unwrap()
}

/// The WAD that a draw of four limbs gives as a signed sample: `None` where
/// the draw is negative and must be drawn again, else the draw divided by
/// 10^18.
pub fn signed_sample_of(limbs: [u64; 4]) -> (r: Option<WI256>)
    ensures
        r.is_none() <==> signed_draw(limbs) < 0,
        r.is_some() ==> r.unwrap()@ == signed_draw(limbs) / wad(),
        r.is_some() ==> 0 <= r.unwrap()@ <= max_positive_sample(),
{
    let num = WI256 { limbs };
    if num.is_negative() {
        return None;
    }
    proof {
        num.lemma_fits();
        assert(num@ / wad() <= max_positive_sample()) by {
            vstd::arithmetic::div_mod::lemma_div_is_ordered(num@, half_range() - 1, wad());
        }
    }
    crate::wad::i256_checked_div(num, WI256::from_i128(WAD_SCALE as i128))
}

/// Replays the rejection sampler on a given run of draws: the first draw that
/// is not negative, divided by 10^18.
pub fn sample_from_draws(draws: &Vec<[u64; 4]>) -> (r: Option<WI256>)
    ensures
        r.is_some() == first_sample(draws@).is_some(),
        r.is_some() ==> r.unwrap()@ == first_sample(draws@).unwrap(),
{
    let mut i: usize = 0;
    assert(draws@.subrange(0, draws@.len() as int) =~= draws@);
    while i < draws.len()
        invariant
            i <= draws.len(),
            first_sample(draws@) == first_sample(draws@.subrange(i as int, draws@.len() as int)),
        decreases draws.len() - i,
    {
        let ghost rest = draws@.subrange(i as int, draws@.len() as int);
        assert(rest.drop_first() =~= draws@.subrange(i + 1, draws@.len() as int));
        assert(rest[0] == draws@[i as int]);
        match signed_sample_of(draws[i]) {
            Some(w) => {
                return Some(w);
            },
            None => {},
        }
        i = i + 1;
    }
    assert(draws@.subrange(i as int, draws@.len() as int).len() == 0);
    None
}

/// Draws a uniform unsigned 256-bit integer and divides it by 10^18 (see
/// `unsigned_sample_of`).
pub fn gen_wad(mut rng: ThreadRng) -> (r: WU256)
    ensures
        0 <= r@ <= wad_max_value(),
{
    let limbs = draw_limbs(&mut rng);
    proof {
        (WU256 { limbs }).lemma_fits();
        vstd::arithmetic::div_mod::lemma_div_is_ordered(
            limbs_value(limbs),
            2 * half_range() - 1,
            wad(),
        );
    }
    unsigned_sample_of(limbs)
}

/// Draws uniform signed 256-bit integers until one is not negative, and
/// divides that one by 10^18 (see `signed_sample_of`, and
/// `sample_from_draws` for the same on given draws). Each draw is rejected
/// with probability one half, so this returns `None` only after `MAX_DRAWS`
/// rejected draws.
pub fn gen_nonzero_signed_wad(rng: &mut ThreadRng) -> (r: Option<WI256>)
    ensures
        r.is_some() ==> 0 <= r.unwrap()@ <= max_positive_sample(),
{
    let mut draws: u64 = 0;
    while draws < MAX_DRAWS
        decreases MAX_DRAWS - draws,
    {
        let limbs = draw_limbs(rng);
        draws = draws + 1;
        match signed_sample_of(limbs) {
            Some(w) => {
                return Some(w);
            },
            None => {},
        }
    }
    None
}

/// Draws a raw WAD uniformly from the closed interval
/// `[-EXP_INPUT_BOUND, EXP_INPUT_BOUND]`, the domain of the exponential.
pub fn gen_wad_for_exp(rng: &mut ThreadRng) -> (r: WI256)
    ensures
        -EXP_INPUT_BOUND <= r@ <= EXP_INPUT_BOUND,
{
    let num = draw_between(rng, -EXP_INPUT_BOUND, EXP_INPUT_BOUND);
    WI256::from_i128(num)
}

} // verus!
