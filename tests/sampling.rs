use rand::{thread_rng, Rng};
use wadfuzz::{
    fuzz_input, gen_nonzero_signed_wad, gen_wad, gen_wad_for_exp, sample_from_draws, sampler_for,
    signed_sample_of, unsigned_sample_of, wad_decimal_text, wad_max, MathFn, Sampler,
    EXP_INPUT_BOUND, WI256, WU256,
};

fn small_value(w: &WI256) -> i128 {
    let lo = (w.limbs[0] as u128) | ((w.limbs[1] as u128) << 64);
    lo as i128
}

fn less_or_equal(a: &[u64; 4], b: &[u64; 4]) -> bool {
    for i in (0..4).rev() {
        if a[i] != b[i] {
            return a[i] < b[i];
        }
    }
    true
}

#[test]
fn test_sample() {
    let mut rng = thread_rng();
    let num = WU256 { limbs: rng.gen() };
    println!("Random sample: {:?}", num);
}

#[test]
fn unsigned_sampler_stays_below_wad_max() {
    let num = gen_wad(thread_rng());
    assert!(less_or_equal(&num.limbs, &wad_max().limbs));
}

#[test]
fn unsigned_sample_divides_by_wad() {
    // 7 * 10^18 + 5 gives 7.
    let r = unsigned_sample_of([7_000_000_000_000_000_005, 0, 0, 0]);
    assert_eq!(r.limbs, [7, 0, 0, 0]);
    // The largest draw gives the largest whole number.
    assert_eq!(unsigned_sample_of([u64::MAX; 4]).limbs, wad_max().limbs);
    // A draw below one WAD gives zero.
    assert_eq!(unsigned_sample_of([999_999_999_999_999_999, 0, 0, 0]).limbs, [0; 4]);
}

#[test]
fn signed_sample_rejects_negative_draws() {
    assert!(signed_sample_of([u64::MAX; 4]).is_none());
    assert!(signed_sample_of([0, 0, 0, 1 << 63]).is_none());
    let r = signed_sample_of([7_000_000_000_000_000_005, 0, 0, 0]).unwrap();
    assert_eq!(r.limbs, [7, 0, 0, 0]);
    let top = signed_sample_of([u64::MAX, u64::MAX, u64::MAX, u64::MAX >> 1]).unwrap();
    assert_eq!(top.limbs, [0x2d7f344649470f90, 0xaff322e62439fcf3, 0x392ee8e921d5d073, 0x9]);
}

#[test]
fn replayed_draws_give_first_non_negative_one() {
    let draws = vec![[u64::MAX; 4], [7_000_000_000_000_000_005, 0, 0, 0], [0; 4]];
    assert_eq!(sample_from_draws(&draws).unwrap().limbs, [7, 0, 0, 0]);
    let negative = vec![[u64::MAX; 4], [0, 0, 0, 1 << 63]];
    assert!(sample_from_draws(&negative).is_none());
    assert!(sample_from_draws(&Vec::new()).is_none());
}

#[test]
fn exp_sampler_stays_in_domain() {
    let mut rng = thread_rng();
    for _ in 0..2000 {
        let w = gen_wad_for_exp(&mut rng);
        let hi_fill = if w.is_negative() { u64::MAX } else { 0 };
        assert_eq!(w.limbs[2], hi_fill);
        assert_eq!(w.limbs[3], hi_fill);
        let v = small_value(&w);
        assert!(-EXP_INPUT_BOUND <= v && v <= EXP_INPUT_BOUND);
    }
}

#[test]
fn rejection_sampler_is_non_negative() {
    let mut rng = thread_rng();
    // (2^255 - 1) / 10^18
    let top = [0x2d7f344649470f90, 0xaff322e62439fcf3, 0x392ee8e921d5d073, 0x9];
    for _ in 0..200 {
        let w = gen_nonzero_signed_wad(&mut rng).unwrap();
        assert!(!w.is_negative());
        assert!(less_or_equal(&w.limbs, &top));
    }
}

#[test]
fn samplers_follow_the_function() {
    assert_eq!(sampler_for(MathFn::Ln), Sampler::UnboundedPositive);
    assert_eq!(sampler_for(MathFn::Exp), Sampler::BoundedSymmetric);
}

#[test]
fn log_inputs_are_whole_numbers() {
    let mut rng = thread_rng();
    for _ in 0..100 {
        let w = fuzz_input(MathFn::Ln, &mut rng).unwrap();
        assert!(!w.is_negative());
        let t = String::from_utf8(wad_decimal_text(w)).unwrap();
        assert!(t.ends_with(".000000000000000000"), "{}", t);
    }
}

#[test]
fn exp_inputs_are_raw_samples() {
    let mut rng = thread_rng();
    for _ in 0..100 {
        let w = fuzz_input(MathFn::Exp, &mut rng).unwrap();
        let v = small_value(&w);
        assert!(-EXP_INPUT_BOUND <= v && v <= EXP_INPUT_BOUND);
    }
}
