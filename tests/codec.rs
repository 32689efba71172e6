use wadfuzz::{to_wad, wad_decimal_text, wad_max, WadError, WAD_SCALE, WI256, WU256};

fn value_of(w: &WI256) -> i128 {
    // Only for values that fit 128 bits.
    let lo = (w.limbs[0] as u128) | ((w.limbs[1] as u128) << 64);
    lo as i128
}

fn text(w: WI256) -> String {
    String::from_utf8(wad_decimal_text(w)).unwrap()
}

#[test]
fn test_wad_max() {
    let m = wad_max();
    println!("WADMAX: {:?}", m);
    assert_eq!(
        m.limbs,
        [0x5afe688c928e1f21, 0x5fe645cc4873f9e6, 0x725dd1d243aba0e7, 0x12]
    );
}

#[test]
fn scale_up_one_is_wad() {
    let w = to_wad(WI256::from_i128(1)).unwrap();
    assert_eq!(value_of(&w), WAD_SCALE as i128);
}

#[test]
fn scale_up_negative() {
    let w = to_wad(WI256::from_i128(-7)).unwrap();
    assert!(w.is_negative());
    assert_eq!(value_of(&w), -7_000_000_000_000_000_000);
    assert_eq!(w.limbs[2], u64::MAX);
    assert_eq!(w.limbs[3], u64::MAX);
}

#[test]
fn scale_up_overflows() {
    // 2^250 times 10^18 does not fit 256 bits.
    let big = WI256 { limbs: [0, 0, 0, 1 << 58] };
    assert_eq!(to_wad(big).unwrap_err(), WadError::ArithmeticOverflow);
}

#[test]
fn scale_up_largest_that_fits() {
    // (2^255 - 1) / 10^18 scales up without overflow, one more does not.
    let n = WI256 { limbs: [0x2d7f344649470f90, 0xaff322e62439fcf3, 0x392ee8e921d5d073, 0x9] };
    assert!(to_wad(n).is_ok());
    let text_n = text(to_wad(n).unwrap());
    assert_eq!(text_n, "57896044618658097711785492504343953926634992332820282019728.000000000000000000");
    let next = WI256 { limbs: [n.limbs[0] + 1, n.limbs[1], n.limbs[2], n.limbs[3]] };
    assert_eq!(to_wad(next).unwrap_err(), WadError::ArithmeticOverflow);
}

#[test]
fn decimal_text_of_zero() {
    assert_eq!(text(WI256::from_i128(0)), "0.000000000000000000");
}

#[test]
fn decimal_text_of_one_and_a_half() {
    assert_eq!(text(WI256::from_i128(1_500_000_000_000_000_000)), "1.500000000000000000");
}

#[test]
fn decimal_text_of_smallest_negative_unit() {
    assert_eq!(text(WI256::from_i128(-1)), "-0.000000000000000001");
}

#[test]
fn decimal_text_of_minimum() {
    let min = WI256 { limbs: [0, 0, 0, 1 << 63] };
    assert_eq!(
        text(min),
        "-57896044618658097711785492504343953926634992332820282019728.792003956564819968"
    );
}

#[test]
fn decode_of_scale_up_is_the_integer() {
    for n in [0i128, 1, 42, 999, 123_456_789_012_345_678_901] {
        let w = to_wad(WI256::from_i128(n)).unwrap();
        assert_eq!(text(w), format!("{}.000000000000000000", n));
    }
}

#[test]
fn equals_u64_and_sign() {
    let w = WI256::from_i128(WAD_SCALE as i128);
    assert!(w.equals_u64(1_000_000_000_000_000_000));
    assert!(!w.equals_u64(0));
    assert!(!WI256::from_i128(-1).equals_u64(u64::MAX));
    assert!(WI256::from_i128(-1).is_negative());
    assert!(!WI256::from_i128(0).is_negative());
}

#[test]
fn unsigned_from_u128() {
    let u = WU256::from_u128(u128::MAX);
    assert_eq!(u.limbs, [u64::MAX, u64::MAX, 0, 0]);
}
