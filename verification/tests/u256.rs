use revm::i256::{i256_cmp, i256_sign, two_compl, Sign};
use revm::u256::U256;
use std::cmp::Ordering;

fn n(v: u64) -> U256 {
    U256::from_u64(v)
}

#[test]
fn wrapping_arithmetic() {
    assert_eq!(U256::max_value().wrapping_add(&n(1)), U256::zero());
    assert_eq!(U256::zero().wrapping_sub(&n(1)), U256::max_value());
    assert_eq!(n(u64::MAX).wrapping_add(&n(1)), U256::from_limbs([0, 1, 0, 0]));
    assert_eq!(U256::from_limbs([0, 1, 0, 0]).wrapping_sub(&n(1)), n(u64::MAX));
    assert_eq!(n(10).wrapping_sub(&n(3)), n(7));
    assert_eq!(n(3).wrapping_sub(&n(10)), n(7).wrapping_neg());
    assert_eq!(n(1).wrapping_neg(), U256::max_value());
    assert_eq!(U256::zero().wrapping_neg(), U256::zero());
    assert_eq!(two_compl(two_compl(n(12345))), n(12345));
}

#[test]
fn shifts_across_limbs() {
    let x = U256::from_limbs([0x1122_3344_5566_7788, 0x99aa_bbcc_ddee_ff00, 0, 0]);
    assert_eq!(x.wrapping_shl(8), U256::from_limbs([0x2233_4455_6677_8800, 0xaabb_ccdd_eeff_0011, 0x99, 0]));
    assert_eq!(x.wrapping_shl(64), U256::from_limbs([0, 0x1122_3344_5566_7788, 0x99aa_bbcc_ddee_ff00, 0]));
    assert_eq!(x.wrapping_shl(200), U256::from_limbs([0, 0, 0, 0x2233_4455_6677_8800]));
    assert_eq!(x.wrapping_shr(8), U256::from_limbs([0x0011_2233_4455_6677, 0x0099_aabb_ccdd_eeff, 0, 0]));
    assert_eq!(x.wrapping_shr(68), U256::from_limbs([0x099a_abbc_cdde_eff0, 0, 0, 0]));
    assert_eq!(x.wrapping_shr(usize::MAX), U256::zero());
    assert_eq!(x.wrapping_shl(usize::MAX), U256::zero());
}

#[test]
fn bytes_and_saturation() {
    let x = U256::from_limbs([0x0807_0605_0403_0201, 0, 0, 0xff00_0000_0000_0000]);
    assert_eq!(x.byte(0), 0x01);
    assert_eq!(x.byte(7), 0x08);
    assert_eq!(x.byte(8), 0);
    assert_eq!(x.byte(31), 0xff);
    assert_eq!(n(77).as_usize_saturated(), 77);
    assert_eq!(x.as_usize_saturated(), usize::MAX);
}

#[test]
fn signs_and_signed_order() {
    assert_eq!(i256_sign(&n(0)), Sign::Zero);
    assert_eq!(i256_sign(&n(5)), Sign::Plus);
    assert_eq!(i256_sign(&U256::max_value()), Sign::Minus);
    assert_eq!(i256_cmp(&U256::max_value(), &n(0)), Ordering::Less);
    assert_eq!(i256_cmp(&n(0), &U256::max_value()), Ordering::Greater);
    assert_eq!(i256_cmp(&n(2).wrapping_neg(), &n(1).wrapping_neg()), Ordering::Less);
    assert_eq!(i256_cmp(&n(4), &n(4)), Ordering::Equal);
    assert!(n(3).lt(&n(4)));
    assert!(n(4).gt(&n(3)));
    assert!(n(4).equals(&n(4)));
    assert!(U256::zero().is_zero());
}
