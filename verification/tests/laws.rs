use revm::i256::two_compl;
use revm::u256::U256;

fn n(v: u64) -> U256 {
    U256::from_u64(v)
}

fn samples() -> Vec<U256> {
    vec![
        U256::zero(),
        n(1),
        n(0xdead_beef),
        U256::from_limbs([0x0123_4567_89ab_cdef, 0xfedc_ba98_7654_3210, 7, 0x8000_0000_0000_0001]),
        U256::max_value(),
    ]
}

#[test]
fn bitwise_identities_hold() {
    for a in samples() {
        assert_eq!(a.bit_not().bit_not(), a);
        assert!(a.bit_xor(&a).is_zero());
        assert_eq!(a.bit_and(&a), a);
        assert_eq!(a.bit_or(&U256::zero()), a);
        assert!(a.wrapping_add(&a.bit_not()).equals(&U256::max_value()));
        for b in samples() {
            assert_eq!(a.bit_and(&b).bit_not(), a.bit_not().bit_or(&b.bit_not()));
            assert_eq!(a.bit_or(&b).bit_not(), a.bit_not().bit_and(&b.bit_not()));
        }
    }
}

#[test]
fn negation_is_involutive() {
    for a in samples() {
        assert_eq!(two_compl(two_compl(a)), a);
        assert!(a.wrapping_add(&a.wrapping_neg()).is_zero());
    }
}

#[test]
fn shl_then_shr_roundtrip() {
    let x = U256::from_limbs([0xffff_0000_ffff_0000, 0x1234, 0, 0]);
    for s in [0usize, 1, 63, 64, 100, 178] {
        assert_eq!(x.wrapping_shl(s).wrapping_shr(s), x);
    }
    // bits pushed past the top are lost
    assert_eq!(x.wrapping_shl(200).wrapping_shr(200), U256::from_limbs([0xffff_0000_ffff_0000 & 0x00ff_ffff_ffff_ffff, 0, 0, 0]));
}

#[test]
fn shr_then_shl_clears_low_bits() {
    let x = U256::from_limbs([0x0123_4567_89ab_cdef, 0xfedc_ba98_7654_3210, 7, 9]);
    assert_eq!(x.wrapping_shr(4).wrapping_shl(4), U256::from_limbs([0x0123_4567_89ab_cde0, 0xfedc_ba98_7654_3210, 7, 9]));
    assert_eq!(x.wrapping_shr(64).wrapping_shl(64), U256::from_limbs([0, 0xfedc_ba98_7654_3210, 7, 9]));
    assert_eq!(x.wrapping_shr(0).wrapping_shl(0), x);
}

#[test]
fn mul_by_limb_wraps() {
    assert_eq!(n(7).wrapping_mul_u64(6), n(42));
    assert_eq!(n(u64::MAX).wrapping_mul_u64(u64::MAX), U256::from_limbs([1, u64::MAX - 1, 0, 0]));
    assert_eq!(U256::max_value().wrapping_mul_u64(2), U256::max_value().wrapping_sub(&n(1)));
    assert_eq!(U256::from_limbs([0, 0, 0, 1 << 63]).wrapping_mul_u64(2), U256::zero());
    assert_eq!(n(5).wrapping_mul_u64(0), U256::zero());
}
