use revm::gas::{Gas, VERYLOW};

#[test]
fn new_gas_is_untouched() {
    let gas = Gas::new(500);
    assert_eq!(gas.limit(), 500);
    assert_eq!(gas.spend(), 0);
    assert_eq!(gas.remaining(), 500);
    assert_eq!(gas.refunded(), 0);
}

#[test]
fn record_cost_only_within_limit() {
    let mut gas = Gas::new(10);
    assert!(gas.record_cost(VERYLOW));
    assert_eq!(gas.spend(), 3);
    assert!(gas.record_cost(7));
    assert_eq!(gas.remaining(), 0);
    assert!(!gas.record_cost(1));
    assert_eq!(gas.spend(), 10);
    let mut big = Gas::new(u64::MAX);
    assert!(big.record_cost(u64::MAX));
    assert!(!big.record_cost(u64::MAX));
    assert_eq!(big.remaining(), 0);
}

#[test]
fn erase_undoes_record() {
    let mut gas = Gas::new(100);
    assert!(gas.record_cost(40));
    let before = gas;
    assert!(gas.record_cost(25));
    gas.erase_cost(25);
    assert_eq!(gas.spend(), before.spend());
    assert_eq!(gas.remaining(), before.remaining());
    assert_eq!(gas.refunded(), before.refunded());
}

#[test]
fn refunds_add_up() {
    let mut gas = Gas::new(100);
    gas.record_refund(20);
    gas.record_refund(-5);
    assert_eq!(gas.refunded(), 15);
    assert_eq!(gas.spend(), 0);
}
