use sim_core::determinism::{
    sorted_facility_keys, sorted_merchant_ids, sorted_pop_keys, sorted_settlement_ids,
};
use sim_core::types::ids::{
    facility_key_from_u64, pop_key_from_u64, pop_key_u64, MerchantId, SettlementId,
};

#[test]
fn settlement_ids_sorted_by_number() {
    let ids = vec![SettlementId::new(5), SettlementId::new(1), SettlementId::new(3)];
    let sorted = sorted_settlement_ids(ids);
    assert_eq!(sorted, vec![SettlementId::new(1), SettlementId::new(3), SettlementId::new(5)]);
}

#[test]
fn order_does_not_depend_on_input_order() {
    let a = sorted_merchant_ids(vec![MerchantId::new(2), MerchantId::new(9), MerchantId::new(4)]);
    let b = sorted_merchant_ids(vec![MerchantId::new(9), MerchantId::new(4), MerchantId::new(2)]);
    assert_eq!(a, b);
    assert_eq!(sorted_merchant_ids(a.clone()), a);
}

#[test]
fn pop_keys_sorted_by_ffi_value() {
    let keys = vec![
        pop_key_from_u64((2 << 32) | 1),
        pop_key_from_u64(3),
        pop_key_from_u64((1 << 32) | 2),
    ];
    let sorted: Vec<u64> = sorted_pop_keys(keys).into_iter().map(pop_key_u64).collect();
    assert_eq!(sorted, vec![(1 << 32) | 2, (1 << 32) | 3, (3 << 32) | 1]);
}

#[test]
fn duplicates_and_empty_inputs() {
    assert!(sorted_settlement_ids(Vec::new()).is_empty());
    let keys = vec![facility_key_from_u64(4), facility_key_from_u64(1), facility_key_from_u64(4)];
    let sorted = sorted_facility_keys(keys);
    assert_eq!(
        sorted,
        vec![facility_key_from_u64(1), facility_key_from_u64(4), facility_key_from_u64(4)]
    );
}
