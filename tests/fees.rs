use aligned_batcher::fees::{
    compute_max_fee, create_new_task_fee_params, estimate_fee, fee_per_proof, gas_per_proof,
    get_bumped_gas_price, PriceEstimate, CONSTANT_GAS_COST, MIN_FEE_PER_PROOF,
};
use aligned_batcher::settlement::retry_delay;

#[test]
fn constants() {
    assert_eq!(CONSTANT_GAS_COST, 725_000);
    assert_eq!(MIN_FEE_PER_PROOF, 1_300_000_000_000);
}

#[test]
fn gas_and_fee_per_proof() {
    assert_eq!(gas_per_proof(1), 738_000);
    assert_eq!(gas_per_proof(4), 194_250);
    assert_eq!(gas_per_proof(3), 254_666);
    assert_eq!(fee_per_proof(4, 1_000_000_000), Some(194_250_000_000_000));
    assert_eq!(fee_per_proof(1, u128::MAX), None);
}

#[test]
fn task_fee_params() {
    let p = create_new_task_fee_params(4, 1_000_000_000).unwrap();
    assert_eq!(p.fee_per_proof, 194_250_000_000_000);
    assert_eq!(p.fee_for_aggregator, 600_000_000_000_000);
    assert_eq!(p.respond_to_task_fee_limit, 1_500_000_000_000_000);
    assert_eq!(p.gas_price, 1_000_000_000);
    assert!(create_new_task_fee_params(4, u128::MAX / 1_000).is_none());
}

#[test]
fn test_get_bumped_gas_price_initial_iteration() {
    assert_eq!(get_bumped_gas_price(1000, 1200, 0), Some(1440));
}

#[test]
fn test_get_bumped_gas_price_with_iteration() {
    assert_eq!(get_bumped_gas_price(1000, 1200, 2), Some(1560));
}

#[test]
fn test_get_bumped_gas_price_previous_higher() {
    assert_eq!(get_bumped_gas_price(1500, 1200, 1), Some(1875));
}

#[test]
fn bumped_gas_price_overflow() {
    assert_eq!(get_bumped_gas_price(u128::MAX, 1, 0), None);
}

#[test]
fn computed_max_fee_orders() {
    let gas = 20_000_000_000u128;
    let small = compute_max_fee(gas, 2, 10).unwrap();
    let large = compute_max_fee(gas, 5, 10).unwrap();
    assert!(small < large);
    assert_eq!(small, 2 * 85_500 * gas);
    let more = compute_max_fee(gas, 5, 20).unwrap();
    assert!(more < large);
    assert_eq!(compute_max_fee(u128::MAX, 0, 1), Some(0));
}

#[test]
fn estimates_increase() {
    let gas = 20_000_000_000u128;
    let min = estimate_fee(gas, PriceEstimate::Min).unwrap();
    let default = estimate_fee(gas, PriceEstimate::Default).unwrap();
    let instant = estimate_fee(gas, PriceEstimate::Instant).unwrap();
    assert_eq!(min, 35_656 * gas);
    assert_eq!(default, 10 * min);
    assert_eq!(instant, 32 * min);
}

#[test]
fn backoff_delays() {
    assert_eq!(retry_delay(500, 2, 0, 3_600_000), 500);
    assert_eq!(retry_delay(500, 2, 3, 3_600_000), 4_000);
    assert_eq!(retry_delay(500, 2, 40, 3_600_000), 3_600_000);
    assert_eq!(retry_delay(5_000, 2, 1, 1_000), 1_000);
}
