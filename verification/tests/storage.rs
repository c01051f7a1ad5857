use mintick_nft::error::Error;
use mintick_nft::storage::refund_deposit;

const BYTE_COST: u128 = 10_000_000_000_000_000_000;

#[test]
fn excess_deposit_is_refunded() {
    assert_eq!(refund_deposit(100, 0, 100 * BYTE_COST + 5, BYTE_COST), Ok(Some(5)));
    assert_eq!(refund_deposit(0, 0, 7, BYTE_COST), Ok(Some(7)));
    assert_eq!(refund_deposit(3, 1_000, 3 * BYTE_COST + 1_000 + 2, BYTE_COST), Ok(Some(2)));
}

#[test]
fn dust_is_not_refunded() {
    assert_eq!(refund_deposit(100, 0, 100 * BYTE_COST + 1, BYTE_COST), Ok(None));
    assert_eq!(refund_deposit(100, 0, 100 * BYTE_COST, BYTE_COST), Ok(None));
    assert_eq!(refund_deposit(100, 0, 100 * BYTE_COST + 2, BYTE_COST), Ok(Some(2)));
}

#[test]
fn insufficient_deposit_is_a_funding_error() {
    assert_eq!(
        refund_deposit(100, 0, 100 * BYTE_COST - 1, BYTE_COST),
        Err(Error::StorageNotCovered { required: 100 * BYTE_COST })
    );
    assert_eq!(
        refund_deposit(1, 50, 49, BYTE_COST),
        Err(Error::StorageNotCovered { required: BYTE_COST })
    );
    assert_eq!(
        refund_deposit(u64::MAX, 0, u128::MAX, u128::MAX),
        Err(Error::StorageNotCovered { required: u128::MAX })
    );
}

#[test]
fn spent_part_of_the_deposit_is_not_available() {
    let price = 5_000_000_000_000_000_000_000_000u128;
    let attached = price + 50_000_000_000_000_000_000_000;
    assert_eq!(
        refund_deposit(500, price, attached, BYTE_COST),
        Ok(Some(50_000_000_000_000_000_000_000 - 500 * BYTE_COST))
    );
    assert_eq!(
        refund_deposit(5_001, price, attached, BYTE_COST),
        Err(Error::StorageNotCovered { required: 5_001 * BYTE_COST })
    );
}
