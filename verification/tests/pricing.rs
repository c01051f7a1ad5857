use mintick_nft::error::Error;
use mintick_nft::pricing::{
    to_native, to_native_with_margin, DISPLAY_MARGIN, NATIVE_UNIT, PRICE_SCALE, PURCHASE_MARGIN,
};

#[test]
fn ten_at_rate_two_is_five_native_units() {
    let price = 10 * PRICE_SCALE;
    let rate = 2 * PRICE_SCALE;
    assert_eq!(to_native(price, rate), Ok(5_000_000_000_000_000_000_000_000u128));
    assert_eq!(to_native(price, rate), Ok(5 * NATIVE_UNIT));
}

#[test]
fn conversion_rounds_down() {
    assert_eq!(to_native(1, 3), Ok(333_333_333_333_333_333_333_333u128));
    assert_eq!(to_native(2, 3), Ok(666_666_666_666_666_666_666_666u128));
    assert_eq!(to_native(0, 5), Ok(0));
    assert_eq!(to_native(7, 7), Ok(NATIVE_UNIT));
}

#[test]
fn zero_rate_is_refused() {
    assert_eq!(to_native(10, 0), Err(Error::RateNotPositive));
    assert_eq!(to_native_with_margin(10, 0), Err(Error::RateNotPositive));
}

#[test]
fn conversion_saturates_beyond_128_bits() {
    assert_eq!(
        to_native(340_282_366_920_938, 1),
        Ok(340_282_366_920_938_000_000_000_000_000_000_000_000u128)
    );
    assert_eq!(to_native(340_282_366_920_939, 1), Ok(u128::MAX));
    assert_eq!(to_native(u64::MAX, 1), Ok(u128::MAX));
    assert_eq!(to_native_with_margin(u64::MAX, 1), Ok(u128::MAX));
}

#[test]
fn conversion_is_monotonic_in_the_price() {
    let rate = 2_370_000u64;
    let prices = [0u64, 1, 2, 999_999, 1_000_000, 10_000_000, 10_000_001, u64::MAX / 2, u64::MAX];
    let mut last = 0u128;
    for p in prices {
        let n = to_native(p, rate).unwrap();
        assert!(n >= last);
        last = n;
    }
}

#[test]
fn price_query_adds_the_display_margin() {
    assert_eq!(DISPLAY_MARGIN, 100_000_000_000_000_000_000_000u128);
    assert_eq!(PURCHASE_MARGIN, 50_000_000_000_000_000_000_000u128);
    assert_eq!(
        to_native_with_margin(10_000_000, 2_000_000),
        Ok(5_100_000_000_000_000_000_000_000u128)
    );
}
