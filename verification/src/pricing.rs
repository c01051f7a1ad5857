//! Conversion of a reference price into the native smallest unit.
//!
//! Reference prices and the exchange rate are fixed-point amounts in one
//! common unit (millionths of the reference currency), so their quotient is
//! the price in whole native units. One native unit is 10^24 smallest units.

use vstd::prelude::*;
use vstd::arithmetic::div_mod::{lemma_div_is_ordered, lemma_fundamental_div_mod_converse};
use vstd::arithmetic::mul::lemma_mul_inequality;
use crate::error::Error;

verus! {

/// The fixed-point scale of reference prices and of the exchange rate:
/// the number of their units in one unit of the reference currency.
pub const PRICE_SCALE: u64 = 1_000_000;

/// The smallest units in one whole native unit: 10^24.
pub const NATIVE_UNIT: u128 = 1_000_000_000_000_000_000_000_000;

/// What a purchase must attach above the price: 5 * 10^22 smallest units.
pub const PURCHASE_MARGIN: u128 = 50_000_000_000_000_000_000_000;

/// What the price query adds for the client's storage cost: 10^23 smallest units.
pub const DISPLAY_MARGIN: u128 = 100_000_000_000_000_000_000_000;

/// Ten to the power `k`.
pub open spec fn pow10(k: nat) -> nat
    decreases k,
{
    if k == 0 {
        1
    } else {
        10 * pow10((k - 1) as nat)
    }
}

/// The price in smallest native units: `floor(price / rate * 10^24)`.
pub open spec fn native_amount(price: nat, rate: nat) -> nat
    recommends
        rate > 0,
{
    (price * 1_000_000_000_000_000_000_000_000) / rate
}

/// `n` where it fits in 128 bits, the largest 128-bit amount where it does not.
pub open spec fn saturate(n: nat) -> u128 {
    if n > u128::MAX {
        u128::MAX
    } else {
        n as u128
    }
}

/// What `to_native` returns on a positive rate.
pub open spec fn native_price(price: u64, rate: u64) -> u128
    recommends
        rate > 0,
{
    saturate(native_amount(price as nat, rate as nat))
}

/// What the price query shows: the native price plus the display margin.
pub open spec fn display_price(price: u64, rate: u64) -> u128
    recommends
        rate > 0,
{
    saturate(native_price(price, rate) as nat + DISPLAY_MARGIN as nat)
}

proof fn lemma_pow10_24()
    ensures
        pow10(24) == 1_000_000_000_000_000_000_000_000,
{
    reveal_with_fuel(pow10, 25);
}

proof fn lemma_pow10_monotonic(a: nat, b: nat)
    requires
        a <= b,
    ensures
        1 <= pow10(a) <= pow10(b),
    decreases b,
{
    if a == 0 {
        if b > 0 {
            lemma_pow10_monotonic(a, (b - 1) as nat);
        }
    } else {
        lemma_pow10_monotonic((a - 1) as nat, (b - 1) as nat);
    }
}

/// For a fixed positive rate the native amount does not fall when the
/// reference price rises.
pub proof fn lemma_native_amount_monotonic(lower: nat, higher: nat, rate: nat)
    requires
        lower <= higher,
        rate > 0,
    ensures
        native_amount(lower, rate) <= native_amount(higher, rate),
{
    let unit = 1_000_000_000_000_000_000_000_000int;
    lemma_mul_inequality(lower as int, higher as int, unit);
    lemma_div_is_ordered(lower * unit, higher * unit, rate as int);
}

/// For a fixed positive rate `to_native` is monotonic non-decreasing in the
/// reference price.
pub proof fn lemma_to_native_monotonic(lower: u64, higher: u64, rate: u64)
    requires
        lower <= higher,
        rate > 0,
    ensures
        native_price(lower, rate) <= native_price(higher, rate),
        display_price(lower, rate) <= display_price(higher, rate),
{
    lemma_native_amount_monotonic(lower as nat, higher as nat, rate as nat);
}

/// Converts a reference price into smallest native units at the given
/// exchange rate. Fails where the rate is not positive. An amount beyond 128
/// bits comes out as the largest 128-bit amount.
pub fn to_native(reference_price: u64, exchange_rate: u64) -> (r: Result<u128, Error>)
    ensures
        exchange_rate == 0 ==> r == Err::<u128, Error>(Error::RateNotPositive),
        exchange_rate > 0 ==> r == Ok::<u128, Error>(native_price(reference_price, exchange_rate)),
{
    if exchange_rate == 0 {
        return Err(Error::RateNotPositive);
    }
    let rate: u128 = exchange_rate as u128;
    let price: u128 = reference_price as u128;
    let mut q: u128 = price / rate;
    let mut r: u128 = price % rate;
    let mut k: u32 = 0;
    assert(price * pow10(0) == q * rate + r) by (nonlinear_arith)
        requires
            pow10(0) == 1,
            q == price / rate,
            r == price % rate,
            rate > 0,
    ;
    while k < 24
        invariant
            k <= 24,
            rate == exchange_rate,
            price == reference_price,
            0 < rate <= u64::MAX,
            r < rate,
            price * pow10(k as nat) == q * rate + r,
        decreases 24 - k,
    {
        let r10: u128 = r * 10;
        let d: u128 = r10 / rate;
        let r_next: u128 = r10 % rate;
        assert(d <= 9 && r10 == d * rate + r_next && r_next < rate) by (nonlinear_arith)
            requires
                r10 == r * 10,
                r < rate,
                d == r10 / rate,
                r_next == r10 % rate,
                rate > 0,
        ;
        let ghost next_power = pow10((k + 1) as nat);
        assert(price * next_power == (q * 10 + d) * rate + r_next) by (nonlinear_arith)
            requires
                next_power == 10 * pow10(k as nat),
                price * pow10(k as nat) == q * rate + r,
                r * 10 == d * rate + r_next,
        ;
        if q > (u128::MAX - d) / 10 {
            proof {
                let reached = (q * 10 + d) as int;
                assert(reached > u128::MAX);
                lemma_fundamental_div_mod_converse(
                    price * next_power,
                    rate as int,
                    reached,
                    r_next as int,
                );
                lemma_pow10_monotonic((k + 1) as nat, 24);
                lemma_pow10_24();
                lemma_mul_inequality(next_power as int, pow10(24) as int, price as int);
                assert(price * next_power == next_power * price) by (nonlinear_arith);
                assert(price * pow10(24) == pow10(24) * price) by (nonlinear_arith);
                lemma_div_is_ordered(price * next_power, price * pow10(24), rate as int);
            }
            return Ok(u128::MAX);
        }
        q = q * 10 + d;
        r = r_next;
        k = k + 1;
    }
    proof {
        lemma_pow10_24();
        lemma_fundamental_div_mod_converse(price * pow10(24), rate as int, q as int, r as int);
    }
    Ok(q)
}

/// The price that the price query shows for a series: the native price
/// plus the display margin, an advisory amount that no purchase is held to.
pub fn to_native_with_margin(reference_price: u64, exchange_rate: u64) -> (r: Result<u128, Error>)
    ensures
        exchange_rate == 0 ==> r == Err::<u128, Error>(Error::RateNotPositive),
        exchange_rate > 0 ==> r == Ok::<u128, Error>(display_price(reference_price, exchange_rate)),
{
    match to_native(reference_price, exchange_rate) {
        Ok(native) => {
            if native > u128::MAX - DISPLAY_MARGIN {
                Ok(u128::MAX)
            } else {
                Ok(native + DISPLAY_MARGIN)
            }
        },
        Err(e) => Err(e),
    }
}

} // verus!
