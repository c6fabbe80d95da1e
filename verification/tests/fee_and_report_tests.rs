use provenance::fee::compute_fee;
use provenance::model::Amount;
use provenance::report::{format_amount, u64_to_decimal};

fn sats(n: u64) -> Amount {
    Amount { sats: n }
}

#[test]
fn fee_is_funding_minus_outputs() {
    // 20.0001 funding, 20.0 to the recipient, 0.00005 change
    let fee = compute_fee(sats(2_000_010_000), sats(2_000_000_000), sats(5_000));
    assert_eq!(fee, sats(5_000));
}

#[test]
fn fee_is_zero_when_fully_consumed() {
    let fee = compute_fee(sats(5_000_000_000), sats(5_000_000_000), sats(0));
    assert_eq!(fee, sats(0));
}

#[test]
fn fee_is_reported_as_unsigned_magnitude() {
    // classified outputs exceed the funding amount: the raw figure would
    // be negative, the reported one is its magnitude
    let fee = compute_fee(sats(10), sats(20), sats(5));
    assert_eq!(fee, sats(15));
}

#[test]
fn amounts_render_with_eight_fractional_digits() {
    assert_eq!(format_amount(sats(2_000_010_000)), "20.00010000");
    assert_eq!(format_amount(sats(2_000_000_000)), "20.00000000");
    assert_eq!(format_amount(sats(5_000)), "0.00005000");
    assert_eq!(format_amount(sats(0)), "0.00000000");
    assert_eq!(format_amount(sats(123)), "0.00000123");
}

#[test]
fn amount_rendering_carries_at_fraction_boundary() {
    assert_eq!(format_amount(sats(99_999_999)), "0.99999999");
    assert_eq!(format_amount(sats(100_000_000)), "1.00000000");
    assert_eq!(format_amount(sats(100_000_001)), "1.00000001");
    assert_eq!(format_amount(sats(u64::MAX)), "184467440737.09551615");
}

#[test]
fn integers_render_in_decimal() {
    assert_eq!(u64_to_decimal(0), "0");
    assert_eq!(u64_to_decimal(7), "7");
    assert_eq!(u64_to_decimal(350), "350");
    assert_eq!(u64_to_decimal(10_000), "10000");
    assert_eq!(u64_to_decimal(u64::MAX), "18446744073709551615");
}
