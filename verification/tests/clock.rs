use ili9488_parallel::clock::{derive_divisor, ClockDivisor, CYCLES_PER_WORD};
use ili9488_parallel::error::DisplayError;

#[test]
fn two_cycles_per_word() {
    assert_eq!(CYCLES_PER_WORD, 2);
}

#[test]
fn divisor_of_exact_ratios() {
    assert_eq!(derive_divisor(240_000_000, 120_000_000), Ok(ClockDivisor { int: 1, frac: 0 }));
    assert_eq!(derive_divisor(240_000_000, 60_000_000), Ok(ClockDivisor { int: 2, frac: 0 }));
    assert_eq!(derive_divisor(125_000_000, 25_000_000), Ok(ClockDivisor { int: 2, frac: 128 }));
    assert_eq!(derive_divisor(125_000_000, 10_000_000), Ok(ClockDivisor { int: 6, frac: 64 }));
}

#[test]
fn divisor_rounds_to_the_slower_side() {
    assert_eq!(derive_divisor(125_000_000, 30_000_000), Ok(ClockDivisor { int: 2, frac: 22 }));
    assert_eq!(derive_divisor(133_000_000, 20_000_000), Ok(ClockDivisor { int: 3, frac: 84 }));
    assert_eq!(derive_divisor(100, 33), Ok(ClockDivisor { int: 1, frac: 132 }));
}

#[test]
fn divisor_at_its_limits() {
    assert_eq!(derive_divisor(131_070, 1), Ok(ClockDivisor { int: 65535, frac: 0 }));
    assert_eq!(derive_divisor(131_071, 1), Ok(ClockDivisor { int: 65535, frac: 128 }));
    assert_eq!(derive_divisor(131_072, 1), Err(DisplayError::ConfigurationError));
    assert_eq!(derive_divisor(2, 1), Ok(ClockDivisor { int: 1, frac: 0 }));
    assert_eq!(derive_divisor(u32::MAX, u32::MAX), Err(DisplayError::ConfigurationError));
}

#[test]
fn divisor_refuses_unreachable_rates() {
    assert_eq!(derive_divisor(125_000_000, 0), Err(DisplayError::ConfigurationError));
    assert_eq!(derive_divisor(125_000_000, 62_500_001), Ok(ClockDivisor { int: 1, frac: 0 }));
    assert_eq!(derive_divisor(125_000_000, 63_000_000), Err(DisplayError::ConfigurationError));
    assert_eq!(derive_divisor(125_000_000, 125_000_000), Err(DisplayError::ConfigurationError));
    assert_eq!(derive_divisor(125_000_000, 62_500_000), Ok(ClockDivisor { int: 1, frac: 0 }));
    assert_eq!(derive_divisor(0, 1), Err(DisplayError::ConfigurationError));
    assert_eq!(derive_divisor(125_000_000, 900), Err(DisplayError::ConfigurationError));
}
