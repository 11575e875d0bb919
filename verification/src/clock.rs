//! The clock divisor of the bus engine.
//!
//! The engine spends two of its cycles on every word, one with the strobe
//! low and one with it high, and runs at the system clock divided by a
//! fixed-point divisor with eight fractional bits.

use vstd::prelude::*;
use vstd::arithmetic::div_mod::lemma_fundamental_div_mod;
use crate::error::DisplayError;

verus! {

/// Engine cycles spent on one bus word.
pub const CYCLES_PER_WORD: u64 = 2;

/// A divisor of the system clock: `int + frac / 256`, with `int` at least 1.
#[derive(Clone, Copy, Debug, PartialEq, Eq, Structural)]
pub struct ClockDivisor {
    pub int: u16,
    pub frac: u8,
}

impl ClockDivisor {
    /// The divisor in units of 1/256.
    pub open spec fn fixed(self) -> int {
        self.int * 256 + self.frac
    }
}

/// Whether a divisor of `fixed`/256 strobes no faster than `strobe_hz` on a
/// system clock of `system_hz`.
pub open spec fn slow_enough(system_hz: int, strobe_hz: int, fixed: int) -> bool {
    system_hz * 256 <= fixed * (strobe_hz * CYCLES_PER_WORD as int)
}

/// The largest divisor, in units of 1/256.
pub const MAX_FIXED: u32 = 0xFF_FFFF;

/// A divisor above one that is slow enough is slow enough too.
pub proof fn lemma_slower_is_slow_enough(system_hz: int, strobe_hz: int, fixed: int, more: int)
    requires
        0 <= strobe_hz,
        fixed <= more,
        slow_enough(system_hz, strobe_hz, fixed),
    ensures
        slow_enough(system_hz, strobe_hz, more),
{
    let per_second = strobe_hz * CYCLES_PER_WORD as int;
    assert(fixed * per_second <= more * per_second) by (nonlinear_arith)
        requires
            fixed <= more,
            0 <= per_second,
    ;
}

/// Rounding the quotient up gives the least divisor that is slow enough.
proof fn lemma_rounded_up(system_hz: int, strobe_hz: int)
    requires
        0 <= system_hz,
        0 < strobe_hz,
    ensures
        ({
            let per_second = strobe_hz * CYCLES_PER_WORD as int;
            let fixed = (system_hz * 256 + per_second - 1) / per_second;
            slow_enough(system_hz, strobe_hz, fixed) && !slow_enough(
                system_hz,
                strobe_hz,
                fixed - 1,
            )
        }),
{
    let d = strobe_hz * CYCLES_PER_WORD as int;
    let a = system_hz * 256 + d - 1;
    let q = a / d;
    lemma_fundamental_div_mod(a, d);
    assert(q * d == d * q) by (nonlinear_arith);
    assert((q - 1) * d == q * d - d) by (nonlinear_arith);
}

/// Derives the divisor for a bus that is to strobe at `strobe_hz`, or as
/// little below it as the divisor allows, from a system clock of
/// `system_hz`: the least divisor that strobes no faster than asked.
///
/// Fails with `ConfigurationError` when the rate asked for is zero, is above
/// what the engine reaches undivided, or is below what the largest divisor
/// gives.
pub fn derive_divisor(system_hz: u32, strobe_hz: u32) -> (derived: Result<
    ClockDivisor,
    DisplayError,
>)
    ensures
        derived is Ok <==> strobe_hz > 0 && !slow_enough(system_hz as int, strobe_hz as int, 255)
            && slow_enough(system_hz as int, strobe_hz as int, MAX_FIXED as int),
        derived is Ok ==> slow_enough(system_hz as int, strobe_hz as int, derived->Ok_0.fixed())
            && !slow_enough(system_hz as int, strobe_hz as int, derived->Ok_0.fixed() - 1),
        derived is Err ==> derived->Err_0 == DisplayError::ConfigurationError,
{
    if strobe_hz == 0 {
        return Err(DisplayError::ConfigurationError);
    }
    let per_second: u64 = strobe_hz as u64 * CYCLES_PER_WORD;
    let fixed: u64 = (system_hz as u64 * 256 + per_second - 1) / per_second;
    proof {
        let s = system_hz as int;
        let t = strobe_hz as int;
        lemma_rounded_up(s, t);
        if fixed <= 255 {
            lemma_slower_is_slow_enough(s, t, fixed as int, 255);
        } else if slow_enough(s, t, 255) {
            lemma_slower_is_slow_enough(s, t, 255, fixed - 1);
        }
        if fixed > MAX_FIXED {
            if slow_enough(s, t, MAX_FIXED as int) {
                lemma_slower_is_slow_enough(s, t, MAX_FIXED as int, fixed - 1);
            }
        } else {
            lemma_slower_is_slow_enough(s, t, fixed as int, MAX_FIXED as int);
        }
    }
    if fixed < 256 || fixed > MAX_FIXED as u64 {
        return Err(DisplayError::ConfigurationError);
    }
    Ok(ClockDivisor { int: (fixed / 256) as u16, frac: (fixed % 256) as u8 })
}

} // verus!
