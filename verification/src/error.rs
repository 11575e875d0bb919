//! The error kinds of the display core.

use vstd::prelude::*;

verus! {

/// Why an operation of the display core was refused.
#[derive(Clone, Copy, Debug, PartialEq, Eq, Structural)]
pub enum DisplayError {
    /// The bus or the panel was described inconsistently at construction.
    ConfigurationError,
    /// A draw operation was attempted while the controller was not `Ready`.
    NotInitialized,
    /// A window or a coordinate lies outside the panel.
    OutOfBounds,
    /// A bus or pin primitive reported a failure.
    BusFault,
}

} // verus!
