//! Driver core for ILI9488-class TFT panels on a parallel, write-only bus.
//!
//! The crate is free of I/O. The bus transport turns word writes into an
//! ordered queue of bus cycles, the controller driver sequences the panel's
//! command protocol on top of it, and a panel model interprets bus cycles the
//! way the controller does, so that what ends up in panel memory can be
//! stated and proved. The program that owns the peripherals performs the
//! queued cycles and reports how they went.
//!
//! Beside the display stand the divisor of the bus clock and the reading of
//! the TSC2007 touch controller that sits on the same board.

pub mod error;
pub mod color;
pub mod bus;
pub mod geometry;
pub mod config;
pub mod protocol;
pub mod driver;
pub mod panel;
pub mod raster;
pub mod clock;
pub mod touch;
