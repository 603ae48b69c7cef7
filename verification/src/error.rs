//! Typed configuration errors.
//!
//! Two failure tiers exist in this library. Fatal precondition violations
//! (an unsupported midstate count, a chip index too large to encode, a
//! single-target command aimed at a broadcast address) are excluded by
//! `requires` clauses: no verified function here panics. The errors below are
//! the second tier: operator-supplied values that are syntactically fine but
//! outside hardware range, reported to the caller for inspection.

use vstd::prelude::*;

verus! {

/// A reported configuration error, carrying the offending value.
#[derive(Clone, Copy, Debug, PartialEq, Eq, Structural)]
pub enum Error {
    /// ASIC difficulty was zero or not a power of two.
    Difficulty(u32),
    /// Baud rate clock divisor above the supported maximum.
    BaudRate(usize),
    /// Requested frequency outside the synthesizable PLL range.
    Frequency(usize),
    /// PIC program has the wrong byte count for the flash window.
    ProgramSize(usize),
    /// A firmware line is not a hexadecimal number that fits 32 bits.
    Hex,
}

} // verus!
