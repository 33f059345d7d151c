//! Driver for the GC9A01A round-LCD controller over a 4-wire SPI bus.
//!
//! The driver translates logical operations (send a command, send pixel
//! data, reset, replay the vendor initialization table, clear the panel)
//! into a framed sequence of electrical transitions: chip-select
//! bracketing, data/command line levels, byte bursts and delays. The
//! contracts pin that sequence down exactly, over an event-log model of
//! the peripheral interface.

use vstd::prelude::*;

pub mod driver;
pub mod events;
pub mod interface;
pub mod laws;
pub mod recorder;
pub mod registers;

verus! {

/// Adds two sizes; the caller rules out overflow.
pub fn add(left: usize, right: usize) -> (r: usize)
    requires
        left + right <= usize::MAX,
    ensures
        r == left + right,
{
    left + right
}

} // verus!
