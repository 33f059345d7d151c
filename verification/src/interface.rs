//! The capability contract the driver consumes.
//!
//! The driver owns one implementation of [`Interface`]: the SPI
//! transport, the three digital output lines, the backlight duty sink
//! and the blocking delay service of one panel, taken together. The
//! trait models them with a single ghost log of [`Event`]s, because the
//! driver's correctness is an ordering property across all of them: the
//! data/command level must be driven before the burst it tags, and the
//! delays of a reset must separate the line transitions.
//!
//! Implementations live outside the verified library (they wrap a
//! board's concrete peripherals); the in-crate [`crate::recorder`]
//! provides a verified one for instrumentation.

use vstd::prelude::*;

use crate::events::Event;
use crate::events::strict_prefix_of;

verus! {

/// Exclusive handle on one panel's transport, control lines, backlight
/// and delay service.
///
/// Fallible methods report failure through the implementation's own
/// error types; a failed line toggle moves nothing, and a failed burst
/// writes some proper prefix of its bytes. The delay service and the
/// duty sink are infallible by contract.
pub trait Interface: Sized {
    /// Error type of the SPI transport.
    type SpiErr;

    /// Error type of the digital output lines.
    type GpioErr;

    /// The events this interface has performed, oldest first. The
    /// default leaves it unspecified; an implementation that carries
    /// contracts overrides it.
    open spec fn log(&self) -> Seq<Event> {
        vstd::pervasive::arbitrary()
    }

    /// Drive the chip-select line: `false` asserts, `true` releases.
    fn set_cs(&mut self, high: bool) -> (r: Result<(), Self::GpioErr>)
        ensures
            r is Ok ==> final(self).log() == old(self).log().push(Event::Cs(high)),
            r is Err ==> final(self).log() == old(self).log(),
    ;

    /// Drive the data/command line: `false` tags commands, `true` data.
    fn set_dc(&mut self, high: bool) -> (r: Result<(), Self::GpioErr>)
        ensures
            r is Ok ==> final(self).log() == old(self).log().push(Event::Dc(high)),
            r is Err ==> final(self).log() == old(self).log(),
    ;

    /// Drive the reset line: `false` holds the controller in reset.
    fn set_rst(&mut self, high: bool) -> (r: Result<(), Self::GpioErr>)
        ensures
            r is Ok ==> final(self).log() == old(self).log().push(Event::Rst(high)),
            r is Err ==> final(self).log() == old(self).log(),
    ;

    /// Write one byte burst over the transport. On failure, some proper
    /// prefix of the burst went out on the wire.
    fn write(&mut self, data: &[u8]) -> (r: Result<(), Self::SpiErr>)
        ensures
            r is Ok ==> final(self).log() == old(self).log().push(Event::Write(data@)),
            r is Err ==> exists|p: Seq<u8>|
                strict_prefix_of(p, data@) && final(self).log() == old(self).log().push(
                    Event::Write(p),
                ),
    ;

    /// Block for `ms` milliseconds.
    fn delay_ms(&mut self, ms: u32)
        ensures
            final(self).log() == old(self).log().push(Event::Delay(ms)),
    ;

    /// Set the backlight duty cycle.
    fn set_duty(&mut self, duty: u16)
        ensures
            final(self).log() == old(self).log().push(Event::Duty(duty)),
    ;
}

} // verus!
