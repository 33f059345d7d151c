//! The panel driver: framing primitives, reset, window addressing,
//! initialization replay and full-screen clear.

use vstd::prelude::*;

use crate::events::{
    burst_failed, cmd_events, cs_burst_events, cs_burst_failed, data_events,
    lemma_script_events_snoc, open_burst_events, script_aborted, script_events, step_failed,
    strict_prefix_of, Event, Step,
};
use crate::interface::Interface;
use crate::registers::{
    entry_steps, init_script, init_table, lemma_ops_script_snoc, lemma_ops_script_split,
    ops_script, InitOp, CASET, PASET, RAMWR,
};

verus! {

/// Panel width in pixels.
pub const WIDTH: u8 = 240;

/// Panel height in pixels.
pub const HEIGHT: u8 = 240;

/// Pixels of one full frame.
pub open spec fn pixel_count() -> nat {
    (WIDTH as nat) * (HEIGHT as nat)
}

/// The big-endian bytes of one 16-bit pixel value.
pub open spec fn be_bytes(color: u16) -> Seq<u8> {
    seq![(color >> 8) as u8, (color & 0xFF) as u8]
}

/// The window-addressing script: select the full-panel column and row
/// ranges, then enter memory write, after which data bursts stream
/// pixels row-major from the panel's origin.
pub open spec fn window_script() -> Seq<Step> {
    seq![
        Step::Cmd(CASET),
        Step::Data(seq![0x00u8, 0x00u8, 0x00u8, (WIDTH - 1) as u8]),
        Step::Cmd(PASET),
        Step::Data(seq![0x00u8, 0x00u8, 0x00u8, (HEIGHT - 1) as u8]),
        Step::Cmd(RAMWR),
    ]
}

/// The events opening the pixel stream of a clear: data/command high
/// once, chip-select asserted once.
pub open spec fn stream_prelude() -> Seq<Event> {
    seq![Event::Dc(true), Event::Cs(false)]
}

/// The first `n` pixel writes of a clear: each pixel is one burst of the
/// color's two big-endian bytes.
pub open spec fn pixel_events(color: u16, n: nat) -> Seq<Event> {
    Seq::new(n, |i: int| Event::Write(be_bytes(color)))
}

/// The events of one successful full-screen clear: the window script,
/// one data/command raise and one chip-select assert, every pixel of the
/// frame, and one chip-select release.
pub open spec fn clear_events(color: u16) -> Seq<Event> {
    script_events(window_script()) + stream_prelude() + pixel_events(color, pixel_count())
        + seq![Event::Cs(true)]
}

/// A pixel stream that failed on pixel `k` and still released
/// chip-select: `p` is what the failing burst left on the wire.
pub open spec fn pixel_tail_restored(color: u16, k: nat, p: Seq<u8>) -> Seq<Event> {
    pixel_events(color, k) + seq![Event::Write(p), Event::Cs(true)]
}

/// A pixel stream that failed on pixel `k` and then also failed to
/// release chip-select.
pub open spec fn pixel_tail_open(color: u16, k: nat, p: Seq<u8>) -> Seq<Event> {
    pixel_events(color, k) + seq![Event::Write(p)]
}

/// The logs a failed clear can leave: an aborted window script; a failed
/// data/command or chip-select toggle before the stream; a transport
/// failure on some pixel, with chip-select released again or, when that
/// release toggle itself failed, left asserted; or a failed final
/// release after the full frame.
pub open spec fn clear_failed(l0: Seq<Event>, l1: Seq<Event>, color: u16, spi: bool) -> bool {
    let lw = l0 + script_events(window_script());
    let lp = lw + stream_prelude();
    ||| script_aborted(l0, l1, window_script(), spi)
    ||| (!spi && (l1 == lw || l1 == lw.push(Event::Dc(true)) || l1 == lp + pixel_events(
        color,
        pixel_count(),
    )))
    ||| (spi && exists|k: nat, p: Seq<u8>| #![trigger pixel_tail_restored(color, k, p)]
        k < pixel_count() && strict_prefix_of(p, be_bytes(color)) && l1 == lp
            + pixel_tail_restored(color, k, p))
    ||| (!spi && exists|k: nat, p: Seq<u8>| #![trigger pixel_tail_open(color, k, p)]
        k < pixel_count() && strict_prefix_of(p, be_bytes(color)) && l1 == lp + pixel_tail_open(
            color,
            k,
            p,
        ))
}

/// Why a driver operation failed. The first failure aborts the
/// operation and is reported unchanged.
#[derive(Debug)]
pub enum Error<S, P> {
    /// The SPI transport failed.
    Spi(S),
    /// A digital line toggle failed.
    Gpio(P),
    /// Reserved for delay services that can fail; the delay service this
    /// driver consumes is infallible, so the driver never returns it.
    Delay,
}

/// The three reset-line transitions, each followed by a settle wait.
pub open spec fn reset_events() -> Seq<Event> {
    seq![
        Event::Rst(true),
        Event::Delay(100),
        Event::Rst(false),
        Event::Delay(100),
        Event::Rst(true),
        Event::Delay(100),
    ]
}

/// Driver for one GC9A01A-class panel, owning its whole electrical
/// interface.
pub struct GC9A01A<I: Interface> {
    iface: I,
}

impl<I: Interface> GC9A01A<I> {
    /// Panel width in pixels.
    pub const WIDTH: u8 = 240;

    /// Panel height in pixels.
    pub const HEIGHT: u8 = 240;

    /// The events the driver has performed on its interface.
    pub closed spec fn log(&self) -> Seq<Event> {
        self.iface.log()
    }

    /// Takes sole ownership of the panel's interface; no other code may
    /// touch those lines afterwards.
    pub fn new(iface: I) -> (d: Self)
        ensures
            d.log() == iface.log(),
    {
        GC9A01A { iface }
    }

    /// Runs one chip-select-bracketed burst: assert, write, release.
    /// The release toggle runs on the error path too; its own failure is
    /// reported as the GPIO error.
    fn with_cs_low(&mut self, bytes: &[u8]) -> (r: Result<(), Error<I::SpiErr, I::GpioErr>>)
        ensures
            r is Ok ==> final(self).log() == old(self).log() + cs_burst_events(bytes@),
            r matches Err(e) ==> (e is Spi || e is Gpio) && cs_burst_failed(
                old(self).log(),
                final(self).log(),
                bytes@,
                e is Spi,
            ),
    {
        let ghost l0 = self.log();
        match self.iface.set_cs(false) {
            Ok(()) => {},
            Err(pe) => {
                return Err(Error::Gpio(pe));
            },
        }
        let wr = self.iface.write(bytes);
        let ghost lw = self.log();
        match self.iface.set_cs(true) {
            Ok(()) => {},
            Err(pe) => {
                proof {
                    if wr is Ok {
                        assert(self.log() =~= l0 + open_burst_events(bytes@));
                    } else {
                        let p = choose|p: Seq<u8>|
                            strict_prefix_of(p, bytes@) && lw == l0.push(Event::Cs(false)).push(
                                Event::Write(p),
                            );
                        assert(self.log() =~= l0 + open_burst_events(p));
                    }
                    assert(cs_burst_failed(l0, self.log(), bytes@, false));
                }
                return Err(Error::Gpio(pe));
            },
        }
        match wr {
            Ok(()) => {
                proof {
                    assert(self.log() =~= l0 + cs_burst_events(bytes@));
                }
                Ok(())
            },
            Err(se) => {
                proof {
                    let p = choose|p: Seq<u8>|
                        strict_prefix_of(p, bytes@) && lw == l0.push(Event::Cs(false)).push(
                            Event::Write(p),
                        );
                    assert(self.log() =~= l0 + cs_burst_events(p));
                    assert(cs_burst_failed(l0, self.log(), bytes@, true));
                }
                Err(Error::Spi(se))
            },
        }
    }

    /// Sends one command byte: data/command low, then the opcode under
    /// chip-select. Chip-select is released again on every path on which
    /// its release toggle works.
    pub fn send_command(&mut self, command: u8) -> (r: Result<(), Error<I::SpiErr, I::GpioErr>>)
        ensures
            r is Ok ==> final(self).log() == old(self).log() + cmd_events(command),
            r matches Err(e) ==> (e is Spi || e is Gpio) && burst_failed(
                old(self).log(),
                final(self).log(),
                false,
                seq![command],
                e is Spi,
            ),
    {
        let ghost l0 = self.log();
        match self.iface.set_dc(false) {
            Ok(()) => {},
            Err(pe) => {
                return Err(Error::Gpio(pe));
            },
        }
        let buf: [u8; 1] = [command];
        proof {
            assert(buf@ == seq![command]);
        }
        let r = self.with_cs_low(buf.as_slice());
        proof {
            if r is Ok {
                assert(self.log() =~= l0.push(Event::Dc(false)) + cs_burst_events(seq![command]));
                assert(self.log() =~= l0 + cmd_events(command));
            }
        }
        r
    }

    /// Sends one data burst: data/command high, then the bytes under
    /// chip-select. A zero-length burst still brackets chip-select.
    pub fn send_data(&mut self, data: &[u8]) -> (r: Result<(), Error<I::SpiErr, I::GpioErr>>)
        ensures
            r is Ok ==> final(self).log() == old(self).log() + data_events(data@),
            r matches Err(e) ==> (e is Spi || e is Gpio) && burst_failed(
                old(self).log(),
                final(self).log(),
                true,
                data@,
                e is Spi,
            ),
    {
        let ghost l0 = self.log();
        match self.iface.set_dc(true) {
            Ok(()) => {},
            Err(pe) => {
                return Err(Error::Gpio(pe));
            },
        }
        let r = self.with_cs_low(data);
        proof {
            if r is Ok {
                assert(self.log() =~= l0 + data_events(data@));
            }
        }
        r
    }

    /// Pulses the reset line high, low, high, holding each level for the
    /// controller's documented 100 ms settle time. A failed toggle stops
    /// the pulse at the transitions already made.
    pub fn reset(&mut self) -> (r: Result<(), Error<I::SpiErr, I::GpioErr>>)
        ensures
            r is Ok ==> final(self).log() == old(self).log() + reset_events(),
            r matches Err(e) ==> e is Gpio && {
                ||| final(self).log() == old(self).log()
                ||| final(self).log() == old(self).log() + reset_events().take(2)
                ||| final(self).log() == old(self).log() + reset_events().take(4)
            },
    {
        let ghost l0 = self.log();
        match self.iface.set_rst(true) {
            Ok(()) => {},
            Err(pe) => {
                return Err(Error::Gpio(pe));
            },
        }
        self.iface.delay_ms(100);
        match self.iface.set_rst(false) {
            Ok(()) => {},
            Err(pe) => {
                proof {
                    assert(self.log() =~= l0 + reset_events().take(2));
                }
                return Err(Error::Gpio(pe));
            },
        }
        self.iface.delay_ms(100);
        match self.iface.set_rst(true) {
            Ok(()) => {},
            Err(pe) => {
                proof {
                    assert(self.log() =~= l0 + reset_events().take(4));
                }
                return Err(Error::Gpio(pe));
            },
        }
        self.iface.delay_ms(100);
        proof {
            assert(self.log() =~= l0 + reset_events());
        }
        Ok(())
    }

    /// Gives the interface back, ending the driver's ownership of it;
    /// its log is the driver's.
    pub fn release(self) -> (i: I)
        ensures
            i.log() == self.log(),
    {
        let GC9A01A { iface } = self;
        iface
    }

    /// Sets the backlight brightness as a PWM duty value; the duty sink
    /// is infallible.
    pub fn set_backlight(&mut self, duty: u16)
        ensures
            final(self).log() == old(self).log().push(Event::Duty(duty)),
    {
        self.iface.set_duty(duty);
    }

    /// Addresses the full panel: column range, row range, then memory
    /// write, leaving the controller streaming pixel data. On failure
    /// the replay stops at the first failing burst.
    pub fn set_windows(&mut self) -> (r: Result<(), Error<I::SpiErr, I::GpioErr>>)
        ensures
            r is Ok ==> final(self).log() == old(self).log() + script_events(window_script()),
            r matches Err(e) ==> (e is Spi || e is Gpio) && script_aborted(
                old(self).log(),
                final(self).log(),
                window_script(),
                e is Spi,
            ),
    {
        let ghost l0 = self.log();
        let ghost ws = window_script();
        proof {
            assert(ws.take(0) =~= Seq::<Step>::empty());
            assert(script_events(ws.take(0)) =~= Seq::<Event>::empty());
            assert(l0 + script_events(ws.take(0)) =~= l0);
        }
        match self.send_command(CASET) {
            Ok(()) => {},
            Err(e) => {
                proof {
                    assert(step_failed(l0 + script_events(ws.take(0)), self.log(), ws[0], e is Spi));
                    assert(script_aborted(l0, self.log(), ws, e is Spi));
                }
                return Err(e);
            },
        }
        proof {
            lemma_script_events_snoc(ws, 0);
            assert(self.log() =~= l0 + script_events(ws.take(1)));
        }
        let cols: [u8; 4] = [0x00, 0x00, 0x00, WIDTH - 1];
        proof {
            assert(cols@ == seq![0x00u8, 0x00u8, 0x00u8, (WIDTH - 1) as u8]);
        }
        match self.send_data(cols.as_slice()) {
            Ok(()) => {},
            Err(e) => {
                proof {
                    assert(step_failed(l0 + script_events(ws.take(1)), self.log(), ws[1], e is Spi));
                    assert(script_aborted(l0, self.log(), ws, e is Spi));
                }
                return Err(e);
            },
        }
        proof {
            lemma_script_events_snoc(ws, 1);
            assert(self.log() =~= l0 + script_events(ws.take(2)));
        }
        match self.send_command(PASET) {
            Ok(()) => {},
            Err(e) => {
                proof {
                    assert(step_failed(l0 + script_events(ws.take(2)), self.log(), ws[2], e is Spi));
                    assert(script_aborted(l0, self.log(), ws, e is Spi));
                }
                return Err(e);
            },
        }
        proof {
            lemma_script_events_snoc(ws, 2);
            assert(self.log() =~= l0 + script_events(ws.take(3)));
        }
        let rows: [u8; 4] = [0x00, 0x00, 0x00, HEIGHT - 1];
        proof {
            assert(rows@ == seq![0x00u8, 0x00u8, 0x00u8, (HEIGHT - 1) as u8]);
        }
        match self.send_data(rows.as_slice()) {
            Ok(()) => {},
            Err(e) => {
                proof {
                    assert(step_failed(l0 + script_events(ws.take(3)), self.log(), ws[3], e is Spi));
                    assert(script_aborted(l0, self.log(), ws, e is Spi));
                }
                return Err(e);
            },
        }
        proof {
            lemma_script_events_snoc(ws, 3);
            assert(self.log() =~= l0 + script_events(ws.take(4)));
        }
        match self.send_command(RAMWR) {
            Ok(()) => {},
            Err(e) => {
                proof {
                    assert(step_failed(l0 + script_events(ws.take(4)), self.log(), ws[4], e is Spi));
                    assert(script_aborted(l0, self.log(), ws, e is Spi));
                }
                return Err(e);
            },
        }
        proof {
            lemma_script_events_snoc(ws, 4);
            assert(ws.take(5) =~= ws);
            assert(self.log() =~= l0 + script_events(ws));
        }
        Ok(())
    }

    /// Paints the whole panel one color: addresses the full window, then
    /// streams every pixel's two big-endian bytes in a single
    /// chip-select-asserted span. On a transport failure the chip-select
    /// release still runs before the error is returned.
    pub fn clear(&mut self, color: u16) -> (r: Result<(), Error<I::SpiErr, I::GpioErr>>)
        ensures
            r is Ok ==> final(self).log() == old(self).log() + clear_events(color),
            r matches Err(e) ==> (e is Spi || e is Gpio) && clear_failed(
                old(self).log(),
                final(self).log(),
                color,
                e is Spi,
            ),
    {
        let ghost l0 = self.log();
        match self.set_windows() {
            Ok(()) => {},
            Err(e) => {
                return Err(e);
            },
        }
        let ghost lw = self.log();
        match self.iface.set_dc(true) {
            Ok(()) => {},
            Err(pe) => {
                return Err(Error::Gpio(pe));
            },
        }
        match self.iface.set_cs(false) {
            Ok(()) => {},
            Err(pe) => {
                return Err(Error::Gpio(pe));
            },
        }
        let ghost lp = self.log();
        proof {
            assert(lp =~= lw + stream_prelude());
        }
        proof {
            assert(color >> 8 <= 255) by (bit_vector);
            assert(color & 0xFF <= 255) by (bit_vector);
        }
        let hi: u8 = (color >> 8) as u8;
        let lo: u8 = (color & 0xFF) as u8;
        let buf: [u8; 2] = [hi, lo];
        proof {
            assert(buf@ == be_bytes(color));
        }
        let n: u32 = 57600;
        proof {
            assert((240 as nat) * (240 as nat) == 57600) by (nonlinear_arith);
            assert(n == pixel_count());
            assert(pixel_events(color, 0) =~= Seq::<Event>::empty());
            assert(self.log() =~= lp + pixel_events(color, 0));
        }
        let mut i: u32 = 0;
        while i < n
            invariant
                i <= n,
                n == pixel_count(),
                buf@ == be_bytes(color),
                l0 == old(self).log(),
                self.log() == lp + pixel_events(color, i as nat),
                lw == l0 + script_events(window_script()),
                lp == lw + stream_prelude(),
            decreases n - i,
        {
            let wr = self.iface.write(buf.as_slice());
            match wr {
                Ok(()) => {},
                Err(se) => {
                    let ghost lf = self.log();
                    let ghost done = pixel_events(color, i as nat);
                    let rel = self.iface.set_cs(true);
                    proof {
                        let p = choose|p: Seq<u8>|
                            strict_prefix_of(p, buf@) && lf == (lp + done).push(Event::Write(p));
                        if rel is Ok {
                            assert(self.log() =~= lp + pixel_tail_restored(color, i as nat, p));
                            assert(clear_failed(l0, self.log(), color, true));
                        } else {
                            assert(self.log() =~= lp + pixel_tail_open(color, i as nat, p));
                            assert(clear_failed(l0, self.log(), color, false));
                        }
                    }
                    match rel {
                        Ok(()) => {
                            return Err(Error::Spi(se));
                        },
                        Err(pe) => {
                            return Err(Error::Gpio(pe));
                        },
                    }
                },
            }
            proof {
                assert(pixel_events(color, (i + 1) as nat) =~= pixel_events(color, i as nat).push(
                    Event::Write(be_bytes(color)),
                ));
                assert(self.log() =~= lp + pixel_events(color, (i + 1) as nat));
            }
            i = i + 1;
        }
        match self.iface.set_cs(true) {
            Ok(()) => {},
            Err(pe) => {
                proof {
                    assert(clear_failed(l0, self.log(), color, false));
                }
                return Err(Error::Gpio(pe));
            },
        }
        proof {
            assert(self.log() =~= l0 + clear_events(color));
        }
        Ok(())
    }

    /// Replays the initialization table in declaration order: for each
    /// command entry one command burst immediately followed by one data
    /// burst of its parameters, for each delay entry one wait. Replay
    /// stops at the first failure.
    pub fn initialize(&mut self) -> (r: Result<(), Error<I::SpiErr, I::GpioErr>>)
        ensures
            r is Ok ==> final(self).log() == old(self).log() + script_events(init_script()),
            r matches Err(e) ==> (e is Spi || e is Gpio) && script_aborted(
                old(self).log(),
                final(self).log(),
                init_script(),
                e is Spi,
            ),
    {
        let ghost l0 = self.log();
        let table = init_table();
        let ghost tv = table@;
        let n = table.len();
        proof {
            assert(tv.take(0) =~= Seq::<InitOp>::empty());
            assert(ops_script(tv.take(0)) =~= Seq::<Step>::empty());
            assert(script_events(ops_script(tv.take(0))) =~= Seq::<Event>::empty());
            assert(self.log() =~= l0 + script_events(ops_script(tv.take(0))));
        }
        let mut idx: usize = 0;
        while idx < n
            invariant
                idx <= n,
                n == tv.len(),
                table@ == tv,
                l0 == old(self).log(),
                ops_script(tv) == init_script(),
                self.log() == l0 + script_events(ops_script(tv.take(idx as int))),
            decreases n - idx,
        {
            let ghost pre = ops_script(tv.take(idx as int));
            let ghost kk = pre.len() as int;
            proof {
                lemma_ops_script_split(tv, idx as int);
                assert(init_script().take(kk) =~= pre);
            }
            let entry = &table[idx];
            match entry {
                InitOp::Cmd(c, d) => {
                    proof {
                        assert(entry_steps(tv[idx as int]) == seq![Step::Cmd(*c), Step::Data(d@)]);
                        assert(init_script()[kk] == Step::Cmd(*c));
                        assert(init_script()[kk + 1] == Step::Data(d@));
                    }
                    match self.send_command(*c) {
                        Ok(()) => {},
                        Err(e) => {
                            proof {
                                assert(step_failed(
                                    l0 + script_events(init_script().take(kk)),
                                    self.log(),
                                    init_script()[kk],
                                    e is Spi,
                                ));
                                assert(script_aborted(l0, self.log(), init_script(), e is Spi));
                            }
                            return Err(e);
                        },
                    }
                    proof {
                        lemma_script_events_snoc(init_script(), kk);
                        assert(self.log() =~= l0 + script_events(init_script().take(kk + 1)));
                    }
                    match self.send_data(d.as_slice()) {
                        Ok(()) => {},
                        Err(e) => {
                            proof {
                                assert(step_failed(
                                    l0 + script_events(init_script().take(kk + 1)),
                                    self.log(),
                                    init_script()[kk + 1],
                                    e is Spi,
                                ));
                                assert(script_aborted(l0, self.log(), init_script(), e is Spi));
                            }
                            return Err(e);
                        },
                    }
                    proof {
                        lemma_script_events_snoc(init_script(), kk + 1);
                        lemma_ops_script_snoc(tv.take(idx as int), tv[idx as int]);
                        assert(tv.take(idx as int + 1) =~= tv.take(idx as int).push(
                            tv[idx as int],
                        ));
                        assert(ops_script(tv.take(idx as int + 1)) =~= init_script().take(kk + 2));
                        assert(self.log() =~= l0 + script_events(
                            ops_script(tv.take(idx as int + 1)),
                        ));
                    }
                },
                InitOp::Delay(ms) => {
                    proof {
                        assert(entry_steps(tv[idx as int]) == seq![Step::Wait(*ms)]);
                        assert(init_script()[kk] == Step::Wait(*ms));
                    }
                    self.iface.delay_ms(*ms);
                    proof {
                        lemma_script_events_snoc(init_script(), kk);
                        assert(self.log() =~= l0 + script_events(init_script().take(kk + 1)));
                        lemma_ops_script_snoc(tv.take(idx as int), tv[idx as int]);
                        assert(tv.take(idx as int + 1) =~= tv.take(idx as int).push(
                            tv[idx as int],
                        ));
                        assert(ops_script(tv.take(idx as int + 1)) =~= init_script().take(kk + 1));
                        assert(self.log() =~= l0 + script_events(
                            ops_script(tv.take(idx as int + 1)),
                        ));
                    }
                },
            }
            idx = idx + 1;
        }
        proof {
            assert(tv.take(n as int) =~= tv);
            assert(self.log() =~= l0 + script_events(init_script()));
        }
        Ok(())
    }
}

} // verus!
