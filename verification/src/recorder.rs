//! An instrumented, in-memory implementation of [`Interface`].
//!
//! The recorder performs no electrical work: it appends every action to
//! a trace that tests and callers can inspect, and its ghost log is
//! exactly the view of that trace. Its transport can be given a byte
//! budget, after which a burst fails part-way through — the shape the
//! interface contract allows — so failure handling can be exercised.

use vstd::prelude::*;
use vstd::slice::slice_subrange;
use vstd::slice::slice_to_vec;

use crate::events::{strict_prefix_of, Event};
use crate::interface::Interface;

verus! {

/// Error of the recorder's transport once its byte budget is spent.
#[derive(Debug, PartialEq, Eq)]
pub struct BusFault;

/// Error type of the recorder's lines; the recorder's lines never fail,
/// so no value of it is ever made.
#[derive(Debug, PartialEq, Eq)]
pub struct LineFault;

/// One recorded action, mirroring [`Event`] with concrete bytes.
#[derive(Debug, PartialEq, Eq)]
pub enum TraceOp {
    Cs(bool),
    Dc(bool),
    Rst(bool),
    Write(Vec<u8>),
    Delay(u32),
    Duty(u16),
}

/// The event a recorded action stands for.
pub open spec fn op_event(o: TraceOp) -> Event {
    match o {
        TraceOp::Cs(high) => Event::Cs(high),
        TraceOp::Dc(high) => Event::Dc(high),
        TraceOp::Rst(high) => Event::Rst(high),
        TraceOp::Write(bytes) => Event::Write(bytes@),
        TraceOp::Delay(ms) => Event::Delay(ms),
        TraceOp::Duty(duty) => Event::Duty(duty),
    }
}

/// Records every action; optionally fails transport bursts once a byte
/// budget is exhausted, or line toggles once a toggle budget is.
pub struct Recorder {
    ops: Vec<TraceOp>,
    budget: Option<u32>,
    line_budget: Option<u32>,
}

impl Recorder {
    /// A recorder that never fails.
    pub fn new() -> (r: Recorder)
        ensures
            r.log() == Seq::<Event>::empty(),
    {
        let r = Recorder { ops: Vec::new(), budget: None, line_budget: None };
        proof {
            assert(r.log() =~= Seq::<Event>::empty());
        }
        r
    }

    /// A recorder whose transport accepts exactly `budget` more bytes;
    /// the burst that would exceed it fails after the bytes that fit.
    pub fn with_budget(budget: u32) -> (r: Recorder)
        ensures
            r.log() == Seq::<Event>::empty(),
    {
        let r = Recorder { ops: Vec::new(), budget: Some(budget), line_budget: None };
        proof {
            assert(r.log() =~= Seq::<Event>::empty());
        }
        r
    }

    /// A recorder whose lines toggle exactly `line_budget` more times;
    /// the next toggle fails, moving nothing.
    pub fn with_line_budget(line_budget: u32) -> (r: Recorder)
        ensures
            r.log() == Seq::<Event>::empty(),
    {
        let r = Recorder { ops: Vec::new(), budget: None, line_budget: Some(line_budget) };
        proof {
            assert(r.log() =~= Seq::<Event>::empty());
        }
        r
    }

    /// Spends one line toggle; tells whether the toggle may go ahead.
    fn take_toggle(&mut self) -> (ok: bool)
        ensures
            final(self).log() == old(self).log(),
    {
        match self.line_budget {
            None => true,
            Some(left) => {
                if left == 0 {
                    false
                } else {
                    self.line_budget = Some(left - 1);
                    true
                }
            },
        }
    }

    /// The recorded actions, oldest first.
    pub fn ops(&self) -> (r: &Vec<TraceOp>)
        ensures
            r@.map_values(|o: TraceOp| op_event(o)) == self.log(),
    {
        &self.ops
    }
}

impl Interface for Recorder {
    type SpiErr = BusFault;

    type GpioErr = LineFault;

    closed spec fn log(&self) -> Seq<Event> {
        self.ops@.map_values(|o: TraceOp| op_event(o))
    }

    fn set_cs(&mut self, high: bool) -> (r: Result<(), LineFault>) {
        let ghost l0 = self.log();
        if !self.take_toggle() {
            return Err(LineFault);
        }
        self.ops.push(TraceOp::Cs(high));
        proof {
            assert(self.log() =~= l0.push(Event::Cs(high)));
        }
        Ok(())
    }

    fn set_dc(&mut self, high: bool) -> (r: Result<(), LineFault>) {
        let ghost l0 = self.log();
        if !self.take_toggle() {
            return Err(LineFault);
        }
        self.ops.push(TraceOp::Dc(high));
        proof {
            assert(self.log() =~= l0.push(Event::Dc(high)));
        }
        Ok(())
    }

    fn set_rst(&mut self, high: bool) -> (r: Result<(), LineFault>) {
        let ghost l0 = self.log();
        if !self.take_toggle() {
            return Err(LineFault);
        }
        self.ops.push(TraceOp::Rst(high));
        proof {
            assert(self.log() =~= l0.push(Event::Rst(high)));
        }
        Ok(())
    }

    fn write(&mut self, data: &[u8]) -> (r: Result<(), BusFault>) {
        let ghost l0 = self.log();
        match self.budget {
            None => {
                let full: Vec<u8> = slice_to_vec(data);
                self.ops.push(TraceOp::Write(full));
                proof {
                    assert(self.log() =~= l0.push(Event::Write(data@)));
                }
                Ok(())
            },
            Some(left) => {
                if data.len() <= left as usize {
                    self.budget = Some(left - data.len() as u32);
                    let full: Vec<u8> = slice_to_vec(data);
                    self.ops.push(TraceOp::Write(full));
                    proof {
                        assert(self.log() =~= l0.push(Event::Write(data@)));
                    }
                    Ok(())
                } else {
                    self.budget = Some(0);
                    let part: &[u8] = slice_subrange(data, 0, left as usize);
                    let ghost pv = part@;
                    let partial: Vec<u8> = slice_to_vec(part);
                    self.ops.push(TraceOp::Write(partial));
                    proof {
                        assert(pv =~= data@.take(pv.len() as int));
                        assert(strict_prefix_of(pv, data@));
                        assert(self.log() =~= l0.push(Event::Write(pv)));
                    }
                    Err(BusFault)
                }
            },
        }
    }

    fn delay_ms(&mut self, ms: u32) {
        let ghost l0 = self.log();
        self.ops.push(TraceOp::Delay(ms));
        proof {
            assert(self.log() =~= l0.push(Event::Delay(ms)));
        }
    }

    fn set_duty(&mut self, duty: u16) {
        let ghost l0 = self.log();
        self.ops.push(TraceOp::Duty(duty));
        proof {
            assert(self.log() =~= l0.push(Event::Duty(duty)));
        }
    }
}

} // verus!
