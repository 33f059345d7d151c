//! Event-log model of the electrical interface.
//!
//! Every observable action of the driver — driving a control line,
//! writing a byte burst over the transport, waiting, setting the
//! backlight duty — is modelled as one [`Event`]. The peripheral
//! interface keeps a ghost log of the events it has performed, and the
//! driver's contracts state exactly which events each operation appends.

use vstd::prelude::*;

verus! {

/// One electrical action at the panel interface.
///
/// Line levels are `true` for high. Chip-select and reset are
/// active-low: `Cs(false)` asserts the chip, `Cs(true)` releases it.
/// `Dc(false)` marks the following burst as a command, `Dc(true)` as
/// data. `Write` is one successful transport burst of exactly the bytes
/// it holds.
pub enum Event {
    Cs(bool),
    Dc(bool),
    Rst(bool),
    Write(Seq<u8>),
    Delay(u32),
    Duty(u16),
}

/// `p` is a proper prefix of `s`: what a burst that failed part-way
/// through left on the wire.
pub open spec fn strict_prefix_of(p: Seq<u8>, s: Seq<u8>) -> bool {
    p.len() < s.len() && p == s.take(p.len() as int)
}

/// The events of one successful chip-select-bracketed burst: assert the
/// chip, write the full payload, release the chip.
pub open spec fn cs_burst_events(payload: Seq<u8>) -> Seq<Event> {
    seq![Event::Cs(false), Event::Write(payload), Event::Cs(true)]
}

/// The events of a burst whose chip-select release toggle failed: the
/// chip was asserted and `written` went out, but the chip was left
/// asserted.
pub open spec fn open_burst_events(written: Seq<u8>) -> Seq<Event> {
    seq![Event::Cs(false), Event::Write(written)]
}

/// The logs a failed chip-select-bracketed burst can leave, given the
/// log `l0` at entry. `spi` tells whether the reported error came from
/// the transport (as opposed to a line toggle).
///
/// * transport failure: a proper prefix went out, and chip-select was
///   still released before returning;
/// * line-toggle failure: either the assert toggle failed and nothing
///   moved, or the release toggle failed after the payload (or, when the
///   transport had also failed, a prefix of it) was written.
pub open spec fn cs_burst_failed(l0: Seq<Event>, l1: Seq<Event>, payload: Seq<u8>, spi: bool) -> bool {
    if spi {
        exists|p: Seq<u8>| #![trigger cs_burst_events(p)]
            strict_prefix_of(p, payload) && l1 == l0 + cs_burst_events(p)
    } else {
        ||| l1 == l0
        ||| exists|w: Seq<u8>| #![trigger open_burst_events(w)]
            (w == payload || strict_prefix_of(w, payload)) && l1 == l0 + open_burst_events(w)
    }
}

/// The events of one successful command or data burst: the data/command
/// line is driven first, then the bracketed burst follows.
pub open spec fn burst_events(dc: bool, payload: Seq<u8>) -> Seq<Event> {
    seq![Event::Dc(dc)] + cs_burst_events(payload)
}

/// The logs a failed command or data burst can leave: either the
/// data/command toggle itself failed and nothing moved, or the burst
/// failed after the data/command line was driven.
pub open spec fn burst_failed(l0: Seq<Event>, l1: Seq<Event>, dc: bool, payload: Seq<u8>, spi: bool) -> bool {
    ||| (!spi && l1 == l0)
    ||| cs_burst_failed(l0.push(Event::Dc(dc)), l1, payload, spi)
}

/// The events of one successful command burst: data/command low, then
/// the single opcode byte under chip-select.
pub open spec fn cmd_events(op: u8) -> Seq<Event> {
    burst_events(false, seq![op])
}

/// The events of one successful data burst: data/command high, then the
/// payload under chip-select.
pub open spec fn data_events(bytes: Seq<u8>) -> Seq<Event> {
    burst_events(true, bytes)
}

/// One abstract protocol step: send a command byte, send a data burst,
/// or wait.
pub enum Step {
    Cmd(u8),
    Data(Seq<u8>),
    Wait(u32),
}

/// The events of one successful step.
pub open spec fn step_events(s: Step) -> Seq<Event> {
    match s {
        Step::Cmd(op) => cmd_events(op),
        Step::Data(bytes) => data_events(bytes),
        Step::Wait(ms) => seq![Event::Delay(ms)],
    }
}

/// The events of a successful replay of a whole script, in order.
pub open spec fn script_events(ss: Seq<Step>) -> Seq<Event>
    decreases ss.len(),
{
    if ss.len() == 0 {
        seq![]
    } else {
        step_events(ss[0]) + script_events(ss.skip(1))
    }
}

/// The logs one failed step can leave. A wait cannot fail.
pub open spec fn step_failed(l0: Seq<Event>, l1: Seq<Event>, s: Step, spi: bool) -> bool {
    match s {
        Step::Cmd(op) => burst_failed(l0, l1, false, seq![op], spi),
        Step::Data(bytes) => burst_failed(l0, l1, true, bytes, spi),
        Step::Wait(_) => false,
    }
}

/// The logs a failed script replay can leave: some prefix of the script
/// replayed in full, then its first failing step.
pub open spec fn script_aborted(l0: Seq<Event>, l1: Seq<Event>, ss: Seq<Step>, spi: bool) -> bool {
    exists|k: int|
        0 <= k < ss.len() && step_failed(l0 + script_events(ss.take(k)), l1, ss[k], spi)
}

/// Concatenating scripts concatenates their events.
pub proof fn lemma_script_events_add(a: Seq<Step>, b: Seq<Step>)
    ensures
        script_events(a + b) == script_events(a) + script_events(b),
    decreases a.len(),
{
    if a.len() == 0 {
        assert(a + b =~= b);
        assert(script_events(a) + script_events(b) =~= script_events(b));
    } else {
        assert((a + b).skip(1) =~= a.skip(1) + b);
        lemma_script_events_add(a.skip(1), b);
        assert(script_events(a + b) =~= script_events(a) + script_events(b));
    }
}

/// A one-step script has its step's events.
pub proof fn lemma_script_events_singleton(s: Step)
    ensures
        script_events(seq![s]) == step_events(s),
{
    let single = seq![s];
    assert(single.skip(1) =~= Seq::<Step>::empty());
    assert(script_events(single.skip(1)) =~= Seq::<Event>::empty());
    assert(script_events(single) =~= step_events(s) + script_events(single.skip(1)));
}

/// A two-step script has its steps' events in order.
pub proof fn lemma_script_events_pair(a: Step, b: Step)
    ensures
        script_events(seq![a, b]) == step_events(a) + step_events(b),
{
    let pair = seq![a, b];
    assert(pair.skip(1) =~= seq![b]);
    lemma_script_events_singleton(b);
    assert(script_events(pair) =~= step_events(a) + step_events(b));
}

/// The events of a script grow by one step's events at a time.
pub proof fn lemma_script_events_snoc(ss: Seq<Step>, k: int)
    requires
        0 <= k < ss.len(),
    ensures
        script_events(ss.take(k + 1)) == script_events(ss.take(k)) + step_events(ss[k]),
{
    assert(ss.take(k + 1) =~= ss.take(k) + seq![ss[k]]);
    lemma_script_events_add(ss.take(k), seq![ss[k]]);
    let single = seq![ss[k]];
    assert(single.skip(1) =~= Seq::<Step>::empty());
    assert(script_events(single.skip(1)) =~= Seq::<Event>::empty());
    assert(script_events(single) =~= step_events(ss[k]) + script_events(single.skip(1)));
    assert(script_events(ss.take(k + 1)) =~= script_events(ss.take(k)) + step_events(ss[k]));
}

} // verus!
