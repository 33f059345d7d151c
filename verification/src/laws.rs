//! Protocol laws: properties of the driver's event sequences, stated
//! and proved once over the specification functions that the driver's
//! contracts use.

use vstd::prelude::*;

use crate::driver::{
    be_bytes, clear_events, clear_failed, pixel_count, pixel_events, pixel_tail_restored,
    stream_prelude, window_script, HEIGHT, WIDTH,
};
use crate::events::{
    burst_events, burst_failed, cmd_events, cs_burst_events, data_events,
    lemma_script_events_add, lemma_script_events_pair, lemma_script_events_singleton,
    open_burst_events, script_aborted, script_events, step_failed, strict_prefix_of, Event, Step,
};
use crate::registers::{
    entry_steps, lemma_ops_script_split, ops_script, InitOp, CASET, PASET, RAMWR,
};

verus! {

/// The chip-select level after a sequence of events, given the level
/// `before` them: the level of the last chip-select event, if any.
pub open spec fn cs_level_after(evs: Seq<Event>, before: bool) -> bool
    decreases evs.len(),
{
    if evs.len() == 0 {
        before
    } else {
        match evs.last() {
            Event::Cs(high) => high,
            _ => cs_level_after(evs.drop_last(), before),
        }
    }
}

/// The data/command line is driven exactly once, first, in these
/// events.
pub open spec fn dc_set_once_first(evs: Seq<Event>) -> bool {
    &&& evs.len() > 0
    &&& evs[0] is Dc
    &&& forall|i: int| 1 <= i < evs.len() ==> !(evs[i] is Dc)
}

/// The events of one replayed table entry: a command burst immediately
/// followed by a data burst of the entry's parameters, or one wait.
pub open spec fn entry_events(o: InitOp) -> Seq<Event> {
    match o {
        InitOp::Cmd(op, data) => cmd_events(op) + data_events(data@),
        InitOp::Delay(ms) => seq![Event::Delay(ms)],
    }
}

/// Law: a successful command or data burst leaves chip-select high
/// (deasserted), whatever its level before.
pub proof fn lemma_burst_leaves_cs_high(dc: bool, payload: Seq<u8>, before: bool)
    ensures
        cs_level_after(burst_events(dc, payload), before),
{
    assert(burst_events(dc, payload) =~= seq![
        Event::Dc(dc),
        Event::Cs(false),
        Event::Write(payload),
        Event::Cs(true),
    ]);
    assert(burst_events(dc, payload).last() == Event::Cs(true));
}

/// Law: a command or data burst whose transport write failed still
/// leaves chip-select high: the release toggle runs on the error path.
pub proof fn lemma_failed_burst_leaves_cs_high(
    l0: Seq<Event>,
    l1: Seq<Event>,
    dc: bool,
    payload: Seq<u8>,
    before: bool,
)
    requires
        burst_failed(l0, l1, dc, payload, true),
    ensures
        l1.len() == l0.len() + 4,
        cs_level_after(l1.skip(l0.len() as int), before),
{
    let p = choose|p: Seq<u8>|
        strict_prefix_of(p, payload) && l1 == l0.push(Event::Dc(dc)) + cs_burst_events(p);
    assert(l1.skip(l0.len() as int) =~= seq![
        Event::Dc(dc),
        Event::Cs(false),
        Event::Write(p),
        Event::Cs(true),
    ]);
    assert(l1.skip(l0.len() as int).last() == Event::Cs(true));
}

/// Law: during one command or data burst the data/command line is
/// driven exactly once, before the byte burst.
pub proof fn lemma_burst_sets_dc_once(dc: bool, payload: Seq<u8>)
    ensures
        dc_set_once_first(burst_events(dc, payload)),
        burst_events(dc, payload)[0] == Event::Dc(dc),
        forall|i: int|
            0 <= i < burst_events(dc, payload).len() && burst_events(dc, payload)[i] is Write
                ==> 0 < i,
{
    assert(burst_events(dc, payload) =~= seq![
        Event::Dc(dc),
        Event::Cs(false),
        Event::Write(payload),
        Event::Cs(true),
    ]);
}

/// Law: a failed command or data burst drives the data/command line at
/// most once, and then first.
pub proof fn lemma_failed_burst_sets_dc_once(
    l0: Seq<Event>,
    l1: Seq<Event>,
    dc: bool,
    payload: Seq<u8>,
    spi: bool,
)
    requires
        burst_failed(l0, l1, dc, payload, spi),
    ensures
        l0.len() <= l1.len(),
        l1.len() == l0.len() || dc_set_once_first(l1.skip(l0.len() as int)),
{
    if l1 == l0 {
    } else if spi {
        let p = choose|p: Seq<u8>|
            strict_prefix_of(p, payload) && l1 == l0.push(Event::Dc(dc)) + cs_burst_events(p);
        assert(l1.skip(l0.len() as int) =~= seq![
            Event::Dc(dc),
            Event::Cs(false),
            Event::Write(p),
            Event::Cs(true),
        ]);
    } else if l1 == l0.push(Event::Dc(dc)) {
        assert(l1.skip(l0.len() as int) =~= seq![Event::Dc(dc)]);
    } else {
        let w = choose|w: Seq<u8>|
            #![trigger open_burst_events(w)]
            (w == payload || strict_prefix_of(w, payload)) && l1 == l0.push(Event::Dc(dc))
                + open_burst_events(w);
        assert(l1.skip(l0.len() as int) =~= seq![Event::Dc(dc), Event::Cs(false), Event::Write(w)]);
    }
}

/// Law: the initialization replay touches each table entry exactly
/// once, in declaration order: the whole table's events are those of the
/// entries before `i`, then entry `i`'s command-plus-data pair or wait,
/// then those of the entries after it.
pub proof fn lemma_replay_in_table_order(t: Seq<InitOp>, i: int)
    requires
        0 <= i < t.len(),
    ensures
        script_events(ops_script(t)) == script_events(ops_script(t.take(i))) + entry_events(t[i])
            + script_events(ops_script(t.skip(i + 1))),
{
    lemma_ops_script_split(t, i);
    lemma_script_events_add(
        ops_script(t.take(i)) + entry_steps(t[i]),
        ops_script(t.skip(i + 1)),
    );
    lemma_script_events_add(ops_script(t.take(i)), entry_steps(t[i]));
    match t[i] {
        InitOp::Cmd(op, data) => {
            lemma_script_events_pair(Step::Cmd(op), Step::Data(data@));
            assert(script_events(entry_steps(t[i])) =~= entry_events(t[i]));
        },
        InitOp::Delay(ms) => {
            lemma_script_events_singleton(Step::Wait(ms));
            assert(script_events(entry_steps(t[i])) =~= entry_events(t[i]));
        },
    }
}

/// Law: the window script's events are exactly one column-address-set
/// command with the full-width parameters, one row-address-set command
/// with the full-height parameters, and the memory-write command, in
/// that order.
pub proof fn lemma_window_events()
    ensures
        script_events(window_script()) == cmd_events(CASET) + data_events(
            seq![0x00u8, 0x00u8, 0x00u8, (WIDTH - 1) as u8],
        ) + cmd_events(PASET) + data_events(seq![0x00u8, 0x00u8, 0x00u8, (HEIGHT - 1) as u8])
            + cmd_events(RAMWR),
{
    let ws = window_script();
    let front = seq![ws[0], ws[1]];
    let mid = seq![ws[2], ws[3]];
    let back = seq![ws[4]];
    assert(ws =~= front + mid + back);
    lemma_script_events_add(front + mid, back);
    lemma_script_events_add(front, mid);
    lemma_script_events_pair(ws[0], ws[1]);
    lemma_script_events_pair(ws[2], ws[3]);
    lemma_script_events_singleton(ws[4]);
}

/// Law: a clear writes exactly one pixel burst of the color's two
/// big-endian bytes for every pixel of the frame, all between the one
/// chip-select assert that opens the stream and the one release that
/// ends it, with no chip-select event in between.
pub proof fn lemma_clear_pixel_span(color: u16)
    ensures
        clear_events(color) == script_events(window_script()) + stream_prelude() + pixel_events(
            color,
            pixel_count(),
        ) + seq![Event::Cs(true)],
        pixel_events(color, pixel_count()).len() == pixel_count(),
        forall|i: int|
            0 <= i < pixel_count() ==> pixel_events(color, pixel_count())[i] == Event::Write(
                be_bytes(color),
            ),
        forall|i: int| 0 <= i < pixel_count() ==> !(pixel_events(color, pixel_count())[i] is Cs),
        stream_prelude() == seq![Event::Dc(true), Event::Cs(false)],
{
}

/// A step that failed in the transport appended four events ending with
/// the chip-select release.
proof fn lemma_step_failed_spi_shape(lk: Seq<Event>, l1: Seq<Event>, s: Step)
    requires
        step_failed(lk, l1, s, true),
    ensures
        l1.len() == lk.len() + 4,
        l1.last() == Event::Cs(true),
{
    match s {
        Step::Cmd(op) => {
            let p = choose|p: Seq<u8>|
                strict_prefix_of(p, seq![op]) && l1 == lk.push(Event::Dc(false))
                    + cs_burst_events(p);
            assert(l1.len() == lk.len() + 4);
            assert(l1.last() == Event::Cs(true));
        },
        Step::Data(bytes) => {
            let p = choose|p: Seq<u8>|
                strict_prefix_of(p, bytes) && l1 == lk.push(Event::Dc(true)) + cs_burst_events(p);
            assert(l1.len() == lk.len() + 4);
            assert(l1.last() == Event::Cs(true));
        },
        Step::Wait(_) => {
            assert(false);
        },
    }
}

/// Law: when a clear fails in the transport — on any byte of any burst,
/// window commands and pixel stream alike — chip-select is still
/// released: the events it appended end at the high level.
pub proof fn lemma_clear_transport_failure_leaves_cs_high(
    l0: Seq<Event>,
    l1: Seq<Event>,
    color: u16,
    before: bool,
)
    requires
        clear_failed(l0, l1, color, true),
    ensures
        l0.len() < l1.len(),
        cs_level_after(l1.skip(l0.len() as int), before),
{
    if script_aborted(l0, l1, window_script(), true) {
        let k = choose|k: int|
            0 <= k < window_script().len() && step_failed(
                l0 + script_events(window_script().take(k)),
                l1,
                window_script()[k],
                true,
            );
        lemma_step_failed_spi_shape(
            l0 + script_events(window_script().take(k)),
            l1,
            window_script()[k],
        );
        assert(l1.skip(l0.len() as int).last() == l1.last());
    } else {
        let lp = l0 + script_events(window_script()) + stream_prelude();
        let (k, p) = choose|k: nat, p: Seq<u8>|
            #![trigger pixel_tail_restored(color, k, p)]
            k < pixel_count() && strict_prefix_of(p, be_bytes(color)) && l1 == lp
                + pixel_tail_restored(color, k, p);
        assert(l1.last() == Event::Cs(true));
        assert(l1.skip(l0.len() as int).last() == l1.last());
    }
}

} // verus!
