//! The controller's initialization table.
//!
//! The table is an ordered list of instructions — write a command byte
//! plus parameter bytes, or wait — replayed verbatim by
//! [`crate::driver::GC9A01A::initialize`]. Order and bytes follow the
//! vendor's documented bring-up sequence for this controller model; the
//! driver never reorders, filters or parameterizes them.

use vstd::prelude::*;

use crate::events::{Step};

verus! {

/// Column address set.
pub const CASET: u8 = 0x2A;

/// Row (page) address set.
pub const PASET: u8 = 0x2B;

/// Memory write: pixel data follows until the next command.
pub const RAMWR: u8 = 0x2C;

/// One instruction of the initialization table: write `Cmd.0` followed
/// by the parameter bytes `Cmd.1`, or wait `Delay.0` milliseconds.
#[derive(Debug, PartialEq, Eq)]
pub enum InitOp {
    Cmd(u8, Vec<u8>),
    Delay(u32),
}

/// The protocol steps one table entry expands to: a command entry is one
/// command burst immediately followed by one data burst of its
/// parameters (possibly empty); a delay entry is one wait.
pub open spec fn entry_steps(o: InitOp) -> Seq<Step> {
    match o {
        InitOp::Cmd(op, data) => seq![Step::Cmd(op), Step::Data(data@)],
        InitOp::Delay(ms) => seq![Step::Wait(ms)],
    }
}

/// The protocol steps of a whole table, in table order.
pub open spec fn ops_script(t: Seq<InitOp>) -> Seq<Step>
    decreases t.len(),
{
    if t.len() == 0 {
        seq![]
    } else {
        entry_steps(t[0]) + ops_script(t.skip(1))
    }
}

/// Concatenating tables concatenates their steps.
pub proof fn lemma_ops_script_add(a: Seq<InitOp>, b: Seq<InitOp>)
    ensures
        ops_script(a + b) == ops_script(a) + ops_script(b),
    decreases a.len(),
{
    if a.len() == 0 {
        assert(a + b =~= b);
        assert(ops_script(a) + ops_script(b) =~= ops_script(b));
    } else {
        assert((a + b).skip(1) =~= a.skip(1) + b);
        lemma_ops_script_add(a.skip(1), b);
        assert(ops_script(a + b) =~= ops_script(a) + ops_script(b));
    }
}

/// A table's steps grow by one entry's steps at a time.
pub proof fn lemma_ops_script_snoc(t: Seq<InitOp>, o: InitOp)
    ensures
        ops_script(t.push(o)) == ops_script(t) + entry_steps(o),
{
    let single = seq![o];
    assert(single.skip(1) =~= Seq::<InitOp>::empty());
    assert(ops_script(single.skip(1)) =~= Seq::<Step>::empty());
    assert(ops_script(single) =~= entry_steps(o) + ops_script(single.skip(1)));
    assert(t.push(o) =~= t + single);
    lemma_ops_script_add(t, single);
    assert(ops_script(t.push(o)) =~= ops_script(t) + entry_steps(o));
}

/// Splitting a table at an entry splits its steps around that entry's.
pub proof fn lemma_ops_script_split(t: Seq<InitOp>, i: int)
    requires
        0 <= i < t.len(),
    ensures
        ops_script(t) == ops_script(t.take(i)) + entry_steps(t[i]) + ops_script(t.skip(i + 1)),
{
    assert(t =~= t.take(i + 1) + t.skip(i + 1));
    lemma_ops_script_add(t.take(i + 1), t.skip(i + 1));
    assert(t.take(i + 1) =~= t.take(i).push(t[i]));
    lemma_ops_script_snoc(t.take(i), t[i]);
}

/// Appends a command entry to the table.
fn push_cmd(t: &mut Vec<InitOp>, op: u8, data: Vec<u8>)
    ensures
        ops_script(final(t)@) == ops_script(old(t)@) + seq![Step::Cmd(op), Step::Data(data@)],
{
    let ghost t0 = t@;
    let ghost dv = data@;
    let o = InitOp::Cmd(op, data);
    proof {
        assert(entry_steps(o) =~= seq![Step::Cmd(op), Step::Data(dv)]);
    }
    t.push(o);
    proof {
        lemma_ops_script_snoc(t0, o);
    }
}

/// Appends a delay entry to the table.
fn push_delay(t: &mut Vec<InitOp>, ms: u32)
    ensures
        ops_script(final(t)@) == ops_script(old(t)@) + seq![Step::Wait(ms)],
{
    let ghost t0 = t@;
    let o = InitOp::Delay(ms);
    t.push(o);
    proof {
        lemma_ops_script_snoc(t0, o);
    }
}

/// Steps of the table's power block: the vendor's inter-register enable and power-path settings.
pub open spec fn script_power() -> Seq<Step> {
    seq![
        Step::Cmd(0xEF), Step::Data(Seq::<u8>::empty()),
        Step::Cmd(0xEB), Step::Data(seq![0x14u8]),
        Step::Cmd(0xFE), Step::Data(Seq::<u8>::empty()),
        Step::Cmd(0xEF), Step::Data(Seq::<u8>::empty()),
        Step::Cmd(0xEB), Step::Data(seq![0x14u8]),
        Step::Cmd(0x84), Step::Data(seq![0x40u8]),
        Step::Cmd(0x85), Step::Data(seq![0xFFu8]),
        Step::Cmd(0x86), Step::Data(seq![0xFFu8]),
        Step::Cmd(0x87), Step::Data(seq![0xFFu8]),
        Step::Cmd(0x88), Step::Data(seq![0x0Au8]),
    ]
}

/// Appends the table's power block.
fn push_table_power(t: &mut Vec<InitOp>)
    ensures
        ops_script(final(t)@) == ops_script(old(t)@) + script_power(),
{
    let ghost s0 = ops_script(t@);
    push_cmd(t, 0xEF, Vec::new());
    proof {
        assert(ops_script(t@) =~~= s0 + script_power().take(2));
    }
    let d1: Vec<u8> = vec![0x14];
    proof {
        assert(d1@ == seq![0x14u8]);
    }
    push_cmd(t, 0xEB, d1);
    proof {
        assert(ops_script(t@) =~~= s0 + script_power().take(4));
    }
    push_cmd(t, 0xFE, Vec::new());
    proof {
        assert(ops_script(t@) =~~= s0 + script_power().take(6));
    }
    push_cmd(t, 0xEF, Vec::new());
    proof {
        assert(ops_script(t@) =~~= s0 + script_power().take(8));
    }
    let d2: Vec<u8> = vec![0x14];
    proof {
        assert(d2@ == seq![0x14u8]);
    }
    push_cmd(t, 0xEB, d2);
    proof {
        assert(ops_script(t@) =~~= s0 + script_power().take(10));
    }
    let d3: Vec<u8> = vec![0x40];
    proof {
        assert(d3@ == seq![0x40u8]);
    }
    push_cmd(t, 0x84, d3);
    proof {
        assert(ops_script(t@) =~~= s0 + script_power().take(12));
    }
    let d4: Vec<u8> = vec![0xFF];
    proof {
        assert(d4@ == seq![0xFFu8]);
    }
    push_cmd(t, 0x85, d4);
    proof {
        assert(ops_script(t@) =~~= s0 + script_power().take(14));
    }
    let d5: Vec<u8> = vec![0xFF];
    proof {
        assert(d5@ == seq![0xFFu8]);
    }
    push_cmd(t, 0x86, d5);
    proof {
        assert(ops_script(t@) =~~= s0 + script_power().take(16));
    }
    let d6: Vec<u8> = vec![0xFF];
    proof {
        assert(d6@ == seq![0xFFu8]);
    }
    push_cmd(t, 0x87, d6);
    proof {
        assert(ops_script(t@) =~~= s0 + script_power().take(18));
    }
    let d7: Vec<u8> = vec![0x0A];
    proof {
        assert(d7@ == seq![0x0Au8]);
    }
    push_cmd(t, 0x88, d7);
    proof {
        assert(ops_script(t@) =~~= s0 + script_power().take(20));
    }
    proof {
        assert(script_power().take(20) =~~= script_power());
    }
}

/// Steps of the table's display block: memory access, pixel format and display-function settings.
pub open spec fn script_display() -> Seq<Step> {
    seq![
        Step::Cmd(0x89), Step::Data(seq![0x21u8]),
        Step::Cmd(0x8A), Step::Data(seq![0x00u8]),
        Step::Cmd(0x8B), Step::Data(seq![0x80u8]),
        Step::Cmd(0x8C), Step::Data(seq![0x01u8]),
        Step::Cmd(0x8D), Step::Data(seq![0x01u8]),
        Step::Cmd(0x8E), Step::Data(seq![0xFFu8]),
        Step::Cmd(0x8F), Step::Data(seq![0xFFu8]),
        Step::Cmd(0xB6), Step::Data(seq![0x00u8, 0x20u8]),
        Step::Cmd(0x36), Step::Data(seq![0x08u8]),
        Step::Cmd(0x3A), Step::Data(seq![0x05u8]),
    ]
}

/// Appends the table's display block.
fn push_table_display(t: &mut Vec<InitOp>)
    ensures
        ops_script(final(t)@) == ops_script(old(t)@) + script_display(),
{
    let ghost s0 = ops_script(t@);
    let d1: Vec<u8> = vec![0x21];
    proof {
        assert(d1@ == seq![0x21u8]);
    }
    push_cmd(t, 0x89, d1);
    proof {
        assert(ops_script(t@) =~~= s0 + script_display().take(2));
    }
    let d2: Vec<u8> = vec![0x00];
    proof {
        assert(d2@ == seq![0x00u8]);
    }
    push_cmd(t, 0x8A, d2);
    proof {
        assert(ops_script(t@) =~~= s0 + script_display().take(4));
    }
    let d3: Vec<u8> = vec![0x80];
    proof {
        assert(d3@ == seq![0x80u8]);
    }
    push_cmd(t, 0x8B, d3);
    proof {
        assert(ops_script(t@) =~~= s0 + script_display().take(6));
    }
    let d4: Vec<u8> = vec![0x01];
    proof {
        assert(d4@ == seq![0x01u8]);
    }
    push_cmd(t, 0x8C, d4);
    proof {
        assert(ops_script(t@) =~~= s0 + script_display().take(8));
    }
    let d5: Vec<u8> = vec![0x01];
    proof {
        assert(d5@ == seq![0x01u8]);
    }
    push_cmd(t, 0x8D, d5);
    proof {
        assert(ops_script(t@) =~~= s0 + script_display().take(10));
    }
    let d6: Vec<u8> = vec![0xFF];
    proof {
        assert(d6@ == seq![0xFFu8]);
    }
    push_cmd(t, 0x8E, d6);
    proof {
        assert(ops_script(t@) =~~= s0 + script_display().take(12));
    }
    let d7: Vec<u8> = vec![0xFF];
    proof {
        assert(d7@ == seq![0xFFu8]);
    }
    push_cmd(t, 0x8F, d7);
    proof {
        assert(ops_script(t@) =~~= s0 + script_display().take(14));
    }
    let d8: Vec<u8> = vec![0x00, 0x20];
    proof {
        assert(d8@ == seq![0x00u8, 0x20u8]);
    }
    push_cmd(t, 0xB6, d8);
    proof {
        assert(ops_script(t@) =~~= s0 + script_display().take(16));
    }
    let d9: Vec<u8> = vec![0x08];
    proof {
        assert(d9@ == seq![0x08u8]);
    }
    push_cmd(t, 0x36, d9);
    proof {
        assert(ops_script(t@) =~~= s0 + script_display().take(18));
    }
    let d10: Vec<u8> = vec![0x05];
    proof {
        assert(d10@ == seq![0x05u8]);
    }
    push_cmd(t, 0x3A, d10);
    proof {
        assert(ops_script(t@) =~~= s0 + script_display().take(20));
    }
    proof {
        assert(script_display().take(20) =~~= script_display());
    }
}

/// Steps of the table's timing block: porch, frame-rate and voltage-regulator settings.
pub open spec fn script_timing() -> Seq<Step> {
    seq![
        Step::Cmd(0x90), Step::Data(seq![0x08u8, 0x08u8, 0x08u8, 0x08u8]),
        Step::Cmd(0xBD), Step::Data(seq![0x06u8]),
        Step::Cmd(0xBC), Step::Data(seq![0x00u8]),
        Step::Cmd(0xFF), Step::Data(seq![0x60u8, 0x01u8, 0x04u8]),
        Step::Cmd(0xC3), Step::Data(seq![0x13u8]),
        Step::Cmd(0xC4), Step::Data(seq![0x13u8]),
        Step::Cmd(0xC9), Step::Data(seq![0x22u8]),
        Step::Cmd(0xBE), Step::Data(seq![0x11u8]),
        Step::Cmd(0xE1), Step::Data(seq![0x10u8, 0x0Eu8]),
        Step::Cmd(0xDF), Step::Data(seq![0x21u8, 0x0Cu8, 0x02u8]),
    ]
}

/// Appends the table's timing block.
fn push_table_timing(t: &mut Vec<InitOp>)
    ensures
        ops_script(final(t)@) == ops_script(old(t)@) + script_timing(),
{
    let ghost s0 = ops_script(t@);
    let d1: Vec<u8> = vec![0x08, 0x08, 0x08, 0x08];
    proof {
        assert(d1@ == seq![0x08u8, 0x08u8, 0x08u8, 0x08u8]);
    }
    push_cmd(t, 0x90, d1);
    proof {
        assert(ops_script(t@) =~~= s0 + script_timing().take(2));
    }
    let d2: Vec<u8> = vec![0x06];
    proof {
        assert(d2@ == seq![0x06u8]);
    }
    push_cmd(t, 0xBD, d2);
    proof {
        assert(ops_script(t@) =~~= s0 + script_timing().take(4));
    }
    let d3: Vec<u8> = vec![0x00];
    proof {
        assert(d3@ == seq![0x00u8]);
    }
    push_cmd(t, 0xBC, d3);
    proof {
        assert(ops_script(t@) =~~= s0 + script_timing().take(6));
    }
    let d4: Vec<u8> = vec![0x60, 0x01, 0x04];
    proof {
        assert(d4@ == seq![0x60u8, 0x01u8, 0x04u8]);
    }
    push_cmd(t, 0xFF, d4);
    proof {
        assert(ops_script(t@) =~~= s0 + script_timing().take(8));
    }
    let d5: Vec<u8> = vec![0x13];
    proof {
        assert(d5@ == seq![0x13u8]);
    }
    push_cmd(t, 0xC3, d5);
    proof {
        assert(ops_script(t@) =~~= s0 + script_timing().take(10));
    }
    let d6: Vec<u8> = vec![0x13];
    proof {
        assert(d6@ == seq![0x13u8]);
    }
    push_cmd(t, 0xC4, d6);
    proof {
        assert(ops_script(t@) =~~= s0 + script_timing().take(12));
    }
    let d7: Vec<u8> = vec![0x22];
    proof {
        assert(d7@ == seq![0x22u8]);
    }
    push_cmd(t, 0xC9, d7);
    proof {
        assert(ops_script(t@) =~~= s0 + script_timing().take(14));
    }
    let d8: Vec<u8> = vec![0x11];
    proof {
        assert(d8@ == seq![0x11u8]);
    }
    push_cmd(t, 0xBE, d8);
    proof {
        assert(ops_script(t@) =~~= s0 + script_timing().take(16));
    }
    let d9: Vec<u8> = vec![0x10, 0x0E];
    proof {
        assert(d9@ == seq![0x10u8, 0x0Eu8]);
    }
    push_cmd(t, 0xE1, d9);
    proof {
        assert(ops_script(t@) =~~= s0 + script_timing().take(18));
    }
    let d10: Vec<u8> = vec![0x21, 0x0C, 0x02];
    proof {
        assert(d10@ == seq![0x21u8, 0x0Cu8, 0x02u8]);
    }
    push_cmd(t, 0xDF, d10);
    proof {
        assert(ops_script(t@) =~~= s0 + script_timing().take(20));
    }
    proof {
        assert(script_timing().take(20) =~~= script_timing());
    }
}

/// Steps of the table's gamma block: the gamma correction curves.
pub open spec fn script_gamma() -> Seq<Step> {
    seq![
        Step::Cmd(0xF0), Step::Data(seq![0x45u8, 0x09u8, 0x08u8, 0x08u8, 0x26u8, 0x2Au8]),
        Step::Cmd(0xF1), Step::Data(seq![0x43u8, 0x70u8, 0x72u8, 0x36u8, 0x37u8, 0x6Fu8]),
        Step::Cmd(0xF2), Step::Data(seq![0x45u8, 0x09u8, 0x08u8, 0x08u8, 0x26u8, 0x2Au8]),
        Step::Cmd(0xF3), Step::Data(seq![0x43u8, 0x70u8, 0x72u8, 0x36u8, 0x37u8, 0x6Fu8]),
        Step::Cmd(0xED), Step::Data(seq![0x1Bu8, 0x0Bu8]),
        Step::Cmd(0xAE), Step::Data(seq![0x77u8]),
        Step::Cmd(0xCD), Step::Data(seq![0x63u8]),
        Step::Cmd(0x70), Step::Data(seq![0x07u8, 0x07u8, 0x04u8, 0x0Eu8, 0x0Fu8, 0x09u8, 0x07u8, 0x08u8, 0x03u8]),
        Step::Cmd(0xE8), Step::Data(seq![0x34u8]),
    ]
}

/// Appends the table's gamma block.
fn push_table_gamma(t: &mut Vec<InitOp>)
    ensures
        ops_script(final(t)@) == ops_script(old(t)@) + script_gamma(),
{
    let ghost s0 = ops_script(t@);
    let d1: Vec<u8> = vec![0x45, 0x09, 0x08, 0x08, 0x26, 0x2A];
    proof {
        assert(d1@ == seq![0x45u8, 0x09u8, 0x08u8, 0x08u8, 0x26u8, 0x2Au8]);
    }
    push_cmd(t, 0xF0, d1);
    proof {
        assert(ops_script(t@) =~~= s0 + script_gamma().take(2));
    }
    let d2: Vec<u8> = vec![0x43, 0x70, 0x72, 0x36, 0x37, 0x6F];
    proof {
        assert(d2@ == seq![0x43u8, 0x70u8, 0x72u8, 0x36u8, 0x37u8, 0x6Fu8]);
    }
    push_cmd(t, 0xF1, d2);
    proof {
        assert(ops_script(t@) =~~= s0 + script_gamma().take(4));
    }
    let d3: Vec<u8> = vec![0x45, 0x09, 0x08, 0x08, 0x26, 0x2A];
    proof {
        assert(d3@ == seq![0x45u8, 0x09u8, 0x08u8, 0x08u8, 0x26u8, 0x2Au8]);
    }
    push_cmd(t, 0xF2, d3);
    proof {
        assert(ops_script(t@) =~~= s0 + script_gamma().take(6));
    }
    let d4: Vec<u8> = vec![0x43, 0x70, 0x72, 0x36, 0x37, 0x6F];
    proof {
        assert(d4@ == seq![0x43u8, 0x70u8, 0x72u8, 0x36u8, 0x37u8, 0x6Fu8]);
    }
    push_cmd(t, 0xF3, d4);
    proof {
        assert(ops_script(t@) =~~= s0 + script_gamma().take(8));
    }
    let d5: Vec<u8> = vec![0x1B, 0x0B];
    proof {
        assert(d5@ == seq![0x1Bu8, 0x0Bu8]);
    }
    push_cmd(t, 0xED, d5);
    proof {
        assert(ops_script(t@) =~~= s0 + script_gamma().take(10));
    }
    let d6: Vec<u8> = vec![0x77];
    proof {
        assert(d6@ == seq![0x77u8]);
    }
    push_cmd(t, 0xAE, d6);
    proof {
        assert(ops_script(t@) =~~= s0 + script_gamma().take(12));
    }
    let d7: Vec<u8> = vec![0x63];
    proof {
        assert(d7@ == seq![0x63u8]);
    }
    push_cmd(t, 0xCD, d7);
    proof {
        assert(ops_script(t@) =~~= s0 + script_gamma().take(14));
    }
    let d8: Vec<u8> = vec![0x07, 0x07, 0x04, 0x0E, 0x0F, 0x09, 0x07, 0x08, 0x03];
    proof {
        assert(d8@ == seq![0x07u8, 0x07u8, 0x04u8, 0x0Eu8, 0x0Fu8, 0x09u8, 0x07u8, 0x08u8, 0x03u8]);
    }
    push_cmd(t, 0x70, d8);
    proof {
        assert(ops_script(t@) =~~= s0 + script_gamma().take(16));
    }
    let d9: Vec<u8> = vec![0x34];
    proof {
        assert(d9@ == seq![0x34u8]);
    }
    push_cmd(t, 0xE8, d9);
    proof {
        assert(ops_script(t@) =~~= s0 + script_gamma().take(18));
    }
    proof {
        assert(script_gamma().take(18) =~~= script_gamma());
    }
}

/// Steps of the table's source block: the source and gate driving timings.
pub open spec fn script_source() -> Seq<Step> {
    seq![
        Step::Cmd(0x62), Step::Data(seq![0x18u8, 0x0Du8, 0x71u8, 0xEDu8, 0x70u8, 0x70u8, 0x18u8, 0x0Fu8, 0x71u8, 0xEFu8, 0x70u8, 0x70u8]),
        Step::Cmd(0x63), Step::Data(seq![0x18u8, 0x11u8, 0x71u8, 0xF1u8, 0x70u8, 0x70u8, 0x18u8, 0x13u8, 0x71u8, 0xF3u8, 0x70u8, 0x70u8]),
        Step::Cmd(0x64), Step::Data(seq![0x28u8, 0x29u8, 0xF1u8, 0x01u8, 0xF1u8, 0x00u8, 0x07u8]),
        Step::Cmd(0x66), Step::Data(seq![0x3Cu8, 0x00u8, 0xCDu8, 0x67u8, 0x45u8, 0x45u8, 0x10u8, 0x00u8, 0x00u8, 0x00u8]),
        Step::Cmd(0x67), Step::Data(seq![0x00u8, 0x3Cu8, 0x00u8, 0x00u8, 0x00u8, 0x01u8, 0x54u8, 0x10u8, 0x32u8, 0x98u8]),
        Step::Cmd(0x74), Step::Data(seq![0x10u8, 0x85u8, 0x80u8, 0x00u8, 0x00u8, 0x4Eu8, 0x00u8]),
        Step::Cmd(0x98), Step::Data(seq![0x3Eu8, 0x07u8]),
    ]
}

/// Appends the table's source block.
fn push_table_source(t: &mut Vec<InitOp>)
    ensures
        ops_script(final(t)@) == ops_script(old(t)@) + script_source(),
{
    let ghost s0 = ops_script(t@);
    let d1: Vec<u8> = vec![0x18, 0x0D, 0x71, 0xED, 0x70, 0x70, 0x18, 0x0F, 0x71, 0xEF, 0x70, 0x70];
    proof {
        assert(d1@ == seq![0x18u8, 0x0Du8, 0x71u8, 0xEDu8, 0x70u8, 0x70u8, 0x18u8, 0x0Fu8, 0x71u8, 0xEFu8, 0x70u8, 0x70u8]);
    }
    push_cmd(t, 0x62, d1);
    proof {
        assert(ops_script(t@) =~~= s0 + script_source().take(2));
    }
    let d2: Vec<u8> = vec![0x18, 0x11, 0x71, 0xF1, 0x70, 0x70, 0x18, 0x13, 0x71, 0xF3, 0x70, 0x70];
    proof {
        assert(d2@ == seq![0x18u8, 0x11u8, 0x71u8, 0xF1u8, 0x70u8, 0x70u8, 0x18u8, 0x13u8, 0x71u8, 0xF3u8, 0x70u8, 0x70u8]);
    }
    push_cmd(t, 0x63, d2);
    proof {
        assert(ops_script(t@) =~~= s0 + script_source().take(4));
    }
    let d3: Vec<u8> = vec![0x28, 0x29, 0xF1, 0x01, 0xF1, 0x00, 0x07];
    proof {
        assert(d3@ == seq![0x28u8, 0x29u8, 0xF1u8, 0x01u8, 0xF1u8, 0x00u8, 0x07u8]);
    }
    push_cmd(t, 0x64, d3);
    proof {
        assert(ops_script(t@) =~~= s0 + script_source().take(6));
    }
    let d4: Vec<u8> = vec![0x3C, 0x00, 0xCD, 0x67, 0x45, 0x45, 0x10, 0x00, 0x00, 0x00];
    proof {
        assert(d4@ == seq![0x3Cu8, 0x00u8, 0xCDu8, 0x67u8, 0x45u8, 0x45u8, 0x10u8, 0x00u8, 0x00u8, 0x00u8]);
    }
    push_cmd(t, 0x66, d4);
    proof {
        assert(ops_script(t@) =~~= s0 + script_source().take(8));
    }
    let d5: Vec<u8> = vec![0x00, 0x3C, 0x00, 0x00, 0x00, 0x01, 0x54, 0x10, 0x32, 0x98];
    proof {
        assert(d5@ == seq![0x00u8, 0x3Cu8, 0x00u8, 0x00u8, 0x00u8, 0x01u8, 0x54u8, 0x10u8, 0x32u8, 0x98u8]);
    }
    push_cmd(t, 0x67, d5);
    proof {
        assert(ops_script(t@) =~~= s0 + script_source().take(10));
    }
    let d6: Vec<u8> = vec![0x10, 0x85, 0x80, 0x00, 0x00, 0x4E, 0x00];
    proof {
        assert(d6@ == seq![0x10u8, 0x85u8, 0x80u8, 0x00u8, 0x00u8, 0x4Eu8, 0x00u8]);
    }
    push_cmd(t, 0x74, d6);
    proof {
        assert(ops_script(t@) =~~= s0 + script_source().take(12));
    }
    let d7: Vec<u8> = vec![0x3E, 0x07];
    proof {
        assert(d7@ == seq![0x3Eu8, 0x07u8]);
    }
    push_cmd(t, 0x98, d7);
    proof {
        assert(ops_script(t@) =~~= s0 + script_source().take(14));
    }
    proof {
        assert(script_source().take(14) =~~= script_source());
    }
}

/// Steps of the table's wake block: tearing-effect, inversion, sleep-out and display-on, with the controller's wake-up holds.
pub open spec fn script_wake() -> Seq<Step> {
    seq![
        Step::Cmd(0x35), Step::Data(Seq::<u8>::empty()),
        Step::Cmd(0x21), Step::Data(Seq::<u8>::empty()),
        Step::Cmd(0x11), Step::Data(Seq::<u8>::empty()),
        Step::Wait(120),
        Step::Cmd(0x29), Step::Data(Seq::<u8>::empty()),
        Step::Wait(20),
    ]
}

/// Appends the table's wake block.
fn push_table_wake(t: &mut Vec<InitOp>)
    ensures
        ops_script(final(t)@) == ops_script(old(t)@) + script_wake(),
{
    let ghost s0 = ops_script(t@);
    push_cmd(t, 0x35, Vec::new());
    proof {
        assert(ops_script(t@) =~~= s0 + script_wake().take(2));
    }
    push_cmd(t, 0x21, Vec::new());
    proof {
        assert(ops_script(t@) =~~= s0 + script_wake().take(4));
    }
    push_cmd(t, 0x11, Vec::new());
    proof {
        assert(ops_script(t@) =~~= s0 + script_wake().take(6));
    }
    push_delay(t, 120);
    proof {
        assert(ops_script(t@) =~~= s0 + script_wake().take(7));
    }
    push_cmd(t, 0x29, Vec::new());
    proof {
        assert(ops_script(t@) =~~= s0 + script_wake().take(9));
    }
    push_delay(t, 20);
    proof {
        assert(ops_script(t@) =~~= s0 + script_wake().take(10));
    }
    proof {
        assert(script_wake().take(10) =~~= script_wake());
    }
}

/// The whole initialization script, block by block in replay order.
pub open spec fn init_script() -> Seq<Step> {
    script_power() + script_display() + script_timing() + script_gamma() + script_source() + script_wake()
}

/// Builds the initialization table.
pub fn init_table() -> (t: Vec<InitOp>)
    ensures
        ops_script(t@) == init_script(),
{
    let mut t: Vec<InitOp> = Vec::new();
    proof {
        assert(ops_script(t@) =~= Seq::<Step>::empty());
    }
    push_table_power(&mut t);
    proof {
        assert(ops_script(t@) =~= script_power());
    }
    push_table_display(&mut t);
    proof {
        assert(ops_script(t@) =~= script_power() + script_display());
    }
    push_table_timing(&mut t);
    proof {
        assert(ops_script(t@) =~= script_power() + script_display() + script_timing());
    }
    push_table_gamma(&mut t);
    proof {
        assert(ops_script(t@) =~= script_power() + script_display() + script_timing() + script_gamma());
    }
    push_table_source(&mut t);
    proof {
        assert(ops_script(t@) =~= script_power() + script_display() + script_timing() + script_gamma() + script_source());
    }
    push_table_wake(&mut t);
    proof {
        assert(ops_script(t@) =~= script_power() + script_display() + script_timing() + script_gamma() + script_source() + script_wake());
    }
    t
}


} // verus!
