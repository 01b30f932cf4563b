//! A model of the HD44780 controller side of the 4-bit bus: it follows the
//! levels of the six lines and latches the data lines on each falling edge of E.
use vstd::prelude::*;

verus! {

/// One line of the 4-bit interface driven by the microcontroller.
#[derive(Clone, Copy, Debug, PartialEq, Eq, Structural)]
pub enum Line {
    Rs,
    E,
    D4,
    D5,
    D6,
    D7,
}

/// One bus operation: drive a line high (`true`) or low, or wait.
#[derive(Clone, Copy, Debug, PartialEq, Eq, Structural)]
pub enum BusOp {
    Drive(Line, bool),
    DelayMillis(u32),
    DelayNanos(u32),
}

/// Levels of the six lines as the controller sees them.
#[derive(Clone, Copy, Debug, PartialEq, Eq, Structural)]
pub struct BusLevels {
    pub rs: bool,
    pub e: bool,
    pub d4: bool,
    pub d5: bool,
    pub d6: bool,
    pub d7: bool,
}

/// The nibble that the data lines present.
pub open spec fn nibble_on(l: BusLevels) -> u8 {
    (if l.d4 { 1u8 } else { 0u8 }) | (if l.d5 { 2u8 } else { 0u8 }) | (if l.d6 { 4u8 } else { 0u8 }) | (if l.d7 {
        8u8
    } else {
        0u8
    })
}

/// The levels after one line is driven.
pub open spec fn drive_level(l: BusLevels, line: Line, high: bool) -> BusLevels {
    match line {
        Line::Rs => BusLevels { rs: high, ..l },
        Line::E => BusLevels { e: high, ..l },
        Line::D4 => BusLevels { d4: high, ..l },
        Line::D5 => BusLevels { d5: high, ..l },
        Line::D6 => BusLevels { d6: high, ..l },
        Line::D7 => BusLevels { d7: high, ..l },
    }
}

/// One step of the controller: new levels, and the transfers latched so far.
/// A transfer `(rs, nibble)` is latched when E goes from high to low.
pub open spec fn bus_step(l: BusLevels, out: Seq<(bool, u8)>, op: BusOp) -> (BusLevels, Seq<(bool, u8)>) {
    match op {
        BusOp::Drive(line, high) => (
            drive_level(l, line, high),
            if line == Line::E && l.e && !high {
                out.push((l.rs, nibble_on(l)))
            } else {
                out
            },
        ),
        _ => (l, out),
    }
}

/// The controller run over a sequence of bus operations, from levels `s`:
/// the final levels and the sequence of latched nibble transfers.
pub open spec fn bus_run(s: BusLevels, ops: Seq<BusOp>) -> (BusLevels, Seq<(bool, u8)>)
    decreases ops.len(),
{
    if ops.len() == 0 {
        (s, seq![])
    } else {
        let prev = bus_run(s, ops.drop_last());
        bus_step(prev.0, prev.1, ops.last())
    }
}

/// The nibble transfers that the controller latches from `ops`.
pub open spec fn latched(s: BusLevels, ops: Seq<BusOp>) -> Seq<(bool, u8)> {
    bus_run(s, ops).1
}

/// The line levels after `ops`.
pub open spec fn levels_after(s: BusLevels, ops: Seq<BusOp>) -> BusLevels {
    bus_run(s, ops).0
}

/// Running a sequence with one more operation is one more step.
pub proof fn lemma_run_push(s: BusLevels, a: Seq<BusOp>, op: BusOp)
    ensures
        bus_run(s, a.push(op)) == bus_step(bus_run(s, a).0, bus_run(s, a).1, op),
{
    assert(a.push(op).drop_last() =~= a);
}

/// Running two sequences one after the other is running their concatenation.
pub proof fn lemma_run_append(s: BusLevels, a: Seq<BusOp>, b: Seq<BusOp>)
    ensures
        levels_after(s, a + b) == levels_after(levels_after(s, a), b),
        latched(s, a + b) == latched(s, a) + latched(levels_after(s, a), b),
    decreases b.len(),
{
    if b.len() == 0 {
        assert(a + b =~= a);
        assert(latched(s, a) + Seq::<(bool, u8)>::empty() =~= latched(s, a));
    } else {
        assert((a + b).drop_last() =~= a + b.drop_last());
        assert((a + b).last() == b.last());
        lemma_run_append(s, a, b.drop_last());
        let mid = levels_after(s, a);
        let r = bus_run(mid, b.drop_last());
        match b.last() {
            BusOp::Drive(line, high) => {
                if line == Line::E && r.0.e && !high {
                    assert((latched(s, a) + r.1).push((r.0.rs, nibble_on(r.0))) =~= latched(s, a) + r.1.push(
                        (r.0.rs, nibble_on(r.0)),
                    ));
                }
            },
            _ => {},
        }
    }
}

} // verus!
