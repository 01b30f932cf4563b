//! The HD44780 character display driven over a 4-bit bus. The driver decides
//! every line level and every wait; the bus operations it produces are
//! queued, and whoever owns the pins performs them in order.
use vstd::prelude::*;
use crate::lcd_bus::{
    bus_run, latched, lemma_run_append, lemma_run_push, levels_after, nibble_on, BusLevels, BusOp, Line,
};

verus! {

/// Command byte of the second display line's first address.
pub const LCD_LINE2: u8 = 0x40;

/// The largest display type: 0..2, with 2 for two lines.
pub const LCD_TYPE_MAX: u8 = 2;

/// Commands sent after the function set, once the display is in 4-bit mode:
/// display on with the cursor off, clear display, and entry mode
/// (increment, no shift).
pub const LCD_INIT_CMDS: [u8; 3] = [0x0C, 0x01, 0x06];

/// The function-set command for a display type: 4-bit interface, with the
/// type in the line and font bits (type 2: two lines).
pub open spec fn function_set(lcd_type: u8) -> u8 {
    0x20u8 | (lcd_type << 2u8)
}

/// The operations that present one nibble (the low four bits of `n`) and
/// pulse E.
#[verifier::opaque]
pub open spec fn nibble_ops(n: u8) -> Seq<BusOp> {
    seq![
        BusOp::Drive(Line::D4, n & 0x01 != 0),
        BusOp::Drive(Line::D5, n & 0x02 != 0),
        BusOp::Drive(Line::D6, n & 0x04 != 0),
        BusOp::Drive(Line::D7, n & 0x08 != 0),
        BusOp::DelayNanos(1),
        BusOp::Drive(Line::E, true),
        BusOp::DelayNanos(2),
        BusOp::Drive(Line::E, false),
    ]
}

/// The operations that send one byte: RS, the high nibble, the low nibble,
/// then a 2 ms pause.
pub open spec fn byte_ops(is_data: bool, byte: u8) -> Seq<BusOp> {
    seq![BusOp::Drive(Line::Rs, is_data)] + nibble_ops(byte >> 4) + nibble_ops(byte & 0x0F) + seq![
        BusOp::DelayMillis(2),
    ]
}

/// The power-up sequence: control lines low, wait, three 0x3 nibbles with
/// pauses (8-bit reset), a 0x2 nibble (4-bit mode), the function set for the
/// display type, then the other init commands.
pub open spec fn init_ops(lcd_type: u8) -> Seq<BusOp> {
    seq![BusOp::Drive(Line::Rs, false), BusOp::Drive(Line::E, false), BusOp::DelayMillis(15)]
        + nibble_ops(0x3) + seq![BusOp::DelayMillis(5)]
        + nibble_ops(0x3) + seq![BusOp::DelayMillis(5)]
        + nibble_ops(0x3) + seq![BusOp::DelayMillis(5)]
        + nibble_ops(0x2)
        + byte_ops(false, function_set(lcd_type)) + byte_ops(false, 0x0C) + byte_ops(false, 0x01) + byte_ops(
        false,
        0x06,
    )
}

/// The display address of column `x`, row `y` (both counted from 1; any row
/// above 1 is the second line).
pub open spec fn cursor_address(x: u8, y: u8) -> int {
    (if y > 1 { 0x40int } else { 0int }) + x - 1
}

/// Whether `gotoxy(x, y)` has an address in range.
pub open spec fn cursor_in_range(x: u8, y: u8) -> bool {
    x >= 1 && cursor_address(x, y) <= 0xFF
}

/// Whether `gotoxy(x, y)` can be asked for: `x` is at least 1 and the
/// address fits in a byte.
pub fn cursor_fits(x: u8, y: u8) -> (r: bool)
    ensures
        r == cursor_in_range(x, y),
{
    let base: u16 = if y > 1 {
        0x40
    } else {
        0
    };
    x >= 1 && base + (x as u16) - 1 <= 0xFF
}

/// The operations that move the cursor.
pub open spec fn gotoxy_ops(x: u8, y: u8) -> Seq<BusOp> {
    byte_ops(false, 0x80u8 | (cursor_address(x, y) as u8))
}

/// The operations that write one character; form feed clears the display,
/// newline moves to the start of the second line, backspace shifts the
/// cursor left, and any other character is sent as data (its low byte).
pub open spec fn putc_ops(c: char) -> Seq<BusOp> {
    if c == '\x0C' {
        byte_ops(false, 0x01) + seq![BusOp::DelayMillis(2)]
    } else if c == '\n' {
        gotoxy_ops(1, 2)
    } else if c == '\x08' {
        byte_ops(false, 0x10)
    } else {
        byte_ops(true, char_low_byte(c))
    }
}

/// The low byte of a character's code point.
pub open spec fn char_low_byte(c: char) -> u8 {
    c as u8
}

/// A 4-bit HD44780 driver: the display type it was made for and the bus
/// operations that it has queued and that have not been taken yet.
pub struct Lcd4Bit {
    lcd_type: u8,
    pending: Vec<BusOp>,
}

impl Lcd4Bit {
    #[verifier::type_invariant]
    spec fn known_type(self) -> bool {
        self.lcd_type <= LCD_TYPE_MAX
    }

    /// The queued bus operations, oldest first.
    pub closed spec fn pending(&self) -> Seq<BusOp> {
        self.pending@
    }

    /// The display type.
    pub closed spec fn spec_lcd_type(&self) -> u8 {
        self.lcd_type
    }

    /// Create the driver; `lcd_type` is 0..2 (2 for two lines). Nothing is queued.
    pub fn new(lcd_type: u8) -> (r: Self)
        requires
            lcd_type <= LCD_TYPE_MAX,
        ensures
            r.pending() == Seq::<BusOp>::empty(),
            r.spec_lcd_type() == lcd_type,
    {
        Lcd4Bit { lcd_type, pending: Vec::new() }
    }

    /// The display type given at creation.
    pub fn lcd_type(&self) -> (r: u8)
        ensures
            r == self.spec_lcd_type(),
            r <= LCD_TYPE_MAX,
    {
        proof {
            use_type_invariant(self);
        }
        self.lcd_type
    }

    /// Hand out the queued operations, oldest first, and empty the queue.
    pub fn take_pending(&mut self) -> (r: Vec<BusOp>)
        ensures
            r@ == old(self).pending(),
            final(self).pending() == Seq::<BusOp>::empty(),
            final(self).spec_lcd_type() == old(self).spec_lcd_type(),
    {
        proof {
            use_type_invariant(&*self);
        }
        let mut out: Vec<BusOp> = Vec::new();
        std::mem::swap(&mut out, &mut self.pending);
        out
    }

    fn push_op(&mut self, op: BusOp)
        ensures
            final(self).pending() == old(self).pending().push(op),
            final(self).spec_lcd_type() == old(self).spec_lcd_type(),
    {
        proof {
            use_type_invariant(&*self);
        }
        let mut ops: Vec<BusOp> = Vec::new();
        std::mem::swap(&mut ops, &mut self.pending);
        ops.push(op);
        self.pending = ops;
    }

    /// Present a nibble (the low four bits of `nibble`) and pulse E.
    fn send_nibble(&mut self, nibble: u8)
        ensures
            final(self).pending() == old(self).pending() + nibble_ops(nibble),
            final(self).spec_lcd_type() == old(self).spec_lcd_type(),
    {
        self.push_op(BusOp::Drive(Line::D4, nibble & 0x01 != 0));
        self.push_op(BusOp::Drive(Line::D5, nibble & 0x02 != 0));
        self.push_op(BusOp::Drive(Line::D6, nibble & 0x04 != 0));
        self.push_op(BusOp::Drive(Line::D7, nibble & 0x08 != 0));
        self.push_op(BusOp::DelayNanos(1));
        self.push_op(BusOp::Drive(Line::E, true));
        self.push_op(BusOp::DelayNanos(2));
        self.push_op(BusOp::Drive(Line::E, false));
        reveal(nibble_ops);
        assert(self.pending() =~= old(self).pending() + nibble_ops(nibble));
    }

    /// Send a full byte; `is_data` is true for data, false for a command.
    pub fn send_byte(&mut self, is_data: bool, byte: u8)
        ensures
            final(self).pending() == old(self).pending() + byte_ops(is_data, byte),
            final(self).spec_lcd_type() == old(self).spec_lcd_type(),
    {
        self.push_op(BusOp::Drive(Line::Rs, is_data));
        self.send_nibble(byte >> 4);
        self.send_nibble(byte & 0x0F);
        self.push_op(BusOp::DelayMillis(2));
        assert(self.pending() =~= old(self).pending() + byte_ops(is_data, byte));
    }

    /// Initialize the display (to be done before anything else).
    pub fn init(&mut self)
        ensures
            final(self).pending() == old(self).pending() + init_ops(old(self).spec_lcd_type()),
            final(self).spec_lcd_type() == old(self).spec_lcd_type(),
    {
        self.push_op(BusOp::Drive(Line::Rs, false));
        self.push_op(BusOp::Drive(Line::E, false));
        self.push_op(BusOp::DelayMillis(15));
        let ghost start = self.pending();
        let mut i: usize = 0;
        while i < 3
            invariant
                i <= 3,
                self.spec_lcd_type() == old(self).spec_lcd_type(),
                self.pending() == start + reset_ops(i as nat),
            decreases 3 - i,
        {
            self.send_nibble(0x3);
            self.push_op(BusOp::DelayMillis(5));
            assert(reset_ops((i + 1) as nat) =~= reset_ops(i as nat) + nibble_ops(0x3) + seq![BusOp::DelayMillis(5)]);
            assert(self.pending() =~= start + reset_ops((i + 1) as nat));
            i = i + 1;
        }
        self.send_nibble(0x2);
        proof {
            use_type_invariant(&*self);
        }
        let fs: u8 = 0x20 | (self.lcd_type << 2);
        self.send_byte(false, fs);
        let ghost mid = self.pending();
        let mut k: usize = 0;
        while k < 3
            invariant
                k <= 3,
                self.spec_lcd_type() == old(self).spec_lcd_type(),
                self.pending() == mid + cmd_ops(k as nat),
            decreases 3 - k,
        {
            let cmd = LCD_INIT_CMDS[k];
            self.send_byte(false, cmd);
            assert(cmd_ops((k + 1) as nat) =~= cmd_ops(k as nat) + byte_ops(false, cmd));
            k = k + 1;
        }
        proof {
            lemma_init_ops_parts(old(self).spec_lcd_type());
            assert(self.pending() =~= old(self).pending() + init_ops(old(self).spec_lcd_type()));
        }
    }

    /// Move the cursor to column `x`, row `y` (both from 1).
    pub fn gotoxy(&mut self, x: u8, y: u8)
        requires
            cursor_in_range(x, y),
        ensures
            final(self).pending() == old(self).pending() + gotoxy_ops(x, y),
            final(self).pending() == old(self).pending() + byte_ops(
                false,
                0x80u8 | (((if y > 1 { 0x40int } else { 0int }) + x - 1) as u8),
            ),
            final(self).spec_lcd_type() == old(self).spec_lcd_type(),
    {
        let mut addr: u8 = if y > 1 {
            LCD_LINE2
        } else {
            0
        };
        addr += x - 1;
        self.send_byte(false, 0x80 | addr);
    }

    /// Write one character: form feed clears the display, newline goes to
    /// the second line, backspace moves the cursor left, any other character
    /// is written as data.
    pub fn putc(&mut self, c: char)
        ensures
            final(self).pending() == old(self).pending() + putc_ops(c),
            c != '\x0C' && c != '\n' && c != '\x08' ==> final(self).pending() == old(self).pending()
                + byte_ops(true, ((c as u32) % 256) as u8),
            final(self).spec_lcd_type() == old(self).spec_lcd_type(),
    {
        if c == '\x0C' {
            self.send_byte(false, 0x01);
            self.push_op(BusOp::DelayMillis(2));
            assert(self.pending() =~= old(self).pending() + putc_ops(c));
        } else if c == '\n' {
            self.gotoxy(1, 2);
        } else if c == '\x08' {
            self.send_byte(false, 0x10);
        } else {
            proof {
                lemma_low_byte(c);
            }
            self.send_byte(true, c as u8);
        }
    }
}

/// The power-up sequence, split as the driver produces it.
proof fn lemma_init_ops_parts(lcd_type: u8)
    ensures
        init_ops(lcd_type) =~= seq![BusOp::Drive(Line::Rs, false), BusOp::Drive(Line::E, false), BusOp::DelayMillis(15)]
            + reset_ops(3) + nibble_ops(0x2) + byte_ops(false, function_set(lcd_type)) + cmd_ops(3),
{
    reveal_with_fuel(reset_ops, 4);
    reveal_with_fuel(cmd_ops, 4);
}

/// `n` rounds of the reset nibble with its pause.
pub open spec fn reset_ops(n: nat) -> Seq<BusOp>
    decreases n,
{
    if n == 0 {
        seq![]
    } else {
        reset_ops((n - 1) as nat) + nibble_ops(0x3) + seq![BusOp::DelayMillis(5)]
    }
}

/// The first `n` init commands after the function set, as bus operations.
pub open spec fn cmd_ops(n: nat) -> Seq<BusOp>
    decreases n,
{
    if n == 0 {
        seq![]
    } else {
        cmd_ops((n - 1) as nat) + byte_ops(false, init_cmd((n - 1) as nat))
    }
}

/// The `i`-th init command after the function set.
pub open spec fn init_cmd(i: nat) -> u8 {
    if i == 0 {
        0x0C
    } else if i == 1 {
        0x01
    } else {
        0x06
    }
}

/// The byte that a high and a low nibble make.
pub open spec fn byte_of(hi: u8, lo: u8) -> u8 {
    (hi << 4u8) | (lo & 0x0Fu8)
}

/// The line levels after a nibble has been presented: RS as before, E low,
/// the data lines carrying the nibble's bits.
pub open spec fn levels_after_nibble(s: BusLevels, n: u8) -> BusLevels {
    BusLevels {
        rs: s.rs,
        e: false,
        d4: n & 0x01 != 0,
        d5: n & 0x02 != 0,
        d6: n & 0x04 != 0,
        d7: n & 0x08 != 0,
    }
}

/// Presenting a nibble makes the display latch exactly that nibble (its low
/// four bits), once, with the RS level that was already on the bus; E ends low.
pub proof fn lemma_nibble_transfer(s: BusLevels, n: u8)
    ensures
        latched(s, nibble_ops(n)) == seq![(s.rs, n & 0x0Fu8)],
        levels_after(s, nibble_ops(n)) == levels_after_nibble(s, n),
{
    reveal(nibble_ops);
    let ops = nibble_ops(n);
    let p0 = Seq::<BusOp>::empty();
    let p1 = p0.push(ops[0]);
    let p2 = p1.push(ops[1]);
    let p3 = p2.push(ops[2]);
    let p4 = p3.push(ops[3]);
    let p5 = p4.push(ops[4]);
    let p6 = p5.push(ops[5]);
    let p7 = p6.push(ops[6]);
    let p8 = p7.push(ops[7]);
    assert(p8 =~= ops);
    lemma_run_push(s, p0, ops[0]);
    lemma_run_push(s, p1, ops[1]);
    lemma_run_push(s, p2, ops[2]);
    lemma_run_push(s, p3, ops[3]);
    lemma_run_push(s, p4, ops[4]);
    lemma_run_push(s, p5, ops[5]);
    lemma_run_push(s, p6, ops[6]);
    lemma_run_push(s, p7, ops[7]);
    let l = bus_run(s, p7).0;
    assert(l.d4 == (n & 0x01 != 0) && l.d5 == (n & 0x02 != 0) && l.d6 == (n & 0x04 != 0) && l.d7 == (n
        & 0x08 != 0));
    assert(((if n & 0x01u8 != 0 { 1u8 } else { 0u8 }) | (if n & 0x02u8 != 0 { 2u8 } else { 0u8 }) | (if n
        & 0x04u8 != 0 { 4u8 } else { 0u8 }) | (if n & 0x08u8 != 0 { 8u8 } else { 0u8 })) == n & 0x0Fu8)
        by (bit_vector);
    assert(nibble_on(l) == n & 0x0Fu8);
    assert(latched(s, ops) =~= seq![(s.rs, n & 0x0Fu8)]);
}

/// Only the low four bits of a nibble count: presenting `n` and presenting
/// `n & 0x0F` are the same bus operations.
pub proof fn lemma_nibble_low_bits(n: u8)
    ensures
        nibble_ops(n) == nibble_ops(n & 0x0Fu8),
{
    reveal(nibble_ops);
    assert(((n & 0x0Fu8) & 0x01u8 != 0) == (n & 0x01u8 != 0) && ((n & 0x0Fu8) & 0x02u8 != 0) == (n & 0x02u8
        != 0) && ((n & 0x0Fu8) & 0x04u8 != 0) == (n & 0x04u8 != 0) && ((n & 0x0Fu8) & 0x08u8 != 0) == (n
        & 0x08u8 != 0)) by (bit_vector);
    assert(nibble_ops(n) =~= nibble_ops(n & 0x0Fu8));
}

/// What the display receives of `send_byte(is_data, byte)`: two transfers
/// with RS at `is_data`, the high nibble then the low one, which together
/// make `byte` again; whatever the lines held before.
pub proof fn lemma_send_byte_received(s: BusLevels, is_data: bool, byte: u8)
    ensures
        latched(s, byte_ops(is_data, byte)) == seq![(is_data, byte >> 4u8), (is_data, byte & 0x0Fu8)],
        byte_of(byte >> 4u8, byte & 0x0Fu8) == byte,
        levels_after(s, byte_ops(is_data, byte)).rs == is_data,
        !levels_after(s, byte_ops(is_data, byte)).e,
{
    let a = seq![BusOp::Drive(Line::Rs, is_data)];
    let hi = nibble_ops(byte >> 4u8);
    let lo = nibble_ops(byte & 0x0Fu8);
    let d = seq![BusOp::DelayMillis(2)];
    lemma_run_push(s, Seq::empty(), BusOp::Drive(Line::Rs, is_data));
    assert(Seq::<BusOp>::empty().push(BusOp::Drive(Line::Rs, is_data)) =~= a);
    let s1 = levels_after(s, a);
    assert(latched(s, a) =~= Seq::<(bool, u8)>::empty());
    lemma_nibble_transfer(s1, byte >> 4u8);
    let s2 = levels_after(s1, hi);
    lemma_nibble_transfer(s2, byte & 0x0Fu8);
    let s3 = levels_after(s2, lo);
    lemma_run_append(s, a, hi);
    lemma_run_append(s, a + hi, lo);
    lemma_run_append(s, a + hi + lo, d);
    lemma_run_push(s3, Seq::empty(), BusOp::DelayMillis(2));
    assert(Seq::<BusOp>::empty().push(BusOp::DelayMillis(2)) =~= d);
    assert((byte >> 4u8) & 0x0Fu8 == byte >> 4u8) by (bit_vector);
    assert(((byte >> 4u8) << 4u8) | ((byte & 0x0Fu8) & 0x0Fu8) == byte) by (bit_vector);
    assert(latched(s3, d) =~= Seq::<(bool, u8)>::empty());
    assert((byte & 0x0Fu8) & 0x0Fu8 == byte & 0x0Fu8) by (bit_vector);
    assert(s1.rs == is_data);
    assert(s2.rs == is_data);
    assert(latched(s, a + hi) =~= seq![(is_data, byte >> 4u8)]);
    assert(latched(s, a + hi + lo) =~= seq![(is_data, byte >> 4u8), (is_data, byte & 0x0Fu8)]);
    assert(byte_ops(is_data, byte) == a + hi + lo + d);
    assert(latched(s, byte_ops(is_data, byte)) =~= seq![(is_data, byte >> 4u8), (is_data, byte & 0x0Fu8)]);
}

/// The two transfers that carry `byte` with RS at `rs`.
pub open spec fn nibbles_of(rs: bool, byte: u8) -> Seq<(bool, u8)> {
    seq![(rs, byte >> 4u8), (rs, byte & 0x0Fu8)]
}

/// The byte and RS level that `putc(c)` sends.
pub open spec fn putc_transfer(c: char) -> (bool, u8) {
    if c == '\x0C' {
        (false, 0x01)
    } else if c == '\n' {
        (false, 0xC0)
    } else if c == '\x08' {
        (false, 0x10)
    } else {
        (true, char_low_byte(c))
    }
}

proof fn lemma_append_wait(s: BusLevels, p: Seq<BusOp>, ms: u32)
    ensures
        latched(s, p + seq![BusOp::DelayMillis(ms)]) == latched(s, p),
        levels_after(s, p + seq![BusOp::DelayMillis(ms)]) == levels_after(s, p),
{
    let d = seq![BusOp::DelayMillis(ms)];
    lemma_run_append(s, p, d);
    lemma_run_push(levels_after(s, p), Seq::empty(), BusOp::DelayMillis(ms));
    assert(Seq::<BusOp>::empty().push(BusOp::DelayMillis(ms)) =~= d);
    assert(latched(s, p) + Seq::<(bool, u8)>::empty() =~= latched(s, p));
}

proof fn lemma_append_nibble(s: BusLevels, p: Seq<BusOp>, n: u8)
    ensures
        latched(s, p + nibble_ops(n)) == latched(s, p).push((levels_after(s, p).rs, n & 0x0Fu8)),
        levels_after(s, p + nibble_ops(n)).rs == levels_after(s, p).rs,
{
    lemma_run_append(s, p, nibble_ops(n));
    lemma_nibble_transfer(levels_after(s, p), n);
    assert(latched(s, p) + seq![(levels_after(s, p).rs, n & 0x0Fu8)] =~= latched(s, p).push(
        (levels_after(s, p).rs, n & 0x0Fu8),
    ));
}

proof fn lemma_append_byte(s: BusLevels, p: Seq<BusOp>, rs: bool, b: u8)
    ensures
        latched(s, p + byte_ops(rs, b)) == latched(s, p) + nibbles_of(rs, b),
        levels_after(s, p + byte_ops(rs, b)).rs == rs,
{
    lemma_run_append(s, p, byte_ops(rs, b));
    lemma_send_byte_received(levels_after(s, p), rs, b);
}

/// What the display receives of `putc(c)`: the two nibbles of one byte,
/// with RS high for a printable character (its low byte) and low for the
/// form feed (clear), newline (cursor to the second line) and backspace.
pub proof fn lemma_putc_received(s: BusLevels, c: char)
    ensures
        latched(s, putc_ops(c)) == nibbles_of(putc_transfer(c).0, putc_transfer(c).1),
{
    let e = Seq::<BusOp>::empty();
    assert(latched(s, e) =~= Seq::<(bool, u8)>::empty());
    if c == '\x0C' {
        lemma_append_byte(s, e, false, 0x01);
        assert(e + byte_ops(false, 0x01) =~= byte_ops(false, 0x01));
        lemma_append_wait(s, byte_ops(false, 0x01), 2);
    } else if c == '\n' {
        assert(cursor_address(1, 2) == 0x40);
        assert(0x80u8 | 0x40u8 == 0xC0u8) by (bit_vector);
        lemma_append_byte(s, e, false, 0xC0);
        assert(e + byte_ops(false, 0xC0) =~= byte_ops(false, 0xC0));
    } else if c == '\x08' {
        lemma_append_byte(s, e, false, 0x10);
        assert(e + byte_ops(false, 0x10) =~= byte_ops(false, 0x10));
    } else {
        lemma_append_byte(s, e, true, char_low_byte(c));
        assert(e + byte_ops(true, char_low_byte(c)) =~= byte_ops(true, char_low_byte(c)));
    }
    assert(Seq::<(bool, u8)>::empty() + nibbles_of(putc_transfer(c).0, putc_transfer(c).1) =~= nibbles_of(
        putc_transfer(c).0,
        putc_transfer(c).1,
    ));
}

/// What the display receives of `gotoxy(x, y)`: the set-address command
/// for `cursor_address(x, y)`.
pub proof fn lemma_gotoxy_received(s: BusLevels, x: u8, y: u8)
    ensures
        latched(s, gotoxy_ops(x, y)) == nibbles_of(false, 0x80u8 | (cursor_address(x, y) as u8)),
{
    lemma_send_byte_received(s, false, 0x80u8 | (cursor_address(x, y) as u8));
}

/// A character's low byte is its code point modulo 256.
pub proof fn lemma_low_byte(c: char)
    ensures
        c as u8 == ((c as u32) % 256) as u8,
        char_low_byte(c) as int == (c as u32) % 256,
{
    let v = c as u32;
    assert(v as u8 == (v % 256) as u8) by (bit_vector);
    assert((v % 256) as u8 as int == v % 256) by (bit_vector);
    assert(c as u8 == v as u8);
}

/// A byte is sixteen times its high nibble plus its low nibble.
proof fn lemma_nibbles_value(b: u8)
    ensures
        (b >> 4u8) as int * 16 + (b & 0x0Fu8) as int == b as int,
{
    assert((b >> 4u8) * 16 + (b & 0x0Fu8) == b) by (bit_vector);
}

/// `gotoxy(x, y)` moves the cursor to display address `x - 1` on the first
/// row and `0x40 + x - 1` on any row below: the display latches exactly two
/// command nibbles (RS low), which together are the set-address command
/// `0x80` with that address in its low seven bits.
pub proof fn lemma_gotoxy_moves_cursor(s: BusLevels, x: u8, y: u8)
    requires
        x >= 1,
        (if y > 1 { 0x40int } else { 0int }) + x - 1 < 0x80,
    ensures
        ({
            let t = latched(s, gotoxy_ops(x, y));
            &&& t.len() == 2
            &&& !t[0].0 && !t[1].0
            &&& t[0].1 < 16 && t[1].1 < 16
            &&& t[0].1 * 16 + t[1].1 == 0x80 + (if y > 1 { 0x40int } else { 0int }) + x - 1
        }),
{
    let addr = ((if y > 1 { 0x40int } else { 0int }) + x - 1) as u8;
    assert(cursor_address(x, y) == addr as int);
    let b = 0x80u8 | addr;
    assert(addr < 0x80u8 ==> (0x80u8 | addr) as int == 0x80 + addr as int) by (bit_vector);
    lemma_gotoxy_received(s, x, y);
    lemma_nibbles_value(b);
    assert((b >> 4u8) < 16 && (b & 0x0Fu8) < 16) by (bit_vector);
}

/// The control characters of `putc`: form feed sends the clear-display
/// command 0x01, newline the set-address command for the start of the second
/// line (0xC0), backspace the cursor-left shift command 0x10, each as two
/// command nibbles (RS low).
pub proof fn lemma_putc_controls(s: BusLevels)
    ensures
        latched(s, putc_ops('\x0C')) == seq![(false, 0x0u8), (false, 0x1u8)],
        latched(s, putc_ops('\n')) == seq![(false, 0xCu8), (false, 0x0u8)],
        latched(s, putc_ops('\x08')) == seq![(false, 0x1u8), (false, 0x0u8)],
{
    lemma_putc_received(s, '\x0C');
    lemma_putc_received(s, '\n');
    lemma_putc_received(s, '\x08');
    assert(0x01u8 >> 4u8 == 0 && 0x01u8 & 0x0Fu8 == 1) by (bit_vector);
    assert(0xC0u8 >> 4u8 == 0xC && 0xC0u8 & 0x0Fu8 == 0) by (bit_vector);
    assert(0x10u8 >> 4u8 == 1 && 0x10u8 & 0x0Fu8 == 0) by (bit_vector);
}

/// A cursor position can be asked for exactly when the column is at least 1
/// and `(0x40 on rows below the first) + column - 1` fits in a byte.
pub proof fn lemma_cursor_range(x: u8, y: u8)
    ensures
        cursor_in_range(x, y) <==> x >= 1 && (if y > 1 { 0x40int } else { 0int }) + x - 1 <= 0xFF,
{
}

/// `putc(c)` for any character other than form feed, newline and backspace
/// writes one data byte (RS high): the low byte of the character's code
/// point, that is `c as u32 % 256`, split in two nibbles.
pub proof fn lemma_putc_writes_code(s: BusLevels, c: char)
    requires
        c != '\x0C' && c != '\n' && c != '\x08',
    ensures
        ({
            let t = latched(s, putc_ops(c));
            &&& t.len() == 2
            &&& t[0].0 && t[1].0
            &&& t[0].1 < 16 && t[1].1 < 16
            &&& t[0].1 * 16 + t[1].1 == (c as u32) % 256
        }),
{
    lemma_putc_received(s, c);
    lemma_low_byte(c);
    let b = char_low_byte(c);
    lemma_nibbles_value(b);
    assert((b >> 4u8) < 16 && (b & 0x0Fu8) < 16) by (bit_vector);
}

/// The transfer that driving E low latches when E was left high.
pub open spec fn stray_transfer(s: BusLevels) -> Seq<(bool, u8)> {
    if s.e {
        seq![(false, nibble_on(s))]
    } else {
        seq![]
    }
}

/// What the display receives of `init()` on a driver of type `lcd_type`:
/// three 0x3 nibbles (reset to 8-bit mode), one 0x2 nibble (4-bit mode),
/// then the function set `0x20 | (lcd_type << 2)` and the other init
/// commands, all with RS low. When E was left high before the call, pulling
/// it low first latches whatever the data lines held.
pub proof fn lemma_init_received(s: BusLevels, lcd_type: u8)
    ensures
        latched(s, init_ops(lcd_type)) == stray_transfer(s) + seq![(false, 0x3u8), (false, 0x3u8), (false, 0x3u8), (false, 0x2u8)]
            + nibbles_of(false, function_set(lcd_type)) + nibbles_of(false, 0x0C) + nibbles_of(false, 0x01)
            + nibbles_of(false, 0x06),
{
    let p0 = seq![BusOp::Drive(Line::Rs, false), BusOp::Drive(Line::E, false), BusOp::DelayMillis(15)];
    let q0 = Seq::<BusOp>::empty().push(BusOp::Drive(Line::Rs, false));
    let q1 = q0.push(BusOp::Drive(Line::E, false));
    lemma_run_push(s, Seq::empty(), BusOp::Drive(Line::Rs, false));
    lemma_run_push(s, q0, BusOp::Drive(Line::E, false));
    lemma_run_push(s, q1, BusOp::DelayMillis(15));
    assert(q1.push(BusOp::DelayMillis(15)) =~= p0);
    assert(latched(s, p0) =~= stray_transfer(s));
    assert(!levels_after(s, p0).rs);
    let p1 = p0 + nibble_ops(0x3);
    lemma_append_nibble(s, p0, 0x3);
    let p2 = p1 + seq![BusOp::DelayMillis(5)];
    lemma_append_wait(s, p1, 5);
    let p3 = p2 + nibble_ops(0x3);
    lemma_append_nibble(s, p2, 0x3);
    let p4 = p3 + seq![BusOp::DelayMillis(5)];
    lemma_append_wait(s, p3, 5);
    let p5 = p4 + nibble_ops(0x3);
    lemma_append_nibble(s, p4, 0x3);
    let p6 = p5 + seq![BusOp::DelayMillis(5)];
    lemma_append_wait(s, p5, 5);
    let p7 = p6 + nibble_ops(0x2);
    lemma_append_nibble(s, p6, 0x2);
    let p8 = p7 + byte_ops(false, function_set(lcd_type));
    lemma_append_byte(s, p7, false, function_set(lcd_type));
    let p9 = p8 + byte_ops(false, 0x0C);
    lemma_append_byte(s, p8, false, 0x0C);
    let p10 = p9 + byte_ops(false, 0x01);
    lemma_append_byte(s, p9, false, 0x01);
    let p11 = p10 + byte_ops(false, 0x06);
    lemma_append_byte(s, p10, false, 0x06);
    assert(p11 == init_ops(lcd_type));
    assert(0x3u8 & 0x0Fu8 == 0x3u8 && 0x2u8 & 0x0Fu8 == 0x2u8) by (bit_vector);
    assert(latched(s, p7) =~= stray_transfer(s) + seq![(false, 0x3u8), (false, 0x3u8), (false, 0x3u8), (false, 0x2u8)]);
    assert(latched(s, p11) =~= stray_transfer(s) + seq![(false, 0x3u8), (false, 0x3u8), (false, 0x3u8), (false, 0x2u8)]
        + nibbles_of(false, function_set(lcd_type)) + nibbles_of(false, 0x0C) + nibbles_of(false, 0x01)
        + nibbles_of(false, 0x06));
}

} // verus!
