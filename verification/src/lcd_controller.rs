//! What the HD44780 controller does with the transfers it latches: in
//! 8-bit mode each nibble is a whole instruction (the unused lines D0–D3
//! read low); in 4-bit mode two nibbles, high then low, make one byte.
//! With RS low a byte is an instruction, with RS high it is data.
use vstd::prelude::*;
use crate::lcd::{
    function_set, init_ops, lemma_init_received, lemma_putc_received, nibbles_of, putc_ops, putc_transfer, stray_transfer,
    LCD_TYPE_MAX,
};
use crate::lcd_bus::{latched, BusLevels};

verus! {

/// The part of the controller's state that the driver sets up.
pub struct Controller {
    /// 4-bit interface (else 8-bit).
    pub four_bit: bool,
    /// In 4-bit mode: the high nibble received, waiting for its low nibble.
    pub high: Option<u8>,
    pub two_lines: bool,
    pub big_font: bool,
    pub display_on: bool,
    pub cursor_on: bool,
    pub blink_on: bool,
    /// Entry mode: the address goes up (else down) after each write.
    pub increment: bool,
    /// Entry mode: the display shifts with each write.
    pub shift: bool,
    /// The display memory is blank and the cursor at the first position, as
    /// a clear leaves them.
    pub blank_home: bool,
}

/// The controller after it executes instruction `b`.
#[verifier::opaque]
pub open spec fn execute(c: Controller, b: u8) -> Controller {
    if b >= 0x40 {
        // set display or character memory address
        Controller { blank_home: false, ..c }
    } else if b >= 0x20 {
        // function set
        Controller {
            four_bit: (b / 16) % 2 == 0,
            high: None,
            two_lines: (b / 8) % 2 == 1,
            big_font: (b / 4) % 2 == 1,
            ..c
        }
    } else if b >= 0x10 {
        // cursor or display shift
        Controller { blank_home: false, ..c }
    } else if b >= 0x08 {
        // display on/off control
        Controller { display_on: (b / 4) % 2 == 1, cursor_on: (b / 2) % 2 == 1, blink_on: b % 2 == 1, ..c }
    } else if b >= 0x04 {
        // entry mode set
        Controller { increment: (b / 2) % 2 == 1, shift: b % 2 == 1, ..c }
    } else if b == 0x01 {
        // clear display: blank, cursor home, address increments
        Controller { blank_home: true, increment: true, ..c }
    } else {
        // return home (contents kept) or no instruction
        c
    }
}

/// The controller after a data write.
pub open spec fn write_data(c: Controller) -> Controller {
    Controller { blank_home: false, ..c }
}

/// The controller after one latched transfer `(rs, nibble)`.
#[verifier::opaque]
pub open spec fn take_transfer(c: Controller, t: (bool, u8)) -> Controller {
    let n = t.1 % 16;
    if !c.four_bit {
        if t.0 {
            write_data(c)
        } else {
            execute(c, (n * 16) as u8)
        }
    } else {
        match c.high {
            None => Controller { high: Some(n), ..c },
            Some(h) => {
                let c1 = Controller { high: None, ..c };
                if t.0 {
                    write_data(c1)
                } else {
                    execute(c1, (h * 16 + n) as u8)
                }
            },
        }
    }
}

/// The controller after a series of transfers.
pub open spec fn controller_run(c: Controller, ts: Seq<(bool, u8)>) -> Controller
    decreases ts.len(),
{
    if ts.len() == 0 {
        c
    } else {
        take_transfer(controller_run(c, ts.drop_last()), ts.last())
    }
}

/// The state that `init` leaves a display of type `lcd_type` in: 4-bit
/// interface in step, two lines for type 2, the large font for type 1,
/// display on, cursor and blink off, cleared, address incrementing without
/// display shift.
pub open spec fn initialized(lcd_type: u8) -> Controller {
    Controller {
        four_bit: true,
        high: None,
        two_lines: lcd_type >= 2,
        big_font: lcd_type == 1,
        display_on: true,
        cursor_on: false,
        blink_on: false,
        increment: true,
        shift: false,
        blank_home: true,
    }
}

proof fn lemma_run_push(c: Controller, ts: Seq<(bool, u8)>, t: (bool, u8))
    ensures
        controller_run(c, ts.push(t)) == take_transfer(controller_run(c, ts), t),
{
    assert(ts.push(t).drop_last() =~= ts);
}

/// Running two series of transfers one after the other is running their
/// concatenation.
pub proof fn lemma_controller_run_append(c: Controller, a: Seq<(bool, u8)>, b: Seq<(bool, u8)>)
    ensures
        controller_run(c, a + b) == controller_run(controller_run(c, a), b),
    decreases b.len(),
{
    if b.len() == 0 {
        assert(a + b =~= a);
    } else {
        assert((a + b).drop_last() =~= a + b.drop_last());
        lemma_controller_run_append(c, a, b.drop_last());
    }
}

/// An instruction other than a function set keeps the interface as it is.
proof fn lemma_execute_keeps_interface(c: Controller, b: u8)
    requires
        !(0x20 <= b < 0x40),
    ensures
        execute(c, b).four_bit == c.four_bit,
        execute(c, b).high == c.high,
{
    reveal(execute);
}

/// A function set chooses the interface from its bit 4 and ends any
/// pending nibble.
proof fn lemma_execute_function_set(c: Controller, b: u8)
    requires
        0x20 <= b < 0x40,
    ensures
        execute(c, b).four_bit == ((b / 16) % 2 == 0),
        execute(c, b).high is None,
        execute(c, b).two_lines == ((b / 8) % 2 == 1),
        execute(c, b).big_font == ((b / 4) % 2 == 1),
{
    reveal(execute);
}

/// Once the interface is in step (4-bit mode, no nibble pending), as
/// `init()` leaves it, each byte that the driver sends is taken whole: an
/// instruction with RS low, data with RS high.
pub proof fn lemma_byte_taken_whole(c: Controller, rs: bool, b: u8)
    requires
        c.four_bit,
        c.high is None,
    ensures
        controller_run(c, nibbles_of(rs, b)) == if rs {
            write_data(c)
        } else {
            execute(c, b)
        },
{
    reveal(take_transfer);
    let ts = nibbles_of(rs, b);
    let e = Seq::<(bool, u8)>::empty();
    lemma_run_push(c, e, ts[0]);
    lemma_run_push(c, e.push(ts[0]), ts[1]);
    assert(e.push(ts[0]).push(ts[1]) =~= ts);
    assert((b >> 4u8) < 16 && (b & 0x0Fu8) < 16 && (b >> 4u8) * 16 + (b & 0x0Fu8) == b) by (bit_vector);
    let c1 = take_transfer(c, ts[0]);
    assert(c1 == Controller { high: Some(b >> 4u8), ..c });
    assert(Controller { high: None, ..c1 } == c);
}

/// With the interface in step, `putc(ch)` reaches the controller as one
/// whole byte: the control instruction for form feed, newline and
/// backspace, or a data write for any other character.
pub proof fn lemma_putc_taken_whole(s: BusLevels, c: Controller, ch: char)
    requires
        c.four_bit,
        c.high is None,
    ensures
        controller_run(c, latched(s, putc_ops(ch))) == if putc_transfer(ch).0 {
            write_data(c)
        } else {
            execute(c, putc_transfer(ch).1)
        },
{
    lemma_putc_received(s, ch);
    lemma_byte_taken_whole(c, putc_transfer(ch).0, putc_transfer(ch).1);
}

/// A 0x3 nibble with RS low: in 8-bit mode the interface stays 8-bit; in
/// 4-bit mode waiting for a high nibble, 0x3 becomes the pending one; in
/// 4-bit mode with a pending nibble, the completed instruction runs.
proof fn lemma_take_reset_nibble(c: Controller)
    ensures
        ({
            let c1 = take_transfer(c, (false, 0x3u8));
            &&& !c.four_bit ==> !c1.four_bit
            &&& c.four_bit && c.high is None ==> c1.four_bit && c1.high == Some(0x3u8)
            &&& c.four_bit && c.high is Some ==> !c1.four_bit || c1.high is None
            &&& c.four_bit && c.high == Some(0x3u8) ==> !c1.four_bit
        }),
{
    reveal(take_transfer);
    if !c.four_bit {
        lemma_execute_function_set(c, 0x30);
    } else if let Some(h) = c.high {
        let c1 = Controller { high: None, ..c };
        let b = (h * 16 + 3) as u8;
        if 0x20 <= b < 0x40 {
            lemma_execute_function_set(c1, b);
        } else {
            lemma_execute_keeps_interface(c1, b);
        }
    }
}

/// Three 0x3 nibbles with RS low put the controller in 8-bit mode, from any
/// state: 8-bit mode, or 4-bit mode waiting for a high or a low nibble.
pub proof fn lemma_resync(c: Controller)
    ensures
        !controller_run(c, seq![(false, 0x3u8), (false, 0x3u8), (false, 0x3u8)]).four_bit,
{
    let t = (false, 0x3u8);
    let e = Seq::<(bool, u8)>::empty();
    lemma_run_push(c, e, t);
    lemma_run_push(c, e.push(t), t);
    lemma_run_push(c, e.push(t).push(t), t);
    assert(e.push(t).push(t).push(t) =~= seq![t, t, t]);
    assert(controller_run(c, e) == c);
    let c1 = controller_run(c, e.push(t));
    let c2 = controller_run(c, e.push(t).push(t));
    lemma_take_reset_nibble(c);
    lemma_take_reset_nibble(c1);
    lemma_take_reset_nibble(c2);
}

/// After the reset nibbles, 0x2 and the init commands, the controller is in
/// the state `initialized(lcd_type)`.
proof fn lemma_setup_from_8bit(c: Controller, lcd_type: u8)
    requires
        !c.four_bit,
        lcd_type <= LCD_TYPE_MAX,
    ensures
        controller_run(
            c,
            seq![(false, 0x2u8)] + nibbles_of(false, function_set(lcd_type)) + nibbles_of(false, 0x0C)
                + nibbles_of(false, 0x01) + nibbles_of(false, 0x06),
        ) == initialized(lcd_type),
{
    let fs = function_set(lcd_type);
    assert(fs == 0x20 + lcd_type * 4) by (bit_vector)
        requires
            fs == 0x20u8 | (lcd_type << 2u8),
            lcd_type <= 2,
    ;
    let first = seq![(false, 0x2u8)];
    let c0 = controller_run(c, first);
    lemma_run_push(c, Seq::empty(), (false, 0x2u8));
    assert(Seq::<(bool, u8)>::empty().push((false, 0x2u8)) =~= first);
    reveal(take_transfer);
    assert(c0 == execute(c, 0x20));
    lemma_execute_function_set(c, 0x20);
    let b1 = nibbles_of(false, fs);
    let b2 = nibbles_of(false, 0x0C);
    let b3 = nibbles_of(false, 0x01);
    let b4 = nibbles_of(false, 0x06);
    lemma_controller_run_append(c, first, b1);
    lemma_controller_run_append(c, first + b1, b2);
    lemma_controller_run_append(c, first + b1 + b2, b3);
    lemma_controller_run_append(c, first + b1 + b2 + b3, b4);
    lemma_byte_taken_whole(c0, false, fs);
    let c1 = execute(c0, fs);
    lemma_execute_function_set(c0, fs);
    lemma_byte_taken_whole(c1, false, 0x0C);
    let c2 = execute(c1, 0x0C);
    lemma_execute_keeps_interface(c1, 0x0C);
    lemma_byte_taken_whole(c2, false, 0x01);
    let c3 = execute(c2, 0x01);
    lemma_execute_keeps_interface(c2, 0x01);
    lemma_byte_taken_whole(c3, false, 0x06);
    let c4 = execute(c3, 0x06);
    reveal(execute);
    assert(c4 == initialized(lcd_type));
}

/// `init()` configures the display, whatever state its controller was in
/// before (8-bit mode, or 4-bit mode in the middle of a byte) and whatever
/// the bus lines held: 4-bit interface in step, lines and font from the
/// display type, display on with cursor and blink off, cleared, and entry
/// mode increment without shift.
pub proof fn lemma_init_configures(s: BusLevels, c: Controller, lcd_type: u8)
    requires
        lcd_type <= LCD_TYPE_MAX,
    ensures
        controller_run(c, latched(s, init_ops(lcd_type))) == initialized(lcd_type),
{
    lemma_init_received(s, lcd_type);
    let stray = stray_transfer(s);
    let reset = seq![(false, 0x3u8), (false, 0x3u8), (false, 0x3u8)];
    let rest = seq![(false, 0x2u8)] + nibbles_of(false, function_set(lcd_type)) + nibbles_of(false, 0x0C)
        + nibbles_of(false, 0x01) + nibbles_of(false, 0x06);
    assert(latched(s, init_ops(lcd_type)) =~= stray + reset + rest);
    lemma_controller_run_append(c, stray + reset, rest);
    lemma_controller_run_append(c, stray, reset);
    let c1 = controller_run(c, stray);
    lemma_resync(c1);
    lemma_setup_from_8bit(controller_run(c1, reset), lcd_type);
}

} // verus!
