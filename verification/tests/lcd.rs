use trichter::lcd::{cursor_fits, Lcd4Bit, LCD_INIT_CMDS, LCD_LINE2, LCD_TYPE_MAX};
use trichter::lcd_bus::{BusOp, Line};

/// Plays bus operations on a model of the display and returns the nibble
/// transfers latched on each falling edge of E.
fn latched(ops: &[BusOp]) -> Vec<(bool, u8)> {
    let (mut rs, mut e, mut d) = (false, false, [false; 4]);
    let mut out = Vec::new();
    for op in ops {
        if let BusOp::Drive(line, high) = *op {
            match line {
                Line::Rs => rs = high,
                Line::E => {
                    if e && !high {
                        let n = (d[0] as u8) | (d[1] as u8) << 1 | (d[2] as u8) << 2 | (d[3] as u8) << 3;
                        out.push((rs, n));
                    }
                    e = high;
                }
                Line::D4 => d[0] = high,
                Line::D5 => d[1] = high,
                Line::D6 => d[2] = high,
                Line::D7 => d[3] = high,
            }
        }
    }
    out
}

fn bytes(transfers: &[(bool, u8)]) -> Vec<(bool, u8)> {
    transfers.chunks(2).map(|p| (p[0].0, p[0].1 << 4 | p[1].1)).collect()
}

#[test]
fn new_driver_queues_nothing() {
    let mut lcd = Lcd4Bit::new(2);
    assert_eq!(lcd.lcd_type(), 2);
    assert!(lcd.take_pending().is_empty());
}

#[test]
fn send_byte_exact_operations() {
    let mut lcd = Lcd4Bit::new(2);
    lcd.send_byte(true, 0xA5);
    let ops = lcd.take_pending();
    let nib = |n: u8| {
        vec![
            BusOp::Drive(Line::D4, n & 1 != 0),
            BusOp::Drive(Line::D5, n & 2 != 0),
            BusOp::Drive(Line::D6, n & 4 != 0),
            BusOp::Drive(Line::D7, n & 8 != 0),
            BusOp::DelayNanos(1),
            BusOp::Drive(Line::E, true),
            BusOp::DelayNanos(2),
            BusOp::Drive(Line::E, false),
        ]
    };
    let mut expected = vec![BusOp::Drive(Line::Rs, true)];
    expected.extend(nib(0xA));
    expected.extend(nib(0x5));
    expected.push(BusOp::DelayMillis(2));
    assert_eq!(ops, expected);
    assert!(lcd.take_pending().is_empty());
}

#[test]
fn send_byte_roundtrip_all_bytes() {
    for b in 0..=255u8 {
        for rs in [false, true] {
            let mut lcd = Lcd4Bit::new(2);
            lcd.send_byte(rs, b);
            let t = latched(&lcd.take_pending());
            assert_eq!(t, vec![(rs, b >> 4), (rs, b & 0x0F)]);
            assert_eq!(bytes(&t), vec![(rs, b)]);
        }
    }
}

#[test]
fn init_function_set_follows_type() {
    assert_eq!(LCD_TYPE_MAX, 2);
    for (lcd_type, function_set) in [(0u8, 0x20u8), (1, 0x24), (2, 0x28)] {
        let mut lcd = Lcd4Bit::new(lcd_type);
        lcd.init();
        let t = latched(&lcd.take_pending());
        assert_eq!(bytes(&t[4..])[0], (false, function_set));
        assert_eq!(function_set, 0x20 | (lcd_type << 2));
    }
}

#[test]
fn init_sequence_received() {
    let mut lcd = Lcd4Bit::new(2);
    lcd.init();
    let ops = lcd.take_pending();
    assert_eq!(&ops[..3], &[BusOp::Drive(Line::Rs, false), BusOp::Drive(Line::E, false), BusOp::DelayMillis(15)]);
    let t = latched(&ops);
    assert_eq!(&t[..4], &[(false, 3), (false, 3), (false, 3), (false, 2)]);
    let mut expected = vec![(false, 0x28u8)];
    expected.extend(LCD_INIT_CMDS.iter().map(|&c| (false, c)));
    assert_eq!(bytes(&t[4..]), expected);
    assert_eq!(LCD_INIT_CMDS, [0x0C, 0x01, 0x06]);
    let waits: Vec<u32> = ops.iter().filter_map(|o| if let BusOp::DelayMillis(m) = o { Some(*m) } else { None }).collect();
    assert_eq!(waits, vec![15, 5, 5, 5, 2, 2, 2, 2]);
}

#[test]
fn gotoxy_addresses() {
    let mut lcd = Lcd4Bit::new(2);
    lcd.gotoxy(1, 1);
    assert_eq!(bytes(&latched(&lcd.take_pending())), vec![(false, 0x80)]);
    lcd.gotoxy(5, 2);
    assert_eq!(bytes(&latched(&lcd.take_pending())), vec![(false, 0x80 | (LCD_LINE2 + 4))]);
    lcd.gotoxy(3, 7);
    assert_eq!(bytes(&latched(&lcd.take_pending())), vec![(false, 0xC2)]);
}

#[test]
fn cursor_range_check() {
    assert!(!cursor_fits(0, 1));
    assert!(cursor_fits(1, 1));
    assert!(cursor_fits(255, 1));
    assert!(cursor_fits(0xC0, 2));
    assert!(!cursor_fits(0xC1, 2));
}

#[test]
fn putc_controls_and_data() {
    let mut lcd = Lcd4Bit::new(2);
    lcd.putc('H');
    assert_eq!(bytes(&latched(&lcd.take_pending())), vec![(true, b'H')]);
    lcd.putc('\x0C');
    let ops = lcd.take_pending();
    assert_eq!(bytes(&latched(&ops)), vec![(false, 0x01)]);
    assert_eq!(&ops[ops.len() - 2..], &[BusOp::DelayMillis(2), BusOp::DelayMillis(2)]);
    lcd.putc('\n');
    assert_eq!(bytes(&latched(&lcd.take_pending())), vec![(false, 0xC0)]);
    lcd.putc('\x08');
    assert_eq!(bytes(&latched(&lcd.take_pending())), vec![(false, 0x10)]);
    lcd.putc('\u{263A}');
    assert_eq!(bytes(&latched(&lcd.take_pending())), vec![(true, 0x3A)]);
}

#[test]
fn operations_accumulate_in_order() {
    let mut lcd = Lcd4Bit::new(0);
    lcd.putc('a');
    lcd.putc('b');
    assert_eq!(bytes(&latched(&lcd.take_pending())), vec![(true, b'a'), (true, b'b')]);
}
