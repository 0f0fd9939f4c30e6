use vga_driver::{
    Buffer, Color, ColorCode, QemuExitCode, QemuPort, ScreenChar, Writer, _print, BUFFER_HEIGHT,
    BUFFER_WIDTH,
};
use volatile::Volatile;

fn filled_buffer(ch: ScreenChar) -> &'static mut Buffer {
    let w = ch.to_word();
    Box::leak(Box::new(Buffer {
        chars: std::array::from_fn(|_| std::array::from_fn(|_| Volatile::new(w))),
    }))
}

fn cell(b: u8, attr: ColorCode) -> ScreenChar {
    ScreenChar { ascii_character: b, color_code: attr }
}

fn cleared_writer(attr: ColorCode) -> Writer {
    Writer::new(attr, filled_buffer(cell(b' ', attr)))
}

fn last_row() -> usize {
    BUFFER_HEIGHT - 1
}

#[test]
fn color_code_packs_background_high_foreground_low() {
    assert_eq!(ColorCode::new(Color::Yellow, Color::Black).0, 0x0e);
    assert_eq!(ColorCode::new(Color::White, Color::Blue).0, 0x1f);
    assert_eq!(ColorCode::new(Color::Black, Color::White).0, 0xf0);
    assert_eq!(ColorCode::new(Color::LightGreen, Color::Red).0, 0x4a);
}

#[test]
fn color_indices_follow_palette_order() {
    assert_eq!(Color::Black.index(), 0);
    assert_eq!(Color::LightGray.index(), 7);
    assert_eq!(Color::Pink.index(), 13);
    assert_eq!(Color::White.index(), 15);
}

#[test]
fn cell_word_puts_character_in_low_byte() {
    let c = cell(b'A', ColorCode(0x1f));
    assert_eq!(c.to_word(), 0x1f41);
    assert_eq!(ScreenChar::from_word(0x1f41), c);
    assert_eq!(ScreenChar::from_word(0x0e20), cell(b' ', ColorCode(0x0e)));
}

#[test]
fn buffer_write_then_read_cell() {
    let attr = ColorCode(0x07);
    let buf = filled_buffer(cell(b' ', attr));
    buf.write(3, 5, cell(b'x', ColorCode(0x2c)));
    assert_eq!(buf.read(3, 5), cell(b'x', ColorCode(0x2c)));
    assert_eq!(buf.read(3, 4), cell(b' ', attr));
    assert_eq!(buf.read(4, 5), cell(b' ', attr));
}

#[test]
fn new_writer_starts_at_column_zero() {
    let attr = ColorCode::new(Color::Yellow, Color::Black);
    let w = cleared_writer(attr);
    assert_eq!(w.column_position(), 0);
    assert_eq!(w.color_code(), attr);
}

#[test]
fn printable_byte_lands_at_cursor() {
    let attr = ColorCode::new(Color::Green, Color::Black);
    let mut w = cleared_writer(attr);
    w.write_byte(b'A');
    assert_eq!(w.buffer().read(last_row(), 0), cell(b'A', attr));
    assert_eq!(w.column_position(), 1);
    w.write_byte(b'~');
    assert_eq!(w.buffer().read(last_row(), 1), cell(b'~', attr));
    assert_eq!(w.column_position(), 2);
    for c in 2..BUFFER_WIDTH {
        w.write_byte(b' ' + (c % 90) as u8);
        assert_eq!(w.buffer().read(last_row(), c), cell(b' ' + (c % 90) as u8, attr));
        assert_eq!(w.column_position(), c + 1);
    }
}

#[test]
fn unprintable_bytes_show_fallback_glyph() {
    let attr = ColorCode(0x0e);
    for s in ["\t", "\r", "\u{0}", "\u{7f}", "\u{1b}"] {
        let mut w = cleared_writer(attr);
        w.write_string(s);
        assert_eq!(w.buffer().read(last_row(), 0), cell(0xfe, attr));
        assert_eq!(w.column_position(), 1);
    }
}

#[test]
fn multibyte_character_shows_one_glyph_per_byte() {
    let attr = ColorCode(0x0e);
    let mut w = cleared_writer(attr);
    w.write_string("é");
    assert_eq!(w.buffer().read(last_row(), 0), cell(0xfe, attr));
    assert_eq!(w.buffer().read(last_row(), 1), cell(0xfe, attr));
    assert_eq!(w.column_position(), 2);
}

#[test]
fn full_row_and_one_more_scrolls_once() {
    let attr = ColorCode(0x0e);
    let mut w = cleared_writer(attr);
    // Mark each row above the last so the scroll can be seen.
    for r in 0..last_row() {
        w.write_byte(b'a' + r as u8);
        w.write_byte(b'\n');
    }
    let before: Vec<Vec<ScreenChar>> = (0..BUFFER_HEIGHT)
        .map(|r| (0..BUFFER_WIDTH).map(|c| w.buffer().read(r, c)).collect())
        .collect();
    let line: Vec<u8> = (0..=BUFFER_WIDTH).map(|i| b'0' + (i % 10) as u8).collect();
    w.write_string(std::str::from_utf8(&line).unwrap());
    assert_eq!(w.column_position(), 1);
    for r in 0..BUFFER_HEIGHT - 2 {
        for c in 0..BUFFER_WIDTH {
            assert_eq!(w.buffer().read(r, c), before[r + 1][c]);
        }
    }
    for c in 0..BUFFER_WIDTH {
        assert_eq!(w.buffer().read(BUFFER_HEIGHT - 2, c), cell(line[c], attr));
    }
    assert_eq!(w.buffer().read(last_row(), 0), cell(line[BUFFER_WIDTH], attr));
    for c in 1..BUFFER_WIDTH {
        assert_eq!(w.buffer().read(last_row(), c), cell(b' ', attr));
    }
}

#[test]
fn line_break_blanks_last_row_and_resets_column() {
    let attr = ColorCode(0x4f);
    let mut w = Writer::new(attr, filled_buffer(cell(b'#', ColorCode(0x01))));
    w.write_string("abc");
    w.write_byte(b'\n');
    assert_eq!(w.column_position(), 0);
    for c in 0..BUFFER_WIDTH {
        assert_eq!(w.buffer().read(last_row(), c), cell(b' ', attr));
    }
    assert_eq!(w.buffer().read(BUFFER_HEIGHT - 2, 0), cell(b'a', attr));
    assert_eq!(w.buffer().read(BUFFER_HEIGHT - 2, 3), cell(b'#', ColorCode(0x01)));
    assert_eq!(w.buffer().read(0, 0), cell(b'#', ColorCode(0x01)));
}

#[test]
fn hi_and_line_break_round_trip() {
    let attr = ColorCode::new(Color::Yellow, Color::Black);
    let mut w = cleared_writer(attr);
    w.write_string("Hi\n");
    assert_eq!(w.column_position(), 0);
    assert_eq!(w.buffer().read(BUFFER_HEIGHT - 2, 0), cell(b'H', attr));
    assert_eq!(w.buffer().read(BUFFER_HEIGHT - 2, 1), cell(b'i', attr));
    for c in 2..BUFFER_WIDTH {
        assert_eq!(w.buffer().read(BUFFER_HEIGHT - 2, c), cell(b' ', attr));
    }
    for c in 0..BUFFER_WIDTH {
        assert_eq!(w.buffer().read(last_row(), c), cell(b' ', attr));
    }
}

#[test]
fn empty_string_changes_nothing() {
    let attr = ColorCode(0x0e);
    let mut w = cleared_writer(attr);
    w.write_string("");
    assert_eq!(w.column_position(), 0);
    assert_eq!(w.buffer().read(last_row(), 0), cell(b' ', attr));
}

#[test]
fn scrolling_loses_top_row() {
    let attr = ColorCode(0x0e);
    let mut w = cleared_writer(attr);
    w.write_string("top");
    for _ in 0..BUFFER_HEIGHT - 1 {
        w.write_byte(b'\n');
    }
    assert_eq!(w.buffer().read(0, 0), cell(b't', attr));
    w.write_byte(b'\n');
    assert_eq!(w.buffer().read(0, 0), cell(b' ', attr));
}

#[test]
fn print_through_lock_reaches_writer() {
    let attr = ColorCode::new(Color::Yellow, Color::Black);
    let console = spin::Mutex::new(cleared_writer(attr));
    _print(&console, "ok");
    _print(&console, "!");
    let w = console.lock();
    assert_eq!(w.column_position(), 3);
    assert_eq!(w.buffer().read(last_row(), 0), cell(b'o', attr));
    assert_eq!(w.buffer().read(last_row(), 1), cell(b'k', attr));
    assert_eq!(w.buffer().read(last_row(), 2), cell(b'!', attr));
}

#[test]
fn qemu_exit_values() {
    assert_eq!(QemuExitCode::Success.code(), 0x10);
    assert_eq!(QemuExitCode::Failed.code(), 0x11);
    assert_eq!(QemuPort::ExitPort.address(), 0xf4);
}
