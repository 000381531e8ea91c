use rust_kernel::vga_interface::{
    Color, ColorCode, PrintableChar, Printer, ScreenBuffer, UNPRINTABLE_CHAR, VGA_BUFFER_HEIGHT,
    VGA_BUFFER_WIDTH,
};

fn all_colors() -> Vec<Color> {
    vec![
        Color::Black,
        Color::Blue,
        Color::Green,
        Color::Cyan,
        Color::Red,
        Color::Magenta,
        Color::Brown,
        Color::LightGray,
        Color::DarkGray,
        Color::LightBlue,
        Color::LightGreen,
        Color::LightCyan,
        Color::LightRed,
        Color::Pink,
        Color::Yellow,
        Color::White,
    ]
}

#[test]
fn color_codes_are_the_fixed_table() {
    let codes: Vec<u8> = all_colors().iter().map(|c| c.code()).collect();
    let expected: Vec<u8> = (0u8..16).collect();
    assert_eq!(codes, expected);
}

#[test]
fn attribute_packs_nibbles() {
    let c = ColorCode::new(Color::Yellow, Color::Blue);
    assert_eq!(c.0, 0x1e);
    let d = ColorCode::new(Color::White, Color::Black);
    assert_eq!(d.0, 0x0f);
}

#[test]
fn attribute_round_trips_all_pairs() {
    for fg in all_colors() {
        for bg in all_colors() {
            let byte = ColorCode::new(fg, bg).0;
            assert_eq!(byte & 0x0f, fg.code());
            assert_eq!(byte >> 4, bg.code());
        }
    }
}

#[test]
fn fresh_printer_is_blank() {
    let p = Printer::new();
    assert_eq!(p.col_pos, 0);
    assert_eq!(p.current_color_code.0, 0x0f);
    for row in 0..VGA_BUFFER_HEIGHT {
        for col in 0..VGA_BUFFER_WIDTH {
            let cell = p.char_at(row, col);
            assert_eq!(cell.ascii_code, b' ');
            assert_eq!(cell.color_code.0, 0x0f);
        }
    }
}

#[test]
fn screen_buffer_write_then_read() {
    let color = ColorCode::new(Color::Green, Color::Black);
    let mut buf = ScreenBuffer::new(color);
    let cell = PrintableChar { ascii_code: b'Q', color_code: ColorCode::new(Color::Red, Color::Blue) };
    buf.write(3, 7, cell);
    assert_eq!(buf.read(3, 7), cell);
    assert_eq!(buf.read(3, 8).ascii_code, b' ');
    assert_eq!(buf.read(4, 7).ascii_code, b' ');
}

#[test]
fn printable_run_renders_verbatim() {
    let mut p = Printer::new();
    p.write_string("abc");
    assert_eq!(p.col_pos, 3);
    let bottom = VGA_BUFFER_HEIGHT - 1;
    assert_eq!(p.char_at(bottom, 0).ascii_code, b'a');
    assert_eq!(p.char_at(bottom, 1).ascii_code, b'b');
    assert_eq!(p.char_at(bottom, 2).ascii_code, b'c');
    assert_eq!(p.char_at(bottom, 0).color_code, p.current_color_code);
    assert_eq!(p.char_at(bottom, 3).ascii_code, b' ');
}

#[test]
fn full_row_then_one_byte_scrolls_once() {
    let mut p = Printer::new();
    for i in 0..VGA_BUFFER_WIDTH {
        p.write_byte(b'0' + (i % 10) as u8);
    }
    assert_eq!(p.col_pos, VGA_BUFFER_WIDTH);
    p.write_byte(b'X');
    assert_eq!(p.col_pos, 1);
    let bottom = VGA_BUFFER_HEIGHT - 1;
    for i in 0..VGA_BUFFER_WIDTH {
        assert_eq!(p.char_at(bottom - 1, i).ascii_code, b'0' + (i % 10) as u8);
    }
    assert_eq!(p.char_at(bottom, 0).ascii_code, b'X');
    for i in 1..VGA_BUFFER_WIDTH {
        assert_eq!(p.char_at(bottom, i).ascii_code, b' ');
    }
}

#[test]
fn newline_resets_column_and_scrolls() {
    let mut p = Printer::new();
    p.write_string("hi");
    assert_eq!(p.col_pos, 2);
    p.write_byte(b'\n');
    assert_eq!(p.col_pos, 0);
    let bottom = VGA_BUFFER_HEIGHT - 1;
    assert_eq!(p.char_at(bottom - 1, 0).ascii_code, b'h');
    assert_eq!(p.char_at(bottom - 1, 1).ascii_code, b'i');
    for i in 0..VGA_BUFFER_WIDTH {
        assert_eq!(p.char_at(bottom, i).ascii_code, b' ');
    }
}

#[test]
fn newline_at_column_zero_still_scrolls() {
    let mut p = Printer::new();
    p.write_string("ab\n");
    assert_eq!(p.col_pos, 0);
    p.write_byte(b'\n');
    assert_eq!(p.col_pos, 0);
    let bottom = VGA_BUFFER_HEIGHT - 1;
    assert_eq!(p.char_at(bottom - 2, 0).ascii_code, b'a');
    assert_eq!(p.char_at(bottom - 1, 0).ascii_code, b' ');
}

#[test]
fn write_byte_takes_any_byte_verbatim() {
    // The substitution policy lives in write_string; write_byte renders the
    // byte it is given, which may be any code-page glyph.
    let mut p = Printer::new();
    p.write_byte(0x01);
    assert_eq!(p.col_pos, 1);
    assert_eq!(p.char_at(VGA_BUFFER_HEIGHT - 1, 0).ascii_code, 0x01);
}

#[test]
fn unprintable_byte_is_substituted_and_advances() {
    let mut p = Printer::new();
    p.write_string("a\tb");
    assert_eq!(p.col_pos, 3);
    let bottom = VGA_BUFFER_HEIGHT - 1;
    assert_eq!(p.char_at(bottom, 0).ascii_code, b'a');
    assert_eq!(p.char_at(bottom, 1).ascii_code, UNPRINTABLE_CHAR);
    assert_eq!(p.char_at(bottom, 2).ascii_code, b'b');
}

#[test]
fn non_ascii_input_becomes_one_glyph_per_byte() {
    let mut p = Printer::new();
    p.write_string("\u{e9}");
    assert_eq!(p.col_pos, 2);
    let bottom = VGA_BUFFER_HEIGHT - 1;
    assert_eq!(p.char_at(bottom, 0).ascii_code, UNPRINTABLE_CHAR);
    assert_eq!(p.char_at(bottom, 1).ascii_code, UNPRINTABLE_CHAR);
}

#[test]
fn hello_world_scenario() {
    let mut p = Printer::new();
    p.write_string("Hello\nWorld!");
    assert_eq!(p.col_pos, 6);
    let bottom = VGA_BUFFER_HEIGHT - 1;
    let above = VGA_BUFFER_HEIGHT - 2;
    let hello = b"Hello";
    for (i, b) in hello.iter().enumerate() {
        assert_eq!(p.char_at(above, i).ascii_code, *b);
    }
    for i in hello.len()..VGA_BUFFER_WIDTH {
        assert_eq!(p.char_at(above, i).ascii_code, b' ');
    }
    let world = b"World!";
    for (i, b) in world.iter().enumerate() {
        assert_eq!(p.char_at(bottom, i).ascii_code, *b);
    }
    for i in world.len()..VGA_BUFFER_WIDTH {
        assert_eq!(p.char_at(bottom, i).ascii_code, b' ');
    }
}

#[test]
fn scroll_preserves_background_color() {
    let mut p = Printer::new();
    p.current_color_code = ColorCode::new(Color::White, Color::Blue);
    p.write_byte(b'\n');
    let bottom = VGA_BUFFER_HEIGHT - 1;
    for i in 0..VGA_BUFFER_WIDTH {
        let cell = p.char_at(bottom, i);
        assert_eq!(cell.ascii_code, b' ');
        assert_eq!(cell.color_code.0, ColorCode::new(Color::White, Color::Blue).0);
    }
}
