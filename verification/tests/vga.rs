use kernel::vga::{
    clear_screen, Buffer, Color, ColorCode, ScreenChar, CELLS, HEIGHT, LAST_LINE,
    REPLACEMENT_CHAR, WIDTH,
};

fn row_text(buf: &Buffer, y: usize) -> Vec<u8> {
    (0..WIDTH).map(|x| buf.read_cell(x, y).ascii).collect()
}

#[test]
fn color_code_packs_nibles() {
    assert_eq!(ColorCode::new(Color::White, Color::Black).0, 0x0F);
    assert_eq!(ColorCode::new(Color::Yellow, Color::Blue).0, 0x1E);
}

#[test]
fn print_char_writes_printable_and_replaces_the_rest() {
    let mut buf = Buffer::new();
    buf.print_char(b'A');
    assert_eq!(buf.read_cell(0, LAST_LINE).ascii, b'A');
    assert_eq!(buf.column(), 1);

    buf.move_to_bottom_line();
    buf.print_char(0x07);
    assert_eq!(buf.read_cell(0, LAST_LINE).ascii, REPLACEMENT_CHAR);
}

#[test]
fn newline_scrolls_up_and_resets_cursor() {
    let mut buf = Buffer::new();
    buf.clear_screen();
    buf.write_cell(0, LAST_LINE, ScreenChar::new(b'M', buf.color()));
    buf.print_char(b'\n');
    assert_eq!(buf.read_cell(0, LAST_LINE - 1).ascii, b'M');
    assert_eq!(buf.read_cell(0, LAST_LINE).ascii, b' ');
    assert_eq!(buf.column(), 0);
    assert_eq!(buf.row(), LAST_LINE);
}

#[test]
fn advance_wraps_at_width() {
    let mut buf = Buffer::new();
    for _ in 0..WIDTH {
        buf.print_char(b'.');
    }
    assert_eq!(buf.column(), 0);
    assert_eq!(buf.row(), LAST_LINE);
}

#[test]
fn clear_screen_blanks_all_and_resets_cursor() {
    let mut buf = Buffer::new();
    buf.write_cell(0, 0, ScreenChar::new(b'A', buf.color()));
    buf.set_position(5, 5);
    buf.clear_screen();
    assert_eq!(buf.read_cell(0, 0).ascii, b' ');
    assert_eq!(buf.column(), 0);
    assert_eq!(buf.row(), LAST_LINE);
}

#[test]
fn print_str_reaches_the_screen() {
    let s = "test_output";
    let mut buf = Buffer::new();
    clear_screen(&mut buf);
    buf.print_str(s);
    buf.print_str("\n");
    for (i, c) in s.bytes().enumerate() {
        assert_eq!(buf.read_cell(i, LAST_LINE - 1).ascii, c);
    }
    assert_eq!(buf.read_cell(s.len(), LAST_LINE - 1).ascii, b' ');
}

#[test]
fn color_numbers_cover_the_palette() {
    let all = [
        Color::Black,
        Color::Blue,
        Color::Green,
        Color::Cyan,
        Color::Red,
        Color::Magenta,
        Color::Brown,
        Color::LightGray,
        Color::DarkGray,
        Color::LightBlue,
        Color::LightGreen,
        Color::LightCyan,
        Color::LightRed,
        Color::LightMagenta,
        Color::Yellow,
        Color::White,
    ];
    for (i, c) in all.iter().enumerate() {
        assert_eq!(c.number() as usize, i);
    }
    assert_eq!(ColorCode::new(Color::LightGreen, Color::Red).0, 0x4A);
    assert_eq!(ColorCode::new(Color::Black, Color::White).0, 0xF0);
}

#[test]
fn new_buffer_is_blank_with_cursor_at_bottom_left() {
    let buf = Buffer::new();
    assert_eq!(buf.column(), 0);
    assert_eq!(buf.row(), LAST_LINE);
    assert_eq!(buf.color(), ColorCode(0x0F));
    for y in 0..HEIGHT {
        for x in 0..WIDTH {
            assert_eq!(buf.read_cell(x, y), ScreenChar::blank());
        }
    }
    assert_eq!(WIDTH * HEIGHT, CELLS);
}

#[test]
fn printed_bytes_take_the_current_color() {
    let mut buf = Buffer::new();
    let green = ColorCode::new(Color::Green, Color::Black);
    buf.set_color(green);
    buf.print_char(b'x');
    assert_eq!(buf.read_cell(0, LAST_LINE), ScreenChar::new(b'x', green));
    assert_eq!(buf.color(), green);
}

#[test]
fn bytes_outside_printable_ascii_show_the_replacement() {
    let mut buf = Buffer::new();
    for (i, b) in [0x00u8, 0x1F, 0x7F, 0x80, 0xFF, b' ', b'~'].iter().enumerate() {
        buf.print_char(*b);
        let shown = buf.read_cell(i, LAST_LINE).ascii;
        if (0x20..=0x7E).contains(b) {
            assert_eq!(shown, *b);
        } else {
            assert_eq!(shown, REPLACEMENT_CHAR);
        }
    }
    assert_eq!(buf.column(), 7);
}

#[test]
fn characters_print_as_their_low_byte() {
    let mut buf = Buffer::new();
    // U+00E9 is 0xE9, not printable; U+0141 has low byte 0x41 ('A');
    // U+010A has low byte 0x0A, a newline.
    buf.print_str("\u{e9}\u{141}\u{10a}z");
    assert_eq!(buf.read_cell(0, LAST_LINE - 1).ascii, REPLACEMENT_CHAR);
    assert_eq!(buf.read_cell(1, LAST_LINE - 1).ascii, b'A');
    assert_eq!(buf.read_cell(0, LAST_LINE).ascii, b'z');
    assert_eq!(buf.column(), 1);
}

#[test]
fn a_full_line_scrolls_into_the_row_above() {
    let mut buf = Buffer::new();
    let line: String = (0..WIDTH).map(|i| (b'a' + (i % 26) as u8) as char).collect();
    buf.print_str(&line);
    assert_eq!(row_text(&buf, LAST_LINE - 1), line.as_bytes().to_vec());
    assert_eq!(row_text(&buf, LAST_LINE), vec![b' '; WIDTH]);
    assert_eq!((buf.column(), buf.row()), (0, LAST_LINE));
}

#[test]
fn scrolling_drops_the_top_row() {
    let mut buf = Buffer::new();
    buf.write_cell(3, 0, ScreenChar::new(b'T', buf.color()));
    buf.write_cell(3, 1, ScreenChar::new(b'U', buf.color()));
    buf.print_char(b'\n');
    assert_eq!(buf.read_cell(3, 0).ascii, b'U');
    buf.print_char(b'\n');
    assert_eq!(buf.read_cell(3, 0).ascii, b' ');
}

#[test]
fn printing_in_two_parts_equals_printing_at_once() {
    let mut one = Buffer::new();
    one.print_str("hello,\nworld");
    let mut two = Buffer::new();
    two.print_str("hello,");
    two.print_str("\nworld");
    for y in 0..HEIGHT {
        assert_eq!(row_text(&one, y), row_text(&two, y));
    }
    assert_eq!((one.column(), one.row()), (two.column(), two.row()));
    assert_eq!(one.column(), 5);
}

#[test]
fn column_moves_by_the_number_of_bytes_modulo_width() {
    let mut buf = Buffer::new();
    for _ in 0..(2 * WIDTH + 7) {
        buf.print_char(b'#');
    }
    assert_eq!(buf.column(), 7);
    assert_eq!(buf.row(), LAST_LINE);
}

#[test]
fn clear_screen_twice_is_clear_screen_once() {
    let mut buf = Buffer::new();
    buf.print_str("some text\nmore");
    buf.clear_screen();
    let first: Vec<Vec<u8>> = (0..HEIGHT).map(|y| row_text(&buf, y)).collect();
    buf.clear_screen();
    let second: Vec<Vec<u8>> = (0..HEIGHT).map(|y| row_text(&buf, y)).collect();
    assert_eq!(first, second);
    assert!(second.iter().all(|r| r.iter().all(|b| *b == b' ')));
}

#[test]
fn writing_at_the_last_column_of_a_higher_row_wraps_to_the_bottom() {
    let mut buf = Buffer::new();
    buf.set_position(WIDTH - 1, 10);
    buf.print_char(b'Q');
    assert_eq!(buf.read_cell(WIDTH - 1, 9).ascii, b'Q');
    assert_eq!((buf.column(), buf.row()), (0, LAST_LINE));
}

#[test]
fn a_screen_of_new_lines_clears_the_screen() {
    let mut scrolled = Buffer::new();
    scrolled.print_str("first\nsecond\nthird");
    scrolled.set_color(ColorCode::new(Color::Cyan, Color::Black));
    let mut cleared = Buffer::new();
    cleared.print_str("first\nsecond\nthird");
    cleared.set_color(ColorCode::new(Color::Cyan, Color::Black));
    for _ in 0..HEIGHT {
        scrolled.print_char(b'\n');
    }
    cleared.clear_screen();
    for y in 0..HEIGHT {
        for x in 0..WIDTH {
            assert_eq!(scrolled.read_cell(x, y), cleared.read_cell(x, y));
            assert_eq!(scrolled.read_cell(x, y), ScreenChar::blank());
        }
    }
    assert_eq!((scrolled.column(), scrolled.row()), (0, LAST_LINE));
    assert_eq!(scrolled.color(), cleared.color());
}
