//! VGA text-mode console: an 80x25 grid of character cells with a cursor
//! that writes on the bottom line and scrolls the screen up on a new line.
use vstd::prelude::*;

verus! {

/// Number of columns on the screen.
pub const WIDTH: usize = 80;
/// Number of rows on the screen.
pub const HEIGHT: usize = 25;
/// The row on which text is written.
pub const LAST_LINE: usize = 24;
/// Number of cells on the screen.
pub const CELLS: usize = 2000;
/// The background color sits in the high nibble of a color code.
pub const BACKGROUND_SHIFT: u8 = 4;
/// The byte shown in place of a byte that is not printable ASCII.
pub const REPLACEMENT_CHAR: u8 = 0xFE;

/// The sixteen colors of VGA text mode.
#[derive(Clone, Copy, Debug, PartialEq, Eq, Structural)]
pub enum Color {
    Black,
    Blue,
    Green,
    Cyan,
    Red,
    Magenta,
    Brown,
    LightGray,
    DarkGray,
    LightBlue,
    LightGreen,
    LightCyan,
    LightRed,
    LightMagenta,
    Yellow,
    White,
}

/// The hardware number of a color.
pub open spec fn color_number(c: Color) -> u8 {
    match c {
        Color::Black => 0,
        Color::Blue => 1,
        Color::Green => 2,
        Color::Cyan => 3,
        Color::Red => 4,
        Color::Magenta => 5,
        Color::Brown => 6,
        Color::LightGray => 7,
        Color::DarkGray => 8,
        Color::LightBlue => 9,
        Color::LightGreen => 10,
        Color::LightCyan => 11,
        Color::LightRed => 12,
        Color::LightMagenta => 13,
        Color::Yellow => 14,
        Color::White => 15,
    }
}

impl Color {
    /// The hardware number of this color (0 to 15).
    pub fn number(self) -> (n: u8)
        ensures
            n == color_number(self),
            n < 16,
    {
        match self {
            Color::Black => 0,
            Color::Blue => 1,
            Color::Green => 2,
            Color::Cyan => 3,
            Color::Red => 4,
            Color::Magenta => 5,
            Color::Brown => 6,
            Color::LightGray => 7,
            Color::DarkGray => 8,
            Color::LightBlue => 9,
            Color::LightGreen => 10,
            Color::LightCyan => 11,
            Color::LightRed => 12,
            Color::LightMagenta => 13,
            Color::Yellow => 14,
            Color::White => 15,
        }
    }
}

/// A foreground/background color pair, packed as the attribute byte of a cell.
#[derive(Clone, Copy, Debug, PartialEq, Eq, Structural)]
pub struct ColorCode(pub u8);

impl ColorCode {
    /// Packs `fg` into the low nibble and `bg` into the high nibble.
    pub fn new(fg: Color, bg: Color) -> (code: ColorCode)
        ensures
            code.0 == color_number(bg) * 16 + color_number(fg),
            code.0 & 0xF == color_number(fg),
            code.0 >> 4u8 == color_number(bg),
    {
        let f = fg.number();
        let b = bg.number();
        let v = (b << BACKGROUND_SHIFT) | f;
        assert(v == b * 16 + f && v & 0xF == f && v >> 4u8 == b) by (bit_vector)
            requires
                f < 16,
                b < 16,
                v == (b << 4u8) | f,
        ;
        ColorCode(v)
    }
}

/// One character cell of the screen: an ASCII byte and its colors.
#[derive(Clone, Copy, Debug, PartialEq, Eq, Structural)]
pub struct ScreenChar {
    pub ascii: u8,
    pub color: ColorCode,
}

/// White on black.
pub open spec fn default_color() -> ColorCode {
    ColorCode(0x0F)
}

/// A space, white on black.
pub open spec fn blank_cell() -> ScreenChar {
    ScreenChar { ascii: 0x20, color: default_color() }
}

impl ScreenChar {
    pub fn new(ascii: u8, color: ColorCode) -> (cell: ScreenChar)
        ensures
            cell == (ScreenChar { ascii, color }),
    {
        ScreenChar { ascii, color }
    }

    /// A space, white on black.
    pub fn blank() -> (cell: ScreenChar)
        ensures
            cell == blank_cell(),
            cell == (ScreenChar { ascii: 0x20, color: ColorCode(0x0F) }),
    {
        ScreenChar { ascii: 0x20, color: ColorCode::new(Color::White, Color::Black) }
    }
}

/// What a console holds: the cursor, the current color and the cells,
/// row after row.
pub ghost struct ScreenState {
    pub x: int,
    pub y: int,
    pub color: ColorCode,
    pub cells: Seq<ScreenChar>,
}

/// Position of cell `(x, y)` in the row-major cell sequence.
pub open spec fn cell_index(x: int, y: int) -> int {
    y * 80 + x
}

/// Whether `c` is printable ASCII (a space up to a tilde).
pub open spec fn is_printable(c: u8) -> bool {
    0x20 <= c <= 0x7E
}

/// The byte that the console shows for `c`.
pub open spec fn shown_byte(c: u8) -> u8 {
    if is_printable(c) {
        c
    } else {
        REPLACEMENT_CHAR
    }
}

/// The byte a character is printed as: its code point, truncated to 8 bits.
pub open spec fn char_byte(c: char) -> u8 {
    (c as u32 % 256) as u8
}

/// The cells moved up by one row, with a blank bottom row.
pub open spec fn scrolled(cells: Seq<ScreenChar>) -> Seq<ScreenChar> {
    Seq::new(2000, |i: int| if i < 1920 { cells[i + 80] } else { blank_cell() })
}

/// A screen of blank cells.
pub open spec fn blank_screen() -> Seq<ScreenChar> {
    Seq::new(2000, |i: int| blank_cell())
}

/// The state after a new line: the screen scrolls up one row and the cursor
/// goes to the start of the bottom row.
pub open spec fn after_new_line(s: ScreenState) -> ScreenState {
    ScreenState { x: 0, y: 24, color: s.color, cells: scrolled(s.cells) }
}

/// The state after `c` is written at the cursor in the current color and the
/// cursor moves right, to a new line past the last column.
pub open spec fn after_write_byte(s: ScreenState, c: u8) -> ScreenState {
    let written = ScreenState {
        x: s.x + 1,
        y: s.y,
        color: s.color,
        cells: s.cells.update(cell_index(s.x, s.y), ScreenChar { ascii: c, color: s.color }),
    };
    if s.x + 1 >= 80 {
        after_new_line(written)
    } else {
        written
    }
}

/// The state after byte `c` is printed: a newline starts a new line, a
/// printable byte is written, any other byte is written as the replacement
/// character.
pub open spec fn after_print_char(s: ScreenState, c: u8) -> ScreenState {
    if c == 0x0A {
        after_new_line(s)
    } else {
        after_write_byte(s, shown_byte(c))
    }
}

/// The state after the bytes of `bs` are printed in order.
pub open spec fn after_print_bytes(s: ScreenState, bs: Seq<u8>) -> ScreenState
    decreases bs.len(),
{
    if bs.len() == 0 {
        s
    } else {
        after_print_char(after_print_bytes(s, bs.drop_last()), bs.last())
    }
}

/// The bytes that the characters of `text` are printed as.
pub open spec fn text_bytes(text: Seq<char>) -> Seq<u8> {
    text.map_values(|c: char| char_byte(c))
}

/// The state after every cell is blanked and the cursor is moved to the
/// start of the bottom row.
pub open spec fn after_clear_screen(s: ScreenState) -> ScreenState {
    ScreenState { x: 0, y: 24, color: s.color, cells: blank_screen() }
}

/// The cell at `(x, y)` on a screen.
pub open spec fn cell_at(s: ScreenState, x: int, y: int) -> ScreenChar {
    s.cells[cell_index(x, y)]
}

/// The text console: a cursor, a current color and the screen's cells.
pub struct Buffer {
    x: usize,
    y: usize,
    color: ColorCode,
    cells: [ScreenChar; CELLS],
}

impl View for Buffer {
    type V = ScreenState;

    closed spec fn view(&self) -> ScreenState {
        ScreenState { x: self.x as int, y: self.y as int, color: self.color, cells: self.cells@ }
    }
}

/// Position of cell `(x, y)` in the screen's memory.
fn index(x: usize, y: usize) -> (i: usize)
    requires
        x < WIDTH,
        y < HEIGHT,
    ensures
        i == cell_index(x as int, y as int),
        i < CELLS,
{
    y * WIDTH + x
}

impl Buffer {
    /// The console is well formed: the cursor is on the screen.
    pub open spec fn wf(&self) -> bool {
        &&& 0 <= self@.x < 80
        &&& 0 <= self@.y < 25
        &&& self@.cells.len() == 2000
    }

    /// A blank white-on-black screen with the cursor at the start of the
    /// bottom row.
    pub fn new() -> (buf: Buffer)
        ensures
            buf.wf(),
            buf@ == (ScreenState { x: 0, y: 24, color: default_color(), cells: blank_screen() }),
    {
        let blank = ScreenChar::blank();
        let buf = Buffer {
            x: 0,
            y: LAST_LINE,
            color: ColorCode::new(Color::White, Color::Black),
            cells: [blank; CELLS],
        };
        assert(buf@.cells =~= blank_screen());
        buf
    }

    /// The cell at `(x, y)`.
    pub fn read_cell(&self, x: usize, y: usize) -> (cell: ScreenChar)
        requires
            self.wf(),
            x < WIDTH,
            y < HEIGHT,
        ensures
            cell == cell_at(self@, x as int, y as int),
    {
        self.cells[index(x, y)]
    }

    /// Puts `cell` at `(x, y)`; nothing else changes.
    pub fn write_cell(&mut self, x: usize, y: usize, cell: ScreenChar)
        requires
            old(self).wf(),
            x < WIDTH,
            y < HEIGHT,
        ensures
            final(self).wf(),
            final(self)@ == (ScreenState {
                cells: old(self)@.cells.update(cell_index(x as int, y as int), cell),
                ..old(self)@
            }),
    {
        let i = index(x, y);
        self.cells[i] = cell;
    }

    /// The cursor's column.
    pub fn column(&self) -> (x: usize)
        ensures
            x == self@.x,
    {
        self.x
    }

    /// The cursor's row.
    pub fn row(&self) -> (y: usize)
        ensures
            y == self@.y,
    {
        self.y
    }

    /// The color that the next bytes are written in.
    pub fn color(&self) -> (c: ColorCode)
        ensures
            c == self@.color,
    {
        self.color
    }

    /// Writes the next bytes in `color`.
    pub fn set_color(&mut self, color: ColorCode)
        requires
            old(self).wf(),
        ensures
            final(self).wf(),
            final(self)@ == (ScreenState { color, ..old(self)@ }),
    {
        self.color = color;
    }

    /// Moves the cursor to `(x, y)`.
    pub fn set_position(&mut self, x: usize, y: usize)
        requires
            old(self).wf(),
            x < WIDTH,
            y < HEIGHT,
        ensures
            final(self).wf(),
            final(self)@ == (ScreenState { x: x as int, y: y as int, ..old(self)@ }),
    {
        self.x = x;
        self.y = y;
    }

    /// Moves the cursor to the start of the bottom row.
    pub fn move_to_bottom_line(&mut self)
        requires
            old(self).wf(),
        ensures
            final(self).wf(),
            final(self)@ == (ScreenState { x: 0, y: 24, ..old(self)@ }),
    {
        self.x = 0;
        self.y = LAST_LINE;
    }

    /// Blanks row `y`.
    fn clear_line(&mut self, y: usize)
        requires
            old(self).wf(),
            y < HEIGHT,
        ensures
            final(self).wf(),
            final(self)@.x == old(self)@.x,
            final(self)@.y == old(self)@.y,
            final(self)@.color == old(self)@.color,
            final(self)@.cells.len() == 2000,
            forall|i: int|
                0 <= i < 2000 ==> #[trigger] final(self)@.cells[i] == if y * 80 <= i < y * 80 + 80 {
                    blank_cell()
                } else {
                    old(self)@.cells[i]
                },
    {
        let blank = ScreenChar::blank();
        let ghost start = *self;
        for x in 0..WIDTH
            invariant
                self.wf(),
                y < 25,
                blank == blank_cell(),
                self@.x == start@.x,
                self@.y == start@.y,
                self@.color == start@.color,
                forall|i: int|
                    0 <= i < 2000 ==> #[trigger] self@.cells[i] == if y * 80 <= i < y * 80 + x {
                        blank_cell()
                    } else {
                        start@.cells[i]
                    },
        {
            let ghost before = self@;
            self.write_cell(x, y, blank);
            assert forall|i: int| 0 <= i < 2000 implies #[trigger] self@.cells[i] == if y * 80 <= i
                < y * 80 + x + 1 {
                blank_cell()
            } else {
                start@.cells[i]
            } by {
                if i != cell_index(x as int, y as int) {
                    assert(self@.cells[i] == before.cells[i]);
                }
            }
        }
    }

    /// Scrolls the screen up one row, blanks the bottom row and moves the
    /// cursor to its start.
    fn new_line(&mut self)
        requires
            old(self).wf(),
        ensures
            final(self).wf(),
            final(self)@ == after_new_line(old(self)@),
    {
        let ghost start = self@;
        for y in 1..HEIGHT
            invariant
                self.wf(),
                self@.x == start.x,
                self@.y == start.y,
                self@.color == start.color,
                forall|i: int|
                    0 <= i < 2000 ==> #[trigger] self@.cells[i] == if i < (y - 1) * 80 {
                        start.cells[i + 80]
                    } else {
                        start.cells[i]
                    },
        {
            for x in 0..WIDTH
                invariant
                    self.wf(),
                    1 <= y < 25,
                    self@.x == start.x,
                    self@.y == start.y,
                    self@.color == start.color,
                    forall|i: int|
                        0 <= i < 2000 ==> #[trigger] self@.cells[i] == if i < (y - 1) * 80 + x {
                            start.cells[i + 80]
                        } else {
                            start.cells[i]
                        },
            {
                let ghost before = self@;
                let cell = self.read_cell(x, y);
                assert(cell == start.cells[(y - 1) * 80 + x + 80]) by {
                    assert(before.cells[y * 80 + x] == start.cells[y * 80 + x]);
                }
                self.write_cell(x, y - 1, cell);
                assert forall|i: int| 0 <= i < 2000 implies #[trigger] self@.cells[i] == if i < (y
                    - 1) * 80 + x + 1 {
                    start.cells[i + 80]
                } else {
                    start.cells[i]
                } by {
                    if i != cell_index(x as int, y - 1) {
                        assert(self@.cells[i] == before.cells[i]);
                    }
                }
            }
        }
        self.clear_line(HEIGHT - 1);
        self.move_to_bottom_line();
        assert(self@.cells =~= scrolled(start.cells));
    }

    /// Blanks every cell and moves the cursor to the start of the bottom row.
    pub fn clear_screen(&mut self)
        requires
            old(self).wf(),
        ensures
            final(self).wf(),
            final(self)@ == after_clear_screen(old(self)@),
    {
        let ghost start = self@;
        for y in 0..HEIGHT
            invariant
                self.wf(),
                self@.x == start.x,
                self@.y == start.y,
                self@.color == start.color,
                forall|i: int|
                    0 <= i < 2000 ==> #[trigger] self@.cells[i] == if i < y * 80 {
                        blank_cell()
                    } else {
                        start.cells[i]
                    },
        {
            self.clear_line(y);
        }
        self.move_to_bottom_line();
        assert(self@.cells =~= blank_screen());
    }

    /// Moves the cursor one column right, to a new line past the last column.
    fn advance_position(&mut self)
        requires
            old(self).wf(),
        ensures
            final(self).wf(),
            final(self)@ == if old(self)@.x + 1 >= 80 {
                after_new_line(ScreenState { x: old(self)@.x + 1, ..old(self)@ })
            } else {
                ScreenState { x: old(self)@.x + 1, ..old(self)@ }
            },
    {
        if self.x + 1 >= WIDTH {
            self.new_line();
        } else {
            self.x = self.x + 1;
        }
    }

    /// Writes `c` at the cursor in the current color and advances the cursor.
    fn write_byte(&mut self, c: u8)
        requires
            old(self).wf(),
        ensures
            final(self).wf(),
            final(self)@ == after_write_byte(old(self)@, c),
    {
        let cell = ScreenChar::new(c, self.color);
        self.write_cell(self.x, self.y, cell);
        self.advance_position();
    }

    /// Prints byte `c`: a newline starts a new line, printable ASCII is
    /// written as it is, any other byte as the replacement character.
    pub fn print_char(&mut self, c: u8)
        requires
            old(self).wf(),
        ensures
            final(self).wf(),
            final(self)@ == after_print_char(old(self)@, c),
    {
        if c == 0x0A {
            self.new_line();
        } else if 0x20 <= c && c <= 0x7E {
            self.write_byte(c);
        } else {
            self.write_byte(REPLACEMENT_CHAR);
        }
    }

    /// Prints each character of `text`, as the low byte of its code point.
    pub fn print_str(&mut self, text: &str)
        requires
            old(self).wf(),
        ensures
            final(self).wf(),
            final(self)@ == after_print_bytes(old(self)@, text_bytes(text@)),
    {
        let ghost start = self@;
        for c in it: text.chars()
            invariant
                self.wf(),
                it.seq() == text@,
                self@ == after_print_bytes(start, text_bytes(text@.take(it.index() as int))),
        {
            let code: u32 = c as u32;
            let byte: u8 = (code % 256) as u8;
            self.print_char(byte);
            proof {
                let done = text@.take(it.index() as int + 1);
                assert(text_bytes(done).drop_last() =~= text_bytes(text@.take(it.index() as int)));
            }
        }
        assert(text@.take(text@.len() as int) =~= text@);
    }
}

/// Clears the whole console.
pub fn clear_screen(buf: &mut Buffer)
    requires
        old(buf).wf(),
    ensures
        final(buf).wf(),
        final(buf)@ == after_clear_screen(old(buf)@),
{
    buf.clear_screen();
}

/// A screen state that a console can hold: the cursor on the screen and a
/// full screen of cells.
pub open spec fn state_wf(s: ScreenState) -> bool {
    &&& 0 <= s.x < 80
    &&& 0 <= s.y < 25
    &&& s.cells.len() == 2000
}

/// Whether `bs` holds no newline byte.
pub open spec fn no_newline(bs: Seq<u8>) -> bool {
    forall|i: int| 0 <= i < bs.len() ==> bs[i] != 0x0A
}

/// Printing keeps the cursor on the screen and the screen full. A newline
/// moves the cursor to the start of the bottom row; any other byte moves it
/// one column right, wrapping to column 0 of the bottom row after the last
/// column. The color is unchanged.
pub proof fn lemma_print_char_cursor(s: ScreenState, c: u8)
    requires
        state_wf(s),
    ensures
        state_wf(after_print_char(s, c)),
        after_print_char(s, c).color == s.color,
        after_print_char(s, c).x == if c == 0x0A { 0 } else { (s.x + 1) % 80 },
        after_print_char(s, c).y == if c == 0x0A || s.x + 1 == 80 { 24 } else { s.y },
{
}

/// Printing the bytes of `a` and then those of `b` leaves the console as
/// printing `a` followed by `b` in one go.
pub proof fn lemma_print_bytes_append(s: ScreenState, a: Seq<u8>, b: Seq<u8>)
    ensures
        after_print_bytes(s, a + b) == after_print_bytes(after_print_bytes(s, a), b),
    decreases b.len(),
{
    if b.len() == 0 {
        assert(a + b =~= a);
    } else {
        assert((a + b).drop_last() =~= a + b.drop_last());
        lemma_print_bytes_append(s, a, b.drop_last());
    }
}

/// Printing `text1` and then `text2` leaves the console as printing their
/// concatenation.
pub proof fn lemma_print_str_append(s: ScreenState, text1: Seq<char>, text2: Seq<char>)
    ensures
        after_print_bytes(s, text_bytes(text1 + text2)) == after_print_bytes(
            after_print_bytes(s, text_bytes(text1)),
            text_bytes(text2),
        ),
{
    assert(text_bytes(text1 + text2) =~= text_bytes(text1) + text_bytes(text2));
    lemma_print_bytes_append(s, text_bytes(text1), text_bytes(text2));
}

/// Bytes without a newline move the cursor right by their number, modulo the
/// width; the cursor stays on the screen.
pub proof fn lemma_print_bytes_column(s: ScreenState, bs: Seq<u8>)
    requires
        state_wf(s),
        no_newline(bs),
    ensures
        state_wf(after_print_bytes(s, bs)),
        after_print_bytes(s, bs).x == (s.x + bs.len()) % 80,
    decreases bs.len(),
{
    if bs.len() > 0 {
        lemma_print_bytes_column(s, bs.drop_last());
        let mid = after_print_bytes(s, bs.drop_last());
        lemma_print_char_cursor(mid, bs.last());
        assert(((s.x + bs.len() - 1) % 80 + 1) % 80 == (s.x + bs.len()) % 80) by {
            vstd::arithmetic::div_mod::lemma_add_mod_noop(s.x + bs.len() - 1, 1, 80);
            vstd::arithmetic::div_mod::lemma_mod_twice(s.x + bs.len() - 1, 80);
        }
    }
}

/// A console whose cursor is on the bottom row keeps it there, whatever is
/// printed.
pub proof fn lemma_print_bytes_bottom_row(s: ScreenState, bs: Seq<u8>)
    requires
        state_wf(s),
        s.y == 24,
    ensures
        state_wf(after_print_bytes(s, bs)),
        after_print_bytes(s, bs).y == 24,
    decreases bs.len(),
{
    if bs.len() > 0 {
        lemma_print_bytes_bottom_row(s, bs.drop_last());
        lemma_print_char_cursor(after_print_bytes(s, bs.drop_last()), bs.last());
    }
}

/// A new line moves every row up by one and leaves the bottom row blank.
pub proof fn lemma_new_line_scrolls(s: ScreenState, x: int, r: int)
    requires
        state_wf(s),
        0 <= x < 80,
        0 <= r < 25,
    ensures
        cell_at(after_new_line(s), x, r) == if r < 24 {
            cell_at(s, x, r + 1)
        } else {
            blank_cell()
        },
{
}

/// A byte that does not end the row is shown at the cursor in the current
/// color; one that ends the bottom row is shown there before the screen
/// scrolls, so it ends up one row higher.
pub proof fn lemma_print_char_shows_byte(s: ScreenState, c: u8)
    requires
        state_wf(s),
        c != 0x0A,
    ensures
        s.x + 1 < 80 ==> cell_at(after_print_char(s, c), s.x, s.y) == (ScreenChar {
            ascii: shown_byte(c),
            color: s.color,
        }),
        s.x + 1 == 80 && s.y == 24 ==> cell_at(after_print_char(s, c), s.x, 23) == (ScreenChar {
            ascii: shown_byte(c),
            color: s.color,
        }),
{
}

/// Clearing a cleared screen changes nothing.
pub proof fn lemma_clear_screen_idempotent(s: ScreenState)
    ensures
        after_clear_screen(after_clear_screen(s)) == after_clear_screen(s),
{
}

/// The state after `n` new lines in a row.
pub open spec fn after_new_lines(s: ScreenState, n: nat) -> ScreenState
    decreases n,
{
    if n == 0 {
        s
    } else {
        after_new_line(after_new_lines(s, (n - 1) as nat))
    }
}

/// After `n` new lines (at least one, at most a screen's height) the rows
/// have moved up by `n`, the bottom `n` rows are blank, and the cursor is at
/// the start of the bottom row.
pub proof fn lemma_new_lines_shift(s: ScreenState, n: nat)
    requires
        state_wf(s),
        1 <= n <= 25,
    ensures
        state_wf(after_new_lines(s, n)),
        after_new_lines(s, n).x == 0,
        after_new_lines(s, n).y == 24,
        after_new_lines(s, n).color == s.color,
        forall|i: int|
            0 <= i < 2000 ==> #[trigger] after_new_lines(s, n).cells[i] == if i < 2000 - 80 * n {
                s.cells[i + 80 * n]
            } else {
                blank_cell()
            },
    decreases n,
{
    if n == 1 {
        assert(after_new_lines(s, 0) == s);
        assert(after_new_lines(s, 1) == after_new_line(s));
    } else {
        lemma_new_lines_shift(s, (n - 1) as nat);
        let prev = after_new_lines(s, (n - 1) as nat);
        assert(after_new_lines(s, n) == after_new_line(prev));
        assert forall|i: int| 0 <= i < 2000 implies #[trigger] after_new_lines(s, n).cells[i]
            == if i < 2000 - 80 * n {
            s.cells[i + 80 * n]
        } else {
            blank_cell()
        } by {
            if i < 1920 {
                assert(after_new_lines(s, n).cells[i] == prev.cells[i + 80]);
                assert(i + 80 + 80 * (n - 1) == i + 80 * n);
            }
        }
    }
}

/// A screen's height of new lines leaves the console as clearing the screen
/// does: every cell blank, the cursor at the start of the bottom row and the
/// color kept.
pub proof fn lemma_full_scroll_clears(s: ScreenState)
    requires
        state_wf(s),
    ensures
        after_new_lines(s, 25) == after_clear_screen(s),
{
    lemma_new_lines_shift(s, 25);
    assert(after_new_lines(s, 25).cells =~= blank_screen());
}

/// A blank cell is a space, white (15) on black (0): attribute byte 0x0F.
/// Clearing the screen paints every cell so, and a new line paints the
/// bottom row so.
pub proof fn lemma_blank_is_white_space_on_black(s: ScreenState)
    requires
        state_wf(s),
    ensures
        blank_cell() == (ScreenChar { ascii: 0x20, color: ColorCode(0x0F) }),
        default_color() == ColorCode(0x0F),
        forall|i: int|
            0 <= i < 2000 ==> #[trigger] after_clear_screen(s).cells[i] == (ScreenChar {
                ascii: 0x20,
                color: ColorCode(0x0F),
            }),
        forall|i: int|
            1920 <= i < 2000 ==> #[trigger] after_new_line(s).cells[i] == (ScreenChar {
                ascii: 0x20,
                color: ColorCode(0x0F),
            }),
{
}

/// Printing a byte other than a newline where the row does not end: the
/// cursor's cell (row-major position `y * 80 + x`) gets the byte itself when
/// it is in 0x20..=0x7E, and 0xFE otherwise, in the current color; the cursor
/// moves one column right; no other cell changes.
pub proof fn lemma_print_char_in_row(s: ScreenState, c: u8)
    requires
        state_wf(s),
        c != 0x0A,
        s.x + 1 < 80,
    ensures
        after_print_char(s, c).cells[s.y * 80 + s.x] == (ScreenChar {
            ascii: if 0x20 <= c <= 0x7E {
                c
            } else {
                0xFE
            },
            color: s.color,
        }),
        0x20 <= c <= 0x7E ==> after_print_char(s, c).cells[s.y * 80 + s.x].ascii == c,
        after_print_char(s, c).x == s.x + 1,
        after_print_char(s, c).y == s.y,
        after_print_char(s, c).color == s.color,
        after_print_char(s, c).cells.len() == 2000,
        forall|i: int|
            0 <= i < 2000 && i != s.y * 80 + s.x ==> #[trigger] after_print_char(s, c).cells[i]
                == s.cells[i],
{
}

/// Printing a byte other than a newline in the last column: the byte (itself
/// when in 0x20..=0x7E, 0xFE otherwise) is written at the cursor, then the
/// whole screen moves up one row: each cell of rows 0 to 23 takes the cell
/// 80 positions further on, the bottom row becomes spaces, white on black,
/// and the cursor goes to column 0 of the bottom row.
pub proof fn lemma_print_char_wraps(s: ScreenState, c: u8)
    requires
        state_wf(s),
        c != 0x0A,
        s.x == 79,
    ensures
        after_print_char(s, c).x == 0,
        after_print_char(s, c).y == 24,
        after_print_char(s, c).color == s.color,
        after_print_char(s, c).cells.len() == 2000,
        forall|i: int|
            0 <= i < 1920 ==> #[trigger] after_print_char(s, c).cells[i] == if i + 80 == s.y * 80
                + 79 {
                ScreenChar {
                    ascii: if 0x20 <= c <= 0x7E {
                        c
                    } else {
                        0xFE
                    },
                    color: s.color,
                }
            } else {
                s.cells[i + 80]
            },
        forall|i: int|
            1920 <= i < 2000 ==> #[trigger] after_print_char(s, c).cells[i] == (ScreenChar {
                ascii: 0x20,
                color: ColorCode(0x0F),
            }),
{
}

/// A character is printed as its code point modulo 256: printable ASCII
/// characters as their own code.
pub proof fn lemma_text_bytes_low_byte(text: Seq<char>)
    ensures
        text_bytes(text).len() == text.len(),
        forall|i: int|
            0 <= i < text.len() ==> #[trigger] text_bytes(text)[i] as int == (text[i] as u32) as int
                % 256,
        forall|i: int|
            0 <= i < text.len() && 0x20 <= (text[i] as u32) <= 0x7E ==> #[trigger] text_bytes(
                text,
            )[i] as int == (text[i] as u32) as int,
{
}

/// Bytes in 0x20..=0x7E that fit before the end of the row are written one
/// after another from the cursor, each as itself in the current color; the
/// cursor moves right by their number; no other cell changes.
pub proof fn lemma_print_bytes_in_row(s: ScreenState, bs: Seq<u8>)
    requires
        state_wf(s),
        s.x + bs.len() < 80,
        forall|i: int| 0 <= i < bs.len() ==> 0x20 <= #[trigger] bs[i] <= 0x7E,
    ensures
        after_print_bytes(s, bs).x == s.x + bs.len(),
        after_print_bytes(s, bs).y == s.y,
        after_print_bytes(s, bs).color == s.color,
        after_print_bytes(s, bs).cells.len() == 2000,
        forall|i: int|
            0 <= i < bs.len() ==> #[trigger] after_print_bytes(s, bs).cells[s.y * 80 + s.x + i]
                == (ScreenChar { ascii: bs[i], color: s.color }),
        forall|i: int|
            0 <= i < 2000 && !(s.y * 80 + s.x <= i < s.y * 80 + s.x + bs.len())
                ==> #[trigger] after_print_bytes(s, bs).cells[i] == s.cells[i],
    decreases bs.len(),
{
    if bs.len() > 0 {
        let init = bs.drop_last();
        assert forall|i: int| 0 <= i < init.len() implies 0x20 <= #[trigger] init[i] <= 0x7E by {
            assert(init[i] == bs[i]);
        }
        lemma_print_bytes_in_row(s, init);
        let mid = after_print_bytes(s, init);
        lemma_print_char_in_row(mid, bs.last());
        assert forall|i: int| 0 <= i < bs.len() implies #[trigger] after_print_bytes(
            s,
            bs,
        ).cells[s.y * 80 + s.x + i] == (ScreenChar { ascii: bs[i], color: s.color }) by {
            if i < init.len() {
                assert(mid.cells[s.y * 80 + s.x + i] == (ScreenChar {
                    ascii: init[i],
                    color: s.color,
                }));
            }
        }
        assert forall|i: int|
            0 <= i < 2000 && !(s.y * 80 + s.x <= i < s.y * 80 + s.x + bs.len()) implies
            #[trigger] after_print_bytes(s, bs).cells[i] == s.cells[i] by {
            assert(mid.cells[i] == s.cells[i]);
        }
    }
}

/// Printable ASCII text that fits before the end of the row is shown
/// character for character from the cursor, each as its own code in the
/// current color, and the cursor moves right by its length.
pub proof fn lemma_print_ascii_text(s: ScreenState, text: Seq<char>)
    requires
        state_wf(s),
        s.x + text.len() < 80,
        forall|i: int| 0 <= i < text.len() ==> 0x20 <= #[trigger] (text[i] as u32) <= 0x7E,
    ensures
        after_print_bytes(s, text_bytes(text)).x == s.x + text.len(),
        after_print_bytes(s, text_bytes(text)).y == s.y,
        forall|i: int|
            0 <= i < text.len() ==> (#[trigger] after_print_bytes(s, text_bytes(text)).cells[s.y
                * 80 + s.x + i]).ascii as int == (text[i] as u32) as int,
        forall|i: int|
            0 <= i < text.len() ==> (#[trigger] after_print_bytes(s, text_bytes(text)).cells[s.y
                * 80 + s.x + i]).color == s.color,
{
    let bs = text_bytes(text);
    lemma_text_bytes_low_byte(text);
    assert forall|i: int| 0 <= i < bs.len() implies 0x20 <= #[trigger] bs[i] <= 0x7E by {
        assert(0x20 <= (text[i] as u32) <= 0x7E);
    }
    lemma_print_bytes_in_row(s, bs);
    assert forall|i: int| 0 <= i < text.len() implies (#[trigger] after_print_bytes(s, bs).cells[s.y
        * 80 + s.x + i]).ascii as int == (text[i] as u32) as int by {
        assert(0x20 <= (text[i] as u32) <= 0x7E);
    }
}

} // verus!
