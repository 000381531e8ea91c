//! The text-mode display core: colors, the cell grid, and the printer state
//! machine that renders bytes into it.

use vstd::prelude::*;
use vstd::string::StringSliceAdditionalSpecFns;

verus! {

/// Number of visible text rows in the hardware buffer.
pub const VGA_BUFFER_HEIGHT: usize = 25;

/// Number of character cells per row.
pub const VGA_BUFFER_WIDTH: usize = 80;

/// Glyph substituted for any byte outside the printable range.
pub const UNPRINTABLE_CHAR: u8 = 0xfe;

/// The sixteen colors the text-mode hardware can display.
#[derive(Clone, Copy, PartialEq, Eq, Structural, Debug)]
pub enum Color {
    Black,
    Blue,
    Green,
    Cyan,
    Red,
    Magenta,
    Brown,
    LightGray,
    DarkGray,
    LightBlue,
    LightGreen,
    LightCyan,
    LightRed,
    Pink,
    Yellow,
    White,
}

impl Color {
    /// The fixed 4-bit hardware code of this color.
    pub open spec fn spec_code(self) -> u8 {
        match self {
            Color::Black => 0x0,
            Color::Blue => 0x1,
            Color::Green => 0x2,
            Color::Cyan => 0x3,
            Color::Red => 0x4,
            Color::Magenta => 0x5,
            Color::Brown => 0x6,
            Color::LightGray => 0x7,
            Color::DarkGray => 0x8,
            Color::LightBlue => 0x9,
            Color::LightGreen => 0xa,
            Color::LightCyan => 0xb,
            Color::LightRed => 0xc,
            Color::Pink => 0xd,
            Color::Yellow => 0xe,
            Color::White => 0xf,
        }
    }

    /// Executable form of `spec_code`.
    pub fn code(self) -> (r: u8)
        ensures
            r == self.spec_code(),
            r < 16,
    {
        match self {
            Color::Black => 0x0,
            Color::Blue => 0x1,
            Color::Green => 0x2,
            Color::Cyan => 0x3,
            Color::Red => 0x4,
            Color::Magenta => 0x5,
            Color::Brown => 0x6,
            Color::LightGray => 0x7,
            Color::DarkGray => 0x8,
            Color::LightBlue => 0x9,
            Color::LightGreen => 0xa,
            Color::LightCyan => 0xb,
            Color::LightRed => 0xc,
            Color::Pink => 0xd,
            Color::Yellow => 0xe,
            Color::White => 0xf,
        }
    }
}

/// One attribute byte: background color in the high nibble, foreground color
/// in the low nibble.
#[derive(Clone, Copy, PartialEq, Eq, Structural, Debug)]
pub struct ColorCode(pub u8);

/// The attribute byte that encodes the pair `(fg, bg)`.
pub open spec fn attribute(fg: Color, bg: Color) -> u8 {
    (bg.spec_code() * 16 + fg.spec_code()) as u8
}

impl ColorCode {
    /// Pack a foreground and a background color into one attribute byte.
    pub fn new(fg: Color, bg: Color) -> (r: ColorCode)
        ensures
            r.0 == attribute(fg, bg),
    {
        let f = fg.code();
        let b = bg.code();
        let packed = (b << 4) | f;
        proof {
            assert((b << 4) | f == b * 16 + f) by (bit_vector)
                requires
                    f < 16 && b < 16,
            ;
        }
        ColorCode(packed)
    }
}

/// One display cell: a glyph byte plus the attribute byte it is shown with.
#[derive(Clone, Copy, PartialEq, Eq, Structural, Debug)]
pub struct PrintableChar {
    pub ascii_code: u8,
    pub color_code: ColorCode,
}

/// The cell a cleared position holds: a space in the given attribute.
pub open spec fn blank_cell(color: ColorCode) -> PrintableChar {
    PrintableChar { ascii_code: 0x20, color_code: color }
}

/// A full row of blank cells in the given attribute.
pub open spec fn blank_row(color: ColorCode) -> Seq<PrintableChar> {
    Seq::new(VGA_BUFFER_WIDTH as nat, |c: int| blank_cell(color))
}

/// A whole screen of blank cells in the given attribute.
pub open spec fn blank_grid(color: ColorCode) -> Seq<Seq<PrintableChar>> {
    Seq::new(VGA_BUFFER_HEIGHT as nat, |r: int| blank_row(color))
}

/// The fixed grid of cells the display hardware renders. The verified code
/// works on this owned grid; the surrounding binary copies it to the
/// memory-mapped buffer through volatile writes.
pub struct ScreenBuffer {
    pub chars: Vec<Vec<PrintableChar>>,
}

impl ScreenBuffer {
    /// The grid has exactly `VGA_BUFFER_HEIGHT` rows of `VGA_BUFFER_WIDTH`
    /// cells each.
    pub open spec fn wf(self) -> bool {
        &&& self.chars@.len() == VGA_BUFFER_HEIGHT
        &&& forall|r: int|
            0 <= r < self.chars@.len() ==> (#[trigger] self.chars@[r])@.len() == VGA_BUFFER_WIDTH
    }

    /// The grid as a sequence of rows of cells.
    pub open spec fn grid(self) -> Seq<Seq<PrintableChar>> {
        Seq::new(self.chars@.len(), |r: int| self.chars@[r]@)
    }

    /// A fresh buffer, entirely blank in the given attribute.
    pub fn new(color: ColorCode) -> (buf: ScreenBuffer)
        ensures
            buf.wf(),
            buf.grid() == blank_grid(color),
    {
        let mut chars: Vec<Vec<PrintableChar>> = Vec::new();
        while chars.len() < VGA_BUFFER_HEIGHT
            invariant
                chars@.len() <= VGA_BUFFER_HEIGHT,
                forall|r: int|
                    0 <= r < chars@.len() ==> (#[trigger] chars@[r])@ == blank_row(color),
            decreases VGA_BUFFER_HEIGHT - chars@.len(),
        {
            let mut row: Vec<PrintableChar> = Vec::new();
            while row.len() < VGA_BUFFER_WIDTH
                invariant
                    row@.len() <= VGA_BUFFER_WIDTH,
                    forall|c: int| 0 <= c < row@.len() ==> row@[c] == blank_cell(color),
                decreases VGA_BUFFER_WIDTH - row@.len(),
            {
                row.push(PrintableChar { ascii_code: 0x20, color_code: color });
            }
            proof {
                assert(row@ =~= blank_row(color));
            }
            chars.push(row);
        }
        let buf = ScreenBuffer { chars };
        proof {
            assert(buf.grid() =~~= blank_grid(color));
        }
        buf
    }

    /// Read the cell at `(row, col)`; the coordinates are a caller contract,
    /// as with the unchecked hardware addressing it stands for.
    pub fn read(&self, row: usize, col: usize) -> (cell: PrintableChar)
        requires
            self.wf(),
            row < VGA_BUFFER_HEIGHT,
            col < VGA_BUFFER_WIDTH,
        ensures
            cell == self.grid()[row as int][col as int],
    {
        self.chars[row][col]
    }

    /// Write the cell at `(row, col)`, leaving every other cell as it was.
    pub fn write(&mut self, row: usize, col: usize, cell: PrintableChar)
        requires
            old(self).wf(),
            row < VGA_BUFFER_HEIGHT,
            col < VGA_BUFFER_WIDTH,
        ensures
            final(self).wf(),
            final(self).grid() == old(self).grid().update(
                row as int,
                old(self).grid()[row as int].update(col as int, cell),
            ),
    {
        self.chars[row][col] = cell;
        proof {
            assert(self.grid() =~~= old(self).grid().update(
                row as int,
                old(self).grid()[row as int].update(col as int, cell),
            ));
        }
    }
}

/// The byte that triggers a line break instead of being rendered.
pub const NEWLINE_BYTE: u8 = 0x0a;

/// The printer as the specifications see it: the cell grid, the cursor
/// column, and the attribute new cells are written with.
#[verifier::ext_equal]
pub struct VgaModel {
    pub grid: Seq<Seq<PrintableChar>>,
    pub col: int,
    pub color: ColorCode,
}

impl VgaModel {
    /// The grid has the fixed dimensions and the cursor never passes the
    /// right edge.
    pub open spec fn wf(self) -> bool {
        &&& self.grid.len() == VGA_BUFFER_HEIGHT
        &&& forall|r: int|
            0 <= r < self.grid.len() ==> (#[trigger] self.grid[r]).len() == VGA_BUFFER_WIDTH
        &&& 0 <= self.col <= VGA_BUFFER_WIDTH
    }
}

/// The grid after one scroll: every row moves up one place (row 0 falls off
/// the top) and the bottom row becomes blank in the given attribute.
pub open spec fn scrolled(g: Seq<Seq<PrintableChar>>, color: ColorCode) -> Seq<
    Seq<PrintableChar>,
> {
    Seq::new(
        VGA_BUFFER_HEIGHT as nat,
        |r: int|
            if r + 1 < VGA_BUFFER_HEIGHT {
                g[r + 1]
            } else {
                blank_row(color)
            },
    )
}

/// The cell that rendering byte `b` in attribute `color` produces.
pub open spec fn glyph_cell(b: u8, color: ColorCode) -> PrintableChar {
    PrintableChar { ascii_code: b, color_code: color }
}

/// The grid with `cell` placed at column `col` of the bottom row.
pub open spec fn placed(g: Seq<Seq<PrintableChar>>, col: int, cell: PrintableChar) -> Seq<
    Seq<PrintableChar>,
> {
    g.update(
        VGA_BUFFER_HEIGHT - 1,
        g[VGA_BUFFER_HEIGHT - 1].update(col, cell),
    )
}

/// One step of the printer state machine: a newline scrolls and resets the
/// cursor; any other byte is rendered at the cursor on the bottom row,
/// scrolling first if the row is already full.
pub open spec fn step_byte(m: VgaModel, byte: u8) -> VgaModel {
    if byte == NEWLINE_BYTE {
        VgaModel { grid: scrolled(m.grid, m.color), col: 0, color: m.color }
    } else if m.col >= VGA_BUFFER_WIDTH {
        VgaModel {
            grid: placed(scrolled(m.grid, m.color), 0, glyph_cell(byte, m.color)),
            col: 1,
            color: m.color,
        }
    } else {
        VgaModel {
            grid: placed(m.grid, m.col, glyph_cell(byte, m.color)),
            col: m.col + 1,
            color: m.color,
        }
    }
}

/// The printer state after writing each byte of `s` in turn.
pub open spec fn step_bytes(m: VgaModel, s: Seq<u8>) -> VgaModel
    decreases s.len(),
{
    if s.len() == 0 {
        m
    } else {
        step_bytes(step_byte(m, s[0]), s.drop_first())
    }
}

/// What one input byte of a string turns into on screen: itself when it is
/// printable or a newline, the fixed unprintable glyph otherwise.
pub open spec fn rendered_byte(b: u8) -> u8 {
    if (0x20 <= b && b <= 0x7e) || b == NEWLINE_BYTE {
        b
    } else {
        UNPRINTABLE_CHAR
    }
}

/// The byte sequence a string's bytes are rendered as.
pub open spec fn rendered(s: Seq<u8>) -> Seq<u8> {
    s.map_values(|b: u8| rendered_byte(b))
}

/// One printer step keeps the model well formed: the grid keeps its fixed
/// dimensions and the cursor stays within `[0, VGA_BUFFER_WIDTH]`.
pub proof fn lemma_step_byte_wf(m: VgaModel, byte: u8)
    requires
        m.wf(),
    ensures
        step_byte(m, byte).wf(),
{
}

/// The printer invariant holds across any input sequence: from a well
/// formed state, writing arbitrarily many bytes leaves the grid dimensions
/// fixed and the cursor within `[0, VGA_BUFFER_WIDTH]`.
pub proof fn lemma_step_bytes_wf(m: VgaModel, s: Seq<u8>)
    requires
        m.wf(),
    ensures
        step_bytes(m, s).wf(),
    decreases s.len(),
{
    if s.len() > 0 {
        lemma_step_byte_wf(m, s[0]);
        lemma_step_bytes_wf(step_byte(m, s[0]), s.drop_first());
    }
}

/// Writing `s` and then one more byte `b` is one step past writing `s`.
pub proof fn lemma_step_bytes_push(m: VgaModel, s: Seq<u8>, b: u8)
    ensures
        step_bytes(m, s.push(b)) == step_byte(step_bytes(m, s), b),
    decreases s.len(),
{
    if s.len() == 0 {
        assert(s.push(b)[0] == b);
        assert(s.push(b).drop_first() =~= Seq::<u8>::empty());
        assert(step_bytes(step_byte(m, b), Seq::<u8>::empty()) == step_byte(m, b));
        assert(step_bytes(m, s.push(b)) == step_byte(m, b));
    } else {
        assert(s.push(b)[0] == s[0]);
        assert(s.push(b).drop_first() =~= s.drop_first().push(b));
        lemma_step_bytes_push(step_byte(m, s[0]), s.drop_first(), b);
        assert(step_bytes(m, s.push(b)) == step_bytes(
            step_byte(m, s[0]),
            s.drop_first().push(b),
        ));
        assert(step_bytes(m, s) == step_bytes(step_byte(m, s[0]), s.drop_first()));
    }
}

/// The printer: cursor column, current attribute, and the cell grid text is
/// rendered into. Text always composes on the bottom row and scrolls upward.
pub struct Printer {
    pub col_pos: usize,
    pub current_color_code: ColorCode,
    pub buffer: ScreenBuffer,
}

impl Printer {
    /// The grid has the fixed dimensions and the cursor never passes the
    /// right edge.
    pub open spec fn wf(self) -> bool {
        &&& self.buffer.wf()
        &&& self.col_pos <= VGA_BUFFER_WIDTH
    }

    /// The printer's state as the specifications see it.
    pub open spec fn model(self) -> VgaModel {
        VgaModel {
            grid: self.buffer.grid(),
            col: self.col_pos as int,
            color: self.current_color_code,
        }
    }

    /// A fresh printer: blank white-on-black screen, cursor at column 0.
    pub fn new() -> (p: Printer)
        ensures
            p.wf(),
            p.current_color_code.0 == attribute(Color::White, Color::Black),
            p.col_pos == 0,
            p.model().grid == blank_grid(p.current_color_code),
    {
        let color = ColorCode::new(Color::White, Color::Black);
        Printer { col_pos: 0, current_color_code: color, buffer: ScreenBuffer::new(color) }
    }

    /// Read the cell currently at `(row, col)`.
    pub fn char_at(&self, row: usize, col: usize) -> (cell: PrintableChar)
        requires
            self.wf(),
            row < VGA_BUFFER_HEIGHT,
            col < VGA_BUFFER_WIDTH,
        ensures
            cell == self.model().grid[row as int][col as int],
    {
        self.buffer.read(row, col)
    }

    /// Overwrite every cell of `row` with a blank in the current attribute,
    /// so a scroll fills in the background color.
    fn clear_row(&mut self, row: usize)
        requires
            old(self).wf(),
            row < VGA_BUFFER_HEIGHT,
        ensures
            final(self).wf(),
            final(self).buffer.grid() == old(self).buffer.grid().update(
                row as int,
                blank_row(old(self).current_color_code),
            ),
            final(self).col_pos == old(self).col_pos,
            final(self).current_color_code == old(self).current_color_code,
    {
        let mut col: usize = 0;
        while col < VGA_BUFFER_WIDTH
            invariant
                self.wf(),
                self.current_color_code == old(self).current_color_code,
                self.col_pos == old(self).col_pos,
                row < VGA_BUFFER_HEIGHT,
                col <= VGA_BUFFER_WIDTH,
                forall|c: int|
                    0 <= c < col ==> self.buffer.grid()[row as int][c] == blank_cell(
                        old(self).current_color_code,
                    ),
                forall|c: int|
                    col <= c < VGA_BUFFER_WIDTH ==> self.buffer.grid()[row as int][c] == old(
                        self,
                    ).buffer.grid()[row as int][c],
                forall|r: int|
                    0 <= r < VGA_BUFFER_HEIGHT && r != row ==> self.buffer.grid()[r] == old(
                        self,
                    ).buffer.grid()[r],
            decreases VGA_BUFFER_WIDTH - col,
        {
            let cell = PrintableChar { ascii_code: 0x20, color_code: self.current_color_code };
            self.buffer.write(row, col, cell);
            col += 1;
        }
        proof {
            assert(self.buffer.grid()[row as int] =~= blank_row(old(self).current_color_code));
            assert(self.buffer.grid() =~~= old(self).buffer.grid().update(
                row as int,
                blank_row(old(self).current_color_code),
            ));
        }
    }

    /// Scroll: copy every row one place up (row 0 scrolls off), blank the
    /// bottom row in the current attribute, and reset the cursor to column 0.
    fn newline(&mut self)
        requires
            old(self).wf(),
        ensures
            final(self).wf(),
            final(self).model() == step_byte(old(self).model(), NEWLINE_BYTE),
    {
        let mut row: usize = 1;
        while row < VGA_BUFFER_HEIGHT
            invariant
                self.wf(),
                self.current_color_code == old(self).current_color_code,
                self.col_pos == old(self).col_pos,
                1 <= row <= VGA_BUFFER_HEIGHT,
                forall|r: int|
                    0 <= r < row - 1 ==> self.buffer.grid()[r] == old(self).buffer.grid()[r + 1],
                forall|r: int|
                    row - 1 <= r < VGA_BUFFER_HEIGHT ==> self.buffer.grid()[r] == old(
                        self,
                    ).buffer.grid()[r],
            decreases VGA_BUFFER_HEIGHT - row,
        {
            let mut col: usize = 0;
            while col < VGA_BUFFER_WIDTH
                invariant
                    self.wf(),
                    self.current_color_code == old(self).current_color_code,
                    self.col_pos == old(self).col_pos,
                    1 <= row < VGA_BUFFER_HEIGHT,
                    col <= VGA_BUFFER_WIDTH,
                    forall|r: int|
                        0 <= r < row - 1 ==> self.buffer.grid()[r] == old(self).buffer.grid()[r
                            + 1],
                    forall|c: int|
                        0 <= c < col ==> self.buffer.grid()[row - 1][c] == old(
                            self,
                        ).buffer.grid()[row as int][c],
                    forall|c: int|
                        col <= c < VGA_BUFFER_WIDTH ==> #[trigger] self.buffer.grid()[row - 1][c]
                            == old(self).buffer.grid()[row - 1][c],
                    forall|r: int|
                        row <= r < VGA_BUFFER_HEIGHT ==> self.buffer.grid()[r] == old(
                            self,
                        ).buffer.grid()[r],
                decreases VGA_BUFFER_WIDTH - col,
            {
                let ch = self.buffer.read(row, col);
                self.buffer.write(row - 1, col, ch);
                col += 1;
            }
            row += 1;
        }
        self.clear_row(VGA_BUFFER_HEIGHT - 1);
        self.col_pos = 0;
        proof {
            assert(self.buffer.grid() =~~= scrolled(
                old(self).buffer.grid(),
                old(self).current_color_code,
            ));
            assert(self.model() =~~= step_byte(old(self).model(), NEWLINE_BYTE));
        }
    }

    /// Render one byte: a newline scrolls; any other byte is written at the
    /// cursor on the bottom row (scrolling first if the row is full) and the
    /// cursor advances by one.
    pub fn write_byte(&mut self, byte: u8)
        requires
            old(self).wf(),
        ensures
            final(self).wf(),
            final(self).model() == step_byte(old(self).model(), byte),
    {
        if byte == NEWLINE_BYTE {
            self.newline();
        } else {
            if self.col_pos >= VGA_BUFFER_WIDTH {
                self.newline();
            }
            let row = VGA_BUFFER_HEIGHT - 1;
            let col = self.col_pos;
            let cell = PrintableChar { ascii_code: byte, color_code: self.current_color_code };
            self.buffer.write(row, col, cell);
            self.col_pos = col + 1;
            proof {
                assert(self.model() =~~= step_byte(old(self).model(), byte));
            }
        }
    }

    /// Render every byte of `s` in order, substituting the fixed unprintable
    /// glyph for any byte that is neither printable nor a newline.
    pub fn write_string(&mut self, s: &str)
        requires
            old(self).wf(),
        ensures
            final(self).wf(),
            final(self).model() == step_bytes(old(self).model(), rendered(s.spec_bytes())),
    {
        let bytes = s.as_bytes();
        let n = bytes.len();
        proof {
            assert(rendered(bytes@).take(0) =~= Seq::<u8>::empty());
        }
        let mut i: usize = 0;
        while i < n
            invariant
                self.wf(),
                n == bytes@.len(),
                bytes@ == s.spec_bytes(),
                i <= n,
                self.model() == step_bytes(old(self).model(), rendered(bytes@).take(i as int)),
            decreases n - i,
        {
            let b = bytes[i];
            proof {
                assert(rendered(bytes@)[i as int] == rendered_byte(b));
                assert(rendered(bytes@).take(i + 1) =~= rendered(bytes@).take(i as int).push(
                    rendered_byte(b),
                ));
                lemma_step_bytes_push(
                    old(self).model(),
                    rendered(bytes@).take(i as int),
                    rendered_byte(b),
                );
            }
            if (0x20 <= b && b <= 0x7e) || b == NEWLINE_BYTE {
                self.write_byte(b);
            } else {
                self.write_byte(UNPRINTABLE_CHAR);
            }
            i += 1;
        }
        proof {
            assert(rendered(bytes@).take(n as int) =~= rendered(bytes@));
        }
    }
}

/// Writing printable bytes that fit in the space right of the cursor places
/// them verbatim on the bottom row in the current attribute, advances the
/// cursor by exactly the count written, and changes nothing else.
pub proof fn lemma_printable_run_from(m: VgaModel, s: Seq<u8>)
    requires
        m.wf(),
        m.col + s.len() <= VGA_BUFFER_WIDTH,
        forall|i: int| 0 <= i < s.len() ==> 0x20 <= #[trigger] s[i] <= 0x7e,
    ensures
        step_bytes(m, s).col == m.col + s.len(),
        step_bytes(m, s).color == m.color,
        step_bytes(m, s).grid == m.grid.update(
            VGA_BUFFER_HEIGHT - 1,
            m.grid[VGA_BUFFER_HEIGHT - 1].take(m.col) + s.map_values(
                |b: u8| glyph_cell(b, m.color),
            ) + m.grid[VGA_BUFFER_HEIGHT - 1].skip(m.col + s.len()),
        ),
    decreases s.len(),
{
    let bottom = VGA_BUFFER_HEIGHT - 1;
    let row = m.grid[bottom];
    if s.len() == 0 {
        assert(row.take(m.col) + s.map_values(|b: u8| glyph_cell(b, m.color)) + row.skip(m.col)
            =~= row);
        assert(m.grid.update(bottom, row) =~= m.grid);
    } else {
        let g0 = glyph_cell(s[0], m.color);
        let m1 = step_byte(m, s[0]);
        assert(m1.grid == placed(m.grid, m.col, g0));
        lemma_printable_run_from(m1, s.drop_first());
        let row1 = m1.grid[bottom];
        assert(row1 == row.update(m.col, g0));
        let tail_glyphs = s.drop_first().map_values(|b: u8| glyph_cell(b, m.color));
        assert(step_bytes(m, s) == step_bytes(m1, s.drop_first()));
        assert(step_bytes(m1, s.drop_first()).grid == m1.grid.update(
            bottom,
            row1.take(m.col + 1) + tail_glyphs + row1.skip(m.col + 1 + s.drop_first().len()),
        ));
        assert(row1.take(m.col + 1) =~= row.take(m.col).push(g0));
        assert(row1.skip(m.col + s.len()) =~= row.skip(m.col + s.len()));
        assert(row.take(m.col).push(g0) + tail_glyphs =~= row.take(m.col) + s.map_values(
            |b: u8| glyph_cell(b, m.color),
        ));
        assert(row1.take(m.col + 1) + tail_glyphs + row1.skip(m.col + 1 + s.drop_first().len())
            =~= row.take(m.col) + s.map_values(|b: u8| glyph_cell(b, m.color)) + row.skip(
            m.col + s.len(),
        ));
        assert(m1.grid.update(
            bottom,
            row.take(m.col) + s.map_values(|b: u8| glyph_cell(b, m.color)) + row.skip(
                m.col + s.len(),
            ),
        ) =~= m.grid.update(
            bottom,
            row.take(m.col) + s.map_values(|b: u8| glyph_cell(b, m.color)) + row.skip(
                m.col + s.len(),
            ),
        ));
    }
}

/// A run of printable bytes no longer than the row width, written from
/// column 0, renders the bottom row as exactly that run (in the current
/// attribute) followed by whatever stood there before, with the cursor at
/// the count written. Such a run passes through the substitution untouched.
pub proof fn lemma_printable_run(m: VgaModel, s: Seq<u8>)
    requires
        m.wf(),
        m.col == 0,
        s.len() <= VGA_BUFFER_WIDTH,
        forall|i: int| 0 <= i < s.len() ==> 0x20 <= #[trigger] s[i] <= 0x7e,
    ensures
        rendered(s) == s,
        step_bytes(m, s).col == s.len(),
        step_bytes(m, s).color == m.color,
        step_bytes(m, s).grid == m.grid.update(
            VGA_BUFFER_HEIGHT - 1,
            s.map_values(|b: u8| glyph_cell(b, m.color)) + m.grid[VGA_BUFFER_HEIGHT - 1].skip(
                s.len() as int,
            ),
        ),
{
    assert(rendered(s) =~= s);
    lemma_printable_run_from(m, s);
    let bottom = VGA_BUFFER_HEIGHT - 1;
    assert(m.grid[bottom].take(0) + s.map_values(|b: u8| glyph_cell(b, m.color))
        + m.grid[bottom].skip(s.len() as int) =~= s.map_values(|b: u8| glyph_cell(b, m.color))
        + m.grid[bottom].skip(s.len() as int));
}

/// Writing exactly one full row of printable bytes from column 0 and then
/// one more printable byte scrolls exactly once: the full row moves up to
/// become the second-to-last row, the extra byte lands at column 0 of an
/// otherwise blank bottom row, and the cursor stands at column 1.
pub proof fn lemma_wrap_scrolls_once(m: VgaModel, s: Seq<u8>, b: u8)
    requires
        m.wf(),
        m.col == 0,
        s.len() == VGA_BUFFER_WIDTH,
        forall|i: int| 0 <= i < s.len() ==> 0x20 <= #[trigger] s[i] <= 0x7e,
        0x20 <= b <= 0x7e,
    ensures
        step_bytes(m, s).col == VGA_BUFFER_WIDTH,
        ({
            let m1 = step_bytes(m, s);
            let m2 = step_byte(m1, b);
            &&& m2.col == 1
            &&& m2.grid[VGA_BUFFER_HEIGHT - 2] == m1.grid[VGA_BUFFER_HEIGHT - 1]
            &&& m2.grid[VGA_BUFFER_HEIGHT - 1] == blank_row(m.color).update(
                0,
                glyph_cell(b, m.color),
            )
            &&& forall|r: int|
                0 <= r < VGA_BUFFER_HEIGHT - 1 ==> #[trigger] m2.grid[r] == m1.grid[r + 1]
        }),
{
    lemma_printable_run(m, s);
    let m1 = step_bytes(m, s);
    let m2 = step_byte(m1, b);
    assert(m2.grid == placed(scrolled(m1.grid, m.color), 0, glyph_cell(b, m.color)));
    assert(forall|r: int|
        0 <= r < VGA_BUFFER_HEIGHT - 1 ==> #[trigger] m2.grid[r] == scrolled(m1.grid, m.color)[r]);
}

/// A newline byte, at any cursor column, performs exactly one scroll and
/// resets the cursor to column 0, leaving the attribute as it was.
pub proof fn lemma_newline_resets(m: VgaModel)
    requires
        m.wf(),
    ensures
        step_byte(m, NEWLINE_BYTE).col == 0,
        step_byte(m, NEWLINE_BYTE).grid == scrolled(m.grid, m.color),
        step_byte(m, NEWLINE_BYTE).color == m.color,
{
}

/// A byte that is neither printable nor a newline is rendered as the fixed
/// unprintable glyph - a substitution, not a drop: below the right edge it
/// still fills one cell and advances the cursor by one.
pub proof fn lemma_unprintable_substituted(m: VgaModel, b: u8)
    requires
        m.wf(),
        !(0x20 <= b <= 0x7e),
        b != NEWLINE_BYTE,
        m.col < VGA_BUFFER_WIDTH,
    ensures
        rendered(seq![b]) == seq![UNPRINTABLE_CHAR],
        ({
            let m1 = step_bytes(m, rendered(seq![b]));
            &&& m1.col == m.col + 1
            &&& m1.grid == placed(m.grid, m.col, glyph_cell(UNPRINTABLE_CHAR, m.color))
            &&& m1.grid[VGA_BUFFER_HEIGHT - 1][m.col] == glyph_cell(UNPRINTABLE_CHAR, m.color)
        }),
{
    assert(rendered(seq![b]) =~= seq![UNPRINTABLE_CHAR]);
    let u = UNPRINTABLE_CHAR;
    assert(seq![u].drop_first() =~= Seq::<u8>::empty());
    assert(step_bytes(step_byte(m, u), Seq::<u8>::empty()) == step_byte(m, u));
    assert(step_bytes(m, seq![u]) == step_byte(m, u));
    assert(step_byte(m, u).grid[VGA_BUFFER_HEIGHT - 1][m.col] == glyph_cell(u, m.color));
}

/// Packing an attribute byte loses nothing: masking the low nibble gives the
/// foreground code back, shifting the high nibble down gives the background
/// code back, for every one of the 16 x 16 color pairs.
pub proof fn lemma_attribute_round_trip(fg: Color, bg: Color)
    ensures
        attribute(fg, bg) & 0x0f == fg.spec_code(),
        attribute(fg, bg) >> 4 == bg.spec_code(),
{
    let f = fg.spec_code();
    let b = bg.spec_code();
    assert(f < 16 && b < 16);
    assert(((b * 16 + f) as u8) & 0x0f == f && ((b * 16 + f) as u8) >> 4 == b) by (bit_vector)
        requires
            f < 16 && b < 16,
    ;
}

} // verus!
