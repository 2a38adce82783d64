use vstd::prelude::*;
use vstd::string::StringSliceAdditionalSpecFns;

verus! {

/// Characters per screen row.
pub const COL_SIZE: isize = 80;

/// Rows on the screen.
pub const ROW_SIZE: isize = 25;

/// Bytes of text-mode memory: a character byte and an attribute byte for each cell.
pub const BUFFER_SIZE: usize = 4000;

/// Physical address at which the hardware maps text-mode memory.
pub const VGA_BUFFER_ADDR: usize = 0xb8000;

/// The attribute byte that a fresh writer uses: white text on a green background.
pub const DEFAULT_COLOR: u8 = 0x2f;

/// The byte that breaks a line.
pub const NEWLINE: u8 = 10;

/// The sixteen colors of the VGA text-mode palette.
#[derive(Debug, Clone, Copy, PartialEq, Eq, Structural)]
pub enum VGAOutColor {
    Black,
    Blue,
    Green,
    Cyan,
    Red,
    Magenta,
    Brown,
    LightGray,
    DarkGray,
    LightBlue,
    LightGreen,
    LightCyan,
    LightRed,
    Pink,
    Yellow,
    White,
}

/// The 4-bit palette index of a color.
pub open spec fn color_code(c: VGAOutColor) -> u8 {
    match c {
        VGAOutColor::Black => 0,
        VGAOutColor::Blue => 1,
        VGAOutColor::Green => 2,
        VGAOutColor::Cyan => 3,
        VGAOutColor::Red => 4,
        VGAOutColor::Magenta => 5,
        VGAOutColor::Brown => 6,
        VGAOutColor::LightGray => 7,
        VGAOutColor::DarkGray => 8,
        VGAOutColor::LightBlue => 9,
        VGAOutColor::LightGreen => 10,
        VGAOutColor::LightCyan => 11,
        VGAOutColor::LightRed => 12,
        VGAOutColor::Pink => 13,
        VGAOutColor::Yellow => 14,
        VGAOutColor::White => 15,
    }
}

impl VGAOutColor {
    /// The palette index of this color, as the hardware reads it.
    pub fn code(self) -> (r: u8)
        ensures
            r == color_code(self),
            r < 16,
    {
        match self {
            VGAOutColor::Black => 0,
            VGAOutColor::Blue => 1,
            VGAOutColor::Green => 2,
            VGAOutColor::Cyan => 3,
            VGAOutColor::Red => 4,
            VGAOutColor::Magenta => 5,
            VGAOutColor::Brown => 6,
            VGAOutColor::LightGray => 7,
            VGAOutColor::DarkGray => 8,
            VGAOutColor::LightBlue => 9,
            VGAOutColor::LightGreen => 10,
            VGAOutColor::LightCyan => 11,
            VGAOutColor::LightRed => 12,
            VGAOutColor::Pink => 13,
            VGAOutColor::Yellow => 14,
            VGAOutColor::White => 15,
        }
    }
}

/// The attribute byte for `text` on `background`: background in the high nibble,
/// text in the low one.
pub open spec fn color_byte(text: VGAOutColor, background: VGAOutColor) -> u8 {
    ((color_code(background) << 4u8) | color_code(text)) as u8
}

/// Index of the screen cell at `line`, `col`, counting row by row; a column past the end
/// of a row reaches into the next row, as the hardware lays cells out.
pub open spec fn cell_index(line: int, col: int) -> int {
    COL_SIZE * line + col
}

/// The cursor designates a cell of the screen, and neither its row times the row length
/// nor the next column leaves `isize`.
pub open spec fn on_screen(line: int, col: int) -> bool {
    &&& isize::MIN <= COL_SIZE * line <= isize::MAX
    &&& 0 <= cell_index(line, col) < COL_SIZE * ROW_SIZE
    &&& col < isize::MAX
}

/// `cells` with the character `c` and the attribute `color` stored at cell `idx`.
pub open spec fn put_cell(cells: Seq<u8>, idx: int, c: u8, color: u8) -> Seq<u8> {
    cells.update(2 * idx, c).update(2 * idx + 1, color)
}

/// Where the cursor stands after writing `s` from (`line`, `col`): a newline moves to the
/// start of the next line, any other byte one column on.
pub open spec fn cursor_after(line: int, col: int, s: Seq<u8>) -> (int, int)
    decreases s.len(),
{
    if s.len() == 0 {
        (line, col)
    } else {
        let (l, c) = cursor_after(line, col, s.drop_last());
        if s.last() == NEWLINE {
            (l + 1, 0)
        } else {
            (l, c + 1)
        }
    }
}

/// The screen contents after writing `s` in `color` from (`line`, `col`) onto `cells`:
/// each byte but a newline lands, with the color, in the cell under the cursor.
pub open spec fn screen_after(cells: Seq<u8>, line: int, col: int, color: u8, s: Seq<u8>) -> Seq<u8>
    decreases s.len(),
{
    if s.len() == 0 {
        cells
    } else {
        let prev = screen_after(cells, line, col, color, s.drop_last());
        let (l, c) = cursor_after(line, col, s.drop_last());
        if s.last() == NEWLINE {
            prev
        } else {
            put_cell(prev, cell_index(l, c), s.last(), color)
        }
    }
}

/// Writing `s` from (`line`, `col`) stays on the screen: every byte but a newline meets
/// the cursor on a cell, and no newline takes the line number past `isize::MAX`.
pub open spec fn fits(line: int, col: int, s: Seq<u8>) -> bool
    decreases s.len(),
{
    if s.len() == 0 {
        true
    } else {
        let (l, c) = cursor_after(line, col, s.drop_last());
        &&& fits(line, col, s.drop_last())
        &&& if s.last() == NEWLINE {
            l < isize::MAX
        } else {
            on_screen(l, c)
        }
    }
}

/// A prefix of text that fits also fits.
pub proof fn lemma_fits_prefix(line: int, col: int, s: Seq<u8>, k: int)
    requires
        fits(line, col, s),
        0 <= k <= s.len(),
    ensures
        fits(line, col, s.take(k)),
    decreases s.len(),
{
    if k == s.len() {
        assert(s.take(k) =~= s);
    } else {
        assert(s.drop_last().take(k) =~= s.take(k));
        lemma_fits_prefix(line, col, s.drop_last(), k);
    }
}

/// Every newline moves the cursor to the start of the next line, wherever the cursor
/// stands, and writes nothing; every other byte lands, in the color, in the cell under the
/// cursor, and moves the cursor one column on in its line.
pub proof fn lemma_write_one_byte(cells: Seq<u8>, line: int, col: int, color: u8, s: Seq<u8>, b: u8)
    ensures
        b == NEWLINE ==> cursor_after(line, col, s.push(b)) == (cursor_after(line, col, s).0 + 1, 0int),
        b == NEWLINE ==> screen_after(cells, line, col, color, s.push(b)) == screen_after(cells, line, col, color, s),
        b != NEWLINE ==> cursor_after(line, col, s.push(b)) == (
            cursor_after(line, col, s).0,
            cursor_after(line, col, s).1 + 1,
        ),
        b != NEWLINE ==> screen_after(cells, line, col, color, s.push(b)) == screen_after(
            cells,
            line,
            col,
            color,
            s,
        ).update(
            2 * (COL_SIZE * cursor_after(line, col, s).0 + cursor_after(line, col, s).1),
            b,
        ).update(
            2 * (COL_SIZE * cursor_after(line, col, s).0 + cursor_after(line, col, s).1) + 1,
            color,
        ),
{
    assert(s.push(b).drop_last() =~= s);
    assert(s.push(b).last() == b);
}

/// Text fits exactly when it stays on the screen: appending a newline keeps it fitting
/// as long as the line number can still grow, appending any other byte as long as the
/// cursor then designates a cell (row and column on screen, their products within `isize`).
pub proof fn lemma_fits_one_byte(line: int, col: int, s: Seq<u8>, b: u8)
    ensures
        fits(line, col, Seq::<u8>::empty()),
        b == NEWLINE ==> fits(line, col, s.push(b)) == (fits(line, col, s) && cursor_after(line, col, s).0 < isize::MAX),
        b != NEWLINE ==> fits(line, col, s.push(b)) == (fits(line, col, s) && {
            let (l, c) = cursor_after(line, col, s);
            &&& isize::MIN <= 80 * l <= isize::MAX
            &&& 0 <= 80 * l + c < 2000
            &&& c < isize::MAX
        }),
{
    assert(s.push(b).drop_last() =~= s);
    assert(s.push(b).last() == b);
}

/// Text that does not fit does not fit with more appended either.
proof fn lemma_fits_extend(line: int, col: int, s: Seq<u8>, k: int)
    requires
        0 <= k <= s.len(),
        !fits(line, col, s.take(k)),
    ensures
        !fits(line, col, s),
{
    if fits(line, col, s) {
        lemma_fits_prefix(line, col, s, k);
    }
}

/// Writing `a` and then `b` moves the cursor as writing `a + b` does.
pub proof fn lemma_cursor_after_concat(line: int, col: int, a: Seq<u8>, b: Seq<u8>)
    ensures
        cursor_after(line, col, a + b) == cursor_after(
            cursor_after(line, col, a).0,
            cursor_after(line, col, a).1,
            b,
        ),
    decreases b.len(),
{
    if b.len() == 0 {
        assert(a + b =~= a);
    } else {
        assert((a + b).drop_last() =~= a + b.drop_last());
        lemma_cursor_after_concat(line, col, a, b.drop_last());
    }
}

/// Writing `a` and then `b` puts on the screen what writing `a + b` does, and `a + b`
/// fits exactly when `a` fits and `b` fits from where `a` leaves the cursor.
pub proof fn lemma_print_concat(cells: Seq<u8>, line: int, col: int, color: u8, a: Seq<u8>, b: Seq<u8>)
    ensures
        screen_after(cells, line, col, color, a + b) == screen_after(
            screen_after(cells, line, col, color, a),
            cursor_after(line, col, a).0,
            cursor_after(line, col, a).1,
            color,
            b,
        ),
        cursor_after(line, col, a + b) == cursor_after(
            cursor_after(line, col, a).0,
            cursor_after(line, col, a).1,
            b,
        ),
        fits(line, col, a + b) == (fits(line, col, a) && fits(
            cursor_after(line, col, a).0,
            cursor_after(line, col, a).1,
            b,
        )),
    decreases b.len(),
{
    lemma_cursor_after_concat(line, col, a, b);
    if b.len() == 0 {
        assert(a + b =~= a);
    } else {
        assert((a + b).drop_last() =~= a + b.drop_last());
        lemma_cursor_after_concat(line, col, a, b.drop_last());
        lemma_print_concat(cells, line, col, color, a, b.drop_last());
    }
}

/// Text without a newline lands in consecutive cells from the cursor, each character with
/// the color, leaves every other byte of the screen as it was, and moves the cursor on by
/// its length.
pub proof fn lemma_print_one_line(cells: Seq<u8>, line: int, col: int, color: u8, s: Seq<u8>)
    requires
        forall|i: int| 0 <= i < s.len() ==> s[i] != NEWLINE,
        fits(line, col, s),
        cells.len() == BUFFER_SIZE,
    ensures
        cursor_after(line, col, s) == (line, col + s.len()),
        s.len() > 0 ==> on_screen(line, col) && cell_index(line, col) + s.len() <= COL_SIZE * ROW_SIZE,
        screen_after(cells, line, col, color, s).len() == cells.len(),
        forall|i: int|
            0 <= i < s.len() ==> {
                &&& #[trigger] screen_after(cells, line, col, color, s)[2 * (cell_index(line, col) + i)] == s[i]
                &&& screen_after(cells, line, col, color, s)[2 * (cell_index(line, col) + i) + 1] == color
            },
        forall|j: int|
            0 <= j < cells.len() && !(2 * cell_index(line, col) <= j < 2 * (cell_index(line, col) + s.len()))
                ==> #[trigger] screen_after(cells, line, col, color, s)[j] == cells[j],
    decreases s.len(),
{
    if s.len() > 0 {
        let p = s.drop_last();
        assert forall|i: int| 0 <= i < p.len() implies p[i] != NEWLINE by {
            assert(p[i] == s[i]);
        }
        lemma_print_one_line(cells, line, col, color, p);
        assert(s[s.len() - 1] != NEWLINE);
        let prev = screen_after(cells, line, col, color, p);
        let k = cell_index(line, col) + p.len();
        assert(screen_after(cells, line, col, color, s) == put_cell(prev, k, s.last(), color));
        assert forall|i: int| 0 <= i < s.len() implies {
            &&& #[trigger] screen_after(cells, line, col, color, s)[2 * (cell_index(line, col) + i)] == s[i]
            &&& screen_after(cells, line, col, color, s)[2 * (cell_index(line, col) + i) + 1] == color
        } by {
            if i < p.len() {
                assert(p[i] == s[i]);
                assert(prev[2 * (cell_index(line, col) + i)] == p[i]);
                assert(prev[2 * (cell_index(line, col) + i) + 1] == color);
            }
        }
    }
}

/// The attribute byte keeps both colors: the high nibble is the background's palette
/// index and the low nibble the text's.
pub proof fn lemma_color_byte_fields(text: VGAOutColor, background: VGAOutColor)
    ensures
        color_byte(text, background) >> 4u8 == color_code(background),
        color_byte(text, background) & 0x0fu8 == color_code(text),
{
    let t = color_code(text);
    let b = color_code(background);
    assert(t < 16 && b < 16);
    assert(((b << 4u8) | t) as u8 >> 4u8 == b && ((b << 4u8) | t) as u8 & 0x0fu8 == t) by (bit_vector)
        requires
            t < 16u8,
            b < 16u8,
    ;
}

/// Writes text into text-mode memory. `buffer` holds the bytes of that memory (a character
/// and an attribute per cell); `vga_addr` is where the hardware maps it.
pub struct VGAWriter {
    pub vga_addr: usize,
    /// Column of the cursor.
    pub line_char_o: isize,
    /// Row of the cursor.
    pub line_o: isize,
    /// Attribute byte for the text written next.
    pub color: u8,
    /// Contents of text-mode memory.
    pub buffer: [u8; BUFFER_SIZE],
}

impl VGAWriter {
    /// A writer at the top-left cell, writing white on green, over a screen that shows
    /// `screen`: the bytes text-mode memory holds when the writer takes it over, which it
    /// leaves as they are.
    pub fn init(screen: [u8; BUFFER_SIZE]) -> (w: VGAWriter)
        ensures
            w.vga_addr == VGA_BUFFER_ADDR,
            w.line_char_o == 0,
            w.line_o == 0,
            w.color == DEFAULT_COLOR,
            w.buffer@ == screen@,
    {
        VGAWriter {
            vga_addr: VGA_BUFFER_ADDR,
            line_char_o: 0,
            line_o: 0,
            color: DEFAULT_COLOR,
            buffer: screen,
        }
    }

    /// Sets the attribute byte directly: background in the high nibble, text in the low one.
    pub fn set_color_hex(&mut self, color: u8)
        ensures
            final(self).color == color,
            final(self).buffer@ == old(self).buffer@,
            final(self).line_o == old(self).line_o,
            final(self).line_char_o == old(self).line_char_o,
            final(self).vga_addr == old(self).vga_addr,
    {
        self.color = color;
    }

    /// Sets the text and background colors.
    pub fn set_color(&mut self, text_color: VGAOutColor, background_color: VGAOutColor)
        ensures
            final(self).color == color_byte(text_color, background_color),
            final(self).buffer@ == old(self).buffer@,
            final(self).line_o == old(self).line_o,
            final(self).line_char_o == old(self).line_char_o,
            final(self).vga_addr == old(self).vga_addr,
    {
        self.color = (background_color.code() << 4u8) | text_color.code();
    }

    /// Moves the cursor to the start of the next line.
    pub fn new_line(&mut self)
        requires
            old(self).line_o < isize::MAX,
        ensures
            final(self).line_o == old(self).line_o + 1,
            final(self).line_char_o == 0,
            final(self).color == old(self).color,
            final(self).buffer@ == old(self).buffer@,
            final(self).vga_addr == old(self).vga_addr,
    {
        self.line_o += 1;
        self.line_char_o = 0;
    }

    /// Writes the character `c` in the current color at the cursor and moves one column on.
    pub fn print_char(&mut self, c: u8)
        requires
            on_screen(old(self).line_o as int, old(self).line_char_o as int),
        ensures
            final(self).buffer@ == put_cell(
                old(self).buffer@,
                cell_index(old(self).line_o as int, old(self).line_char_o as int),
                c,
                old(self).color,
            ),
            final(self).line_char_o == old(self).line_char_o + 1,
            final(self).line_o == old(self).line_o,
            final(self).color == old(self).color,
            final(self).vga_addr == old(self).vga_addr,
    {
        let offset = ((COL_SIZE * self.line_o + self.line_char_o) * 2) as usize;
        self.buffer[offset] = c;
        self.buffer[offset + 1] = self.color;
        self.line_char_o += 1;
    }

    /// Whether writing `content` from the cursor stays on the screen, that is whether
    /// `print` may be called with it.
    pub fn fits_on_screen(&self, content: &str) -> (r: bool)
        ensures
            r == fits(self.line_o as int, self.line_char_o as int, content.spec_bytes()),
    {
        let bytes = content.as_bytes();
        let ghost line0 = self.line_o as int;
        let ghost col0 = self.line_char_o as int;
        let mut line: isize = self.line_o;
        let mut col: isize = self.line_char_o;
        let mut i: usize = 0;
        proof {
            assert(bytes@.take(0) =~= Seq::<u8>::empty());
        }
        while i < bytes.len()
            invariant
                bytes@ == content.spec_bytes(),
                line0 == self.line_o,
                col0 == self.line_char_o,
                0 <= i <= bytes@.len(),
                fits(line0, col0, bytes@.take(i as int)),
                (line as int, col as int) == cursor_after(line0, col0, bytes@.take(i as int)),
            decreases bytes@.len() - i,
        {
            proof {
                assert(bytes@.take(i + 1).drop_last() =~= bytes@.take(i as int));
            }
            if bytes[i] == NEWLINE {
                if line == isize::MAX {
                    proof {
                        lemma_fits_extend(line0, col0, bytes@, i + 1);
                    }
                    return false;
                }
                line = line + 1;
                col = 0;
            } else {
                let row_start: i128 = (COL_SIZE as i128) * (line as i128);
                let cell: i128 = row_start + col as i128;
                if !(isize::MIN as i128 <= row_start && row_start <= isize::MAX as i128 && 0 <= cell
                    && cell < (COL_SIZE * ROW_SIZE) as i128 && col < isize::MAX) {
                    proof {
                        lemma_fits_extend(line0, col0, bytes@, i + 1);
                    }
                    return false;
                }
                col = col + 1;
            }
            i += 1;
        }
        proof {
            assert(bytes@.take(i as int) =~= bytes@);
        }
        true
    }

    /// Writes the bytes of `content` from the cursor: a newline moves to the start of the
    /// next line, every other byte is written as by `print_char`.
    pub fn print(&mut self, content: &str)
        requires
            fits(old(self).line_o as int, old(self).line_char_o as int, content.spec_bytes()),
        ensures
            final(self).buffer@ == screen_after(
                old(self).buffer@,
                old(self).line_o as int,
                old(self).line_char_o as int,
                old(self).color,
                content.spec_bytes(),
            ),
            (final(self).line_o as int, final(self).line_char_o as int) == cursor_after(
                old(self).line_o as int,
                old(self).line_char_o as int,
                content.spec_bytes(),
            ),
            final(self).color == old(self).color,
            final(self).vga_addr == old(self).vga_addr,
    {
        let bytes = content.as_bytes();
        let ghost cells0 = self.buffer@;
        let ghost line0 = self.line_o as int;
        let ghost col0 = self.line_char_o as int;
        let ghost color0 = self.color;
        let ghost addr0 = self.vga_addr;
        let mut i: usize = 0;
        proof {
            assert(bytes@.take(0) =~= Seq::<u8>::empty());
        }
        while i < bytes.len()
            invariant
                bytes@ == content.spec_bytes(),
                0 <= i <= bytes@.len(),
                fits(line0, col0, bytes@),
                self.buffer@ == screen_after(cells0, line0, col0, color0, bytes@.take(i as int)),
                (self.line_o as int, self.line_char_o as int) == cursor_after(
                    line0,
                    col0,
                    bytes@.take(i as int),
                ),
                self.color == color0,
                self.vga_addr == addr0,
            decreases bytes@.len() - i,
        {
            proof {
                lemma_fits_prefix(line0, col0, bytes@, i + 1);
                assert(bytes@.take(i + 1).drop_last() =~= bytes@.take(i as int));
            }
            let b = bytes[i];
            if b == NEWLINE {
                self.new_line();
            } else {
                self.print_char(b);
            }
            i += 1;
        }
        proof {
            assert(bytes@.take(i as int) =~= bytes@);
        }
    }

    /// Writes `content` as `print` does, then moves to the start of the next line.
    pub fn println(&mut self, content: &str)
        requires
            fits(
                old(self).line_o as int,
                old(self).line_char_o as int,
                content.spec_bytes().push(NEWLINE),
            ),
        ensures
            final(self).buffer@ == screen_after(
                old(self).buffer@,
                old(self).line_o as int,
                old(self).line_char_o as int,
                old(self).color,
                content.spec_bytes().push(NEWLINE),
            ),
            (final(self).line_o as int, final(self).line_char_o as int) == cursor_after(
                old(self).line_o as int,
                old(self).line_char_o as int,
                content.spec_bytes().push(NEWLINE),
            ),
            final(self).color == old(self).color,
            final(self).vga_addr == old(self).vga_addr,
    {
        proof {
            let s = content.spec_bytes();
            assert(s.push(NEWLINE).drop_last() =~= s);
        }
        self.print(content);
        self.new_line();
    }
}

} // verus!
