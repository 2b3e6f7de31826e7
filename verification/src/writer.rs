//! The text writer: cursor column, active color, and the scroll-up state
//! machine over the last row of the grid.

use vstd::prelude::*;
use crate::color::ColorCode;
use crate::grid::{Grid, ScreenChar, grid_cells, grid_wf, BUFFER_HEIGHT, BUFFER_WIDTH};

verus! {

/// The byte that starts a new line.
pub const NEWLINE: u8 = 0x0a;

/// The lowest byte the display renders as itself.
pub const PRINTABLE_MIN: u8 = 0x20;

/// The highest byte the display renders as itself.
pub const PRINTABLE_MAX: u8 = 0x7e;

/// The filled-box glyph substituted for bytes the display cannot render.
pub const FALLBACK_GLYPH: u8 = 0xfe;

/// The glyph of a blank cell: a space.
pub const BLANK_GLYPH: u8 = 0x20;

/// A blank cell: a space glyph in the given color.
pub open spec fn blank_cell(color: ColorCode) -> ScreenChar {
    ScreenChar { ascii_character: BLANK_GLYPH, color_code: color }
}

/// A full row of blank cells in the given color.
pub open spec fn blank_row(color: ColorCode) -> Seq<ScreenChar> {
    Seq::new(BUFFER_WIDTH as nat, |c: int| blank_cell(color))
}

/// The grid after one row is blanked in the given color.
pub open spec fn clear_row_spec(
    cells: Seq<Seq<ScreenChar>>,
    row: int,
    color: ColorCode,
) -> Seq<Seq<ScreenChar>> {
    cells.update(row, blank_row(color))
}

/// The grid after scrolling up: every row but the last takes the contents
/// of the row below it, and the last row becomes blank in the given color.
pub open spec fn scroll_spec(
    cells: Seq<Seq<ScreenChar>>,
    color: ColorCode,
) -> Seq<Seq<ScreenChar>> {
    Seq::new(
        BUFFER_HEIGHT as nat,
        |r: int|
            if r < BUFFER_HEIGHT as int - 1 {
                cells[r + 1]
            } else {
                blank_row(color)
            },
    )
}

/// The grid after one cell is placed in the last row at the given column.
pub open spec fn place_spec(
    cells: Seq<Seq<ScreenChar>>,
    col: int,
    cell: ScreenChar,
) -> Seq<Seq<ScreenChar>> {
    cells.update(
        BUFFER_HEIGHT as int - 1,
        cells[BUFFER_HEIGHT as int - 1].update(col, cell),
    )
}

/// The cursor and grid after one byte is written: a newline scrolls and
/// resets the cursor; any other byte first scrolls if the row is full,
/// then lands at the cursor in the last row, in the writer's color.
pub open spec fn write_byte_spec(
    col: int,
    cells: Seq<Seq<ScreenChar>>,
    color: ColorCode,
    byte: u8,
) -> (int, Seq<Seq<ScreenChar>>) {
    if byte == NEWLINE {
        (0, scroll_spec(cells, color))
    } else if col >= BUFFER_WIDTH as int {
        let cell = ScreenChar { ascii_character: byte, color_code: color };
        (1, place_spec(scroll_spec(cells, color), 0, cell))
    } else {
        let cell = ScreenChar { ascii_character: byte, color_code: color };
        (col + 1, place_spec(cells, col, cell))
    }
}

/// Whether the display renders this byte as itself.
pub open spec fn printable(byte: u8) -> bool {
    PRINTABLE_MIN <= byte <= PRINTABLE_MAX
}

/// The byte handed to `write_byte` for one byte of a string: printable
/// bytes and newlines pass through, everything else becomes the fallback
/// glyph.
pub open spec fn filtered_byte(byte: u8) -> u8 {
    if printable(byte) || byte == NEWLINE {
        byte
    } else {
        FALLBACK_GLYPH
    }
}

/// The cursor and grid after a whole byte sequence is written through the
/// encoding gate, byte by byte.
pub open spec fn write_string_spec(
    col: int,
    cells: Seq<Seq<ScreenChar>>,
    color: ColorCode,
    bytes: Seq<u8>,
) -> (int, Seq<Seq<ScreenChar>>)
    decreases bytes.len(),
{
    if bytes.len() == 0 {
        (col, cells)
    } else {
        let step = write_byte_spec(col, cells, color, filtered_byte(bytes[0]));
        write_string_spec(step.0, step.1, color, bytes.subrange(1, bytes.len() as int))
    }
}

/// The text writer.  It owns the grid; all visible writes target the last
/// row, and earlier rows only receive content through the scroll-up copy.
pub struct Writer {
    column_position: usize,
    color_code: ColorCode,
    buffer: Grid,
}

impl Writer {
    /// The cursor: the next column to write in the last row.
    pub closed spec fn spec_col(&self) -> usize {
        self.column_position
    }

    /// The active color pair.
    pub closed spec fn spec_color(&self) -> ColorCode {
        self.color_code
    }

    /// The contents of the grid.
    pub closed spec fn spec_cells(&self) -> Seq<Seq<ScreenChar>> {
        grid_cells(self.buffer)
    }

    /// Well-formed: the cursor never passes one place past the last
    /// column, and the grid has its fixed dimensions.
    pub open spec fn wf(&self) -> bool {
        &&& self.spec_col() <= BUFFER_WIDTH
        &&& grid_wf(self.spec_cells())
    }

    /// A writer over the given grid, with the cursor at column 0 and the
    /// given active color.
    pub fn new(color_code: ColorCode, buffer: Grid) -> (writer: Writer)
        requires
            grid_wf(grid_cells(buffer)),
        ensures
            writer.wf(),
            writer.spec_col() == 0,
            writer.spec_color() == color_code,
            writer.spec_cells() == grid_cells(buffer),
    {
        Writer { column_position: 0, color_code, buffer }
    }

    /// The cursor column.
    pub fn column_position(&self) -> (col: usize)
        ensures
            col == self.spec_col(),
    {
        self.column_position
    }

    /// The active color pair.
    pub fn color_code(&self) -> (color: ColorCode)
        ensures
            color == self.spec_color(),
    {
        self.color_code
    }

    /// The cell at (row, col) of the grid.
    pub fn cell_at(&self, row: usize, col: usize) -> (cell: ScreenChar)
        requires
            grid_wf(self.spec_cells()),
            row < BUFFER_HEIGHT,
            col < BUFFER_WIDTH,
        ensures
            cell == self.spec_cells()[row as int][col as int],
    {
        self.buffer.read(row, col)
    }

    /// Blank one row: every cell of the row becomes a space in the active
    /// color; every other row and the cursor keep their state.
    pub fn clear_row(&mut self, row: usize)
        requires
            old(self).wf(),
            row < BUFFER_HEIGHT,
        ensures
            final(self).wf(),
            final(self).spec_col() == old(self).spec_col(),
            final(self).spec_color() == old(self).spec_color(),
            final(self).spec_cells() == clear_row_spec(
                old(self).spec_cells(),
                row as int,
                old(self).spec_color(),
            ),
    {
        let ghost cells0 = self.spec_cells();
        let ghost col0 = self.spec_col();
        let ghost color0 = self.spec_color();
        let blank = ScreenChar { ascii_character: BLANK_GLYPH, color_code: self.color_code };
        let mut col: usize = 0;
        while col < BUFFER_WIDTH
            invariant
                col <= BUFFER_WIDTH,
                row < BUFFER_HEIGHT,
                self.spec_col() == col0,
                self.spec_color() == color0,
                col0 <= BUFFER_WIDTH,
                grid_wf(self.spec_cells()),
                blank == blank_cell(color0),
                forall|r: int|
                    0 <= r < BUFFER_HEIGHT && r != row
                        ==> (#[trigger] self.spec_cells()[r]) == cells0[r],
                forall|c: int|
                    0 <= c < col
                        ==> (#[trigger] self.spec_cells()[row as int][c]) == blank_cell(color0),
                forall|c: int|
                    col <= c < BUFFER_WIDTH
                        ==> (#[trigger] self.spec_cells()[row as int][c]) == cells0[row as int][c],
            decreases BUFFER_WIDTH - col,
        {
            self.buffer.write(row, col, blank);
            col += 1;
        }
        proof {
            assert(self.spec_cells()[row as int] =~= blank_row(color0));
            assert(self.spec_cells() =~= clear_row_spec(cells0, row as int, color0));
        }
    }

    /// Scroll the display up one row and blank the last row: every row but
    /// the last takes the contents of the row below it, the last row
    /// becomes blank in the active color, and the cursor returns to
    /// column 0.
    pub fn new_line(&mut self)
        requires
            old(self).wf(),
        ensures
            final(self).wf(),
            final(self).spec_col() == 0,
            final(self).spec_color() == old(self).spec_color(),
            final(self).spec_cells() == scroll_spec(old(self).spec_cells(), old(self).spec_color()),
    {
        let ghost cells0 = self.spec_cells();
        let ghost color0 = self.spec_color();
        let mut row: usize = 1;
        while row < BUFFER_HEIGHT
            invariant
                1 <= row <= BUFFER_HEIGHT,
                self.spec_color() == color0,
                self.spec_col() <= BUFFER_WIDTH,
                grid_wf(cells0),
                grid_wf(self.spec_cells()),
                forall|r: int|
                    0 <= r < row as int - 1
                        ==> (#[trigger] self.spec_cells()[r]) == cells0[r + 1],
                forall|r: int|
                    row as int - 1 <= r < BUFFER_HEIGHT
                        ==> (#[trigger] self.spec_cells()[r]) == cells0[r],
            decreases BUFFER_HEIGHT - row,
        {
            let mut col: usize = 0;
            while col < BUFFER_WIDTH
                invariant
                    1 <= row < BUFFER_HEIGHT,
                    col <= BUFFER_WIDTH,
                    self.spec_color() == color0,
                    self.spec_col() <= BUFFER_WIDTH,
                    grid_wf(cells0),
                    grid_wf(self.spec_cells()),
                    forall|r: int|
                        0 <= r < row as int - 1
                            ==> (#[trigger] self.spec_cells()[r]) == cells0[r + 1],
                    forall|c: int|
                        0 <= c < col
                            ==> (#[trigger] self.spec_cells()[row as int - 1][c])
                                == cells0[row as int][c],
                    forall|c: int|
                        col <= c < BUFFER_WIDTH
                            ==> (#[trigger] self.spec_cells()[row as int - 1][c])
                                == cells0[row as int - 1][c],
                    forall|r: int|
                        row as int <= r < BUFFER_HEIGHT
                            ==> (#[trigger] self.spec_cells()[r]) == cells0[r],
                decreases BUFFER_WIDTH - col,
            {
                let cell = self.buffer.read(row, col);
                self.buffer.write(row - 1, col, cell);
                col += 1;
            }
            proof {
                assert(self.spec_cells()[row as int - 1] =~= cells0[row as int]);
            }
            row += 1;
        }
        self.clear_row(BUFFER_HEIGHT - 1);
        self.column_position = 0;
        proof {
            assert(self.spec_cells() =~= scroll_spec(cells0, color0));
        }
    }

    /// Write one byte at the cursor: a newline scrolls; any other byte
    /// first scrolls if the row is full, then lands at the cursor in the
    /// last row with the active color, and the cursor advances.
    pub fn write_byte(&mut self, byte: u8)
        requires
            old(self).wf(),
        ensures
            final(self).wf(),
            final(self).spec_color() == old(self).spec_color(),
            final(self).spec_col() as int == write_byte_spec(
                old(self).spec_col() as int,
                old(self).spec_cells(),
                old(self).spec_color(),
                byte,
            ).0,
            final(self).spec_cells() == write_byte_spec(
                old(self).spec_col() as int,
                old(self).spec_cells(),
                old(self).spec_color(),
                byte,
            ).1,
    {
        if byte == NEWLINE {
            self.new_line();
        } else {
            if self.column_position >= BUFFER_WIDTH {
                self.new_line();
            }
            let row = BUFFER_HEIGHT - 1;
            let col = self.column_position;
            let color_code = self.color_code;
            self.buffer.write(row, col, ScreenChar { ascii_character: byte, color_code });
            self.column_position = self.column_position + 1;
        }
    }

    /// Write a whole byte sequence through the encoding gate: printable
    /// bytes and newlines are written as they are, every other byte as the
    /// fallback glyph.  Total over any input; nothing is dropped.
    pub fn write_string(&mut self, s: &[u8])
        requires
            old(self).wf(),
        ensures
            final(self).wf(),
            final(self).spec_color() == old(self).spec_color(),
            final(self).spec_col() as int == write_string_spec(
                old(self).spec_col() as int,
                old(self).spec_cells(),
                old(self).spec_color(),
                s@,
            ).0,
            final(self).spec_cells() == write_string_spec(
                old(self).spec_col() as int,
                old(self).spec_cells(),
                old(self).spec_color(),
                s@,
            ).1,
    {
        let ghost col0: int = self.spec_col() as int;
        let ghost cells0 = self.spec_cells();
        let ghost color0 = self.spec_color();
        let mut i: usize = 0;
        while i < s.len()
            invariant
                i <= s.len(),
                self.wf(),
                self.spec_color() == color0,
                self.spec_col() as int == write_string_spec(col0, cells0, color0, s@.take(i as int)).0,
                self.spec_cells() == write_string_spec(col0, cells0, color0, s@.take(i as int)).1,
            decreases s.len() - i,
        {
            let byte = s[i];
            let out = if (PRINTABLE_MIN <= byte && byte <= PRINTABLE_MAX) || byte == NEWLINE {
                byte
            } else {
                FALLBACK_GLYPH
            };
            proof {
                assert(s@.take(i as int + 1) =~= s@.take(i as int).push(s@[i as int]));
                lemma_write_string_spec_snoc(col0, cells0, color0, s@.take(i as int), s@[i as int]);
                assert(out == filtered_byte(s@[i as int]));
            }
            self.write_byte(out);
            i += 1;
        }
        proof {
            assert(s@.take(s@.len() as int) =~= s@);
        }
    }
}

/// Writing one more byte after a sequence is one more step of the byte-at-
/// a-time fold.
proof fn lemma_write_string_spec_snoc(
    col: int,
    cells: Seq<Seq<ScreenChar>>,
    color: ColorCode,
    bytes: Seq<u8>,
    byte: u8,
)
    ensures
        ({
            let mid = write_string_spec(col, cells, color, bytes);
            write_string_spec(col, cells, color, bytes.push(byte)) == write_byte_spec(
                mid.0,
                mid.1,
                color,
                filtered_byte(byte),
            )
        }),
    decreases bytes.len(),
{
    let extended = bytes.push(byte);
    if bytes.len() == 0 {
        reveal_with_fuel(write_string_spec, 2);
        assert(extended.subrange(1, extended.len() as int) =~= Seq::<u8>::empty());
    } else {
        assert(extended.subrange(1, extended.len() as int) =~= bytes.subrange(
            1,
            bytes.len() as int,
        ).push(byte));
        let step = write_byte_spec(col, cells, color, filtered_byte(bytes[0]));
        lemma_write_string_spec_snoc(
            step.0,
            step.1,
            color,
            bytes.subrange(1, bytes.len() as int),
            byte,
        );
    }
}

/// Law: one written byte keeps the cursor inside the closed column range,
/// whatever the byte and the grid.
pub proof fn lemma_column_bound(col: int, cells: Seq<Seq<ScreenChar>>, color: ColorCode, byte: u8)
    requires
        0 <= col <= BUFFER_WIDTH,
    ensures
        0 <= write_byte_spec(col, cells, color, byte).0 <= BUFFER_WIDTH,
{
}

/// Law: a whole written byte sequence keeps the cursor inside the closed
/// column range at every intermediate step, so in particular at the end.
pub proof fn lemma_write_string_column_bound(
    col: int,
    cells: Seq<Seq<ScreenChar>>,
    color: ColorCode,
    bytes: Seq<u8>,
)
    requires
        0 <= col <= BUFFER_WIDTH,
    ensures
        0 <= write_string_spec(col, cells, color, bytes).0 <= BUFFER_WIDTH,
    decreases bytes.len(),
{
    if bytes.len() > 0 {
        let step = write_byte_spec(col, cells, color, filtered_byte(bytes[0]));
        lemma_column_bound(col, cells, color, filtered_byte(bytes[0]));
        lemma_write_string_column_bound(
            step.0,
            step.1,
            color,
            bytes.subrange(1, bytes.len() as int),
        );
    }
}

/// Law: a byte written into a full row wraps.  Exactly one scroll happens
/// first, and the byte lands in column 0 of the freshly scrolled last row;
/// the cursor ends at column 1.
pub proof fn lemma_wrap_before_write(cells: Seq<Seq<ScreenChar>>, color: ColorCode, byte: u8)
    requires
        grid_wf(cells),
        byte != NEWLINE,
    ensures
        write_byte_spec(BUFFER_WIDTH as int, cells, color, byte).0 == 1,
        write_byte_spec(BUFFER_WIDTH as int, cells, color, byte).1 == place_spec(
            scroll_spec(cells, color),
            0,
            ScreenChar { ascii_character: byte, color_code: color },
        ),
        write_byte_spec(BUFFER_WIDTH as int, cells, color, byte).1[BUFFER_HEIGHT as int - 1][0]
            == (ScreenChar { ascii_character: byte, color_code: color }),
{
}

/// Law: after a scroll, every row but the last holds what the row below it
/// held, and the last row is entirely blank in the given color.
pub proof fn lemma_scroll_correct(cells: Seq<Seq<ScreenChar>>, color: ColorCode)
    requires
        grid_wf(cells),
    ensures
        grid_wf(scroll_spec(cells, color)),
        forall|r: int|
            0 <= r < BUFFER_HEIGHT as int - 1
                ==> (#[trigger] scroll_spec(cells, color)[r]) == cells[r + 1],
        forall|c: int|
            0 <= c < BUFFER_WIDTH
                ==> (#[trigger] scroll_spec(cells, color)[BUFFER_HEIGHT as int - 1][c])
                    == blank_cell(color),
{
}

/// Law: blanking the same row twice leaves exactly the state that blanking
/// it once leaves.
pub proof fn lemma_clear_row_idempotent(cells: Seq<Seq<ScreenChar>>, row: int, color: ColorCode)
    requires
        grid_wf(cells),
        0 <= row < BUFFER_HEIGHT,
    ensures
        clear_row_spec(clear_row_spec(cells, row, color), row, color) == clear_row_spec(
            cells,
            row,
            color,
        ),
{
    assert(clear_row_spec(clear_row_spec(cells, row, color), row, color) =~= clear_row_spec(
        cells,
        row,
        color,
    ));
}

/// Law: a byte the display cannot render is substituted by the fallback
/// glyph, and the written cell carries the active color like any other.
pub proof fn lemma_placeholder_substitution(
    col: int,
    cells: Seq<Seq<ScreenChar>>,
    color: ColorCode,
    byte: u8,
)
    requires
        grid_wf(cells),
        !printable(byte),
        byte != NEWLINE,
    ensures
        filtered_byte(byte) == FALLBACK_GLYPH,
        write_byte_spec(col, cells, color, filtered_byte(byte)) == write_byte_spec(
            col,
            cells,
            color,
            FALLBACK_GLYPH,
        ),
        0 <= col < BUFFER_WIDTH ==> write_byte_spec(
            col,
            cells,
            color,
            filtered_byte(byte),
        ).1[BUFFER_HEIGHT as int - 1][col] == (ScreenChar {
            ascii_character: FALLBACK_GLYPH,
            color_code: color,
        }),
{
}

} // verus!
