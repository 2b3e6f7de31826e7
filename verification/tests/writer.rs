use vga_text::color::{Color, ColorCode};
use vga_text::grid::{Grid, ScreenChar, BUFFER_HEIGHT, BUFFER_WIDTH};
use vga_text::writer::{Writer, BLANK_GLYPH, FALLBACK_GLYPH};

fn cell(byte: u8, code: ColorCode) -> ScreenChar {
    ScreenChar { ascii_character: byte, color_code: code }
}

fn default_code() -> ColorCode {
    ColorCode::new(Color::Magenta, Color::Black)
}

fn blank_grid(code: ColorCode) -> Grid {
    Grid::new(cell(BLANK_GLYPH, code))
}

/// A distinct, deterministic glyph for each grid position.
fn pattern(row: usize, col: usize) -> u8 {
    ((row * 31 + col * 7) % 256) as u8
}

fn patterned_grid(code: ColorCode) -> Grid {
    let mut grid = blank_grid(code);
    for row in 0..BUFFER_HEIGHT {
        for col in 0..BUFFER_WIDTH {
            grid.write(row, col, cell(pattern(row, col), code));
        }
    }
    grid
}

fn snapshot(writer: &Writer) -> Vec<Vec<ScreenChar>> {
    (0..BUFFER_HEIGHT)
        .map(|row| (0..BUFFER_WIDTH).map(|col| writer.cell_at(row, col)).collect())
        .collect()
}

#[test]
fn grid_new_fills_every_cell() {
    let code = default_code();
    let grid = Grid::new(cell(b'Q', code));
    for row in 0..BUFFER_HEIGHT {
        for col in 0..BUFFER_WIDTH {
            assert_eq!(grid.read(row, col), cell(b'Q', code));
        }
    }
}

#[test]
fn grid_write_changes_only_the_written_cell() {
    let code = default_code();
    let mut grid = blank_grid(code);
    grid.write(3, 7, cell(b'Z', code));
    assert_eq!(grid.read(3, 7), cell(b'Z', code));
    assert_eq!(grid.read(3, 8), cell(BLANK_GLYPH, code));
    assert_eq!(grid.read(2, 7), cell(BLANK_GLYPH, code));
    assert_eq!(grid.read(4, 7), cell(BLANK_GLYPH, code));
}

#[test]
fn write_byte_places_cell_and_advances() {
    let code = default_code();
    let mut writer = Writer::new(code, blank_grid(code));
    assert_eq!(writer.column_position(), 0);
    writer.write_byte(b'H');
    assert_eq!(writer.column_position(), 1);
    assert_eq!(writer.cell_at(BUFFER_HEIGHT - 1, 0), cell(b'H', code));
    assert_eq!(writer.cell_at(BUFFER_HEIGHT - 1, 1), cell(BLANK_GLYPH, code));
    assert_eq!(writer.cell_at(BUFFER_HEIGHT - 2, 0), cell(BLANK_GLYPH, code));
}

#[test]
fn write_byte_does_not_filter() {
    let code = default_code();
    let mut writer = Writer::new(code, blank_grid(code));
    writer.write_byte(0x01);
    assert_eq!(writer.cell_at(BUFFER_HEIGHT - 1, 0), cell(0x01, code));
}

#[test]
fn column_stays_bounded_and_wraps_once_at_eighty_one() {
    let code = default_code();
    let mut writer = Writer::new(code, blank_grid(code));
    for _ in 0..BUFFER_WIDTH {
        writer.write_byte(b'x');
        assert!(writer.column_position() <= BUFFER_WIDTH);
    }
    assert_eq!(writer.column_position(), BUFFER_WIDTH);
    for col in 0..BUFFER_WIDTH {
        assert_eq!(writer.cell_at(BUFFER_HEIGHT - 1, col), cell(b'x', code));
    }
    // The 81st consecutive byte triggers exactly one scroll, then lands in
    // column 0 of the shifted last row.
    writer.write_byte(b'y');
    assert_eq!(writer.column_position(), 1);
    assert_eq!(writer.cell_at(BUFFER_HEIGHT - 1, 0), cell(b'y', code));
    for col in 1..BUFFER_WIDTH {
        assert_eq!(writer.cell_at(BUFFER_HEIGHT - 1, col), cell(BLANK_GLYPH, code));
    }
    for col in 0..BUFFER_WIDTH {
        assert_eq!(writer.cell_at(BUFFER_HEIGHT - 2, col), cell(b'x', code));
    }
}

#[test]
fn new_line_shifts_rows_up_and_blanks_the_last() {
    let code = default_code();
    let mut writer = Writer::new(code, patterned_grid(code));
    writer.new_line();
    assert_eq!(writer.column_position(), 0);
    for row in 0..BUFFER_HEIGHT - 1 {
        for col in 0..BUFFER_WIDTH {
            assert_eq!(writer.cell_at(row, col), cell(pattern(row + 1, col), code));
        }
    }
    for col in 0..BUFFER_WIDTH {
        assert_eq!(writer.cell_at(BUFFER_HEIGHT - 1, col), cell(BLANK_GLYPH, code));
    }
}

#[test]
fn clear_row_blanks_exactly_one_row() {
    let code = default_code();
    let mut writer = Writer::new(code, patterned_grid(code));
    writer.clear_row(10);
    for row in 0..BUFFER_HEIGHT {
        for col in 0..BUFFER_WIDTH {
            let expected = if row == 10 {
                cell(BLANK_GLYPH, code)
            } else {
                cell(pattern(row, col), code)
            };
            assert_eq!(writer.cell_at(row, col), expected);
        }
    }
}

#[test]
fn clear_row_is_idempotent() {
    let code = default_code();
    let mut writer = Writer::new(code, patterned_grid(code));
    writer.clear_row(10);
    let once = snapshot(&writer);
    let column_once = writer.column_position();
    writer.clear_row(10);
    assert_eq!(snapshot(&writer), once);
    assert_eq!(writer.column_position(), column_once);
}

#[test]
fn write_string_substitutes_the_fallback_glyph() {
    let code = default_code();
    let mut writer = Writer::new(code, blank_grid(code));
    writer.write_string(&[0x00, 0x1f, 0x7f, 0xff]);
    assert_eq!(writer.column_position(), 4);
    for col in 0..4 {
        assert_eq!(writer.cell_at(BUFFER_HEIGHT - 1, col), cell(FALLBACK_GLYPH, code));
    }
}

#[test]
fn write_string_passes_printable_bytes_and_newlines() {
    let code = default_code();
    let mut writer = Writer::new(code, blank_grid(code));
    writer.write_string(b"a\nb");
    assert_eq!(writer.column_position(), 1);
    assert_eq!(writer.cell_at(BUFFER_HEIGHT - 2, 0), cell(b'a', code));
    assert_eq!(writer.cell_at(BUFFER_HEIGHT - 1, 0), cell(b'b', code));
}

#[test]
fn write_string_boundary_bytes() {
    let code = default_code();
    let mut writer = Writer::new(code, blank_grid(code));
    writer.write_string(&[0x20, 0x7e, 0x1f, 0x7f]);
    assert_eq!(writer.cell_at(BUFFER_HEIGHT - 1, 0), cell(0x20, code));
    assert_eq!(writer.cell_at(BUFFER_HEIGHT - 1, 1), cell(0x7e, code));
    assert_eq!(writer.cell_at(BUFFER_HEIGHT - 1, 2), cell(FALLBACK_GLYPH, code));
    assert_eq!(writer.cell_at(BUFFER_HEIGHT - 1, 3), cell(FALLBACK_GLYPH, code));
}

#[test]
fn write_string_of_empty_input_changes_nothing() {
    let code = default_code();
    let mut writer = Writer::new(code, patterned_grid(code));
    let before = snapshot(&writer);
    writer.write_string(&[]);
    assert_eq!(writer.column_position(), 0);
    assert_eq!(snapshot(&writer), before);
}

#[test]
fn end_to_end_ab_newline_with_white_on_black() {
    let code = ColorCode::new(Color::White, Color::Black);
    let mut writer = Writer::new(code, patterned_grid(code));
    writer.write_string(b"AB");
    // Before the newline the two glyphs sit in the last row, in the
    // caller's color, and the cursor has advanced past them.
    assert_eq!(writer.column_position(), 2);
    assert_eq!(writer.cell_at(BUFFER_HEIGHT - 1, 0), cell(b'A', code));
    assert_eq!(writer.cell_at(BUFFER_HEIGHT - 1, 1), cell(b'B', code));
    writer.write_string(b"\n");
    // The newline scrolls everything up one row and resets the cursor.
    assert_eq!(writer.column_position(), 0);
    assert_eq!(writer.cell_at(BUFFER_HEIGHT - 2, 0), cell(b'A', code));
    assert_eq!(writer.cell_at(BUFFER_HEIGHT - 2, 1), cell(b'B', code));
    for col in 2..BUFFER_WIDTH {
        assert_eq!(
            writer.cell_at(BUFFER_HEIGHT - 2, col),
            cell(pattern(BUFFER_HEIGHT - 1, col), code)
        );
    }
    for row in 0..BUFFER_HEIGHT - 2 {
        for col in 0..BUFFER_WIDTH {
            assert_eq!(writer.cell_at(row, col), cell(pattern(row + 1, col), code));
        }
    }
    for col in 0..BUFFER_WIDTH {
        assert_eq!(writer.cell_at(BUFFER_HEIGHT - 1, col), cell(BLANK_GLYPH, code));
    }
}
