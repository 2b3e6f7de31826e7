//! The hardware-visible cell and the fixed 80x25 grid of volatile cells.

use vstd::prelude::*;
use crate::color::ColorCode;
use volatile::Volatile;

verus! {

/// Number of rows of the display grid.
pub const BUFFER_HEIGHT: usize = 25;

/// Number of columns of the display grid.
pub const BUFFER_WIDTH: usize = 80;

/// One display cell: the glyph byte the hardware renders and the packed
/// color byte, in that order.
#[derive(Debug, Clone, Copy, PartialEq, Eq, Structural)]
pub struct ScreenChar {
    pub ascii_character: u8,
    pub color_code: ColorCode,
}

/// The volatile cell wrapper of the display memory.  Its accesses are
/// non-elidable loads and stores, so the writes that repaint the screen
/// are never optimized away or reordered.
#[verifier::external_type_specification]
#[verifier::external_body]
#[verifier::reject_recursive_types(T)]
pub struct ExVolatile<T: Copy>(Volatile<T>);

/// What one volatile cell holds.
pub uninterp spec fn vol_value(cell: Volatile<ScreenChar>) -> ScreenChar;

/// Relies on volatile::Volatile::new, which wraps exactly the value it is
/// given and never panics.
#[verifier::external_body]
fn vol_new(value: ScreenChar) -> (cell: Volatile<ScreenChar>)
    ensures
        vol_value(cell) == value,
{
    Volatile::new(value)
}

/// Relies on volatile::Volatile::read, which returns a copy of the held
/// value through a non-elidable load and never panics.
#[verifier::external_body]
fn vol_read(cell: &Volatile<ScreenChar>) -> (value: ScreenChar)
    ensures
        value == vol_value(*cell),
{
    cell.read()
}

/// Relies on volatile::Volatile::write, which replaces the held value
/// through a non-elidable store and never panics.
#[verifier::external_body]
fn vol_write(cell: &mut Volatile<ScreenChar>, value: ScreenChar)
    ensures
        vol_value(*final(cell)) == value,
{
    cell.write(value)
}

/// The cell grid: rows of volatile cells, top row first.
pub struct Grid {
    rows: Vec<Vec<Volatile<ScreenChar>>>,
}

/// What the grid holds: the value of each of its cells, row by row.
pub closed spec fn grid_cells(grid: Grid) -> Seq<Seq<ScreenChar>> {
    grid.rows@.map(
        |r: int, row: Vec<Volatile<ScreenChar>>|
            row@.map(|c: int, cell: Volatile<ScreenChar>| vol_value(cell)),
    )
}

/// A cell sequence with the grid's fixed dimensions: 25 rows of 80 cells.
pub open spec fn grid_wf(cells: Seq<Seq<ScreenChar>>) -> bool {
    &&& cells.len() == BUFFER_HEIGHT
    &&& forall|r: int| 0 <= r < cells.len() ==> (#[trigger] cells[r]).len() == BUFFER_WIDTH
}

impl Grid {
    /// A grid of the fixed dimensions with every cell set to `fill`.
    pub fn new(fill: ScreenChar) -> (grid: Grid)
        ensures
            grid_wf(grid_cells(grid)),
            forall|r: int, c: int|
                0 <= r < BUFFER_HEIGHT && 0 <= c < BUFFER_WIDTH
                    ==> #[trigger] grid_cells(grid)[r][c] == fill,
    {
        let mut rows: Vec<Vec<Volatile<ScreenChar>>> = Vec::new();
        let mut r: usize = 0;
        while r < BUFFER_HEIGHT
            invariant
                r <= BUFFER_HEIGHT,
                rows@.len() == r,
                forall|i: int| 0 <= i < r ==> (#[trigger] rows@[i])@.len() == BUFFER_WIDTH,
                forall|i: int, j: int|
                    0 <= i < r && 0 <= j < BUFFER_WIDTH
                        ==> vol_value(#[trigger] rows@[i]@[j]) == fill,
            decreases BUFFER_HEIGHT - r,
        {
            let mut row: Vec<Volatile<ScreenChar>> = Vec::new();
            let mut c: usize = 0;
            while c < BUFFER_WIDTH
                invariant
                    c <= BUFFER_WIDTH,
                    row@.len() == c,
                    forall|j: int| 0 <= j < c ==> vol_value(#[trigger] row@[j]) == fill,
                decreases BUFFER_WIDTH - c,
            {
                row.push(vol_new(fill));
                c += 1;
            }
            rows.push(row);
            r += 1;
        }
        Grid { rows }
    }

    /// The cell at (row, col).
    pub fn read(&self, row: usize, col: usize) -> (cell: ScreenChar)
        requires
            grid_wf(grid_cells(*self)),
            row < BUFFER_HEIGHT,
            col < BUFFER_WIDTH,
        ensures
            cell == grid_cells(*self)[row as int][col as int],
    {
        proof {
            assert(self.rows@.len() == grid_cells(*self).len());
            assert(self.rows@[row as int]@.len() == grid_cells(*self)[row as int].len());
        }
        vol_read(&self.rows[row][col])
    }

    /// Store `cell` at (row, col); every other cell keeps its contents.
    pub fn write(&mut self, row: usize, col: usize, cell: ScreenChar)
        requires
            grid_wf(grid_cells(*old(self))),
            row < BUFFER_HEIGHT,
            col < BUFFER_WIDTH,
        ensures
            grid_cells(*final(self)) == grid_cells(*old(self)).update(
                row as int,
                grid_cells(*old(self))[row as int].update(col as int, cell),
            ),
    {
        proof {
            assert(self.rows@.len() == grid_cells(*self).len());
            assert(self.rows@[row as int]@.len() == grid_cells(*self)[row as int].len());
        }
        let row_ref = &mut self.rows[row];
        vol_write(&mut row_ref[col], cell);
        proof {
            assert(grid_cells(*self)[row as int] =~= grid_cells(*old(self))[row as int].update(
                col as int,
                cell,
            ));
            assert(grid_cells(*self) =~= grid_cells(*old(self)).update(
                row as int,
                grid_cells(*old(self))[row as int].update(col as int, cell),
            ));
        }
    }
}

} // verus!
