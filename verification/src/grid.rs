//! The grid: fixed dimensions and row-major cell indexing.

use vstd::prelude::*;

verus! {

/// Number of columns.
pub const WIDTH: i32 = 2048;

/// Number of rows.
pub const HEIGHT: i32 = 2048;

/// Number of cells, and so the length of every field.
pub const CELL_COUNT: usize = 4_194_304;

/// Whether `(x, y)` names a cell of the grid.
pub open spec fn in_grid(x: int, y: int) -> bool {
    0 <= x < WIDTH && 0 <= y < HEIGHT
}

/// Position of cell `(x, y)` in a field: rows follow one another.
pub open spec fn cell_index(x: int, y: int) -> int {
    x + WIDTH * y
}

/// Position of cell `(x, y)` in a field.
pub fn get_id_from_pos(x: i32, y: i32) -> (id: usize)
    requires
        in_grid(x as int, y as int),
    ensures
        id == cell_index(x as int, y as int),
        id < CELL_COUNT,
{
    (x + WIDTH * y) as usize
}

/// Every cell has an index below `CELL_COUNT`, from which its column and its
/// row can be read again, so that different cells have different indices.
pub proof fn lemma_cell_index_injective(x: int, y: int, u: int, v: int)
    requires
        in_grid(x, y),
        in_grid(u, v),
    ensures
        0 <= cell_index(x, y) < CELL_COUNT,
        cell_index(x, y) % (WIDTH as int) == x,
        cell_index(x, y) / (WIDTH as int) == y,
        cell_index(x, y) == cell_index(u, v) ==> x == u && y == v,
{
}

/// Every index below `CELL_COUNT` is the index of a cell.
pub proof fn lemma_cell_of_index(index: int)
    requires
        0 <= index < CELL_COUNT,
    ensures
        in_grid(index % (WIDTH as int), index / (WIDTH as int)),
        cell_index(index % (WIDTH as int), index / (WIDTH as int)) == index,
{
}

} // verus!
