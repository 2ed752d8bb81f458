use vstd::prelude::*;
use crate::config::{CELL_SIZE, GRID_COLUMNS, GRID_ROWS, TOOLBAR_HEIGHT};

verus! {

/// A point on the screen, in sub-pixel units.
#[derive(Clone, Copy, Debug, PartialEq, Eq, Structural)]
pub struct Point {
    pub x: i64,
    pub y: i64,
}

pub open spec fn valid_cell(cell: (usize, usize)) -> bool {
    cell.0 < GRID_ROWS && cell.1 < GRID_COLUMNS
}

/// The cell under a screen point: none on the toolbar or off the lawn.
pub open spec fn cell_at(x: int, y: int) -> Option<(usize, usize)> {
    if y < TOOLBAR_HEIGHT || x < 0 {
        None
    } else {
        let row = (y - TOOLBAR_HEIGHT) / (CELL_SIZE as int);
        let col = x / (CELL_SIZE as int);
        if row < GRID_ROWS && col < GRID_COLUMNS {
            Some((row as usize, col as usize))
        } else {
            None
        }
    }
}

pub open spec fn center_x(col: int) -> int {
    col * CELL_SIZE + CELL_SIZE / 2
}

pub open spec fn center_y(row: int) -> int {
    row * CELL_SIZE + TOOLBAR_HEIGHT + CELL_SIZE / 2
}

/// The center of a cell of the lawn.
pub open spec fn cell_center(cell: (usize, usize)) -> Point {
    Point { x: center_x(cell.1 as int) as i64, y: center_y(cell.0 as int) as i64 }
}

/// Maps a screen point to the lawn cell under it.
pub fn screen_to_cell(x: i64, y: i64) -> (r: Option<(usize, usize)>)
    ensures
        r == cell_at(x as int, y as int),
{
    if y < TOOLBAR_HEIGHT || x < 0 {
        return None;
    }
    let row = (y - TOOLBAR_HEIGHT) / CELL_SIZE;
    let col = x / CELL_SIZE;
    if row < GRID_ROWS as i64 && col < GRID_COLUMNS as i64 {
        Some((row as usize, col as usize))
    } else {
        None
    }
}

/// The screen point at the center of a lawn cell.
pub fn cell_to_screen(cell: (usize, usize)) -> (r: Point)
    requires
        valid_cell(cell),
    ensures
        r == cell_center(cell),
        r.x == center_x(cell.1 as int),
        r.y == center_y(cell.0 as int),
{
    let (row, col) = cell;
    Point {
        x: col as i64 * CELL_SIZE + CELL_SIZE / 2,
        y: row as i64 * CELL_SIZE + TOOLBAR_HEIGHT + CELL_SIZE / 2,
    }
}

/// Mapping the center of a valid cell back to the lawn gives that same cell.
pub proof fn lemma_cell_round_trip(cell: (usize, usize))
    requires
        valid_cell(cell),
    ensures
        cell_at(center_x(cell.1 as int), center_y(cell.0 as int)) == Some(cell),
{
    let row = cell.0 as int;
    let col = cell.1 as int;
    assert((row * 8000 + 4000) / 8000 == row) by (nonlinear_arith)
        requires 0 <= row;
    assert((col * 8000 + 4000) / 8000 == col) by (nonlinear_arith)
        requires 0 <= col;
}

} // verus!
