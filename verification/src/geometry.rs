//! Viewport sizing model: grid dimensions in character cells, derived from
//! host viewport or device-screen geometry, or from a fixed-pixel drawing
//! surface.

use vstd::prelude::*;
use crate::cell::{is_default_cell, Cell};

verus! {

/// Pixel width of one character cell on a pixel-quantized surface.
pub const CELL_PIXEL_WIDTH: u16 = 10;

/// Pixel height of one character cell on a pixel-quantized surface.
pub const CELL_PIXEL_HEIGHT: u16 = 19;

/// Grid width used when host geometry cannot be queried.
pub const DEFAULT_GRID_WIDTH: u16 = 120;

/// Grid height used when host geometry cannot be queried.
pub const DEFAULT_GRID_HEIGHT: u16 = 120;

/// The grid size chosen from host geometry: the device screen for a handheld
/// device, the viewport window otherwise; cell counts come from the fixed
/// per-cell pixel size, and a failed query falls back to the default grid.
pub open spec fn viewport_grid_size_spec(
    handheld: bool,
    screen: Option<(u16, u16)>,
    window: Option<(u16, u16)>,
) -> (u16, u16) {
    let chosen = if handheld {
        screen
    } else {
        window
    };
    match chosen {
        Some(d) => ((d.0 / CELL_PIXEL_WIDTH) as u16, (d.1 / CELL_PIXEL_HEIGHT) as u16),
        None => (DEFAULT_GRID_WIDTH, DEFAULT_GRID_HEIGHT),
    }
}

/// Computes the grid size from host geometry. `screen` and `window` are the
/// device-screen and viewport pixel dimensions, `None` where the query
/// failed; the device class selects which source to trust.
pub fn viewport_grid_size(
    handheld: bool,
    screen: Option<(u16, u16)>,
    window: Option<(u16, u16)>,
) -> (r: (u16, u16))
    ensures
        r == viewport_grid_size_spec(handheld, screen, window),
{
    let chosen = if handheld {
        screen
    } else {
        window
    };
    match chosen {
        Some(d) => (d.0 / CELL_PIXEL_WIDTH, d.1 / CELL_PIXEL_HEIGHT),
        None => (DEFAULT_GRID_WIDTH, DEFAULT_GRID_HEIGHT),
    }
}

/// Computes the grid that exactly tiles a fixed-pixel drawing surface:
/// pixel dimensions divided by the per-cell pixel size, truncated, so no
/// partial cell remains at the edge.
pub fn surface_grid_size(surface_pixel_width: u16, surface_pixel_height: u16) -> (r: (u16, u16))
    ensures
        r.0 == surface_pixel_width / CELL_PIXEL_WIDTH,
        r.1 == surface_pixel_height / CELL_PIXEL_HEIGHT,
{
    (surface_pixel_width / CELL_PIXEL_WIDTH, surface_pixel_height / CELL_PIXEL_HEIGHT)
}

/// Allocates a fresh grid of the given size, every cell the blank default.
pub fn sized_buffer(width: u16, height: u16) -> (r: Vec<Vec<Cell>>)
    ensures
        r@.len() == height as nat,
        forall|i: int| 0 <= i < height as int ==> #[trigger] r@[i]@.len() == width as nat,
        forall|i: int, j: int|
            0 <= i < height as int && 0 <= j < width as int ==> is_default_cell(
                #[trigger] r@[i]@[j],
            ),
{
    let mut rows: Vec<Vec<Cell>> = Vec::new();
    let mut i: u16 = 0;
    while i < height
        invariant
            i <= height,
            rows@.len() == i as nat,
            forall|a: int| 0 <= a < i as int ==> #[trigger] rows@[a]@.len() == width as nat,
            forall|a: int, b: int|
                0 <= a < i as int && 0 <= b < width as int ==> is_default_cell(
                    #[trigger] rows@[a]@[b],
                ),
        decreases height - i,
    {
        let mut row: Vec<Cell> = Vec::new();
        let mut j: u16 = 0;
        while j < width
            invariant
                j <= width,
                row@.len() == j as nat,
                forall|b: int| 0 <= b < j as int ==> is_default_cell(#[trigger] row@[b]),
            decreases width - j,
        {
            row.push(Cell::default());
            j = j + 1;
        }
        rows.push(row);
        i = i + 1;
    }
    rows
}

} // verus!
