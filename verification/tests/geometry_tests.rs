use ratzilla::cell::Cell;
use ratzilla::color::Color;
use ratzilla::geometry::{sized_buffer, surface_grid_size, viewport_grid_size};

#[test]
fn test_viewport_query_failure_falls_back_to_default_grid() {
    assert_eq!(viewport_grid_size(false, None, None), (120, 120));
    assert_eq!(viewport_grid_size(true, None, None), (120, 120));
    // the untrusted source does not rescue a failed trusted one
    assert_eq!(viewport_grid_size(true, None, Some((1000, 190))), (120, 120));
    assert_eq!(viewport_grid_size(false, Some((1000, 190)), None), (120, 120));
}

#[test]
fn test_viewport_device_class_selects_the_geometry_source() {
    let screen = Some((500u16, 380u16));
    let window = Some((1000u16, 190u16));
    assert_eq!(viewport_grid_size(true, screen, window), (50, 20));
    assert_eq!(viewport_grid_size(false, screen, window), (100, 10));
}

#[test]
fn test_surface_grid_size_tiles_exactly() {
    assert_eq!(surface_grid_size(1000, 190), (100, 10));
    // partial cells at the edge are truncated away
    assert_eq!(surface_grid_size(1009, 208), (100, 10));
    assert_eq!(surface_grid_size(9, 18), (0, 0));
    assert_eq!(surface_grid_size(u16::MAX, u16::MAX), (6553, 3449));
}

#[test]
fn test_sized_buffer_dimensions_and_default_cells() {
    let grid = sized_buffer(3, 2);
    assert_eq!(grid.len(), 2);
    for row in &grid {
        assert_eq!(row.len(), 3);
        for cell in row {
            assert_eq!(cell.symbol, " ");
            assert_eq!(cell.fg, Color::Reset);
            assert_eq!(cell.bg, Color::Reset);
            assert!(!cell.modifier.bold);
            assert!(!cell.modifier.reversed);
        }
    }
    let empty = sized_buffer(4, 0);
    assert!(empty.is_empty());
    let default_cell = Cell::default();
    assert_eq!(default_cell.symbol, " ");
}
