use ratgames::color::Color;
use ratgames::geometry::{Point, Rect, Size};
use ratgames::present::PixelLayer;
use ratgames::scene::Direction;
use ratgames::sprite::Sprite;
use ratgames::surface::Surface;
use ratgames::tiles::{
    CursorStep, TileCursor, TileGrid, TileId, TileLayer, TileMap, TileMapError, TileMapView,
    TileMarker, TileSet, TileSetId, TileSets,
};


const RED: Color = Color(0xFFFF_0000); // Color::rgb(255, 0, 0)
const BLUE: Color = Color(0xFF00_00FF); // Color::rgb(0, 0, 255)

/// A 2×1-pixel sheet of two 1×1 tiles: tile 0 red, tile 1 blue.
fn two_color_sheet() -> Sprite {
    let mut sheet = Sprite::new(Size::new(2, 1));
    sheet.set(Point::new(0, 0), RED);
    sheet.set(Point::new(1, 0), BLUE);
    sheet
}

fn pixel(surface: &Surface, x: u32, y: u32) -> u32 {
    surface.as_slice()[(y * surface.size().w + x) as usize]
}

#[test]
fn tile_ids_round_trip() {
    assert_eq!(TileId::new(7).get(), 7);
    assert_eq!(TileSetId::new(3).get(), 3);
}

#[test]
fn tileset_grid_slices_regions_and_bounds_check() {
    let set = TileSet::grid(two_color_sheet(), Size::new(1, 1), 2);
    assert_eq!(set.len(), 2);
    assert!(!set.is_empty());
    assert_eq!(
        set.region(TileId::new(0)),
        Some(Rect::new(Point::new(0, 0), Size::new(1, 1)))
    );
    assert_eq!(
        set.region(TileId::new(1)),
        Some(Rect::new(Point::new(1, 0), Size::new(1, 1)))
    );
    // Past the sheet: no region.
    assert_eq!(set.region(TileId::new(2)), None);
}

#[test]
fn tileset_slices_a_multi_row_sheet() {
    // A 2×2 sheet of four 1×1 tiles over 2 columns: ids 0,1 on the top row,
    // 2,3 on the bottom.
    let set = TileSet::grid(Sprite::new(Size::new(2, 2)), Size::new(1, 1), 2);
    assert_eq!(set.len(), 4);
    assert_eq!(
        set.region(TileId::new(3)),
        Some(Rect::new(Point::new(1, 1), Size::new(1, 1)))
    );
}

#[test]
fn tileset_flags_default_zero_and_read_back() {
    let set = TileSet::grid(two_color_sheet(), Size::new(1, 1), 2).with_flags(vec![9]);
    assert_eq!(set.flags(TileId::new(0)), 9);
    assert_eq!(set.flags(TileId::new(1)), 0, "unset ids read zero");
    let bare = TileSet::grid(two_color_sheet(), Size::new(1, 1), 2);
    assert_eq!(bare.flags(TileId::new(0)), 0, "no flags means all zero");
}

#[test]
fn a_degenerate_tileset_is_empty_not_a_panic() {
    let set = TileSet::grid(Sprite::new(Size::new(4, 4)), Size::new(0, 0), 0);
    assert!(set.is_empty());
    assert_eq!(set.region(TileId::new(0)), None);
}

#[test]
fn tilesets_resolve_by_id() {
    let sets = TileSets::new(vec![TileSet::grid(two_color_sheet(), Size::new(1, 1), 2)]);
    assert_eq!(sets.len(), 1);
    assert!(sets.get(TileSetId::new(0)).is_some());
    assert!(sets.get(TileSetId::new(1)).is_none());
}

#[test]
fn tilemap_validates_dimensions_and_cell_counts() {
    let layer = TileLayer::new(TileSetId::new(0), vec![None; 6]);
    assert!(TileMap::new(Size::new(3, 2), vec![layer]).is_ok());

    assert_eq!(
        TileMap::new(Size::new(0, 2), vec![]).unwrap_err(),
        TileMapError::ZeroSize
    );

    let short = TileLayer::new(TileSetId::new(0), vec![None; 5]);
    assert_eq!(
        TileMap::new(Size::new(3, 2), vec![short]).unwrap_err(),
        TileMapError::CellCountMismatch {
            layer: 0,
            expected: 6,
            got: 5,
        }
    );
}

#[test]
fn tile_grid_lays_out_rects_and_centres_sprites() {
    let grid = TileGrid::new(Point::new(10, 20), Size::new(8, 8), Size::new(3, 2));
    assert_eq!(grid.pixel_size(), Size::new(24, 16));
    assert_eq!(
        grid.tile_rect(2, 1),
        Rect::new(Point::new(26, 28), Size::new(8, 8))
    );
    // A 4×4 sprite centres with a 2px inset on every side of the 8px tile.
    assert_eq!(
        grid.centered_in_tile(0, 0, Size::new(4, 4)),
        Point::new(12, 22)
    );
}

#[test]
fn tile_grid_centres_within_an_area() {
    // A 2×2 tile grid of 10px tiles (20×20) centred in a 50×30 band that
    // starts 4px down: x offset (50-20)/2 = 15, y = 4 + (30-20)/2 = 9.
    let area = Rect::new(Point::new(0, 4), Size::new(50, 30));
    let grid = TileGrid::centered_in(area, Size::new(10, 10), Size::new(2, 2));
    assert_eq!(grid.origin(), Point::new(15, 9));
}

#[test]
fn view_paints_cells_and_skips_empties() {
    // A 2×2 map, one layer, cells [red, empty, blue, red] at 1× scale.
    let sets = TileSets::new(vec![TileSet::grid(two_color_sheet(), Size::new(1, 1), 2)]);
    let map = TileMap::new(
        Size::new(2, 2),
        vec![TileLayer::new(
            TileSetId::new(0),
            vec![
                Some(TileId::new(0)),
                None,
                Some(TileId::new(1)),
                Some(TileId::new(0)),
            ],
        )],
    )
    .expect("valid map");
    let grid = TileGrid::new(Point::origin(), Size::new(1, 1), Size::new(2, 2));
    let view = TileMapView::new(&map, &grid, &sets);

    let bg = Color::rgb(0, 0, 0);
    let mut screen = Surface::new(Size::new(2, 2), bg);
    view.render(&mut screen);

    assert_eq!(pixel(&screen, 0, 0), RED.packed());
    assert_eq!(
        pixel(&screen, 1, 0),
        bg.packed(),
        "the empty cell shows the backdrop"
    );
    assert_eq!(pixel(&screen, 0, 1), BLUE.packed());
    assert_eq!(pixel(&screen, 1, 1), RED.packed());
}

#[test]
fn view_scales_each_source_tile_to_the_grid_tile() {
    // A 1×1 source tile drawn into a 3px grid tile fills a 3×3 block.
    let sets = TileSets::new(vec![TileSet::grid(two_color_sheet(), Size::new(1, 1), 2)]);
    let map = TileMap::new(
        Size::new(1, 1),
        vec![TileLayer::new(
            TileSetId::new(0),
            vec![Some(TileId::new(1))],
        )],
    )
    .expect("valid map");
    let grid = TileGrid::new(Point::origin(), Size::new(3, 3), Size::new(1, 1));
    let view = TileMapView::new(&map, &grid, &sets);

    let mut screen = Surface::new(Size::new(3, 3), Color::rgb(0, 0, 0));
    view.render(&mut screen);
    for y in 0..3 {
        for x in 0..3 {
            assert_eq!(pixel(&screen, x, y), BLUE.packed(), "at ({x},{y})");
        }
    }
}

#[test]
fn view_skips_an_unresolved_tileset() {
    // A layer pointing at tileset 5 (absent) draws nothing, no panic.
    let sets = TileSets::new(vec![TileSet::grid(two_color_sheet(), Size::new(1, 1), 2)]);
    let map = TileMap::new(
        Size::new(1, 1),
        vec![TileLayer::new(
            TileSetId::new(5),
            vec![Some(TileId::new(0))],
        )],
    )
    .expect("valid map");
    let grid = TileGrid::new(Point::origin(), Size::new(1, 1), Size::new(1, 1));
    let view = TileMapView::new(&map, &grid, &sets);

    let bg = Color::rgb(7, 7, 7);
    let mut screen = Surface::new(Size::new(1, 1), bg);
    view.render(&mut screen);
    assert_eq!(pixel(&screen, 0, 0), bg.packed());
}

#[test]
fn cursor_steps_one_cell_and_holds_at_the_edge() {
    let grid = TileGrid::new(Point::origin(), Size::new(10, 10), Size::new(4, 3));
    let mut cursor = TileCursor::new(grid, 1, 1);
    assert_eq!(cursor.step(Direction::East), CursorStep::Moved);
    assert_eq!((cursor.col(), cursor.row()), (2, 1), "right one cell");
    assert_eq!(cursor.step(Direction::North), CursorStep::Moved);
    assert_eq!((cursor.col(), cursor.row()), (2, 0), "up one cell");
    // The edges hold the cursor in.
    assert_eq!(cursor.step(Direction::North), CursorStep::AtEdge);
    assert_eq!((cursor.col(), cursor.row()), (2, 0), "the top edge holds");
    let mut corner = TileCursor::new(grid, 3, 2);
    assert_eq!(corner.step(Direction::East), CursorStep::AtEdge);
    assert_eq!(corner.step(Direction::South), CursorStep::AtEdge);
    assert_eq!((corner.col(), corner.row()), (3, 2), "the corner holds");
}

#[test]
fn cursor_reenters_on_the_opposite_edge_in_the_same_lane() {
    let grid = TileGrid::new(Point::origin(), Size::new(1, 1), Size::new(16, 9));
    let mut cursor = TileCursor::new(grid, 15, 4);
    cursor.reenter(Direction::East);
    assert_eq!((cursor.col(), cursor.row()), (0, 4), "in from the left");
    cursor.reenter(Direction::West);
    assert_eq!((cursor.col(), cursor.row()), (15, 4), "in from the right");
    let mut vertical = TileCursor::new(grid, 7, 8);
    vertical.reenter(Direction::South);
    assert_eq!((vertical.col(), vertical.row()), (7, 0), "in from the top");
    vertical.reenter(Direction::North);
    assert_eq!(
        (vertical.col(), vertical.row()),
        (7, 8),
        "in from the bottom"
    );
}

#[test]
fn cursor_new_clamps_into_the_grid() {
    let grid = TileGrid::new(Point::origin(), Size::new(1, 1), Size::new(4, 3));
    let cursor = TileCursor::new(grid, 99, 99);
    assert_eq!((cursor.col(), cursor.row()), (3, 2));
}

#[test]
fn marker_fills_exactly_its_cell() {
    // A 2×2 grid of 2px tiles pinned at (1,1); the marker at cell (1,0)
    // fills the 2×2 block at (3,1) and touches nothing else.
    let grid = TileGrid::new(Point::new(1, 1), Size::new(2, 2), Size::new(2, 2));
    let marker = TileMarker::new(TileCursor::new(grid, 1, 0), RED);
    let bg = Color::rgb(0, 0, 0);
    let mut screen = Surface::new(Size::new(6, 6), bg);
    marker.render(&mut screen);
    for y in 0..6 {
        for x in 0..6 {
            let inside = (3..5).contains(&x) && (1..3).contains(&y);
            let want = if inside { RED.packed() } else { bg.packed() };
            assert_eq!(pixel(&screen, x, y), want, "at ({x},{y})");
        }
    }
}

#[test]
fn tileset_len_counts_only_whole_tiles() {
    // Three grid columns over a sheet two tiles wide: the third column holds
    // no whole tile.
    let set = TileSet::grid(Sprite::new(Size::new(2, 2)), Size::new(1, 1), 3);
    assert_eq!(set.len(), 4);
    assert_eq!(set.region(TileId::new(2)), None);
    assert!(set.region(TileId::new(4)).is_some());
}
