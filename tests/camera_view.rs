use malefactor::camera::{
    camera_cell, camera_frame, draw_order, entity_screen_position, get_screen_bounds,
    get_tile_glyph, in_screen_bounds, is_revealed_and_wall, screen_to_tile, tile_to_screen,
    wall_glyph, wall_glyph_for_mask, CellView, Point, TileColor, TileLook,
};
use malefactor::map::{GameMap, TileType};

fn set_wall(m: &mut GameMap, x: i32, y: i32, revealed: bool) {
    let i = m.xy_idx(x, y);
    m.tiles[i] = TileType::Wall;
    m.revealed_tiles[i] = revealed;
}

fn floor_map(w: i32, h: i32) -> GameMap {
    let mut m = GameMap::new(1, w, h);
    for t in m.tiles.iter_mut() {
        *t = TileType::Floor;
    }
    m
}

#[test]
fn screen_bounds_centered_on_focus() {
    assert_eq!(get_screen_bounds(Point { x: 40, y: 25 }, (80, 50)), (0, 80, 0, 50));
    assert_eq!(get_screen_bounds(Point { x: 10, y: 3 }, (81, 51)), (-30, 51, -22, 29));
}

#[test]
fn camera_transform_round_trips() {
    let focus = Point { x: 57, y: -12 };
    let vp = (80, 50);
    for p in [Point { x: 0, y: 0 }, Point { x: -100, y: 250 }, Point { x: 57, y: -12 }] {
        let s = tile_to_screen(focus, vp, p);
        assert_eq!(screen_to_tile(focus, vp, s), p);
        let t = screen_to_tile(focus, vp, p);
        assert_eq!(tile_to_screen(focus, vp, t), p);
    }
    assert_eq!(tile_to_screen(focus, vp, Point { x: 57, y: -12 }), Point { x: 40, y: 25 });
    assert_eq!(screen_to_tile(focus, vp, Point { x: 0, y: 0 }), Point { x: 17, y: -37 });
}

#[test]
fn in_screen_bounds_keeps_a_margin() {
    let focus = Point { x: 40, y: 25 };
    let vp = (80, 50);
    assert!(in_screen_bounds(focus, vp, 2, 2));
    assert!(in_screen_bounds(focus, vp, 78, 48));
    assert!(!in_screen_bounds(focus, vp, 1, 10));
    assert!(!in_screen_bounds(focus, vp, 79, 10));
    assert!(!in_screen_bounds(focus, vp, 10, 49));
    assert!(!in_screen_bounds(focus, vp, 10, 1));
}

#[test]
fn wall_glyph_table() {
    let expected: [u16; 16] = [254, 186, 186, 186, 205, 188, 187, 185, 205, 200, 201, 204, 205, 202, 203, 206];
    for (mask, glyph) in expected.iter().enumerate() {
        assert_eq!(wall_glyph_for_mask(mask as u8), *glyph, "mask {}", mask);
    }
    assert_eq!(wall_glyph_for_mask(16), 35);
}

#[test]
fn corner_tile_without_revealed_neighbours_is_a_pillar() {
    let m = GameMap::new(1, 80, 50);
    assert_eq!(wall_glyph(&m, 0, 0), 254);
    let mut f = floor_map(80, 50);
    set_wall(&mut f, 1, 0, false);
    set_wall(&mut f, 0, 1, false);
    assert_eq!(wall_glyph(&f, 0, 0), 254);
}

#[test]
fn wall_glyph_joins_revealed_neighbours() {
    let mut m = floor_map(10, 10);
    set_wall(&mut m, 5, 4, true);
    set_wall(&mut m, 5, 6, true);
    assert_eq!(wall_glyph(&m, 5, 5), 186);
    set_wall(&mut m, 4, 5, true);
    assert_eq!(wall_glyph(&m, 5, 5), 185);
    set_wall(&mut m, 6, 5, false);
    assert_eq!(wall_glyph(&m, 5, 5), 185);
    set_wall(&mut m, 6, 5, true);
    assert_eq!(wall_glyph(&m, 5, 5), 206);
    assert!(is_revealed_and_wall(&m, 6, 5));
    assert!(!is_revealed_and_wall(&m, 5, 5));
    assert!(!is_revealed_and_wall(&m, 0, -1));
    assert!(!is_revealed_and_wall(&m, 0, 10));
}

#[test]
fn tile_glyphs_by_kind() {
    let mut m = floor_map(10, 10);
    let i = m.xy_idx(2, 2);
    m.visible_tiles[i] = true;
    assert_eq!(get_tile_glyph(i, &m), TileLook { glyph: 46, fg: TileColor::DarkCyan, greyed: false });
    m.tiles[i] = TileType::DownStairs;
    assert_eq!(get_tile_glyph(i, &m), TileLook { glyph: 31, fg: TileColor::DarkCyan, greyed: false });
    m.visible_tiles[i] = false;
    assert!(get_tile_glyph(i, &m).greyed);
    set_wall(&mut m, 2, 2, true);
    set_wall(&mut m, 3, 2, true);
    assert_eq!(get_tile_glyph(i, &m), TileLook { glyph: 205, fg: TileColor::Green, greyed: true });
}

#[test]
fn camera_cells_show_tiles_fog_and_boundary() {
    let mut m = floor_map(10, 10);
    let i = m.xy_idx(4, 4);
    m.revealed_tiles[i] = true;
    m.visible_tiles[i] = true;
    assert_eq!(
        camera_cell(&m, 4, 4, true),
        CellView::Tile(TileLook { glyph: 46, fg: TileColor::DarkCyan, greyed: false })
    );
    assert_eq!(camera_cell(&m, 5, 4, true), CellView::Blank);
    assert_eq!(camera_cell(&m, -1, 4, true), CellView::Boundary(43));
    assert_eq!(camera_cell(&m, 10, 4, true), CellView::Boundary(43));
    assert_eq!(camera_cell(&m, 10, 4, false), CellView::Blank);
}

#[test]
fn camera_frame_covers_the_viewport() {
    let mut m = floor_map(10, 10);
    let i = m.xy_idx(0, 0);
    m.revealed_tiles[i] = true;
    let frame = camera_frame(&m, Point { x: 2, y: 1 }, (6, 4), true);
    assert_eq!(frame.len(), 24);
    assert_eq!(frame[0], CellView::Boundary(43));
    assert_eq!(frame[1], CellView::Boundary(43));
    assert_eq!(frame[6 + 1], CellView::Tile(TileLook { glyph: 46, fg: TileColor::DarkCyan, greyed: true }));
    assert_eq!(frame[6 + 2], CellView::Blank);
    assert_eq!(frame[2 * 6 + 3], CellView::Blank);
    assert!(camera_frame(&m, Point { x: 2, y: 1 }, (0, 4), true).is_empty());
}

#[test]
fn entities_need_visible_tiles_inside_the_margin() {
    let mut m = floor_map(80, 50);
    let focus = Point { x: 40, y: 25 };
    let vp = (80, 50);
    let i = m.xy_idx(10, 10);
    m.visible_tiles[i] = true;
    assert_eq!(entity_screen_position(focus, vp, &m, Point { x: 10, y: 10 }), Some(Point { x: 10, y: 10 }));
    assert_eq!(entity_screen_position(focus, vp, &m, Point { x: 11, y: 10 }), None);
    let j = m.xy_idx(1, 10);
    m.visible_tiles[j] = true;
    assert_eq!(entity_screen_position(focus, vp, &m, Point { x: 1, y: 10 }), None);
    assert_eq!(entity_screen_position(focus, vp, &m, Point { x: -3, y: 10 }), None);
}

#[test]
fn draw_order_is_descending_and_stable() {
    assert_eq!(draw_order(&vec![1, 3, 2, 3, 1]), vec![1, 3, 2, 0, 4]);
    assert_eq!(draw_order(&vec![]), Vec::<usize>::new());
    assert_eq!(draw_order(&vec![0, 0, 0]), vec![0, 1, 2]);
}
