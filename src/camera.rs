use vstd::prelude::*;
use crate::glyphs::{cp437, cp437_of};
use crate::map::{cell_index, lemma_index_parts, GameMap, TileType};

verus! {

/// A point in map or screen coordinates.
#[derive(Clone, Copy, Debug, PartialEq, Eq, Structural)]
pub struct Point {
    pub x: i32,
    pub y: i32,
}

/// The map-space window `(min_x, max_x, min_y, max_y)` of a viewport `vw` by `vh`
/// characters centred on `focus`.
pub open spec fn bounds_of(focus: Point, vw: int, vh: int) -> (int, int, int, int) {
    let min_x = focus.x - vw / 2;
    let min_y = focus.y - vh / 2;
    (min_x, min_x + vw, min_y, min_y + vh)
}

/// Whether the viewport's size and every corner of the window fit in 32 bits.
pub open spec fn bounds_fit(focus: Point, vw: int, vh: int) -> bool {
    let b = bounds_of(focus, vw, vh);
    &&& vw <= i32::MAX
    &&& vh <= i32::MAX
    &&& i32::MIN <= b.0 <= i32::MAX
    &&& i32::MIN <= b.1 <= i32::MAX
    &&& i32::MIN <= b.2 <= i32::MAX
    &&& i32::MIN <= b.3 <= i32::MAX
}

/// Where the map point `p` appears on screen.
pub open spec fn screen_of(focus: Point, vw: int, vh: int, p: (int, int)) -> (int, int) {
    let b = bounds_of(focus, vw, vh);
    (p.0 - b.0, p.1 - b.2)
}

/// Which map point the screen point `p` shows.
pub open spec fn tile_of(focus: Point, vw: int, vh: int, p: (int, int)) -> (int, int) {
    let b = bounds_of(focus, vw, vh);
    (p.0 + b.0, p.1 + b.2)
}

/// Whether the map point `(x, y)` lands on screen at least two cells from every edge.
pub open spec fn in_bounds_of(focus: Point, vw: int, vh: int, x: int, y: int) -> bool {
    let s = screen_of(focus, vw, vh, (x, y));
    1 < s.0 < vw - 1 && 1 < s.1 < vh - 1
}

/// The window of map space that a viewport of `viewport` characters shows around `focus`.
pub fn get_screen_bounds(focus: Point, viewport: (u32, u32)) -> (r: (i32, i32, i32, i32))
    requires
        bounds_fit(focus, viewport.0 as int, viewport.1 as int),
    ensures
        (r.0 as int, r.1 as int, r.2 as int, r.3 as int) == bounds_of(
            focus,
            viewport.0 as int,
            viewport.1 as int,
        ),
{
    let (x_chars, y_chars) = viewport;
    let min_x = focus.x as i64 - (x_chars / 2) as i64;
    let max_x = min_x + x_chars as i64;
    let min_y = focus.y as i64 - (y_chars / 2) as i64;
    let max_y = min_y + y_chars as i64;
    (min_x as i32, max_x as i32, min_y as i32, max_y as i32)
}

/// Where the map point `tile` appears on screen.
pub fn tile_to_screen(focus: Point, viewport: (u32, u32), tile: Point) -> (r: Point)
    requires
        bounds_fit(focus, viewport.0 as int, viewport.1 as int),
        i32::MIN <= screen_of(focus, viewport.0 as int, viewport.1 as int, (tile.x as int, tile.y as int)).0 <= i32::MAX,
        i32::MIN <= screen_of(focus, viewport.0 as int, viewport.1 as int, (tile.x as int, tile.y as int)).1 <= i32::MAX,
    ensures
        (r.x as int, r.y as int) == screen_of(
            focus,
            viewport.0 as int,
            viewport.1 as int,
            (tile.x as int, tile.y as int),
        ),
{
    let (min_x, _max_x, min_y, _max_y) = get_screen_bounds(focus, viewport);
    Point { x: tile.x - min_x, y: tile.y - min_y }
}

/// Which map point the screen point `point` shows.
pub fn screen_to_tile(focus: Point, viewport: (u32, u32), point: Point) -> (r: Point)
    requires
        bounds_fit(focus, viewport.0 as int, viewport.1 as int),
        i32::MIN <= tile_of(focus, viewport.0 as int, viewport.1 as int, (point.x as int, point.y as int)).0 <= i32::MAX,
        i32::MIN <= tile_of(focus, viewport.0 as int, viewport.1 as int, (point.x as int, point.y as int)).1 <= i32::MAX,
    ensures
        (r.x as int, r.y as int) == tile_of(
            focus,
            viewport.0 as int,
            viewport.1 as int,
            (point.x as int, point.y as int),
        ),
{
    let (min_x, _max_x, min_y, _max_y) = get_screen_bounds(focus, viewport);
    Point { x: point.x + min_x, y: point.y + min_y }
}

/// Whether the map point `(x, y)` falls inside the viewport with a margin on every edge.
pub fn in_screen_bounds(focus: Point, viewport: (u32, u32), x: i32, y: i32) -> (r: bool)
    requires
        bounds_fit(focus, viewport.0 as int, viewport.1 as int),
    ensures
        r == in_bounds_of(focus, viewport.0 as int, viewport.1 as int, x as int, y as int),
{
    let (min_x, max_x, min_y, max_y) = get_screen_bounds(focus, viewport);
    let screen_x = x as i64 - min_x as i64;
    let screen_y = y as i64 - min_y as i64;
    screen_x > 1 && screen_x < (max_x as i64 - min_x as i64) - 1 && screen_y > 1 && screen_y < (
    max_y as i64 - min_y as i64) - 1
}

/// The fallback glyph for a mask outside the table.
pub const UNKNOWN_WALL_GLYPH: u16 = 35;

/// The glyph drawn for a wall whose revealed wall neighbours form `mask`
/// (north 1, south 2, west 4, east 8).
pub open spec fn glyph_for_mask(mask: int) -> u16 {
    if mask == 0 {
        254
    } else if mask == 1 || mask == 2 || mask == 3 {
        186
    } else if mask == 4 || mask == 8 || mask == 12 {
        205
    } else if mask == 5 {
        188
    } else if mask == 6 {
        187
    } else if mask == 7 {
        185
    } else if mask == 9 {
        200
    } else if mask == 10 {
        201
    } else if mask == 11 {
        204
    } else if mask == 13 {
        202
    } else if mask == 14 {
        203
    } else if mask == 15 {
        206
    } else {
        UNKNOWN_WALL_GLYPH
    }
}

/// Whether the cell at `(x, y)` has an index inside the map and holds a revealed wall.
pub open spec fn revealed_wall_at(m: GameMap, x: int, y: int) -> bool {
    let i = cell_index(m.width as int, x, y);
    &&& 0 <= i < m.tiles@.len()
    &&& m.tiles@[i] == TileType::Wall
    &&& m.revealed_tiles@[i]
}

/// The neighbour mask of `(x, y)`: 1 for a revealed wall to the north, 2 south,
/// 4 west, 8 east.
pub open spec fn wall_mask(m: GameMap, x: int, y: int) -> int {
    (if revealed_wall_at(m, x, y - 1) { 1int } else { 0int })
    + (if revealed_wall_at(m, x, y + 1) { 2int } else { 0int })
    + (if revealed_wall_at(m, x - 1, y) { 4int } else { 0int })
    + (if revealed_wall_at(m, x + 1, y) { 8int } else { 0int })
}

/// Whether the cell at `(x, y)` has an index inside the map and holds a revealed wall.
pub fn is_revealed_and_wall(map: &GameMap, x: i32, y: i32) -> (r: bool)
    requires
        map.wf(),
    ensures
        r == revealed_wall_at(*map, x as int, y as int),
{
    proof {
        crate::map::lemma_small_product(y as int, map.width as int);
    }
    let idx: i64 = y as i64 * map.width as i64 + x as i64;
    if idx < 0 || idx >= map.tiles.len() as i64 {
        return false;
    }
    map.tiles[idx as usize] == TileType::Wall && map.revealed_tiles[idx as usize]
}

/// The box-drawing glyph for a neighbour mask.
pub fn wall_glyph_for_mask(mask: u8) -> (r: u16)
    ensures
        r == glyph_for_mask(mask as int),
{
    match mask {
        0 => 254,
        1 => 186,
        2 => 186,
        3 => 186,
        4 => 205,
        5 => 188,
        6 => 187,
        7 => 185,
        8 => 205,
        9 => 200,
        10 => 201,
        11 => 204,
        12 => 205,
        13 => 202,
        14 => 203,
        15 => 206,
        _ => UNKNOWN_WALL_GLYPH,
    }
}

/// The glyph for a wall at `(x, y)`, joined to its revealed wall neighbours.
pub fn wall_glyph(map: &GameMap, x: i32, y: i32) -> (r: u16)
    requires
        map.wf(),
        i32::MIN < x < i32::MAX,
        i32::MIN < y < i32::MAX,
    ensures
        r == glyph_for_mask(wall_mask(*map, x as int, y as int)),
{
    let mut mask: u8 = 0;
    if is_revealed_and_wall(map, x, y - 1) {
        mask += 1;
    }
    if is_revealed_and_wall(map, x, y + 1) {
        mask += 2;
    }
    if is_revealed_and_wall(map, x - 1, y) {
        mask += 4;
    }
    if is_revealed_and_wall(map, x + 1, y) {
        mask += 8;
    }
    wall_glyph_for_mask(mask)
}

/// The colour a tile is drawn in; the background is always black.
#[derive(Clone, Copy, Debug, PartialEq, Eq, Structural)]
pub enum TileColor {
    DarkCyan,
    Green,
}

/// How one tile is drawn: its glyph, its colour, and whether that colour is
/// turned to grey because the tile is out of sight.
#[derive(Clone, Copy, Debug, PartialEq, Eq, Structural)]
pub struct TileLook {
    pub glyph: u16,
    pub fg: TileColor,
    pub greyed: bool,
}

/// How the tile with index `idx` is drawn.
pub open spec fn tile_look_of(m: GameMap, idx: int) -> TileLook {
    let greyed = !m.visible_tiles@[idx];
    match m.tiles@[idx] {
        TileType::Floor => TileLook { glyph: cp437_of('.'), fg: TileColor::DarkCyan, greyed },
        TileType::Wall => TileLook {
            glyph: glyph_for_mask(wall_mask(m, idx % (m.width as int), idx / (m.width as int))),
            fg: TileColor::Green,
            greyed,
        },
        TileType::DownStairs => TileLook {
            glyph: cp437_of('\u{25BC}'),
            fg: TileColor::DarkCyan,
            greyed,
        },
    }
}

/// How the tile with index `idx` is drawn.
pub fn get_tile_glyph(idx: usize, map: &GameMap) -> (r: TileLook)
    requires
        map.wf(),
        idx < map.tiles@.len(),
    ensures
        r == tile_look_of(*map, idx as int),
{
    let greyed = !map.visible_tiles[idx];
    match map.tiles[idx] {
        TileType::Floor => TileLook { glyph: cp437('.'), fg: TileColor::DarkCyan, greyed },
        TileType::Wall => {
            let x = idx as i32 % map.width;
            let y = idx as i32 / map.width;
            proof {
                vstd::arithmetic::div_mod::lemma_fundamental_div_mod(idx as int, map.width as int);
                assert(0 <= y <= idx) by (nonlinear_arith)
                    requires y == idx as int / map.width as int, map.width > 0, idx >= 0;
            }
            TileLook { glyph: wall_glyph(map, x, y), fg: TileColor::Green, greyed }
        },
        TileType::DownStairs => TileLook {
            glyph: cp437('\u{25BC}'),
            fg: TileColor::DarkCyan,
            greyed,
        },
    }
}

/// What a screen cell shows.
#[derive(Clone, Copy, Debug, PartialEq, Eq, Structural)]
pub enum CellView {
    /// A revealed map tile.
    Tile(TileLook),
    /// The filler drawn beyond the map's edge.
    Boundary(u16),
    /// Nothing: an in-map tile never revealed.
    Blank,
}

/// What the screen cell over map point `(tx, ty)` shows.
pub open spec fn cell_view_of(m: GameMap, tx: int, ty: int, show_boundaries: bool) -> CellView {
    if m.in_extents(tx, ty) {
        let idx = cell_index(m.width as int, tx, ty);
        if m.revealed_tiles@[idx] {
            CellView::Tile(tile_look_of(m, idx))
        } else {
            CellView::Blank
        }
    } else if show_boundaries {
        CellView::Boundary(cp437_of('+'))
    } else {
        CellView::Blank
    }
}

/// What the screen cell over map point `(tx, ty)` shows: the tile when it is in
/// the map and revealed, the boundary filler (when enabled) when it is off the map.
pub fn camera_cell(map: &GameMap, tx: i32, ty: i32, show_boundaries: bool) -> (r: CellView)
    requires
        map.wf(),
    ensures
        r == cell_view_of(*map, tx as int, ty as int, show_boundaries),
{
    if 0 <= tx && tx < map.width && 0 <= ty && ty < map.height {
        let idx = map.xy_idx(tx, ty);
        if map.revealed_tiles[idx] {
            CellView::Tile(get_tile_glyph(idx, map))
        } else {
            CellView::Blank
        }
    } else if show_boundaries {
        CellView::Boundary(cp437('+'))
    } else {
        CellView::Blank
    }
}

/// Where an entity standing on `pos` is drawn: on screen when its tile is in the
/// map and currently visible and it lands inside the viewport's margin.
pub fn entity_screen_position(focus: Point, viewport: (u32, u32), map: &GameMap, pos: Point) -> (r: Option<Point>)
    requires
        map.wf(),
        bounds_fit(focus, viewport.0 as int, viewport.1 as int),
    ensures
        r == if map.in_extents(pos.x as int, pos.y as int)
            && map.visible_tiles@[cell_index(map.width as int, pos.x as int, pos.y as int)]
            && in_bounds_of(focus, viewport.0 as int, viewport.1 as int, pos.x as int, pos.y as int) {
            Some(Point {
                x: screen_of(focus, viewport.0 as int, viewport.1 as int, (pos.x as int, pos.y as int)).0 as i32,
                y: screen_of(focus, viewport.0 as int, viewport.1 as int, (pos.x as int, pos.y as int)).1 as i32,
            })
        } else {
            None
        },
{
    if !(0 <= pos.x && pos.x < map.width && 0 <= pos.y && pos.y < map.height) {
        return None;
    }
    let idx = map.xy_idx(pos.x, pos.y);
    if !map.visible_tiles[idx] || !in_screen_bounds(focus, viewport, pos.x, pos.y) {
        return None;
    }
    Some(tile_to_screen(focus, viewport, pos))
}

/// The terrain a viewport shows, row by row from the top-left screen cell: entry
/// `y * width + x` is what screen cell `(x, y)` shows.
pub fn camera_frame(map: &GameMap, focus: Point, viewport: (u32, u32), show_boundaries: bool) -> (r: Vec<CellView>)
    requires
        map.wf(),
        bounds_fit(focus, viewport.0 as int, viewport.1 as int),
    ensures
        r@.len() == viewport.0 as int * viewport.1 as int,
        forall|i: int|
            0 <= i < r@.len() ==> #[trigger] r@[i] == cell_view_of(
                *map,
                bounds_of(focus, viewport.0 as int, viewport.1 as int).0 + i % (viewport.0 as int),
                bounds_of(focus, viewport.0 as int, viewport.1 as int).2 + i / (viewport.0 as int),
                show_boundaries,
            ),
{
    let (min_x, max_x, min_y, max_y) = get_screen_bounds(focus, viewport);
    let (vw, vh) = viewport;
    let ghost w = vw as int;
    let mut r: Vec<CellView> = Vec::new();
    if vw == 0 {
        proof {
            assert(w * vh == 0);
        }
        return r;
    }
    let mut y: u32 = 0;
    while y < vh
        invariant
            map.wf(),
            w == vw,
            vw > 0,
            y <= vh,
            vh <= i32::MAX,
            vw <= i32::MAX,
            min_x as int == bounds_of(focus, w, vh as int).0,
            min_y as int == bounds_of(focus, w, vh as int).2,
            max_x as int == min_x + w,
            max_y as int == min_y + vh,
            i32::MIN <= max_x <= i32::MAX,
            i32::MIN <= max_y <= i32::MAX,
            r@.len() == y * w,
            forall|i: int|
                0 <= i < r@.len() ==> #[trigger] r@[i] == cell_view_of(*map, min_x + i % w, min_y + i / w, show_boundaries),
        decreases vh - y,
    {
        let mut x: u32 = 0;
        while x < vw
            invariant
                map.wf(),
                w == vw,
                vw > 0,
                y < vh,
                x <= vw,
                vh <= i32::MAX,
                vw <= i32::MAX,
                max_x as int == min_x + w,
                max_y as int == min_y + vh,
                i32::MIN <= max_x <= i32::MAX,
                i32::MIN <= max_y <= i32::MAX,
                r@.len() == y * w + x,
                forall|i: int|
                    0 <= i < r@.len() ==> #[trigger] r@[i] == cell_view_of(*map, min_x + i % w, min_y + i / w, show_boundaries),
            decreases vw - x,
        {
            let tx = min_x + x as i32;
            let ty = min_y + y as i32;
            proof {
                lemma_index_parts(w, x as int, y as int);
            }
            r.push(camera_cell(map, tx, ty, show_boundaries));
            x = x + 1;
        }
        proof {
            assert((y + 1) * w == y * w + w) by (nonlinear_arith);
        }
        y = y + 1;
    }
    proof {
        assert(y * w == w * y) by (nonlinear_arith);
    }
    r
}

/// Whether entity `a` is drawn before entity `b`: higher priority first, and by
/// position in the list among equal priorities.
pub open spec fn drawn_before(priorities: Seq<i32>, a: int, b: int) -> bool {
    priorities[a] > priorities[b] || (priorities[a] == priorities[b] && a < b)
}

/// The order in which to draw entities with the given render priorities: every
/// index once, highest priority first, ties kept in list order, so that the
/// lowest priority is drawn last and ends on top.
pub fn draw_order(priorities: &Vec<i32>) -> (r: Vec<usize>)
    ensures
        r@.len() == priorities@.len(),
        forall|k: int| 0 <= k < r@.len() ==> #[trigger] r@[k] < priorities@.len(),
        forall|a: int, b: int|
            0 <= a < b < r@.len() ==> drawn_before(priorities@, #[trigger] r@[a] as int, #[trigger] r@[b] as int),
{
    let mut r: Vec<usize> = Vec::new();
    let mut i: usize = 0;
    while i < priorities.len()
        invariant
            i <= priorities@.len(),
            r@.len() == i,
            forall|k: int| 0 <= k < r@.len() ==> #[trigger] r@[k] < i,
            forall|a: int, b: int|
                0 <= a < b < r@.len() ==> drawn_before(priorities@, #[trigger] r@[a] as int, #[trigger] r@[b] as int),
        decreases priorities@.len() - i,
    {
        let p = priorities[i];
        let mut pos: usize = 0;
        while pos < r.len() && priorities[r[pos]] >= p
            invariant
                pos <= r@.len(),
                i < priorities@.len(),
                p == priorities@[i as int],
                forall|k: int| 0 <= k < r@.len() ==> #[trigger] r@[k] < i,
                forall|k: int| 0 <= k < pos ==> priorities@[#[trigger] r@[k] as int] >= p,
            decreases r@.len() - pos,
        {
            pos = pos + 1;
        }
        let ghost old_r = r@;
        proof {
            assert forall|k: int| pos <= k < old_r.len() implies priorities@[#[trigger] old_r[k] as int] < p by {
                if k > pos {
                    assert(drawn_before(priorities@, old_r[pos as int] as int, old_r[k] as int));
                }
            }
        }
        r.insert(pos, i);
        proof {
            assert forall|k: int| 0 <= k < r@.len() implies #[trigger] r@[k] < i + 1 by {
                if k < pos {
                    assert(r@[k] == old_r[k]);
                } else if k > pos {
                    assert(r@[k] == old_r[k - 1]);
                }
            }
            assert forall|a: int, b: int|
                0 <= a < b < r@.len() implies drawn_before(priorities@, #[trigger] r@[a] as int, #[trigger] r@[b] as int) by {
                if b < pos {
                    assert(r@[a] == old_r[a] && r@[b] == old_r[b]);
                } else if b == pos {
                    assert(r@[a] == old_r[a]);
                } else if a < pos {
                    assert(r@[a] == old_r[a] && r@[b] == old_r[b - 1]);
                } else if a == pos {
                    assert(r@[b] == old_r[b - 1]);
                } else {
                    assert(r@[a] == old_r[a - 1] && r@[b] == old_r[b - 1]);
                }
            }
        }
        i = i + 1;
    }
    r
}

/// Mapping a point to the screen and back gives the point again.
pub proof fn lemma_screen_round_trip(focus: Point, vw: int, vh: int, p: (int, int))
    ensures
        tile_of(focus, vw, vh, screen_of(focus, vw, vh, p)) == p,
        screen_of(focus, vw, vh, tile_of(focus, vw, vh, p)) == p,
{
}

} // verus!
