use vstd::prelude::*;
use crate::rect::Rect;

verus! {

/// The terrain of one grid cell.
#[derive(Clone, Copy, Debug, PartialEq, Eq, Structural)]
pub enum TileType {
    Wall,
    Floor,
    DownStairs,
}

/// A level: a grid of tiles with reveal and visibility flags, stored row by row.
#[derive(Debug)]
pub struct GameMap {
    pub tiles: Vec<TileType>,
    pub width: i32,
    pub height: i32,
    pub revealed_tiles: Vec<bool>,
    pub visible_tiles: Vec<bool>,
    pub depth: i32,
}

/// The flat index of the cell at `(x, y)` in a grid `w` cells wide.
pub open spec fn cell_index(w: int, x: int, y: int) -> int {
    y * w + x
}

/// Whether `i` is the index of a cell of row `y` with a column in `[lo, hi]`.
/// Columns outside the grid run on into the neighbouring rows.
pub open spec fn on_row_run(i: int, w: int, y: int, lo: int, hi: int) -> bool {
    cell_index(w, lo, y) <= i <= cell_index(w, hi, y)
}

/// Whether `i` is the index of a cell of column `x` with a row in `[lo, hi]`.
pub open spec fn on_column_run(i: int, w: int, x: int, lo: int, hi: int) -> bool {
    exists|yy: int| lo <= yy <= hi && i == #[trigger] cell_index(w, x, yy)
}

/// Whether `i` is the index of a cell strictly inside the border of `r`.
pub open spec fn in_room_interior(i: int, w: int, r: Rect) -> bool {
    r.y1 + 1 <= i / w < r.y2 && r.x1 + 1 <= i % w < r.x2
}

pub open spec fn min_int(a: int, b: int) -> int {
    if a <= b { a } else { b }
}

pub open spec fn max_int(a: int, b: int) -> int {
    if a <= b { b } else { a }
}

impl GameMap {
    /// The map's invariant: positive dimensions and one entry per cell in each layer.
    pub open spec fn wf(&self) -> bool {
        &&& self.width > 0
        &&& self.height > 0
        &&& self.width * self.height <= i32::MAX
        &&& self.tiles@.len() == self.width * self.height
        &&& self.revealed_tiles@.len() == self.width * self.height
        &&& self.visible_tiles@.len() == self.width * self.height
    }

    /// Whether `(x, y)` lies within the map's extents.
    pub open spec fn in_extents(&self, x: int, y: int) -> bool {
        0 <= x < self.width && 0 <= y < self.height
    }

    /// A map of solid wall, nothing revealed or visible.
    pub fn new(depth: i32, width: i32, height: i32) -> (m: GameMap)
        requires
            width > 0,
            height > 0,
            width * height <= i32::MAX,
        ensures
            m.wf(),
            m.width == width,
            m.height == height,
            m.depth == depth,
            forall|i: int| 0 <= i < m.tiles@.len() ==> m.tiles@[i] == TileType::Wall,
            forall|i: int| 0 <= i < m.revealed_tiles@.len() ==> !m.revealed_tiles@[i],
            forall|i: int| 0 <= i < m.visible_tiles@.len() ==> !m.visible_tiles@[i],
    {
        let count: usize = (width * height) as usize;
        let mut tiles: Vec<TileType> = Vec::new();
        let mut revealed_tiles: Vec<bool> = Vec::new();
        let mut visible_tiles: Vec<bool> = Vec::new();
        let mut i: usize = 0;
        while i < count
            invariant
                i <= count,
                tiles@.len() == i,
                revealed_tiles@.len() == i,
                visible_tiles@.len() == i,
                forall|j: int| 0 <= j < i ==> tiles@[j] == TileType::Wall,
                forall|j: int| 0 <= j < i ==> !revealed_tiles@[j],
                forall|j: int| 0 <= j < i ==> !visible_tiles@[j],
            decreases count - i,
        {
            tiles.push(TileType::Wall);
            revealed_tiles.push(false);
            visible_tiles.push(false);
            i = i + 1;
        }
        GameMap { tiles, width, height, revealed_tiles, visible_tiles, depth }
    }

    /// A copy of the map.
    pub fn duplicate(&self) -> (r: GameMap)
        ensures
            r.tiles@ == self.tiles@,
            r.revealed_tiles@ == self.revealed_tiles@,
            r.visible_tiles@ == self.visible_tiles@,
            r.width == self.width,
            r.height == self.height,
            r.depth == self.depth,
    {
        let tiles = self.tiles.clone();
        let revealed_tiles = self.revealed_tiles.clone();
        let visible_tiles = self.visible_tiles.clone();
        proof {
            assert(tiles@ =~= self.tiles@);
            assert(revealed_tiles@ =~= self.revealed_tiles@);
            assert(visible_tiles@ =~= self.visible_tiles@);
        }
        GameMap {
            tiles,
            width: self.width,
            height: self.height,
            revealed_tiles,
            visible_tiles,
            depth: self.depth,
        }
    }

    /// The flat index of an in-extents cell.
    pub fn xy_idx(&self, x: i32, y: i32) -> (r: usize)
        requires
            self.wf(),
            self.in_extents(x as int, y as int),
        ensures
            r as int == cell_index(self.width as int, x as int, y as int),
            r < self.tiles@.len(),
    {
        proof {
            assert(y * self.width + x < self.width * self.height) by (nonlinear_arith)
                requires 0 <= x < self.width, 0 <= y < self.height;
            assert(0 <= y * self.width) by (nonlinear_arith)
                requires 0 <= y, 0 < self.width;
        }
        (y * self.width + x) as usize
    }
}

/// Sets to floor every cell strictly inside the border of `room`.
pub fn apply_room_to_map(map: &mut GameMap, room: &Rect)
    requires
        old(map).wf(),
        0 <= room.x1 + 1,
        room.x2 <= old(map).width,
        0 <= room.y1 + 1,
        room.y2 <= old(map).height,
    ensures
        final(map).wf(),
        final(map).width == old(map).width,
        final(map).height == old(map).height,
        final(map).depth == old(map).depth,
        final(map).revealed_tiles@ == old(map).revealed_tiles@,
        final(map).visible_tiles@ == old(map).visible_tiles@,
        final(map).tiles@.len() == old(map).tiles@.len(),
        forall|i: int|
            0 <= i < final(map).tiles@.len() ==> #[trigger] final(map).tiles@[i] == if in_room_interior(
                i,
                old(map).width as int,
                *room,
            ) {
                TileType::Floor
            } else {
                old(map).tiles@[i]
            },
{
    let ghost w = map.width as int;
    if room.x1 as i64 + 1 >= room.x2 as i64 || room.y1 as i64 + 1 >= room.y2 as i64 {
        return;
    }
    let mut y: i32 = room.y1 + 1;
    while y < room.y2
        invariant
            map.wf(),
            map.tiles@.len() == old(map).tiles@.len(),
            map.width == old(map).width,
            map.height == old(map).height,
            map.depth == old(map).depth,
            map.revealed_tiles@ == old(map).revealed_tiles@,
            map.visible_tiles@ == old(map).visible_tiles@,
            room.y1 + 1 <= y <= room.y2,
            room.x1 + 1 < room.x2,
            w == map.width,
            0 <= room.x1 + 1,
            room.x2 <= map.width,
            0 <= room.y1 + 1,
            room.y2 <= map.height,
            forall|i: int|
                0 <= i < map.tiles@.len() ==> #[trigger] map.tiles@[i] == if in_room_interior(
                    i,
                    w,
                    *room,
                ) && i / w < y {
                    TileType::Floor
                } else {
                    old(map).tiles@[i]
                },
        decreases room.y2 - y,
    {
        let mut x: i32 = room.x1 + 1;
        while x < room.x2
            invariant
                map.wf(),
                map.tiles@.len() == old(map).tiles@.len(),
                map.width == old(map).width,
                map.height == old(map).height,
                map.depth == old(map).depth,
                map.revealed_tiles@ == old(map).revealed_tiles@,
                map.visible_tiles@ == old(map).visible_tiles@,
                room.y1 + 1 <= y < room.y2,
                room.x1 + 1 < room.x2,
                room.x1 + 1 <= x,
                x <= room.x2,
                w == map.width,
                0 <= room.x1 + 1,
                room.x2 <= map.width,
                0 <= room.y1 + 1,
                room.y2 <= map.height,
                forall|i: int|
                    0 <= i < map.tiles@.len() ==> #[trigger] map.tiles@[i] == if in_room_interior(
                        i,
                        w,
                        *room,
                    ) && (i / w < y || (i / w == y && i % w < x)) {
                        TileType::Floor
                    } else {
                        old(map).tiles@[i]
                    },
            decreases room.x2 - x,
        {
            let idx = map.xy_idx(x, y);
            proof {
                lemma_index_parts(w, x as int, y as int);
            }
            let ghost prev = map.tiles@;
            map.tiles.set(idx, TileType::Floor);
            assert forall|i: int| 0 <= i < map.tiles@.len() implies #[trigger] map.tiles@[i]
                == if in_room_interior(i, w, *room) && (i / w < y || (i / w == y && i % w < x
                    + 1)) {
                TileType::Floor
            } else {
                old(map).tiles@[i]
            } by {
                vstd::arithmetic::div_mod::lemma_fundamental_div_mod(i, w);
                vstd::arithmetic::mul::lemma_mul_is_commutative(w, i / w);
                if i != idx as int {
                    assert(map.tiles@[i] == prev[i]);
                    assert(!(i / w == y && i % w == x));
                }
            }
            x = x + 1;
        }
        y = y + 1;
    }
}

/// Sets to floor each cell of row `y` from column `min(x1, x2)` to `max(x1, x2)`.
/// A cell whose index falls outside the map is skipped.
pub fn apply_horizontal_tunnel(map: &mut GameMap, x1: i32, x2: i32, y: i32)
    requires
        old(map).wf(),
    ensures
        final(map).wf(),
        final(map).width == old(map).width,
        final(map).height == old(map).height,
        final(map).depth == old(map).depth,
        final(map).revealed_tiles@ == old(map).revealed_tiles@,
        final(map).visible_tiles@ == old(map).visible_tiles@,
        final(map).tiles@.len() == old(map).tiles@.len(),
        forall|i: int|
            0 <= i < final(map).tiles@.len() ==> #[trigger] final(map).tiles@[i] == if on_row_run(
                i,
                old(map).width as int,
                y as int,
                min_int(x1 as int, x2 as int),
                max_int(x1 as int, x2 as int),
            ) {
                TileType::Floor
            } else {
                old(map).tiles@[i]
            },
{
    let ghost w = map.width as int;
    let lo: i64 = if x1 <= x2 { x1 as i64 } else { x2 as i64 };
    let hi: i64 = if x1 <= x2 { x2 as i64 } else { x1 as i64 };
    let count: i64 = map.tiles.len() as i64;
    proof {
        lemma_small_product(y as int, w);
    }
    let row_start: i64 = y as i64 * map.width as i64;
    let mut x: i64 = lo;
    while x <= hi
        invariant
            map.wf(),
            map.tiles@.len() == old(map).tiles@.len(),
            count == map.tiles@.len(),
            map.width == old(map).width,
            map.height == old(map).height,
            map.depth == old(map).depth,
            map.revealed_tiles@ == old(map).revealed_tiles@,
            map.visible_tiles@ == old(map).visible_tiles@,
            w == map.width,
            row_start == y * w,
            -0x4000_0000_0000_0000 <= row_start <= 0x4000_0000_0000_0000,
            lo == min_int(x1 as int, x2 as int),
            hi == max_int(x1 as int, x2 as int),
            lo <= x <= hi + 1,
            forall|i: int|
                0 <= i < map.tiles@.len() ==> #[trigger] map.tiles@[i] == if cell_index(
                    w,
                    lo as int,
                    y as int,
                ) <= i < cell_index(w, x as int, y as int) {
                    TileType::Floor
                } else {
                    old(map).tiles@[i]
                },
        decreases hi + 1 - x,
    {
        let idx: i64 = row_start + x;
        if 0 <= idx && idx < count {
            map.tiles.set(idx as usize, TileType::Floor);
        }
        x = x + 1;
    }
}

/// Sets to floor each cell of column `x` from row `min(y1, y2)` to `max(y1, y2)`.
/// A cell whose index falls outside the map is skipped.
pub fn apply_vertical_tunnel(map: &mut GameMap, y1: i32, y2: i32, x: i32)
    requires
        old(map).wf(),
    ensures
        final(map).wf(),
        final(map).width == old(map).width,
        final(map).height == old(map).height,
        final(map).depth == old(map).depth,
        final(map).revealed_tiles@ == old(map).revealed_tiles@,
        final(map).visible_tiles@ == old(map).visible_tiles@,
        final(map).tiles@.len() == old(map).tiles@.len(),
        forall|i: int|
            0 <= i < final(map).tiles@.len() ==> #[trigger] final(map).tiles@[i]
                == if on_column_run(
                i,
                old(map).width as int,
                x as int,
                min_int(y1 as int, y2 as int),
                max_int(y1 as int, y2 as int),
            ) {
                TileType::Floor
            } else {
                old(map).tiles@[i]
            },
{
    let ghost w = map.width as int;
    let lo: i64 = if y1 <= y2 { y1 as i64 } else { y2 as i64 };
    let hi: i64 = if y1 <= y2 { y2 as i64 } else { y1 as i64 };
    let count: i64 = map.tiles.len() as i64;
    let width: i64 = map.width as i64;
    let mut y: i64 = lo;
    while y <= hi
        invariant
            map.wf(),
            map.tiles@.len() == old(map).tiles@.len(),
            count == map.tiles@.len(),
            map.width == old(map).width,
            map.height == old(map).height,
            map.depth == old(map).depth,
            map.revealed_tiles@ == old(map).revealed_tiles@,
            map.visible_tiles@ == old(map).visible_tiles@,
            w == map.width,
            width == w,
            lo == min_int(y1 as int, y2 as int),
            hi == max_int(y1 as int, y2 as int),
            lo <= y <= hi + 1,
            forall|i: int|
                0 <= i < map.tiles@.len() ==> #[trigger] map.tiles@[i] == if on_column_run(
                    i,
                    w,
                    x as int,
                    lo as int,
                    y - 1,
                ) {
                    TileType::Floor
                } else {
                    old(map).tiles@[i]
                },
        decreases hi + 1 - y,
    {
        proof {
            lemma_small_product(y as int, w);
        }
        let idx: i64 = y * width + x as i64;
        let ghost prev = map.tiles@;
        if 0 <= idx && idx < count {
            map.tiles.set(idx as usize, TileType::Floor);
        }
        assert forall|i: int| 0 <= i < map.tiles@.len() implies #[trigger] map.tiles@[i]
            == if on_column_run(i, w, x as int, lo as int, y as int) {
            TileType::Floor
        } else {
            old(map).tiles@[i]
        } by {
            if i == idx as int {
                assert(i == cell_index(w, x as int, y as int));
            } else {
                assert(map.tiles@[i] == prev[i]);
                if on_column_run(i, w, x as int, lo as int, y as int) {
                    let yy = choose|yy: int| lo <= yy <= y && i == #[trigger] cell_index(w, x as int, yy);
                    assert(yy != y);
                    assert(on_column_run(i, w, x as int, lo as int, y - 1));
                }
            }
        }
        y = y + 1;
    }
}

/// A row number of 32 bits times a positive width of 32 bits fits in 64 bits.
pub proof fn lemma_small_product(y: int, w: int)
    requires
        i32::MIN <= y <= i32::MAX + 1,
        0 < w <= i32::MAX,
    ensures
        -0x4000_0000_0000_0000 <= y * w <= 0x4000_0000_0000_0000,
{
    assert(-0x4000_0000_0000_0000 <= y * w <= 0x4000_0000_0000_0000) by (nonlinear_arith)
        requires
            -0x8000_0000 <= y <= 0x8000_0000,
            0 < w <= 0x7fff_ffff,
    ;
}

/// An in-extents cell has an index inside the grid.
pub proof fn lemma_cell_in_grid(w: int, h: int, x: int, y: int)
    requires
        0 <= x < w,
        0 <= y < h,
    ensures
        0 <= cell_index(w, x, y) < w * h,
{
    assert(0 <= y * w + x < w * h) by (nonlinear_arith)
        requires 0 <= x < w, 0 <= y < h;
}

/// Row and column can be read back from an index of an in-grid cell.
pub proof fn lemma_index_parts(w: int, x: int, y: int)
    requires
        0 < w,
        0 <= x < w,
        0 <= y,
    ensures
        cell_index(w, x, y) / w == y,
        cell_index(w, x, y) % w == x,
{
    vstd::arithmetic::div_mod::lemma_fundamental_div_mod_converse(cell_index(w, x, y), w, y, x);
}

} // verus!
