use vstd::prelude::*;
use rltk::RandomNumberGenerator;
use crate::map::{
    apply_horizontal_tunnel, apply_room_to_map, apply_vertical_tunnel, cell_index,
    in_room_interior, lemma_cell_in_grid, lemma_index_parts, max_int, min_int, on_column_run, on_row_run, GameMap,
    TileType,
};
use crate::random::random_range;
use crate::rect::{center_of, lemma_intersect_symmetric, rects_intersect, Rect};
use crate::walk::{
    lemma_column_reachable, lemma_reachable_kept, lemma_reachable_self, lemma_reachable_trans,
    lemma_row_reachable, passable, reachable, walls_only_removed,
};

verus! {

/// How many room placements one level tries.
pub const MAX_ROOMS: i32 = 30;

/// Smallest room side.
pub const MIN_SIZE: i32 = 6;

/// Room sides are drawn below this bound.
pub const MAX_SIZE: i32 = 10;

/// A cell of the map.
#[derive(Clone, Copy, Debug, PartialEq, Eq, Structural)]
pub struct Position {
    pub x: i32,
    pub y: i32,
}

/// Why a level could not be generated.
#[derive(Clone, Copy, Debug, PartialEq, Eq, Structural)]
pub enum MapGenError {
    /// Every placement attempt failed and no room was accepted.
    GenerationExhausted,
}

/// The room lies in a `w` by `h` map with at least one cell of margin on every side,
/// and is at least two cells across so that its centre is inside its interior.
pub open spec fn room_fits(r: Rect, w: int, h: int) -> bool {
    &&& 1 <= r.x1
    &&& r.x1 + 2 <= r.x2
    &&& r.x2 <= w - 2
    &&& 1 <= r.y1
    &&& r.y1 + 2 <= r.y2
    &&& r.y2 <= h - 2
}

/// Every interior cell of a fitting room lies inside the map, clear of the
/// one-cell border.
pub proof fn lemma_room_interior_in_margin(r: Rect, w: int, h: int, x: int, y: int)
    requires
        room_fits(r, w, h),
        r.x1 + 1 <= x < r.x2,
        r.y1 + 1 <= y < r.y2,
    ensures
        1 <= x < w - 1,
        1 <= y < h - 1,
{
}

/// Whether index `i` lies on the L-shaped corridor from `from` to `to` in a map
/// `w` cells wide: along `from`'s row then `to`'s column when `horizontal_first`,
/// else along `from`'s column then `to`'s row.
pub open spec fn corridor_cell(i: int, w: int, from: (int, int), to: (int, int), horizontal_first: bool) -> bool {
    if horizontal_first {
        on_row_run(i, w, from.1, min_int(from.0, to.0), max_int(from.0, to.0))
            || on_column_run(i, w, to.0, min_int(from.1, to.1), max_int(from.1, to.1))
    } else {
        on_column_run(i, w, from.0, min_int(from.1, to.1), max_int(from.1, to.1))
            || on_row_run(i, w, to.1, min_int(from.0, to.0), max_int(from.0, to.0))
    }
}

/// No two distinct rooms overlap.
pub open spec fn rooms_disjoint(rooms: Seq<Rect>) -> bool {
    forall|i: int, j: int|
        0 <= i < rooms.len() && 0 <= j < rooms.len() && i != j ==> !rects_intersect(
            #[trigger] rooms[i],
            #[trigger] rooms[j],
        )
}

/// Every room's centre can be walked to from the first room's centre.
pub open spec fn rooms_connected(tiles: Seq<TileType>, w: int, h: int, rooms: Seq<Rect>) -> bool {
    forall|i: int|
        0 <= i < rooms.len() ==> reachable(tiles, w, h, center_of(rooms[0]), center_of(#[trigger] rooms[i]))
}

/// Every cell of the L-shaped corridor from `from` to `to` that lies in the map is open.
pub open spec fn corridor_open(tiles: Seq<TileType>, w: int, from: (int, int), to: (int, int), horizontal_first: bool) -> bool {
    forall|i: int|
        0 <= i < tiles.len() && #[trigger] corridor_cell(i, w, from, to, horizontal_first)
            ==> tiles[i] != TileType::Wall
}

/// Rooms `a` and `b` are joined by an open L-shaped corridor between their centres,
/// bending one way or the other.
pub open spec fn rooms_joined(tiles: Seq<TileType>, w: int, a: Rect, b: Rect) -> bool {
    corridor_open(tiles, w, center_of(a), center_of(b), true)
        || corridor_open(tiles, w, center_of(a), center_of(b), false)
}

/// The interior of every room is open, and every room after the first is joined to
/// the room placed just before it.
pub open spec fn rooms_open(tiles: Seq<TileType>, w: int, rooms: Seq<Rect>) -> bool {
    &&& forall|k: int, i: int|
        #![trigger in_room_interior(i, w, rooms[k]), tiles[i]]
        0 <= k < rooms.len() && 0 <= i < tiles.len() && in_room_interior(i, w, rooms[k])
            ==> tiles[i] != TileType::Wall
    &&& forall|k: int| 1 <= k < rooms.len() ==> rooms_joined(tiles, w, rooms[k - 1], #[trigger] rooms[k])
}

/// The room's sides lie in `[MIN_SIZE, MAX_SIZE)`.
pub open spec fn room_sized(r: Rect) -> bool {
    &&& MIN_SIZE <= r.x2 - r.x1 < MAX_SIZE
    &&& MIN_SIZE <= r.y2 - r.y1 < MAX_SIZE
}

/// Whether cell `i` is carved for room `k`: in its interior, or on a corridor
/// (either bend) from room `k - 1` to it.
pub open spec fn carved_for_room(i: int, w: int, rooms: Seq<Rect>, k: int) -> bool {
    ||| in_room_interior(i, w, rooms[k])
    ||| (k >= 1 && corridor_cell(i, w, center_of(rooms[k - 1]), center_of(rooms[k]), true))
    ||| (k >= 1 && corridor_cell(i, w, center_of(rooms[k - 1]), center_of(rooms[k]), false))
}

/// Whether cell `i` is carved for any room from position `from` on.
pub open spec fn carved_since(i: int, w: int, rooms: Seq<Rect>, from: int) -> bool {
    exists|k: int| from <= k < rooms.len() && #[trigger] carved_for_room(i, w, rooms, k)
}

/// The index of the centre of the last room.
pub open spec fn stairs_cell(w: int, rooms: Seq<Rect>) -> int {
    cell_index(w, center_of(rooms.last()).0, center_of(rooms.last()).1)
}

/// What one run of generation leaves behind, from `before` to `after` with result `r`.
/// The map keeps its size, depth and flags; the rooms placed so far stay and at most
/// `MAX_ROOMS` new ones follow, each with sides in `[MIN_SIZE, MAX_SIZE)`; all rooms
/// fit, do not overlap, have open interiors and are joined in order of placement.
/// On a map with room for the largest room and its margin, generation succeeds. It
/// fails exactly when no room exists, and then changes nothing. On success the start
/// is the first room's centre, the down stairs are at the last room's centre and no
/// other cell becomes stairs, every room centre can be walked to from the start, and
/// every cell not carved for a new room, other than the stairs, keeps its tile.
pub open spec fn level_generated(before: SimpleMapBuilder, after: SimpleMapBuilder, r: Result<(), MapGenError>) -> bool {
    let w = before.map.width as int;
    let h = before.map.height as int;
    let n = before.rooms@.len() as int;
    let rooms = after.rooms@;
    let t0 = before.map.tiles@;
    let t = after.map.tiles@;
    let start = (after.starting_position.x as int, after.starting_position.y as int);
    &&& after.wf()
    &&& after.map.width == before.map.width
    &&& after.map.height == before.map.height
    &&& after.map.depth == before.map.depth
    &&& after.map.revealed_tiles@ == before.map.revealed_tiles@
    &&& after.map.visible_tiles@ == before.map.visible_tiles@
    &&& after.depth == before.depth
    &&& n <= rooms.len() <= n + MAX_ROOMS
    &&& rooms.subrange(0, n) == before.rooms@
    &&& forall|k: int| n <= k < rooms.len() ==> room_sized(#[trigger] rooms[k])
    &&& forall|k: int| 0 <= k < rooms.len() ==> room_fits(#[trigger] rooms[k], w, h)
    &&& rooms_disjoint(rooms)
    &&& rooms_open(t, w, rooms)
    &&& (w >= MAX_SIZE + 2 && h >= MAX_SIZE + 2 ==> r.is_ok())
    &&& (r.is_err() <==> rooms.len() == 0)
    &&& (r.is_err() ==> t == t0 && after.starting_position == before.starting_position)
    &&& (r.is_ok() ==> start == center_of(rooms[0]))
    &&& (r.is_ok() ==> t[stairs_cell(w, rooms)] == TileType::DownStairs)
    &&& forall|i: int|
        0 <= i < t.len() && #[trigger] t[i] == TileType::DownStairs ==> (r.is_ok() && i == stairs_cell(w, rooms))
            || t0[i] == TileType::DownStairs
    &&& forall|i: int|
        0 <= i < t.len() && !carved_since(i, w, rooms, n) && !(r.is_ok() && i == stairs_cell(w, rooms))
            ==> #[trigger] t[i] == t0[i]
    &&& (r.is_ok() ==> forall|i: int|
        0 <= i < rooms.len() ==> reachable(t, w, h, start, center_of(#[trigger] rooms[i])))
}

/// Builds a level of rectangular rooms, each joined to the one placed before it.
pub struct SimpleMapBuilder {
    pub map: GameMap,
    pub starting_position: Position,
    pub depth: i32,
    pub rooms: Vec<Rect>,
}

/// Whether `room` overlaps any of `rooms`.
pub fn overlaps_any(room: &Rect, rooms: &Vec<Rect>) -> (r: bool)
    ensures
        r == exists|k: int| 0 <= k < rooms@.len() && rects_intersect(*room, #[trigger] rooms@[k]),
{
    let mut j: usize = 0;
    while j < rooms.len()
        invariant
            j <= rooms@.len(),
            forall|k: int| 0 <= k < j ==> !rects_intersect(*room, #[trigger] rooms@[k]),
        decreases rooms@.len() - j,
    {
        if room.intersect(&rooms[j]) {
            return true;
        }
        j = j + 1;
    }
    false
}

proof fn lemma_connected_kept(t1: Seq<TileType>, t2: Seq<TileType>, w: int, h: int, rooms: Seq<Rect>)
    requires
        rooms_connected(t1, w, h, rooms),
        rooms_open(t1, w, rooms),
        walls_only_removed(t1, t2),
    ensures
        rooms_connected(t2, w, h, rooms),
        rooms_open(t2, w, rooms),
{
    assert forall|k: int| 1 <= k < rooms.len() implies rooms_joined(t2, w, rooms[k - 1], #[trigger] rooms[k]) by {
        assert(rooms_joined(t1, w, rooms[k - 1], rooms[k]));
        let a = center_of(rooms[k - 1]);
        let b = center_of(rooms[k]);
        if corridor_open(t1, w, a, b, true) {
            assert forall|i: int| 0 <= i < t2.len() && #[trigger] corridor_cell(i, w, a, b, true)
                implies t2[i] != TileType::Wall by {
                assert(t1[i] != TileType::Wall);
            }
        } else {
            assert forall|i: int| 0 <= i < t2.len() && #[trigger] corridor_cell(i, w, a, b, false)
                implies t2[i] != TileType::Wall by {
                assert(t1[i] != TileType::Wall);
            }
        }
    }
    assert forall|k: int, i: int|
        #![trigger in_room_interior(i, w, rooms[k]), t2[i]]
        0 <= k < rooms.len() && 0 <= i < t2.len() && in_room_interior(i, w, rooms[k])
            implies t2[i] != TileType::Wall by {
        assert(t1[i] != TileType::Wall);
    }
    assert forall|i: int| 0 <= i < rooms.len() implies reachable(
        t2,
        w,
        h,
        center_of(rooms[0]),
        center_of(#[trigger] rooms[i]),
    ) by {
        lemma_reachable_kept(t1, t2, w, h, center_of(rooms[0]), center_of(rooms[i]));
    }
}

/// A carved run along a row inside the map joins its two ends.
proof fn lemma_row_carved(t: Seq<TileType>, w: int, h: int, y: int, xa: int, xb: int)
    requires
        t.len() == w * h,
        0 <= y < h,
        0 <= xa < w,
        0 <= xb < w,
        forall|i: int|
            0 <= i < t.len() && on_row_run(i, w, y, min_int(xa, xb), max_int(xa, xb))
                ==> #[trigger] t[i] == TileType::Floor,
    ensures
        reachable(t, w, h, (xa, y), (xb, y)),
{
    assert forall|x: int| #![trigger cell_index(w, x, y)]
        (xa <= x <= xb || xb <= x <= xa) implies passable(t, w, h, x, y) by {
        lemma_cell_in_grid(w, h, x, y);
        assert(t[cell_index(w, x, y)] == TileType::Floor);
    }
    lemma_row_reachable(t, w, h, y, xa, xb);
}

/// A carved run along a column inside the map joins its two ends.
proof fn lemma_column_carved(t: Seq<TileType>, w: int, h: int, x: int, ya: int, yb: int)
    requires
        t.len() == w * h,
        0 <= x < w,
        0 <= ya < h,
        0 <= yb < h,
        forall|i: int|
            0 <= i < t.len() && on_column_run(i, w, x, min_int(ya, yb), max_int(ya, yb))
                ==> #[trigger] t[i] == TileType::Floor,
    ensures
        reachable(t, w, h, (x, ya), (x, yb)),
{
    assert forall|y: int| #![trigger cell_index(w, x, y)]
        (ya <= y <= yb || yb <= y <= ya) implies passable(t, w, h, x, y) by {
        lemma_cell_in_grid(w, h, x, y);
        assert(on_column_run(cell_index(w, x, y), w, x, min_int(ya, yb), max_int(ya, yb)));
        assert(t[cell_index(w, x, y)] == TileType::Floor);
    }
    lemma_column_reachable(t, w, h, x, ya, yb);
}

impl SimpleMapBuilder {
    /// The builder's invariant: a well-formed map whose rooms fit, do not overlap,
    /// and are all reachable from the first one.
    pub open spec fn wf(&self) -> bool {
        &&& self.map.wf()
        &&& forall|i: int|
            0 <= i < self.rooms@.len() ==> room_fits(
                #[trigger] self.rooms@[i],
                self.map.width as int,
                self.map.height as int,
            )
        &&& rooms_disjoint(self.rooms@)
        &&& rooms_connected(self.map.tiles@, self.map.width as int, self.map.height as int, self.rooms@)
        &&& rooms_open(self.map.tiles@, self.map.width as int, self.rooms@)
    }

    /// A builder over a solid map of the given size, with no rooms yet.
    pub fn new(depth: i32, width: i32, height: i32) -> (b: SimpleMapBuilder)
        requires
            width > 0,
            height > 0,
            width * height <= i32::MAX,
        ensures
            b.wf(),
            b.map.width == width,
            b.map.height == height,
            b.map.depth == depth,
            forall|i: int| 0 <= i < b.map.tiles@.len() ==> b.map.tiles@[i] == TileType::Wall,
            forall|i: int| 0 <= i < b.map.revealed_tiles@.len() ==> !b.map.revealed_tiles@[i],
            forall|i: int| 0 <= i < b.map.visible_tiles@.len() ==> !b.map.visible_tiles@[i],
            b.starting_position == (Position { x: 0, y: 0 }),
            b.depth == depth,
            b.rooms@.len() == 0,
    {
        SimpleMapBuilder {
            map: GameMap::new(depth, width, height),
            starting_position: Position { x: 0, y: 0 },
            depth,
            rooms: Vec::new(),
        }
    }

    /// Places up to `MAX_ROOMS` rooms drawn from `rng`, carves each and joins it to
    /// the room accepted before it by an L-shaped corridor, then puts the down
    /// stairs at the centre of the last room and the start at the centre of the
    /// first. Fails, leaving the map as it was, when no room was ever accepted.
    pub fn rooms_and_corridors(&mut self, rng: &mut RandomNumberGenerator) -> (r: Result<(), MapGenError>)
        requires
            old(self).wf(),
        ensures
            level_generated(*old(self), *final(self), r),
    {
        let ghost w = self.map.width as int;
        let ghost h = self.map.height as int;
        let mut attempt: i32 = 0;
        while attempt < MAX_ROOMS
            invariant
                self.wf(),
                self.map.width == old(self).map.width,
                self.map.height == old(self).map.height,
                self.map.depth == old(self).map.depth,
                self.map.revealed_tiles@ == old(self).map.revealed_tiles@,
                self.map.visible_tiles@ == old(self).map.visible_tiles@,
                self.depth == old(self).depth,
                self.starting_position == old(self).starting_position,
                w == self.map.width,
                h == self.map.height,
                0 <= attempt <= MAX_ROOMS,
                old(self).rooms@.len() <= self.rooms@.len() <= old(self).rooms@.len() + attempt,
                self.rooms@.subrange(0, old(self).rooms@.len() as int) == old(self).rooms@,
                self.rooms@.len() == old(self).rooms@.len() ==> self.map.tiles@ == old(self).map.tiles@,
                forall|k: int|
                    old(self).rooms@.len() <= k < self.rooms@.len() ==> room_sized(#[trigger] self.rooms@[k]),
                attempt > 0 && w >= MAX_SIZE + 2 && h >= MAX_SIZE + 2 ==> self.rooms@.len() > 0,
                self.map.tiles@.len() == old(self).map.tiles@.len(),
                forall|i: int|
                    0 <= i < self.map.tiles@.len() && #[trigger] self.map.tiles@[i] == TileType::DownStairs
                        ==> old(self).map.tiles@[i] == TileType::DownStairs,
                forall|i: int|
                    0 <= i < self.map.tiles@.len() && !carved_since(i, w, self.rooms@, old(self).rooms@.len() as int)
                        ==> #[trigger] self.map.tiles@[i] == old(self).map.tiles@[i],
            decreases MAX_ROOMS - attempt,
        {
            let rw = random_range(rng, MIN_SIZE, MAX_SIZE);
            let rh = random_range(rng, MIN_SIZE, MAX_SIZE);
            if 1 < self.map.width - rw - 1 && 1 < self.map.height - rh - 1 {
                let x = random_range(rng, 1, self.map.width - rw - 1);
                let y = random_range(rng, 1, self.map.height - rh - 1);
                let new_room = Rect::new(x, y, rw, rh);
                if !overlaps_any(&new_room, &self.rooms) {
                    let horizontal_first = self.rooms.len() > 0 && random_range(rng, 0, 3) == 1;
                    let ghost tb = self.map.tiles@;
                    let ghost rb = self.rooms@;
                    self.add_room(new_room, horizontal_first);
                    proof {
                        let n = old(self).rooms@.len() as int;
                        let ra = self.rooms@;
                        let ta = self.map.tiles@;
                        assert(ra[rb.len() as int] == new_room);
                        assert forall|i: int|
                            0 <= i < ta.len() && !carved_since(i, w, ra, n) implies #[trigger] ta[i]
                            == old(self).map.tiles@[i] by {
                            if carved_since(i, w, rb, n) {
                                let k = choose|k: int| n <= k < rb.len() && #[trigger] carved_for_room(i, w, rb, k);
                                assert(ra[k] == rb[k]);
                                if k >= 1 {
                                    assert(ra[k - 1] == rb[k - 1]);
                                }
                                assert(carved_for_room(i, w, ra, k));
                            }
                            if rb.len() >= n {
                                assert(!carved_for_room(i, w, ra, rb.len() as int));
                            }
                            if rb.len() > 0 {
                                assert(ra[rb.len() - 1] == rb.last());
                            }
                        }
                    }
                }
            }
            attempt = attempt + 1;
        }
        if self.rooms.len() == 0 {
            return Err(MapGenError::GenerationExhausted);
        }
        let ghost t0 = self.map.tiles@;
        let ghost last = self.rooms@.len() - 1;
        let (stairs_x, stairs_y) = self.rooms[self.rooms.len() - 1].center();
        proof {
            assert(room_fits(self.rooms@[self.rooms@.len() - 1], w, h));
        }
        let stairs_idx = self.map.xy_idx(stairs_x, stairs_y);
        self.map.tiles.set(stairs_idx, TileType::DownStairs);
        let (start_x, start_y) = self.rooms[0].center();
        self.starting_position = Position { x: start_x, y: start_y };
        proof {
            assert(walls_only_removed(t0, self.map.tiles@));
            lemma_connected_kept(t0, self.map.tiles@, w, h, self.rooms@);
            assert(self.rooms@.last() == self.rooms@[last]);
            assert(stairs_idx as int == stairs_cell(w, self.rooms@));
        }
        Ok(())
    }

    /// Generates the level's layout by `rooms_and_corridors`, with the same outcome.
    pub fn build_map(&mut self, rng: &mut RandomNumberGenerator) -> (r: Result<(), MapGenError>)
        requires
            old(self).wf(),
        ensures
            level_generated(*old(self), *final(self), r),
    {
        self.rooms_and_corridors(rng)
    }

    /// A copy of the map built so far.
    pub fn get_map(&self) -> (r: GameMap)
        ensures
            r.tiles@ == self.map.tiles@,
            r.revealed_tiles@ == self.map.revealed_tiles@,
            r.visible_tiles@ == self.map.visible_tiles@,
            r.width == self.map.width,
            r.height == self.map.height,
            r.depth == self.map.depth,
    {
        self.map.duplicate()
    }

    /// Where the player starts.
    pub fn get_starting_position(&self) -> (r: Position)
        ensures
            r == self.starting_position,
    {
        self.starting_position
    }

    /// The rooms to populate: every room but the first, which the player starts in,
    /// in the order they were placed.
    pub fn spawn_rooms(&self) -> (r: Vec<Rect>)
        ensures
            self.rooms@.len() == 0 ==> r@.len() == 0,
            self.rooms@.len() > 0 ==> r@ == self.rooms@.subrange(1, self.rooms@.len() as int),
    {
        let mut r: Vec<Rect> = Vec::new();
        let mut i: usize = 1;
        while i < self.rooms.len()
            invariant
                1 <= i,
                i <= self.rooms@.len() || self.rooms@.len() == 0,
                self.rooms@.len() > 0 ==> r@ == self.rooms@.subrange(1, i as int),
                self.rooms@.len() == 0 ==> r@.len() == 0,
            decreases self.rooms@.len() - i,
        {
            r.push(self.rooms[i]);
            i = i + 1;
        }
        r
    }

    /// Carves an accepted room and, when it is not the first, an L-shaped corridor
    /// from the previous room's centre to its own, along the previous room's row
    /// first when `horizontal_first` holds and along its column first otherwise.
    /// Then records the room.
    pub fn add_room(&mut self, new_room: Rect, horizontal_first: bool)
        requires
            old(self).wf(),
            room_fits(new_room, old(self).map.width as int, old(self).map.height as int),
            forall|k: int|
                0 <= k < old(self).rooms@.len() ==> !rects_intersect(new_room, #[trigger] old(self).rooms@[k]),
        ensures
            final(self).wf(),
            final(self).map.width == old(self).map.width,
            final(self).map.height == old(self).map.height,
            final(self).map.depth == old(self).map.depth,
            final(self).map.revealed_tiles@ == old(self).map.revealed_tiles@,
            final(self).map.visible_tiles@ == old(self).map.visible_tiles@,
            final(self).depth == old(self).depth,
            final(self).starting_position == old(self).starting_position,
            final(self).rooms@ == old(self).rooms@.push(new_room),
            final(self).map.tiles@.len() == old(self).map.tiles@.len(),
            forall|i: int|
                0 <= i < final(self).map.tiles@.len() ==> #[trigger] final(self).map.tiles@[i] == if in_room_interior(
                    i,
                    old(self).map.width as int,
                    new_room,
                ) || (old(self).rooms@.len() > 0 && corridor_cell(
                    i,
                    old(self).map.width as int,
                    center_of(old(self).rooms@.last()),
                    center_of(new_room),
                    horizontal_first,
                )) {
                    TileType::Floor
                } else {
                    old(self).map.tiles@[i]
                },
    {
        let ghost w = self.map.width as int;
        let ghost h = self.map.height as int;
        let ghost t0 = self.map.tiles@;
        let ghost rooms0 = self.rooms@;
        apply_room_to_map(&mut self.map, &new_room);
        let ghost t1 = self.map.tiles@;
        let (new_x, new_y) = new_room.center();
        proof {
            lemma_index_parts(w, new_x as int, new_y as int);
            lemma_cell_in_grid(w, h, new_x as int, new_y as int);
            assert(in_room_interior(cell_index(w, new_x as int, new_y as int), w, new_room));
            assert(passable(t1, w, h, new_x as int, new_y as int));
        }
        if self.rooms.len() > 0 {
            let (prev_x, prev_y) = self.rooms[self.rooms.len() - 1].center();
            proof {
                assert(room_fits(rooms0[rooms0.len() - 1], w, h));
            }
            if horizontal_first {
                apply_horizontal_tunnel(&mut self.map, prev_x, new_x, prev_y);
                let ghost t2 = self.map.tiles@;
                proof {
                    lemma_row_carved(t2, w, h, prev_y as int, prev_x as int, new_x as int);
                }
                apply_vertical_tunnel(&mut self.map, prev_y, new_y, new_x);
                proof {
                    let t3 = self.map.tiles@;
                    lemma_column_carved(t3, w, h, new_x as int, prev_y as int, new_y as int);
                    assert(walls_only_removed(t2, t3));
                    lemma_reachable_kept(t2, t3, w, h, (prev_x as int, prev_y as int), (new_x as int, prev_y as int));
                    lemma_reachable_trans(t3, w, h, (prev_x as int, prev_y as int), (new_x as int, prev_y as int), (new_x as int, new_y as int));
                }
            } else {
                apply_vertical_tunnel(&mut self.map, prev_y, new_y, prev_x);
                let ghost t2 = self.map.tiles@;
                proof {
                    lemma_column_carved(t2, w, h, prev_x as int, prev_y as int, new_y as int);
                }
                apply_horizontal_tunnel(&mut self.map, prev_x, new_x, new_y);
                proof {
                    let t3 = self.map.tiles@;
                    lemma_row_carved(t3, w, h, new_y as int, prev_x as int, new_x as int);
                    assert(walls_only_removed(t2, t3));
                    lemma_reachable_kept(t2, t3, w, h, (prev_x as int, prev_y as int), (prev_x as int, new_y as int));
                    lemma_reachable_trans(t3, w, h, (prev_x as int, prev_y as int), (prev_x as int, new_y as int), (new_x as int, new_y as int));
                }
            }
            proof {
                let t3 = self.map.tiles@;
                assert(walls_only_removed(t0, t3));
                lemma_connected_kept(t0, t3, w, h, rooms0);
                let last = rooms0.len() - 1;
                assert(reachable(t3, w, h, center_of(rooms0[0]), center_of(rooms0[last])));
                lemma_reachable_trans(t3, w, h, center_of(rooms0[0]), center_of(rooms0[last]), (new_x as int, new_y as int));
            }
        } else {
            proof {
                lemma_reachable_self(t1, w, h, (new_x as int, new_y as int));
            }
        }
        let ghost t3 = self.map.tiles@;
        self.rooms.push(new_room);
        proof {
            let rooms = self.rooms@;
            assert(rooms[rooms.len() - 1] == new_room);
            assert forall|i: int, j: int|
                0 <= i < rooms.len() && 0 <= j < rooms.len() && i != j implies !rects_intersect(
                #[trigger] rooms[i],
                #[trigger] rooms[j],
            ) by {
                if i == rooms.len() - 1 {
                    assert(!rects_intersect(new_room, rooms0[j]));
                } else if j == rooms.len() - 1 {
                    assert(!rects_intersect(new_room, rooms0[i]));
                    lemma_intersect_symmetric(new_room, rooms0[i]);
                } else {
                    assert(rooms[i] == rooms0[i] && rooms[j] == rooms0[j]);
                }
            }
            assert forall|i: int| 0 <= i < rooms.len() implies reachable(
                t3,
                w,
                h,
                center_of(rooms[0]),
                center_of(#[trigger] rooms[i]),
            ) by {
                if i < rooms.len() - 1 {
                    assert(rooms[i] == rooms0[i]);
                    assert(rooms[0] == rooms0[0]);
                }
            }
        }
    }
}

} // verus!
