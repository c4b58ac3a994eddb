use malefactor::map::{apply_horizontal_tunnel, apply_room_to_map, apply_vertical_tunnel, GameMap, TileType};
use malefactor::rect::Rect;
use malefactor::simple_map::{overlaps_any, MapGenError, Position, SimpleMapBuilder, MAX_ROOMS};
use rltk::RandomNumberGenerator;
use std::collections::VecDeque;

fn passable(map: &GameMap, x: i32, y: i32) -> bool {
    x >= 0
        && y >= 0
        && x < map.width
        && y < map.height
        && map.tiles[(y * map.width + x) as usize] != TileType::Wall
}

fn flood_fill(map: &GameMap, start: (i32, i32)) -> Vec<bool> {
    let mut seen = vec![false; map.tiles.len()];
    let mut queue = VecDeque::new();
    if passable(map, start.0, start.1) {
        seen[(start.1 * map.width + start.0) as usize] = true;
        queue.push_back(start);
    }
    while let Some((x, y)) = queue.pop_front() {
        for (dx, dy) in [(0, 1), (0, -1), (1, 0), (-1, 0)] {
            let (nx, ny) = (x + dx, y + dy);
            if passable(map, nx, ny) {
                let i = (ny * map.width + nx) as usize;
                if !seen[i] {
                    seen[i] = true;
                    queue.push_back((nx, ny));
                }
            }
        }
    }
    seen
}

fn build(seed: u64, width: i32, height: i32) -> (SimpleMapBuilder, Result<(), MapGenError>) {
    let mut rng = RandomNumberGenerator::seeded(seed);
    let mut builder = SimpleMapBuilder::new(1, width, height);
    let r = builder.rooms_and_corridors(&mut rng);
    (builder, r)
}

#[test]
fn rect_new_sets_corners() {
    let r = Rect::new(3, 4, 6, 7);
    assert_eq!((r.x1, r.y1, r.x2, r.y2), (3, 4, 9, 11));
}

#[test]
fn rect_intersect_is_inclusive_and_symmetric() {
    let a = Rect::new(0, 0, 5, 5);
    let touching = Rect::new(5, 5, 3, 3);
    let apart = Rect::new(6, 0, 3, 3);
    assert!(a.intersect(&touching));
    assert!(touching.intersect(&a));
    assert!(!a.intersect(&apart));
    assert!(!apart.intersect(&a));
}

#[test]
fn rect_center_rounds_down() {
    assert_eq!(Rect::new(2, 3, 7, 6).center(), (5, 6));
    assert_eq!(Rect::new(-3, -3, 2, 2).center(), (-2, -2));
}

#[test]
fn new_map_is_solid_wall() {
    let m = GameMap::new(2, 80, 50);
    assert_eq!(m.tiles.len(), 4000);
    assert!(m.tiles.iter().all(|t| *t == TileType::Wall));
    assert!(m.revealed_tiles.iter().all(|b| !*b));
    assert!(m.visible_tiles.iter().all(|b| !*b));
    assert_eq!(m.depth, 2);
    assert_eq!(m.xy_idx(3, 2), 163);
}

#[test]
fn room_stamp_leaves_perimeter() {
    let mut m = GameMap::new(1, 20, 20);
    apply_room_to_map(&mut m, &Rect::new(2, 2, 4, 3));
    for y in 0..20 {
        for x in 0..20 {
            let expected = if (3..6).contains(&x) && (3..5).contains(&y) { TileType::Floor } else { TileType::Wall };
            assert_eq!(m.tiles[m.xy_idx(x, y)], expected, "cell ({}, {})", x, y);
        }
    }
}

#[test]
fn tunnels_carve_inclusive_runs() {
    let mut m = GameMap::new(1, 20, 20);
    apply_horizontal_tunnel(&mut m, 8, 3, 4);
    for x in 3..=8 {
        assert_eq!(m.tiles[m.xy_idx(x, 4)], TileType::Floor);
    }
    assert_eq!(m.tiles[m.xy_idx(2, 4)], TileType::Wall);
    assert_eq!(m.tiles[m.xy_idx(9, 4)], TileType::Wall);
    apply_vertical_tunnel(&mut m, 2, 6, 10);
    for y in 2..=6 {
        assert_eq!(m.tiles[m.xy_idx(10, y)], TileType::Floor);
    }
    assert_eq!(m.tiles[m.xy_idx(10, 7)], TileType::Wall);
    assert_eq!(m.tiles.iter().filter(|t| **t == TileType::Floor).count(), 11);
}

#[test]
fn tunnels_drop_cells_outside_the_map() {
    let mut m = GameMap::new(1, 10, 10);
    apply_vertical_tunnel(&mut m, -5, 1, 0);
    assert_eq!(m.tiles[0], TileType::Floor);
    assert_eq!(m.tiles[10], TileType::Floor);
    assert_eq!(m.tiles.iter().filter(|t| **t == TileType::Floor).count(), 2);
    let mut n = GameMap::new(1, 10, 10);
    apply_horizontal_tunnel(&mut n, 95, 120, 0);
    assert_eq!(n.tiles[95..].iter().filter(|t| **t == TileType::Floor).count(), 5);
}

#[test]
fn new_builder_is_empty() {
    let b = SimpleMapBuilder::new(3, 80, 50);
    assert_eq!(b.depth, 3);
    assert!(b.rooms.is_empty());
    assert_eq!(b.get_starting_position(), Position { x: 0, y: 0 });
    assert_eq!(b.get_map().tiles.len(), 4000);
}

#[test]
fn seeded_generation_is_repeatable() {
    let (a, ra) = build(1234, 80, 50);
    let (b, rb) = build(1234, 80, 50);
    assert!(ra.is_ok() && rb.is_ok());
    assert_eq!(a.rooms, b.rooms);
    assert_eq!(a.starting_position, b.starting_position);
    assert_eq!(a.map.tiles, b.map.tiles);
    let last = a.rooms[a.rooms.len() - 1].center();
    assert_eq!(a.map.tiles[a.map.xy_idx(last.0, last.1)], TileType::DownStairs);
    assert_eq!(b.map.tiles[b.map.xy_idx(last.0, last.1)], TileType::DownStairs);
}

#[test]
fn generated_rooms_fit_do_not_overlap_and_connect() {
    for seed in 0..40u64 {
        let (b, r) = build(seed, 80, 50);
        assert!(r.is_ok());
        assert!(!b.rooms.is_empty() && b.rooms.len() <= MAX_ROOMS as usize);
        for room in &b.rooms {
            assert!(room.x1 >= 1 && room.x2 <= 78 && room.y1 >= 1 && room.y2 <= 48);
        }
        for i in 0..b.rooms.len() {
            for j in 0..b.rooms.len() {
                if i != j {
                    assert!(!b.rooms[i].intersect(&b.rooms[j]));
                }
            }
        }
        let start = b.get_starting_position();
        assert_eq!((start.x, start.y), b.rooms[0].center());
        let seen = flood_fill(&b.map, (start.x, start.y));
        for room in &b.rooms {
            let (cx, cy) = room.center();
            assert!(seen[b.map.xy_idx(cx, cy)], "seed {} room {:?}", seed, room);
        }
        let spawn = b.spawn_rooms();
        assert_eq!(spawn.as_slice(), &b.rooms[1..]);
    }
}

#[test]
fn build_map_generates_the_layout() {
    let mut rng = RandomNumberGenerator::seeded(7);
    let mut b = SimpleMapBuilder::new(1, 80, 50);
    assert!(b.build_map(&mut rng).is_ok());
    assert!(!b.rooms.is_empty());
    assert!(b.get_map().tiles.iter().any(|t| *t == TileType::DownStairs));
}

#[test]
fn tiny_map_reports_exhaustion() {
    let (b, r) = build(99, 8, 8);
    assert_eq!(r, Err(MapGenError::GenerationExhausted));
    assert!(b.rooms.is_empty());
    assert!(b.map.tiles.iter().all(|t| *t == TileType::Wall));
    assert_eq!(b.starting_position, Position { x: 0, y: 0 });
}

#[test]
fn add_room_carves_room_and_corridor() {
    let mut b = SimpleMapBuilder::new(1, 20, 20);
    b.add_room(Rect::new(1, 1, 6, 6), false);
    let floors = b.map.tiles.iter().filter(|t| **t == TileType::Floor).count();
    assert_eq!(floors, 25);
    b.add_room(Rect::new(10, 10, 6, 6), true);
    let at = |b: &SimpleMapBuilder, x: i32, y: i32| b.map.tiles[b.map.xy_idx(x, y)];
    assert_eq!(at(&b, 8, 4), TileType::Floor);
    assert_eq!(at(&b, 13, 4), TileType::Floor);
    assert_eq!(at(&b, 13, 8), TileType::Floor);
    assert_eq!(at(&b, 4, 8), TileType::Wall);
    assert_eq!(b.rooms.len(), 2);

    let mut c = SimpleMapBuilder::new(1, 20, 20);
    c.add_room(Rect::new(1, 1, 6, 6), false);
    c.add_room(Rect::new(10, 10, 6, 6), false);
    assert_eq!(at(&c, 4, 8), TileType::Floor);
    assert_eq!(at(&c, 8, 13), TileType::Floor);
    assert_eq!(at(&c, 8, 4), TileType::Wall);
}

#[test]
fn overlap_check_against_placed_rooms() {
    let placed = vec![Rect::new(1, 1, 6, 6), Rect::new(20, 20, 6, 6)];
    assert!(overlaps_any(&Rect::new(7, 7, 6, 6), &placed));
    assert!(!overlaps_any(&Rect::new(8, 8, 6, 6), &placed));
    assert!(!overlaps_any(&Rect::new(8, 8, 6, 6), &vec![]));
}

#[test]
fn generation_succeeds_with_sized_rooms_and_one_stairs_cell() {
    for seed in 0..20u64 {
        let (b, r) = build(seed, 12, 12);
        assert!(r.is_ok(), "seed {}", seed);
        assert!(!b.rooms.is_empty());
        let (b, r) = build(seed, 80, 50);
        assert!(r.is_ok());
        for room in &b.rooms {
            assert!((6..10).contains(&(room.x2 - room.x1)) && (6..10).contains(&(room.y2 - room.y1)));
            for y in room.y1 + 1..room.y2 {
                for x in room.x1 + 1..room.x2 {
                    assert_ne!(b.map.tiles[b.map.xy_idx(x, y)], TileType::Wall);
                }
            }
        }
        let last = b.rooms[b.rooms.len() - 1].center();
        let stairs: Vec<usize> = (0..b.map.tiles.len()).filter(|i| b.map.tiles[*i] == TileType::DownStairs).collect();
        assert_eq!(stairs, vec![b.map.xy_idx(last.0, last.1)]);
        for x in 0..80 {
            assert_eq!(b.map.tiles[b.map.xy_idx(x, 0)], TileType::Wall);
            assert_eq!(b.map.tiles[b.map.xy_idx(x, 49)], TileType::Wall);
        }
        for y in 0..50 {
            assert_eq!(b.map.tiles[b.map.xy_idx(0, y)], TileType::Wall);
            assert_eq!(b.map.tiles[b.map.xy_idx(79, y)], TileType::Wall);
        }
        assert!(b.map.revealed_tiles.iter().all(|v| !*v));
    }
}
