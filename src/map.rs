//! The tile map and the carving of rooms and corridors.

use vstd::prelude::*;

use crate::rect::Rect;

verus! {

/// Width of the dungeon map in cells.
pub const MAP_WIDTH: i32 = 80;

/// Height of the dungeon map in cells.
pub const MAP_HEIGHT: i32 = 43;

/// One map cell.
#[derive(Clone, Copy, Debug, PartialEq, Eq, Structural)]
pub struct Tile {
    pub blocked: bool,
    pub explored: bool,
    pub block_sight: bool,
}

impl Tile {
    pub fn empty() -> (t: Tile)
        ensures
            t == (Tile { blocked: false, explored: false, block_sight: false }),
    {
        Tile { blocked: false, explored: false, block_sight: false }
    }

    pub fn wall() -> (t: Tile)
        ensures
            t == (Tile { blocked: true, explored: false, block_sight: true }),
    {
        Tile { blocked: true, explored: false, block_sight: true }
    }
}

/// The map, as columns: `map[x][y]`.
pub type TileMap = Vec<Vec<Tile>>;

pub open spec fn in_bounds(x: int, y: int) -> bool {
    0 <= x < MAP_WIDTH && 0 <= y < MAP_HEIGHT
}

/// The map has `MAP_WIDTH` columns of `MAP_HEIGHT` cells.
pub open spec fn map_wf(m: TileMap) -> bool {
    &&& m@.len() == MAP_WIDTH
    &&& forall|x: int| 0 <= x < MAP_WIDTH ==> #[trigger] m@[x]@.len() == MAP_HEIGHT
}

pub open spec fn tile_at(m: TileMap, x: int, y: int) -> Tile {
    m@[x]@[y]
}

pub(crate) fn set_tile(map: &mut TileMap, x: usize, y: usize, t: Tile)
    requires
        map_wf(*old(map)),
        x < MAP_WIDTH,
        y < MAP_HEIGHT,
    ensures
        map_wf(*final(map)),
        forall|i: int, j: int|
            in_bounds(i, j) ==> #[trigger] tile_at(*final(map), i, j) == if i == x && j == y {
                t
            } else {
                tile_at(*old(map), i, j)
            },
{
    map[x].set(y, t);
}


pub open spec fn min_int(a: int, b: int) -> int {
    if a <= b { a } else { b }
}

pub open spec fn max_int(a: int, b: int) -> int {
    if a <= b { b } else { a }
}

/// The cell lies on the horizontal segment from `(x1, y)` to `(x2, y)`.
pub open spec fn on_h_segment(x1: int, x2: int, y: int, i: int, j: int) -> bool {
    j == y && min_int(x1, x2) <= i <= max_int(x1, x2)
}

/// The cell lies on the vertical segment from `(x, y1)` to `(x, y2)`.
pub open spec fn on_v_segment(y1: int, y2: int, x: int, i: int, j: int) -> bool {
    i == x && min_int(y1, y2) <= j <= max_int(y1, y2)
}

/// Carving: the cells where `carved` holds become empty floor, all others stay.
pub open spec fn carved_from(
    before: TileMap,
    after: TileMap,
    carved: spec_fn(int, int) -> bool,
) -> bool {
    &&& map_wf(after)
    &&& forall|i: int, j: int|
        in_bounds(i, j) ==> #[trigger] tile_at(after, i, j) == if carved(i, j) {
            Tile { blocked: false, explored: false, block_sight: false }
        } else {
            tile_at(before, i, j)
        }
}

/// The cell is on the map and not blocked.
pub open spec fn open_cell(m: TileMap, x: int, y: int) -> bool {
    in_bounds(x, y) && !tile_at(m, x, y).blocked
}

/// Every cell open in `before` is open in `after`.
pub open spec fn keeps_open(before: TileMap, after: TileMap) -> bool {
    forall|x: int, y: int| #[trigger] open_cell(before, x, y) ==> open_cell(after, x, y)
}

/// Every tile is unexplored, and blocks sight exactly when it blocks movement
/// (a wall or a floor).
pub open spec fn plain_tiles(m: TileMap) -> bool {
    forall|x: int, y: int|
        in_bounds(x, y) ==> !(#[trigger] tile_at(m, x, y)).explored && tile_at(m, x, y).blocked
            == tile_at(m, x, y).block_sight
}

/// The cells open in `after` are those open in `before` and those where `carved` holds.
pub open spec fn opened(before: TileMap, after: TileMap, carved: spec_fn(int, int) -> bool) -> bool {
    forall|x: int, y: int|
        in_bounds(x, y) ==> #[trigger] open_cell(after, x, y) == (carved(x, y) || open_cell(before, x, y))
}

/// Carving never closes a cell, opens exactly the carved cells, and keeps tiles plain.
pub proof fn lemma_carving_keeps_open(
    before: TileMap,
    after: TileMap,
    carved: spec_fn(int, int) -> bool,
)
    requires
        carved_from(before, after, carved),
    ensures
        keeps_open(before, after),
        opened(before, after, carved),
        plain_tiles(before) ==> plain_tiles(after),
{
    assert forall|x: int, y: int| in_bounds(x, y) implies #[trigger] open_cell(after, x, y) == (carved(
        x,
        y,
    ) || open_cell(before, x, y)) by {
        assert(tile_at(after, x, y) == if carved(x, y) {
            Tile { blocked: false, explored: false, block_sight: false }
        } else {
            tile_at(before, x, y)
        });
    }
    if plain_tiles(before) {
        assert forall|x: int, y: int| in_bounds(x, y) implies !(#[trigger] tile_at(after, x, y)).explored
            && tile_at(after, x, y).blocked == tile_at(after, x, y).block_sight by {
            assert(tile_at(before, x, y) == tile_at(before, x, y));
        }
    }
    assert forall|x: int, y: int| #[trigger] open_cell(before, x, y) implies open_cell(after, x, y) by {
        assert(tile_at(after, x, y) == if carved(x, y) {
            Tile { blocked: false, explored: false, block_sight: false }
        } else {
            tile_at(before, x, y)
        });
    }
}

/// A map of the given size made of walls only.
pub fn new_map() -> (m: TileMap)
    ensures
        map_wf(m),
        forall|i: int, j: int|
            in_bounds(i, j) ==> #[trigger] tile_at(m, i, j) == (Tile {
                blocked: true,
                explored: false,
                block_sight: true,
            }),
{
    let mut m: TileMap = Vec::new();
    let mut x: usize = 0;
    while x < MAP_WIDTH as usize
        invariant
            x <= MAP_WIDTH,
            m@.len() == x,
            forall|i: int| 0 <= i < x ==> #[trigger] m@[i]@.len() == MAP_HEIGHT,
            forall|i: int, j: int|
                0 <= i < x && 0 <= j < MAP_HEIGHT ==> #[trigger] m@[i]@[j] == (Tile {
                    blocked: true,
                    explored: false,
                    block_sight: true,
                }),
        decreases MAP_WIDTH - x,
    {
        let mut col: Vec<Tile> = Vec::new();
        let mut y: usize = 0;
        while y < MAP_HEIGHT as usize
            invariant
                y <= MAP_HEIGHT,
                col@.len() == y,
                forall|j: int| 0 <= j < y ==> #[trigger] col@[j] == (Tile {
                    blocked: true,
                    explored: false,
                    block_sight: true,
                }),
            decreases MAP_HEIGHT - y,
        {
            col.push(Tile::wall());
            y = y + 1;
        }
        m.push(col);
        x = x + 1;
    }
    m
}

/// Clears the interior of `room` (its cells strictly inside the border).
pub fn create_room(room: Rect, map: &mut TileMap)
    requires
        map_wf(*old(map)),
        0 <= room.x1 <= room.x2 <= MAP_WIDTH,
        0 <= room.y1 <= room.y2 <= MAP_HEIGHT,
    ensures
        keeps_open(*old(map), *final(map)),
        carved_from(*old(map), *final(map), |i: int, j: int| room.interior_contains(i, j)),
        opened(*old(map), *final(map), |i: int, j: int| room.interior_contains(i, j)),
        plain_tiles(*old(map)) ==> plain_tiles(*final(map)),
{
    let mut x: i32 = room.x1 + 1;
    while x < room.x2
        invariant
            room.x1 + 1 <= x <= room.x2 || (x == room.x1 + 1 && room.x2 <= room.x1 + 1),
            0 <= room.x1 <= room.x2 <= MAP_WIDTH,
            0 <= room.y1 <= room.y2 <= MAP_HEIGHT,
            map_wf(*map),
            forall|i: int, j: int|
                in_bounds(i, j) ==> #[trigger] tile_at(*map, i, j) == if room.x1 < i < x
                    && room.y1 < j < room.y2 {
                    Tile { blocked: false, explored: false, block_sight: false }
                } else {
                    tile_at(*old(map), i, j)
                },
        decreases room.x2 - x,
    {
        let mut y: i32 = room.y1 + 1;
        while y < room.y2
            invariant
                room.x1 + 1 <= x < room.x2,
                room.y1 + 1 <= y <= room.y2 || (y == room.y1 + 1 && room.y2 <= room.y1 + 1),
                0 <= room.x1 <= room.x2 <= MAP_WIDTH,
                0 <= room.y1 <= room.y2 <= MAP_HEIGHT,
                map_wf(*map),
                forall|i: int, j: int|
                    in_bounds(i, j) ==> #[trigger] tile_at(*map, i, j) == if (room.x1 < i < x
                        && room.y1 < j < room.y2) || (i == x && room.y1 < j < y) {
                        Tile { blocked: false, explored: false, block_sight: false }
                    } else {
                        tile_at(*old(map), i, j)
                    },
            decreases room.y2 - y,
        {
            set_tile(map, x as usize, y as usize, Tile::empty());
            y = y + 1;
        }
        x = x + 1;
    }
    proof {
        lemma_carving_keeps_open(
            *old(map),
            *map,
            |i: int, j: int| room.interior_contains(i, j),
        );
    }
}

/// Clears the horizontal corridor from `(x1, y)` to `(x2, y)`, both ends included.
pub fn create_h_tunnel(x1: i32, x2: i32, y: i32, map: &mut TileMap)
    requires
        map_wf(*old(map)),
        in_bounds(x1 as int, y as int),
        in_bounds(x2 as int, y as int),
    ensures
        keeps_open(*old(map), *final(map)),
        carved_from(
            *old(map),
            *final(map),
            |i: int, j: int| on_h_segment(x1 as int, x2 as int, y as int, i, j),
        ),
        opened(*old(map), *final(map), |i: int, j: int| on_h_segment(x1 as int, x2 as int, y as int, i, j)),
        plain_tiles(*old(map)) ==> plain_tiles(*final(map)),
{
    let lo: i32 = if x1 <= x2 { x1 } else { x2 };
    let hi: i32 = if x1 <= x2 { x2 } else { x1 };
    let mut x: i32 = lo;
    while x <= hi
        invariant
            lo == min_int(x1 as int, x2 as int),
            hi == max_int(x1 as int, x2 as int),
            lo <= x <= hi + 1,
            0 <= lo <= hi < MAP_WIDTH,
            0 <= y < MAP_HEIGHT,
            map_wf(*map),
            forall|i: int, j: int|
                in_bounds(i, j) ==> #[trigger] tile_at(*map, i, j) == if j == y && lo <= i < x {
                    Tile { blocked: false, explored: false, block_sight: false }
                } else {
                    tile_at(*old(map), i, j)
                },
        decreases hi + 1 - x,
    {
        set_tile(map, x as usize, y as usize, Tile::empty());
        x = x + 1;
    }
    proof {
        lemma_carving_keeps_open(
            *old(map),
            *map,
            |i: int, j: int| on_h_segment(x1 as int, x2 as int, y as int, i, j),
        );
    }
}

/// Clears the vertical corridor from `(x, y1)` to `(x, y2)`, both ends included.
pub fn create_v_tunnel(y1: i32, y2: i32, x: i32, map: &mut TileMap)
    requires
        map_wf(*old(map)),
        in_bounds(x as int, y1 as int),
        in_bounds(x as int, y2 as int),
    ensures
        keeps_open(*old(map), *final(map)),
        carved_from(
            *old(map),
            *final(map),
            |i: int, j: int| on_v_segment(y1 as int, y2 as int, x as int, i, j),
        ),
        opened(*old(map), *final(map), |i: int, j: int| on_v_segment(y1 as int, y2 as int, x as int, i, j)),
        plain_tiles(*old(map)) ==> plain_tiles(*final(map)),
{
    let lo: i32 = if y1 <= y2 { y1 } else { y2 };
    let hi: i32 = if y1 <= y2 { y2 } else { y1 };
    let mut y: i32 = lo;
    while y <= hi
        invariant
            lo == min_int(y1 as int, y2 as int),
            hi == max_int(y1 as int, y2 as int),
            lo <= y <= hi + 1,
            0 <= lo <= hi < MAP_HEIGHT,
            0 <= x < MAP_WIDTH,
            map_wf(*map),
            forall|i: int, j: int|
                in_bounds(i, j) ==> #[trigger] tile_at(*map, i, j) == if i == x && lo <= j < y {
                    Tile { blocked: false, explored: false, block_sight: false }
                } else {
                    tile_at(*old(map), i, j)
                },
        decreases hi + 1 - y,
    {
        set_tile(map, x as usize, y as usize, Tile::empty());
        y = y + 1;
    }
    proof {
        lemma_carving_keeps_open(
            *old(map),
            *map,
            |i: int, j: int| on_v_segment(y1 as int, y2 as int, x as int, i, j),
        );
    }
}

} // verus!
