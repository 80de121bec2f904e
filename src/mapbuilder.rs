//! The dungeon generator: random rooms, corridors and stocking, with the
//! layout it guarantees.

use vstd::prelude::*;

use crate::colors::Color;
use crate::game::{blocked_at, is_blocked, PLAYER};
use crate::item::{create_item, is_item_of, Item};
use crate::map::{
    create_h_tunnel, create_room, create_v_tunnel, in_bounds, keeps_open, map_wf, max_int, min_int,
    new_map, on_h_segment, on_v_segment, open_cell, plain_tiles, tile_at, TileMap, MAP_HEIGHT,
    MAP_WIDTH,
};
use crate::monsters::{create_monster, is_orc, is_troll};
use crate::object::Object;
use crate::spatial::occupies_blocking;
use crate::random::{coin_flip, random_range};
use crate::rect::Rect;

verus! {

/// The dungeon generator's parameters.
#[derive(Clone, Copy, Debug, PartialEq, Eq, Structural)]
pub struct MapBuilder {
    pub max_rooms: i32,
    pub room_min_size: i32,
    pub room_max_size: i32,
    pub max_room_monsters: i32,
    pub max_room_items: i32,
}

/// The room lies on the map with a non-empty interior, one cell off the right
/// and bottom edges.
pub open spec fn room_fits(r: Rect) -> bool {
    &&& 0 <= r.x1
    &&& r.x1 + 2 <= r.x2 < MAP_WIDTH
    &&& 0 <= r.y1
    &&& r.y1 + 2 <= r.y2 < MAP_HEIGHT
}

/// Every interior cell of the room is open.
pub open spec fn room_open(m: TileMap, r: Rect) -> bool {
    forall|x: int, y: int| r.interior_contains(x, y) ==> #[trigger] open_cell(m, x, y)
}

/// Every cell of the horizontal corridor from `(x1, y)` to `(x2, y)` is open.
pub open spec fn h_open(m: TileMap, x1: int, x2: int, y: int) -> bool {
    forall|x: int| min_int(x1, x2) <= x <= max_int(x1, x2) ==> #[trigger] open_cell(m, x, y)
}

/// Every cell of the vertical corridor from `(x, y1)` to `(x, y2)` is open.
pub open spec fn v_open(m: TileMap, y1: int, y2: int, x: int) -> bool {
    forall|y: int| min_int(y1, y2) <= y <= max_int(y1, y2) ==> #[trigger] open_cell(m, x, y)
}

/// An open L-shaped corridor joins the centers of `a` and `b`, horizontal then
/// vertical or vertical then horizontal.
pub open spec fn rooms_joined(m: TileMap, a: Rect, b: Rect) -> bool {
    let (ax, ay, bx, by) = (a.center_x(), a.center_y(), b.center_x(), b.center_y());
    ||| h_open(m, ax, bx, ay) && v_open(m, ay, by, bx)
    ||| v_open(m, ay, by, ax) && h_open(m, ax, bx, by)
}

/// Room `k` is reached from room 0 through the corridors that join each room to
/// the one before it.
pub open spec fn reached_from_first(m: TileMap, rooms: Seq<Rect>, k: int) -> bool
    decreases k,
{
    if k <= 0 {
        true
    } else {
        rooms_joined(m, rooms[k - 1], rooms[k]) && reached_from_first(m, rooms, k - 1)
    }
}

/// The rooms of a generated map: at least one; each fits the map with an open
/// interior; no two of them overlap (by the rejection test); each is joined by
/// a corridor to the room accepted before it.
pub open spec fn dungeon_layout(m: TileMap, rooms: Seq<Rect>) -> bool {
    &&& map_wf(m)
    &&& rooms.len() >= 1
    &&& forall|k: int| 0 <= k < rooms.len() ==> #[trigger] room_fits(rooms[k])
    &&& forall|k: int| 0 <= k < rooms.len() ==> #[trigger] room_open(m, rooms[k])
    &&& forall|i: int, j: int| 0 <= i < j < rooms.len() ==> !#[trigger] rooms[i].overlaps(rooms[j])
    &&& forall|k: int| 1 <= k < rooms.len() ==> #[trigger] rooms_joined(m, rooms[k - 1], rooms[k])
}

/// The cell lies on the corridor from the center of `a` to the center of `b`:
/// horizontal then vertical when `h_first`, vertical then horizontal otherwise.
pub open spec fn corridor_cell(a: Rect, b: Rect, h_first: bool, x: int, y: int) -> bool {
    let (ax, ay, bx, by) = (a.center_x(), a.center_y(), b.center_x(), b.center_y());
    if h_first {
        on_h_segment(ax, bx, ay, x, y) || on_v_segment(ay, by, bx, x, y)
    } else {
        on_v_segment(ay, by, ax, x, y) || on_h_segment(ax, bx, by, x, y)
    }
}

/// The cell was carved by the first `n` rooms: it is inside one of them, or on
/// the corridor that joins one of them to the room before it (`bends[k]` tells
/// how the corridor into room `k` bends).
pub open spec fn carved_by(rooms: Seq<Rect>, bends: Seq<bool>, n: int, x: int, y: int) -> bool
    decreases n,
{
    if n <= 0 {
        false
    } else {
        ||| carved_by(rooms, bends, n - 1, x, y)
        ||| rooms[n - 1].interior_contains(x, y)
        ||| n >= 2 && corridor_cell(rooms[n - 2], rooms[n - 1], bends[n - 1], x, y)
    }
}

/// The open cells of the map are exactly the room interiors and the corridors.
pub open spec fn carved_exactly(m: TileMap, rooms: Seq<Rect>, bends: Seq<bool>) -> bool {
    &&& bends.len() == rooms.len()
    &&& forall|x: int, y: int|
        in_bounds(x, y) ==> #[trigger] open_cell(m, x, y) == carved_by(
            rooms,
            bends,
            rooms.len() as int,
            x,
            y,
        )
}

/// The rooms are at most `b.max_rooms`, and each side lies in
/// `b.room_min_size..=b.room_max_size`.
pub open spec fn rooms_sized(rooms: Seq<Rect>, b: MapBuilder) -> bool {
    &&& rooms.len() <= b.max_rooms
    &&& forall|k: int|
        0 <= k < rooms.len() ==> b.room_min_size <= (#[trigger] rooms[k]).x2 - rooms[k].x1
            <= b.room_max_size && b.room_min_size <= rooms[k].y2 - rooms[k].y1 <= b.room_max_size
}

/// Every cell on the edge of the map is blocked.
pub open spec fn border_blocked(m: TileMap) -> bool {
    forall|x: int, y: int|
        in_bounds(x, y) && (x == 0 || y == 0 || x == MAP_WIDTH - 1 || y == MAP_HEIGHT - 1)
            ==> (#[trigger] tile_at(m, x, y)).blocked
}

/// Carving keeps off the edge of the map: a carved cell lies at least one cell
/// inside it.
proof fn lemma_carved_inside(rooms: Seq<Rect>, bends: Seq<bool>, n: int, x: int, y: int)
    requires
        0 <= n <= rooms.len(),
        forall|k: int| 0 <= k < rooms.len() ==> #[trigger] room_fits(rooms[k]),
        carved_by(rooms, bends, n, x, y),
    ensures
        1 <= x < MAP_WIDTH - 1,
        1 <= y < MAP_HEIGHT - 1,
    decreases n,
{
    if carved_by(rooms, bends, n - 1, x, y) {
        lemma_carved_inside(rooms, bends, n - 1, x, y);
    } else if rooms[n - 1].interior_contains(x, y) {
        assert(room_fits(rooms[n - 1]));
    } else {
        assert(room_fits(rooms[n - 2]));
        assert(room_fits(rooms[n - 1]));
    }
}

/// Room `k` holds the cell in its interior, or the corridor into room `k` passes
/// through it.
pub open spec fn in_room_or_corridor(rooms: Seq<Rect>, bends: Seq<bool>, k: int, x: int, y: int) -> bool {
    ||| rooms[k].interior_contains(x, y)
    ||| k >= 1 && corridor_cell(rooms[k - 1], rooms[k], bends[k], x, y)
}

/// Every open cell of a generated map lies inside a room or on the corridor
/// into a room; with the corridors joining each room to the one before it, every
/// open cell is thus connected to the first room.
pub proof fn open_cells_are_rooms_or_corridors(m: TileMap, rooms: Seq<Rect>, bends: Seq<bool>)
    requires
        carved_exactly(m, rooms, bends),
    ensures
        forall|x: int, y: int|
            #[trigger] open_cell(m, x, y) ==> exists|k: int|
                0 <= k < rooms.len() && #[trigger] in_room_or_corridor(rooms, bends, k, x, y),
{
    assert forall|x: int, y: int| #[trigger] open_cell(m, x, y) implies exists|k: int|
        0 <= k < rooms.len() && #[trigger] in_room_or_corridor(rooms, bends, k, x, y) by {
        lemma_carved_somewhere(rooms, bends, rooms.len() as int, x, y);
    }
}

proof fn lemma_carved_somewhere(rooms: Seq<Rect>, bends: Seq<bool>, n: int, x: int, y: int)
    requires
        0 <= n <= rooms.len(),
        carved_by(rooms, bends, n, x, y),
    ensures
        exists|k: int| 0 <= k < n && #[trigger] in_room_or_corridor(rooms, bends, k, x, y),
    decreases n,
{
    if carved_by(rooms, bends, n - 1, x, y) {
        lemma_carved_somewhere(rooms, bends, n - 1, x, y);
    } else {
        assert(in_room_or_corridor(rooms, bends, n - 1, x, y));
    }
}

/// Adding a room does not change what the rooms before it carved.
proof fn lemma_carved_by_push(rooms: Seq<Rect>, bends: Seq<bool>, r: Rect, b: bool, n: int, x: int, y: int)
    requires
        0 <= n <= rooms.len(),
        bends.len() == rooms.len(),
    ensures
        carved_by(rooms.push(r), bends.push(b), n, x, y) == carved_by(rooms, bends, n, x, y),
    decreases n,
{
    if n > 0 {
        lemma_carved_by_push(rooms, bends, r, b, n - 1, x, y);
        assert(rooms.push(r)[n - 1] == rooms[n - 1]);
        assert(bends.push(b)[n - 1] == bends[n - 1]);
        if n >= 2 {
            assert(rooms.push(r)[n - 2] == rooms[n - 2]);
        }
    }
}

/// `o` is a fresh monster or item, where it stands.
pub open spec fn monster_or_item(o: Object) -> bool {
    ||| is_orc(o, o.x as int, o.y as int)
    ||| is_troll(o, o.x as int, o.y as int)
    ||| exists|kind: Item| is_item_of(o, o.x as int, o.y as int, kind)
}

/// `o` is a monster or an item placed in the interior of one of the rooms.
pub open spec fn stocked(o: Object, rooms: Seq<Rect>) -> bool {
    &&& exists|k: int| 0 <= k < rooms.len() && #[trigger] rooms[k].interior_contains(o.x as int, o.y as int)
    &&& monster_or_item(o)
}

/// `o` is a fresh orc or troll, where it stands.
pub open spec fn is_monster(o: Object) -> bool {
    is_orc(o, o.x as int, o.y as int) || is_troll(o, o.x as int, o.y as int)
}

/// `o` is a fresh item, where it lies.
pub open spec fn is_item(o: Object) -> bool {
    exists|kind: Item| is_item_of(o, o.x as int, o.y as int, kind)
}

/// Object `i` stands on a cell that was free when it was placed: an open tile
/// that no object before it blocks.
pub open spec fn placed_free(map: TileMap, objects: Seq<Object>, i: int) -> bool {
    !blocked_at(map, objects.subrange(0, i), objects[i].x as int, objects[i].y as int)
}

/// No two blocking objects share a cell.
pub open spec fn blockers_apart(objects: Seq<Object>) -> bool {
    forall|i: int, j: int|
        0 <= i < j < objects.len() && (#[trigger] objects[i]).blocks && (#[trigger] objects[j]).blocks
            ==> objects[i].x != objects[j].x || objects[i].y != objects[j].y
}

/// The objects from `start` to `mid` are monsters, at most `max_monsters` of
/// them, and those from `mid` on are items, at most `max_items` of them.
pub open spec fn stock_split(
    after: Seq<Object>,
    start: int,
    mid: int,
    max_monsters: int,
    max_items: int,
) -> bool {
    &&& start <= mid <= after.len()
    &&& mid - start <= max_monsters
    &&& after.len() - mid <= max_items
    &&& forall|i: int| start <= i < mid ==> is_monster(#[trigger] after[i])
    &&& forall|i: int| mid <= i < after.len() ==> is_item(#[trigger] after[i])
}

/// The room is stocked: `after` is `before` with at most `max_monsters` monsters
/// and then at most `max_items` items appended, each inside the room's interior
/// on a cell that was free when it was placed.
pub open spec fn stocked_room(
    map: TileMap,
    before: Seq<Object>,
    after: Seq<Object>,
    room: Rect,
    max_monsters: int,
    max_items: int,
) -> bool {
    &&& before.len() <= after.len()
    &&& forall|i: int| 0 <= i < before.len() ==> #[trigger] after[i] == before[i]
    &&& exists|mid: int| #[trigger] stock_split(after, before.len() as int, mid, max_monsters, max_items)
    &&& forall|i: int|
        before.len() <= i < after.len() ==> #[trigger] room.interior_contains(
            after[i].x as int,
            after[i].y as int,
        ) && monster_or_item(after[i]) && placed_free(map, after, i)
}

/// `o` is the stairs at `(x, y)`: not blocking, always shown once explored.
pub open spec fn is_stairs(o: Object, x: int, y: int) -> bool {
    &&& o.x == x
    &&& o.y == y
    &&& o.glyph == '<'
    &&& o.name@ == "stairs"@
    &&& o.color == Color::White
    &&& !o.blocks
    &&& !o.alive
    &&& o.always_visible
    &&& o.fighter is None
    &&& o.ai is None
    &&& o.item is None
}

/// The objects of a generated level: the player, moved to the center of the first
/// room; monsters and items inside rooms; the stairs at the center of the last room.
pub open spec fn level_objects(player: Object, objects: Seq<Object>, rooms: Seq<Rect>) -> bool {
    &&& objects.len() >= 2
    &&& rooms.len() >= 1
    &&& objects[0] == (Object {
        x: rooms[0].center_x() as i32,
        y: rooms[0].center_y() as i32,
        ..player
    })
    &&& is_stairs(objects.last(), rooms.last().center_x(), rooms.last().center_y())
    &&& forall|i: int| 1 <= i < objects.len() - 1 ==> #[trigger] stocked(objects[i], rooms)
}

/// The rooms of a well-formed layout are each reached from the first, and no
/// cell lies inside two of them.
pub proof fn generated_rooms_are_apart_and_reached(m: TileMap, rooms: Seq<Rect>)
    requires
        dungeon_layout(m, rooms),
    ensures
        forall|k: int| 0 <= k < rooms.len() ==> #[trigger] reached_from_first(m, rooms, k),
        forall|i: int, j: int, x: int, y: int|
            0 <= i < j < rooms.len() && #[trigger] rooms[i].interior_contains(x, y)
                ==> !#[trigger] rooms[j].interior_contains(x, y),
{
    assert forall|k: int| 0 <= k < rooms.len() implies #[trigger] reached_from_first(m, rooms, k) by {
        lemma_reached(m, rooms, k);
    }
    assert forall|i: int, j: int, x: int, y: int|
        0 <= i < j < rooms.len() && #[trigger] rooms[i].interior_contains(x, y) implies !#[trigger] rooms[j].interior_contains(
        x,
        y,
    ) by {
        assert(!rooms[i].overlaps(rooms[j]));
    }
}

proof fn lemma_reached(m: TileMap, rooms: Seq<Rect>, k: int)
    requires
        dungeon_layout(m, rooms),
        0 <= k < rooms.len(),
    ensures
        reached_from_first(m, rooms, k),
    decreases k,
{
    if k > 0 {
        lemma_reached(m, rooms, k - 1);
        assert(rooms_joined(m, rooms[k - 1], rooms[k]));
    }
}

/// Every open cell of a room interior and of a corridor stays open as carving goes on.
proof fn lemma_layout_kept(before: TileMap, after: TileMap, rooms: Seq<Rect>)
    requires
        keeps_open(before, after),
        forall|k: int| 0 <= k < rooms.len() ==> #[trigger] room_open(before, rooms[k]),
        forall|k: int| 1 <= k < rooms.len() ==> #[trigger] rooms_joined(before, rooms[k - 1], rooms[k]),
    ensures
        forall|k: int| 0 <= k < rooms.len() ==> #[trigger] room_open(after, rooms[k]),
        forall|k: int| 1 <= k < rooms.len() ==> #[trigger] rooms_joined(after, rooms[k - 1], rooms[k]),
{
    assert forall|k: int| 0 <= k < rooms.len() implies #[trigger] room_open(after, rooms[k]) by {
        let r = rooms[k];
        assert(room_open(before, r));
        assert forall|x: int, y: int| r.interior_contains(x, y) implies #[trigger] open_cell(
            after,
            x,
            y,
        ) by {
            assert(open_cell(before, x, y));
        }
    }
    assert forall|k: int| 1 <= k < rooms.len() implies #[trigger] rooms_joined(
        after,
        rooms[k - 1],
        rooms[k],
    ) by {
        assert(rooms_joined(before, rooms[k - 1], rooms[k]));
        lemma_joined_kept(before, after, rooms[k - 1], rooms[k]);
    }
}

proof fn lemma_joined_kept(before: TileMap, after: TileMap, a: Rect, b: Rect)
    requires
        keeps_open(before, after),
        rooms_joined(before, a, b),
    ensures
        rooms_joined(after, a, b),
{
    let (ax, ay, bx, by) = (a.center_x(), a.center_y(), b.center_x(), b.center_y());
    if h_open(before, ax, bx, ay) && v_open(before, ay, by, bx) {
        lemma_h_kept(before, after, ax, bx, ay);
        lemma_v_kept(before, after, ay, by, bx);
    } else {
        lemma_v_kept(before, after, ay, by, ax);
        lemma_h_kept(before, after, ax, bx, by);
    }
}

proof fn lemma_h_kept(before: TileMap, after: TileMap, x1: int, x2: int, y: int)
    requires
        keeps_open(before, after),
        h_open(before, x1, x2, y),
    ensures
        h_open(after, x1, x2, y),
{
    assert forall|x: int| min_int(x1, x2) <= x <= max_int(x1, x2) implies #[trigger] open_cell(
        after,
        x,
        y,
    ) by {
        assert(open_cell(before, x, y));
    }
}

proof fn lemma_v_kept(before: TileMap, after: TileMap, y1: int, y2: int, x: int)
    requires
        keeps_open(before, after),
        v_open(before, y1, y2, x),
    ensures
        v_open(after, y1, y2, x),
{
    assert forall|y: int| min_int(y1, y2) <= y <= max_int(y1, y2) implies #[trigger] open_cell(
        after,
        x,
        y,
    ) by {
        assert(open_cell(before, x, y));
    }
}

impl MapBuilder {
    /// Parameters the generator can work with: at least one attempt, rooms with
    /// an interior that fit in the map, non-negative stocking counts.
    pub open spec fn wf(&self) -> bool {
        &&& 1 <= self.max_rooms
        &&& 2 <= self.room_min_size <= self.room_max_size < MAP_HEIGHT
        &&& 0 <= self.max_room_monsters < i32::MAX
        &&& 0 <= self.max_room_items < i32::MAX
    }

    /// Generates a level: a fresh map of rooms and corridors, and `objects` holding
    /// the player (kept at index 0, moved into the first room), the monsters and
    /// items of each room, and the stairs at the center of the last room.
    ///
    /// Each attempt samples a room within the size bounds and the map; it is kept
    /// unless it overlaps a room kept before. A kept room is carved and joined to
    /// the previous one by an L-shaped corridor between their centers, its bend
    /// chosen by a coin flip.
    pub fn build(&self, objects: &mut Vec<Object>) -> (m: TileMap)
        requires
            self.wf(),
            old(objects)@.len() >= 1,
        ensures
            map_wf(m),
            plain_tiles(m),
            border_blocked(m),
            blockers_apart(final(objects)@),
            exists|rooms: Seq<Rect>, bends: Seq<bool>|
                #![trigger carved_exactly(m, rooms, bends)]
                dungeon_layout(m, rooms) && rooms_sized(rooms, *self) && carved_exactly(m, rooms, bends)
                    && level_objects(old(objects)@[0], final(objects)@, rooms),
    {
        let mut map = new_map();
        objects.truncate(1);
        let ghost player = objects@[0];
        let ghost mut bends: Seq<bool> = Seq::empty();
        let mut rooms: Vec<Rect> = Vec::new();
        let mut attempt: i32 = 0;
        while attempt < self.max_rooms
            invariant
                self.wf(),
                0 <= attempt <= self.max_rooms,
                attempt > 0 ==> rooms@.len() > 0,
                rooms@.len() <= attempt,
                rooms_sized(rooms@, *self),
                map_wf(map),
                plain_tiles(map),
                carved_exactly(map, rooms@, bends),
                old(objects)@.len() >= 1,
                player == old(objects)@[0],
                forall|k: int| 0 <= k < rooms@.len() ==> #[trigger] room_fits(rooms@[k]),
                forall|k: int| 0 <= k < rooms@.len() ==> #[trigger] room_open(map, rooms@[k]),
                forall|i: int, j: int|
                    0 <= i < j < rooms@.len() ==> !#[trigger] rooms@[i].overlaps(rooms@[j]),
                forall|k: int|
                    1 <= k < rooms@.len() ==> #[trigger] rooms_joined(map, rooms@[k - 1], rooms@[k]),
                objects@.len() >= 1,
                rooms@.len() == 0 ==> objects@.len() == 1 && objects@[0] == player,
                rooms@.len() > 0 ==> objects@[0] == (Object {
                    x: rooms@[0].center_x() as i32,
                    y: rooms@[0].center_y() as i32,
                    ..player
                }),
                forall|i: int| 1 <= i < objects@.len() ==> #[trigger] stocked(objects@[i], rooms@),
                blockers_apart(objects@),
            decreases self.max_rooms - attempt,
        {
            let w = random_range(self.room_min_size, self.room_max_size + 1);
            let h = random_range(self.room_min_size, self.room_max_size + 1);
            let x = random_range(0, MAP_WIDTH - w);
            let y = random_range(0, MAP_HEIGHT - h);
            let new_room = Rect::new(x, y, w, h);
            let mut failed = false;
            let mut k: usize = 0;
            while k < rooms.len() && !failed
                invariant
                    k <= rooms@.len(),
                    rooms@.len() == 0 ==> !failed,
                    !failed ==> forall|j: int| 0 <= j < k ==> !#[trigger] new_room.overlaps(rooms@[j]),
                decreases rooms@.len() - k,
            {
                if new_room.intersects_with(&rooms[k]) {
                    failed = true;
                }
                k = k + 1;
            }
            if !failed {
                let ghost before_room = map;
                let ghost mut h_first = false;
                create_room(new_room, &mut map);
                let ghost after_room = map;
                proof {
                    lemma_layout_kept(before_room, map, rooms@);
                }
                let (new_x, new_y) = new_room.center();
                if rooms.len() == 0 {
                    objects[PLAYER].set_pos(new_x, new_y);
                } else {
                    assert(room_fits(rooms@[rooms@.len() - 1]));
                    let (prev_x, prev_y) = rooms[rooms.len() - 1].center();
                    let ghost before_tunnels = map;
                    let flip = coin_flip();
                    proof {
                        h_first = flip;
                    }
                    if flip {
                        create_h_tunnel(prev_x, new_x, prev_y, &mut map);
                        let ghost mid = map;
                        create_v_tunnel(prev_y, new_y, new_x, &mut map);
                        proof {
                            assert(h_open(mid, prev_x as int, new_x as int, prev_y as int));
                            lemma_h_kept(mid, map, prev_x as int, new_x as int, prev_y as int);
                            assert(v_open(map, prev_y as int, new_y as int, new_x as int));
                        }
                    } else {
                        create_v_tunnel(prev_y, new_y, prev_x, &mut map);
                        let ghost mid = map;
                        create_h_tunnel(prev_x, new_x, new_y, &mut map);
                        proof {
                            assert(v_open(mid, prev_y as int, new_y as int, prev_x as int));
                            lemma_v_kept(mid, map, prev_y as int, new_y as int, prev_x as int);
                            assert(h_open(map, prev_x as int, new_x as int, new_y as int));
                        }
                    }
                    proof {
                        lemma_layout_kept(before_tunnels, map, rooms@);
                        assert(rooms_joined(map, rooms@[rooms@.len() - 1], new_room));
                        let prev = rooms@[rooms@.len() - 1];
                        assert forall|x: int, y: int| in_bounds(x, y) implies #[trigger] open_cell(map, x, y)
                            == (corridor_cell(prev, new_room, h_first, x, y) || open_cell(
                            before_tunnels,
                            x,
                            y,
                        )) by {}
                    }
                }
                let ghost before_stock = objects@;
                self.place_objects(new_room, &map, objects);
                let ghost old_rooms = rooms@;
                let ghost old_bends = bends;
                rooms.push(new_room);
                proof {
                    bends = bends.push(h_first);
                    assert forall|x: int, y: int| in_bounds(x, y) implies #[trigger] open_cell(map, x, y)
                        == carved_by(rooms@, bends, rooms@.len() as int, x, y) by {
                        lemma_carved_by_push(
                            old_rooms,
                            old_bends,
                            new_room,
                            h_first,
                            old_rooms.len() as int,
                            x,
                            y,
                        );
                        assert(open_cell(after_room, x, y) == (new_room.interior_contains(x, y) || open_cell(
                            before_room,
                            x,
                            y,
                        )));
                        assert(open_cell(before_room, x, y) == carved_by(
                            old_rooms,
                            old_bends,
                            old_rooms.len() as int,
                            x,
                            y,
                        ));
                        if old_rooms.len() > 0 {
                            assert(rooms@[old_rooms.len() - 1] == old_rooms[old_rooms.len() - 1]);
                        }
                    }
                    assert forall|i: int| 1 <= i < objects@.len() implies #[trigger] stocked(
                        objects@[i],
                        rooms@,
                    ) by {
                        let o = objects@[i];
                        if i < before_stock.len() {
                            assert(stocked(before_stock[i], old_rooms));
                            let k = choose|k: int|
                                0 <= k < old_rooms.len() && #[trigger] old_rooms[k].interior_contains(
                                    o.x as int,
                                    o.y as int,
                                );
                            assert(rooms@[k] == old_rooms[k]);
                        } else {
                            assert(rooms@[old_rooms.len() as int] == new_room);
                            assert(new_room.interior_contains(o.x as int, o.y as int));
                        }
                    }
                    assert(room_open(map, new_room));
                    assert(rooms@[rooms@.len() - 1] == new_room);
                    assert forall|i: int, j: int| 0 <= i < j < rooms@.len() implies !#[trigger] rooms@[i].overlaps(
                        rooms@[j],
                    ) by {
                        if j == old_rooms.len() {
                            assert(!new_room.overlaps(old_rooms[i]));
                        } else {
                            assert(!old_rooms[i].overlaps(old_rooms[j]));
                        }
                    }
                }
            }
            attempt = attempt + 1;
        }
        assert(room_fits(rooms@[rooms@.len() - 1]));
        let (last_x, last_y) = rooms[rooms.len() - 1].center();
        let mut stairs = Object::new(last_x, last_y, '<', "stairs", Color::White, false);
        stairs.always_visible = true;
        let ghost before_stairs = objects@;
        objects.push(stairs);
        proof {
            assert forall|i: int| 1 <= i < objects@.len() - 1 implies #[trigger] stocked(
                objects@[i],
                rooms@,
            ) by {
                assert(objects@[i] == before_stairs[i]);
            }
            assert(dungeon_layout(map, rooms@));
            assert(level_objects(old(objects)@[0], objects@, rooms@));
            assert(carved_exactly(map, rooms@, bends));
            assert forall|x: int, y: int|
                in_bounds(x, y) && (x == 0 || y == 0 || x == MAP_WIDTH - 1 || y == MAP_HEIGHT - 1)
                    implies (#[trigger] tile_at(map, x, y)).blocked by {
                if carved_by(rooms@, bends, rooms@.len() as int, x, y) {
                    lemma_carved_inside(rooms@, bends, rooms@.len() as int, x, y);
                }
                assert(!open_cell(map, x, y));
            }
            assert forall|i: int, j: int|
                0 <= i < j < objects@.len() && (#[trigger] objects@[i]).blocks && (#[trigger] objects@[j]).blocks
                    implies objects@[i].x != objects@[j].x || objects@[i].y != objects@[j].y by {
                assert(objects@[i] == before_stairs[i]);
                assert(objects@[j] == before_stairs[j]);
            }
        }
        map
    }

    /// Stocks `room` with a random number of monsters (up to `max_room_monsters`)
    /// and, independently, of items (up to `max_room_items`), each at a random
    /// interior cell; a placement on a blocked cell is skipped.
    fn place_objects(&self, room: Rect, map: &TileMap, objects: &mut Vec<Object>)
        requires
            self.wf(),
            room_fits(room),
            map_wf(*map),
            blockers_apart(old(objects)@),
        ensures
            stocked_room(
                *map,
                old(objects)@,
                final(objects)@,
                room,
                self.max_room_monsters as int,
                self.max_room_items as int,
            ),
            blockers_apart(final(objects)@),
    {
        let num_monsters = random_range(0, self.max_room_monsters + 1);
        let mut n: i32 = 0;
        while n < num_monsters
            invariant
                room_fits(room),
                map_wf(*map),
                0 <= n <= num_monsters <= self.max_room_monsters,
                old(objects)@.len() <= objects@.len() <= old(objects)@.len() + n,
                forall|i: int| 0 <= i < old(objects)@.len() ==> #[trigger] objects@[i] == old(objects)@[i],
                forall|i: int|
                    old(objects)@.len() <= i < objects@.len() ==> is_monster(#[trigger] objects@[i]),
                forall|i: int|
                    old(objects)@.len() <= i < objects@.len() ==> #[trigger] room.interior_contains(
                        objects@[i].x as int,
                        objects@[i].y as int,
                    ) && monster_or_item(objects@[i]) && placed_free(*map, objects@, i),
                blockers_apart(objects@),
            decreases num_monsters - n,
        {
            let x = random_range(room.x1 + 1, room.x2);
            let y = random_range(room.y1 + 1, room.y2);
            if !is_blocked(x, y, map, objects) {
                let monster = create_monster(x, y);
                proof {
                    lemma_push_free(*map, objects@, monster);
                }
                objects.push(monster);
            }
            n = n + 1;
        }
        let ghost mid = objects@.len() as int;
        let num_items = random_range(0, self.max_room_items + 1);
        let mut n: i32 = 0;
        while n < num_items
            invariant
                room_fits(room),
                map_wf(*map),
                0 <= n <= num_items <= self.max_room_items,
                old(objects)@.len() <= mid <= objects@.len() <= mid + n,
                mid - old(objects)@.len() <= self.max_room_monsters,
                forall|i: int| 0 <= i < old(objects)@.len() ==> #[trigger] objects@[i] == old(objects)@[i],
                forall|i: int| old(objects)@.len() <= i < mid ==> is_monster(#[trigger] objects@[i]),
                forall|i: int| mid <= i < objects@.len() ==> is_item(#[trigger] objects@[i]),
                forall|i: int|
                    old(objects)@.len() <= i < objects@.len() ==> #[trigger] room.interior_contains(
                        objects@[i].x as int,
                        objects@[i].y as int,
                    ) && monster_or_item(objects@[i]) && placed_free(*map, objects@, i),
                blockers_apart(objects@),
            decreases num_items - n,
        {
            let x = random_range(room.x1 + 1, room.x2);
            let y = random_range(room.y1 + 1, room.y2);
            if !is_blocked(x, y, map, objects) {
                let item = create_item(x, y);
                proof {
                    lemma_push_free(*map, objects@, item);
                }
                let ghost before = objects@;
                objects.push(item);
                proof {
                    let last = before.len() as int;
                    assert(objects@[last] == item);
                    assert(is_item(objects@[last]));
                    assert(monster_or_item(objects@[last]));
                    assert(placed_free(*map, objects@, last));
                    assert forall|i: int|
                        old(objects)@.len() <= i < objects@.len() implies #[trigger] room.interior_contains(
                        objects@[i].x as int,
                        objects@[i].y as int,
                    ) && monster_or_item(objects@[i]) && placed_free(*map, objects@, i) by {
                        if i < last {
                            assert(room.interior_contains(before[i].x as int, before[i].y as int));
                            assert(placed_free(*map, before, i));
                            assert(objects@[i] == before[i]);
                            assert(objects@.subrange(0, i) == before.subrange(0, i));
                        }
                    }
                }
            }
            n = n + 1;
        }
        assert(stock_split(
            objects@,
            old(objects)@.len() as int,
            mid,
            self.max_room_monsters as int,
            self.max_room_items as int,
        ));
    }
}

/// Appending an object on a cell that nothing blocks keeps earlier objects'
/// placements, records its own as free, and keeps blocking objects apart.
proof fn lemma_push_free(map: TileMap, objects: Seq<Object>, o: Object)
    requires
        !blocked_at(map, objects, o.x as int, o.y as int),
        blockers_apart(objects),
    ensures
        forall|i: int|
            0 <= i < objects.len() ==> #[trigger] objects.push(o).subrange(0, i) == objects.subrange(0, i),
        objects.push(o).subrange(0, objects.len() as int) == objects,
        blockers_apart(objects.push(o)),
{
    let next = objects.push(o);
    assert forall|i: int| 0 <= i < objects.len() implies #[trigger] next.subrange(0, i)
        == objects.subrange(0, i) by {
        assert(next.subrange(0, i) =~= objects.subrange(0, i));
    }
    assert(next.subrange(0, objects.len() as int) =~= objects);
    assert forall|i: int, j: int|
        0 <= i < j < next.len() && (#[trigger] next[i]).blocks && (#[trigger] next[j]).blocks implies next[i].x
        != next[j].x || next[i].y != next[j].y by {
        if j == objects.len() {
            assert(!occupies_blocking(objects[i], o.x as int, o.y as int));
        } else {
            assert(next[i] == objects[i] && next[j] == objects[j]);
        }
    }
}

} // verus!
