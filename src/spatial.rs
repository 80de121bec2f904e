//! Spatial queries and movement: blocked cells, stepping, moving towards a target.

use vstd::prelude::*;

use crate::game::{blocked_at, is_blocked, same_world, Game};
use crate::map::{TileMap, MAP_HEIGHT, MAP_WIDTH};
use crate::object::Object;

verus! {

/// `o` blocks the way and stands on `(x, y)`.
pub open spec fn occupies_blocking(o: Object, x: int, y: int) -> bool {
    o.blocks && o.x == x && o.y == y
}

/// One grid step along `d`, given the other component `e` of the vector: the
/// component of the unit vector, rounded to the nearest integer.
pub open spec fn unit_step(d: int, e: int) -> int {
    if 3 * d * d > e * e {
        if d > 0 {
            1
        } else {
            -1
        }
    } else {
        0
    }
}

/// `o` moved to `(x, y)`.
pub open spec fn moved(o: Object, x: int, y: int) -> Object {
    Object { x: x as i32, y: y as i32, ..o }
}

/// The objects after object `id` tries to step by `(dx, dy)` on `map`.
pub open spec fn moved_objects(
    map: TileMap,
    objects: Seq<Object>,
    id: int,
    dx: int,
    dy: int,
) -> Seq<Object> {
    let o = objects[id];
    if blocked_at(map, objects, o.x + dx, o.y + dy) {
        objects
    } else {
        objects.update(id, moved(o, o.x + dx, o.y + dy))
    }
}

/// The objects after object `id` tries to step by `(dx, dy)`.
pub open spec fn objects_after_move(g: Game, id: int, dx: int, dy: int) -> Seq<Object> {
    moved_objects(g.map, g.objects@, id, dx, dy)
}

/// `g1` is `g0` after object `id` tried to step by `(dx, dy)`.
pub open spec fn move_outcome(g0: Game, id: int, dx: int, dy: int, g1: Game) -> bool {
    &&& same_world(g0, g1)
    &&& g1.messages == g0.messages
    &&& g1.objects@ == objects_after_move(g0, id, dx, dy)
}

/// `unit_step`, computed: `|d / sqrt(d² + e²)| >= 1/2` exactly when `3d² > e²`
/// (equality cannot occur between integers unless both are zero).
fn step_of(d: i128, e: i128) -> (r: i32)
    requires
        -0x1_0000_0000 <= d <= 0x1_0000_0000,
        -0x1_0000_0000 <= e <= 0x1_0000_0000,
    ensures
        r == unit_step(d as int, e as int),
{
    assert(d * d <= 0x1_0000_0000_0000_0000i128) by (nonlinear_arith)
        requires
            -0x1_0000_0000i128 <= d <= 0x1_0000_0000i128,
    ;
    assert(e * e <= 0x1_0000_0000_0000_0000i128) by (nonlinear_arith)
        requires
            -0x1_0000_0000i128 <= e <= 0x1_0000_0000i128,
    ;
    assert(d * d >= 0) by (nonlinear_arith);
    assert(e * e >= 0) by (nonlinear_arith);
    let dd = d * d;
    let ee = e * e;
    assert(3 * dd == 3 * d * d) by (nonlinear_arith)
        requires
            dd == d * d,
    ;
    if 3 * dd > ee {
        if d > 0 {
            1
        } else {
            -1
        }
    } else {
        0
    }
}

impl Game {
    /// Moves object `id` by `(dx, dy)` unless the destination is blocked; a blocked
    /// destination leaves everything as it was.
    pub fn move_by(&mut self, id: usize, dx: i32, dy: i32)
        requires
            old(self).wf(),
            id < old(self).objects@.len(),
        ensures
            final(self).wf(),
            move_outcome(*old(self), id as int, dx as int, dy as int, *final(self)),
    {
        let nx: i64 = self.objects[id].x as i64 + dx as i64;
        let ny: i64 = self.objects[id].y as i64 + dy as i64;
        if nx < 0 || nx >= MAP_WIDTH as i64 || ny < 0 || ny >= MAP_HEIGHT as i64 {
            return;
        }
        if !is_blocked(nx as i32, ny as i32, &self.map, &self.objects) {
            self.objects[id].set_pos(nx as i32, ny as i32);
        }
    }

    /// Moves object `id` one step (of the eight directions) towards `(target_x, target_y)`,
    /// unless that cell is blocked; standing on the target, it stays.
    pub fn move_towards(&mut self, id: usize, target_x: i32, target_y: i32)
        requires
            old(self).wf(),
            id < old(self).objects@.len(),
        ensures
            final(self).wf(),
            ({
                let o = old(self).objects@[id as int];
                let (dx, dy) = (target_x - o.x, target_y - o.y);
                move_outcome(*old(self), id as int, unit_step(dx, dy), unit_step(dy, dx), *final(self))
            }),
    {
        let dx: i128 = target_x as i128 - self.objects[id].x as i128;
        let dy: i128 = target_y as i128 - self.objects[id].y as i128;
        let sx = step_of(dx, dy);
        let sy = step_of(dy, dx);
        self.move_by(id, sx, sy);
    }
}

} // verus!
