//! The game state, its invariant, and the turn controller: commands, inventory,
//! leveling, level transitions.

use vstd::prelude::*;
use vstd::string::*;

use crate::colors::Color;
use crate::combat::move_or_attack_outcome;
use crate::fighter::{add_clamped, clamp_i32, DeathCallback, Fighter};
use crate::fov::FovMap;
use crate::item::{
    cast_confuse, cast_heal, cast_lightning, confuse_effect, heal_effect, lightning_effect, Item,
    UseResult,
};
use crate::map::{in_bounds, map_wf, set_tile, tile_at, Tile, TileMap, MAP_HEIGHT, MAP_WIDTH};
use crate::map::plain_tiles;
use crate::mapbuilder::{
    blockers_apart, border_blocked, carved_exactly, dungeon_layout, level_objects, rooms_sized,
    MapBuilder,
};
use crate::rect::Rect;
use crate::messages::{appended, line_is, line_starts, log_extends, logged, Messages};
use crate::object::{dist_sq, healed, Object};
use crate::spatial::{moved, occupies_blocking};

verus! {

/// Experience needed for the first level-up.
pub const LEVEL_UP_BASE: i32 = 200;

/// Extra experience needed for each level already gained.
pub const LEVEL_UP_FACTOR: i32 = 150;

/// Largest room side.
pub const ROOM_MAX_SIZE: i32 = 10;

/// Smallest room side.
pub const ROOM_MIN_SIZE: i32 = 6;

/// Rooms tried per level.
pub const MAX_ROOMS: i32 = 30;

/// Most monsters per room.
pub const MAX_ROOM_MONSTERS: i32 = 3;

/// Most items per room.
pub const MAX_ROOM_ITEMS: i32 = 2;

/// Index of the player in the object list.
pub const PLAYER: usize = 0;

/// Most items the inventory holds.
pub const INVENTORY_CAPACITY: usize = 26;

/// The whole state of a game in progress.
pub struct Game {
    pub map: TileMap,
    pub messages: Messages,
    pub inventory: Vec<Object>,
    pub dungeon_level: u32,
    pub objects: Vec<Object>,
    pub map_builder: MapBuilder,
}

/// The cell `(x, y)` cannot be entered: it is off the map, a blocked tile, or
/// taken by a blocking object.
pub open spec fn blocked_at(map: TileMap, objects: Seq<Object>, x: int, y: int) -> bool {
    ||| !in_bounds(x, y)
    ||| tile_at(map, x, y).blocked
    ||| exists|i: int| 0 <= i < objects.len() && #[trigger] occupies_blocking(objects[i], x, y)
}

/// Nothing but the objects (and new lines in the log) changed.
pub open spec fn same_world(g0: Game, g1: Game) -> bool {
    &&& g1.map == g0.map
    &&& g1.inventory == g0.inventory
    &&& g1.dungeon_level == g0.dungeon_level
    &&& g1.map_builder == g0.map_builder
    &&& log_extends(g0.messages, g1.messages)
}

/// Experience at which a fighter of level `level` levels up.
pub open spec fn level_up_threshold(level: int) -> int {
    LEVEL_UP_BASE + level * LEVEL_UP_FACTOR
}

/// The experience at which a fighter of level `level` levels up.
pub fn level_up_xp(level: i32) -> (r: i64)
    ensures
        r == level_up_threshold(level as int),
{
    LEVEL_UP_BASE as i64 + level as i64 * LEVEL_UP_FACTOR as i64
}

/// The fighter `o` has reached the experience threshold of its level.
pub open spec fn level_up_due(o: Object) -> bool {
    o.fighter is Some && o.fighter->Some_0.xp >= level_up_threshold(o.level as int)
}

/// The stat raised at a level-up.
#[derive(Clone, Copy, Debug, PartialEq, Eq, Structural)]
pub enum LevelUpChoice {
    /// +20 maximum hit points, and +20 hit points.
    Constitution,
    /// +1 power.
    Strength,
    /// +1 defense.
    Agility,
}

/// The fighter `f` after one level-up that costs `threshold` experience.
pub open spec fn raised(f: Fighter, threshold: int, choice: LevelUpChoice) -> Fighter {
    let f = Fighter { xp: clamp_i32(f.xp - threshold) as i32, ..f };
    match choice {
        LevelUpChoice::Constitution => Fighter {
            max_hp: clamp_i32(f.max_hp + 20) as i32,
            hp: clamp_i32(f.hp + 20) as i32,
            ..f
        },
        LevelUpChoice::Strength => Fighter { power: clamp_i32(f.power + 1) as i32, ..f },
        LevelUpChoice::Agility => Fighter { defense: clamp_i32(f.defense + 1) as i32, ..f },
    }
}

/// Leveling takes exactly one step when the player's experience reaches the
/// threshold of its level by less than the next threshold: a level-up is due, it
/// subtracts the threshold (not a reset) leaving what was above it, and no second
/// level-up is then due. So experience equal to the threshold leaves 0, and the
/// threshold plus 50 leaves 50.
pub proof fn level_up_takes_one_step(p: Object, choice: LevelUpChoice)
    requires
        p.fighter is Some,
        0 <= p.level < i32::MAX,
        level_up_threshold(p.level as int) <= p.fighter->Some_0.xp < level_up_threshold(p.level as int)
            + level_up_threshold(p.level + 1),
    ensures
        level_up_due(p),
        ({
            let threshold = level_up_threshold(p.level as int);
            let q = Object {
                level: (p.level + 1) as i32,
                fighter: Some(raised(p.fighter->Some_0, threshold, choice)),
                ..p
            };
            &&& q.fighter->Some_0.xp == p.fighter->Some_0.xp - threshold
            &&& !level_up_due(q)
            &&& p.fighter->Some_0.xp == threshold ==> q.fighter->Some_0.xp == 0
            &&& p.fighter->Some_0.xp == threshold + 50 ==> q.fighter->Some_0.xp == 50
        }),
{
}

/// `o` is the player as a new game creates it, wherever it stands.
pub open spec fn fresh_player(o: Object) -> bool {
    &&& o.glyph == '@'
    &&& o.name@ == "player"@
    &&& o.color == Color::White
    &&& o.blocks
    &&& o.alive
    &&& !o.always_visible
    &&& o.level == 1
    &&& o.fighter == Some(
        Fighter { max_hp: 30, hp: 30, defense: 2, power: 5, xp: 0, on_death: DeathCallback::Player },
    )
    &&& o.ai is None
    &&& o.item is None
}

/// The hit points that resting before a descent restores: half the maximum,
/// rounded toward zero.
pub open spec fn rest_amount(o: Object) -> i32 {
    match o.fighter {
        Some(f) => if f.max_hp >= 0 {
            (f.max_hp / 2) as i32
        } else {
            (-((-f.max_hp) / 2)) as i32
        },
        None => 0,
    }
}

/// What a command does to the turn.
#[derive(Clone, Copy, Debug, PartialEq, Eq, Structural)]
pub enum PlayerAction {
    TookTurn,
    DidntTakeTurn,
    Exit,
}

/// A command of the player, already read from the input.
#[derive(Clone, Copy, Debug, PartialEq, Eq, Structural)]
pub enum PlayerCommand {
    /// Leave the game (it is then saved).
    Exit,
    /// Step, or attack what stands there.
    Move { dx: i32, dy: i32 },
    /// Pick up an item lying at the player's feet.
    PickUp,
    /// Use an inventory item; `target` is the monster chosen for a confusion.
    UseItem { index: usize, target: Option<usize> },
    /// Drop an inventory item.
    DropItem { index: usize },
    /// Go down the stairs the player stands on.
    Descend,
    /// Anything else: no effect.
    Wait,
}

/// Object `i` (not the player) is an item lying on `(x, y)`.
pub open spec fn item_at(objects: Seq<Object>, x: int, y: int, i: int) -> bool {
    &&& PLAYER < i < objects.len()
    &&& objects[i].item is Some
    &&& objects[i].x == x
    &&& objects[i].y == y
}

/// Nothing but the objects, the inventory and the log changed (the log only grew).
pub open spec fn same_level(g0: Game, g1: Game) -> bool {
    &&& g1.map == g0.map
    &&& g1.dungeon_level == g0.dungeon_level
    &&& g1.map_builder == g0.map_builder
    &&& log_extends(g0.messages, g1.messages)
}

/// `g1` is `g0` after the player tried to pick up object `id`: with room in the
/// inventory, the object leaves the floor (the last object takes its index) and
/// goes to the end of the inventory; with a full inventory nothing but the log changes.
pub open spec fn pick_up_outcome(g0: Game, id: int, g1: Game) -> bool {
    &&& same_level(g0, g1)
    &&& if g0.inventory@.len() >= INVENTORY_CAPACITY {
        &&& g1.objects@ == g0.objects@
        &&& g1.inventory@ == g0.inventory@
        &&& logged(
            g0.messages,
            g1.messages,
            "Your inventory is full, cannot pick up "@ + g0.objects@[id].name@ + "."@,
            Color::Red,
        )
    } else {
        &&& g1.inventory@ == g0.inventory@.push(g0.objects@[id])
        &&& g1.objects@ == g0.objects@.update(id, g0.objects@.last()).drop_last()
        &&& logged(g0.messages, g1.messages, "You picked up a "@ + g0.objects@[id].name@ + "!"@, Color::Green)
    }
}

/// The inventory holds 26 items: from 25, a pickup succeeds and the object joins
/// the inventory as its 26th item; a further pickup is refused and leaves the
/// objects (the item stays on the floor) and the inventory as they were.
pub proof fn inventory_capacity_is_twenty_six(g0: Game, id1: int, g1: Game, id2: int, g2: Game)
    requires
        g0.inventory@.len() == INVENTORY_CAPACITY - 1,
        PLAYER < id1 < g0.objects@.len(),
        pick_up_outcome(g0, id1, g1),
        pick_up_outcome(g1, id2, g2),
    ensures
        g1.inventory@.len() == INVENTORY_CAPACITY,
        g1.inventory@.last() == g0.objects@[id1],
        g2.objects@ == g1.objects@,
        g2.inventory@ == g1.inventory@,
{
}

/// `m` and `objects` are a level that the generator `b` made around `player`: a
/// layout of rooms and corridors as `MapBuilder::build` guarantees it.
pub open spec fn generated_level(m: TileMap, b: MapBuilder, player: Object, objects: Seq<Object>) -> bool {
    &&& plain_tiles(m)
    &&& border_blocked(m)
    &&& blockers_apart(objects)
    &&& exists|rooms: Seq<Rect>, bends: Seq<bool>|
        #![trigger carved_exactly(m, rooms, bends)]
        dungeon_layout(m, rooms) && rooms_sized(rooms, b) && carved_exactly(m, rooms, bends)
            && level_objects(player, objects, rooms)
}

/// `g1` is `g0` one level down: the player rested (healed by half its maximum hit
/// points), the level counter went up by one, a new layout holds the player and
/// new objects, the inventory is kept, and the log tells of the rest and the descent.
pub open spec fn next_level_outcome(g0: Game, g1: Game) -> bool {
    let n = g0.messages.lines().len() as int;
    &&& g1.inventory == g0.inventory
    &&& g1.dungeon_level == g0.dungeon_level + 1
    &&& g1.map_builder == g0.map_builder
    &&& generated_level(
        g1.map,
        g1.map_builder,
        healed(g0.objects@[PLAYER as int], rest_amount(g0.objects@[PLAYER as int])),
        g1.objects@,
    )
    &&& appended(g0.messages, g1.messages, 2)
    &&& line_is(
        g1.messages.lines()[n],
        "You take a moment to rest, and recover your strength."@,
        Color::Violet,
    )
    &&& line_is(
        g1.messages.lines()[n + 1],
        "After a rare moment of peace, you descend deeper into the heart of the dungeon..."@,
        Color::Red,
    )
}

/// `g1` is `g0` after the player dropped inventory item `index` at its feet.
pub open spec fn drop_outcome(g0: Game, index: int, g1: Game) -> bool {
    let p = g0.objects@[PLAYER as int];
    &&& same_level(g0, g1)
    &&& g1.inventory@ == g0.inventory@.remove(index)
    &&& g1.objects@ == g0.objects@.push(moved(g0.inventory@[index], p.x as int, p.y as int))
    &&& logged(
        g0.messages,
        g1.messages,
        "You dropped a "@ + g0.inventory@[index].name@ + "."@,
        Color::Yellow,
    )
}

/// `g1` is `g0` after the player used inventory item `index` with result `r`: the
/// effect of its kind on the objects, and the item gone if it was used up.
pub open spec fn use_outcome(
    g0: Game,
    index: int,
    fov: FovMap,
    target: Option<usize>,
    g1: Game,
    r: UseResult,
) -> bool {
    &&& same_level(g0, g1)
    &&& g1.inventory@ == if r == UseResult::UsedUp {
        g0.inventory@.remove(index)
    } else {
        g0.inventory@
    }
    &&& match g0.inventory@[index].item {
        Some(Item::Heal) => heal_effect(g0.objects@, g1.objects@, r),
        Some(Item::Lightning) => lightning_effect(g0.objects@, fov, g1.objects@, r),
        Some(Item::Confuse) => confuse_effect(g0.objects@, target, g1.objects@, r),
        None => r == UseResult::Cancelled && g1.objects@ == g0.objects@,
    }
    &&& match g0.inventory@[index].item {
        Some(_) => r == UseResult::Cancelled ==> line_is(
            g1.messages.lines().last(),
            "Cancelled"@,
            Color::White,
        ),
        None => logged(
            g0.messages,
            g1.messages,
            "The "@ + g0.inventory@[index].name@ + " cannot be used."@,
            Color::White,
        ),
    }
}

/// `i` is the first object but the player with an item on `(x, y)`.
pub open spec fn first_item_at(objects: Seq<Object>, x: int, y: int, i: int) -> bool {
    &&& item_at(objects, x, y, i)
    &&& forall|k: int| 0 <= k < i ==> !#[trigger] item_at(objects, x, y, k)
}

/// Some object named "stairs" lies at the player's position.
pub open spec fn on_stairs(objects: Seq<Object>) -> bool {
    exists|i: int|
        0 <= i < objects.len() && #[trigger] objects[i].name@ == "stairs"@ && objects[i].x
            == objects[PLAYER as int].x && objects[i].y == objects[PLAYER as int].y
}

/// Equality of two character sequences, decided character by character.
fn same_text(a: &str, b: &str) -> (r: bool)
    ensures
        r == (a@ == b@),
{
    let n = a.unicode_len();
    if n != b.unicode_len() {
        return false;
    }
    let mut i: usize = 0;
    while i < n
        invariant
            n == a@.len(),
            n == b@.len(),
            i <= n,
            forall|k: int| 0 <= k < i ==> a@[k] == b@[k],
        decreases n - i,
    {
        if a.get_char(i) != b.get_char(i) {
            return false;
        }
        i = i + 1;
    }
    assert(a@ =~= b@);
    true
}

/// Whether `(x, y)` is blocked: off the map, a blocked tile, or under a blocking object.
pub fn is_blocked(x: i32, y: i32, map: &TileMap, objects: &Vec<Object>) -> (r: bool)
    requires
        map_wf(*map),
    ensures
        r == blocked_at(*map, objects@, x as int, y as int),
{
    if x < 0 || x >= MAP_WIDTH || y < 0 || y >= MAP_HEIGHT {
        return true;
    }
    if map[x as usize][y as usize].blocked {
        return true;
    }
    let mut i: usize = 0;
    while i < objects.len()
        invariant
            i <= objects@.len(),
            forall|k: int| 0 <= k < i ==> !#[trigger] occupies_blocking(objects@[k], x as int, y as int),
        decreases objects@.len() - i,
    {
        if objects[i].blocks && objects[i].x == x && objects[i].y == y {
            assert(occupies_blocking(objects@[i as int], x as int, y as int));
            return true;
        }
        i = i + 1;
    }
    false
}

impl Game {
    /// The state every game keeps: a full-size map, the player at index 0 with no
    /// behaviour of its own, an inventory within capacity, usable generator parameters.
    pub open spec fn wf(&self) -> bool {
        &&& map_wf(self.map)
        &&& self.objects@.len() >= 1
        &&& self.objects@[PLAYER as int].ai is None
        &&& self.inventory@.len() <= INVENTORY_CAPACITY
        &&& self.map_builder.wf()
    }

    /// Whether this state keeps the invariant of a game (see `wf`); a saved game
    /// read back from outside is checked with it before play resumes.
    pub fn is_well_formed(&self) -> (r: bool)
        ensures
            r == self.wf(),
    {
        if self.map.len() != MAP_WIDTH as usize {
            return false;
        }
        let mut x: usize = 0;
        while x < self.map.len()
            invariant
                self.map@.len() == MAP_WIDTH,
                x <= self.map@.len(),
                forall|i: int| 0 <= i < x ==> #[trigger] self.map@[i]@.len() == MAP_HEIGHT,
            decreases self.map@.len() - x,
        {
            if self.map[x].len() != MAP_HEIGHT as usize {
                return false;
            }
            x = x + 1;
        }
        let b = &self.map_builder;
        self.objects.len() >= 1 && self.objects[PLAYER].ai.is_none() && self.inventory.len()
            <= INVENTORY_CAPACITY && 1 <= b.max_rooms && 2 <= b.room_min_size && b.room_min_size
            <= b.room_max_size && b.room_max_size < MAP_HEIGHT && 0 <= b.max_room_monsters
            && b.max_room_monsters < i32::MAX && 0 <= b.max_room_items && b.max_room_items < i32::MAX
    }

    /// Whether the player's experience has reached the threshold of its level.
    pub fn needs_level_up(&self) -> (r: bool)
        requires
            self.wf(),
        ensures
            r == level_up_due(self.objects@[PLAYER as int]),
    {
        let player = &self.objects[PLAYER];
        let threshold = level_up_xp(player.level);
        match player.fighter {
            Some(f) => f.xp as i64 >= threshold,
            None => false,
        }
    }

    /// Levels the player up: one level more, the threshold subtracted from the
    /// experience, and the chosen stat raised.
    pub fn level_up(&mut self, choice: LevelUpChoice)
        requires
            old(self).wf(),
            level_up_due(old(self).objects@[PLAYER as int]),
        ensures
            final(self).wf(),
            same_level(*old(self), *final(self)),
            final(self).inventory == old(self).inventory,
            appended(old(self).messages, final(self).messages, 1),
            line_starts(
                final(self).messages.lines().last(),
                "Your battle skills grow stronger! You reached level "@,
                Color::Yellow,
            ),
            ({
                let p = old(self).objects@[PLAYER as int];
                let threshold = level_up_threshold(p.level as int);
                final(self).objects@ == old(self).objects@.update(
                    PLAYER as int,
                    Object {
                        level: (p.level + 1) as i32,
                        fighter: Some(raised(p.fighter->Some_0, threshold, choice)),
                        ..p
                    },
                )
            }),
    {
        let player = &self.objects[PLAYER];
        let threshold = level_up_xp(player.level);
        let f = player.fighter.unwrap();
        let rest: i64 = f.xp as i64 - threshold;
        let xp: i32 = if rest > i32::MAX as i64 {
            i32::MAX
        } else if rest < i32::MIN as i64 {
            i32::MIN
        } else {
            rest as i32
        };
        let f = Fighter { xp, ..f };
        let f = match choice {
            LevelUpChoice::Constitution => Fighter {
                max_hp: add_clamped(f.max_hp, 20),
                hp: add_clamped(f.hp, 20),
                ..f
            },
            LevelUpChoice::Strength => Fighter { power: add_clamped(f.power, 1), ..f },
            LevelUpChoice::Agility => Fighter { defense: add_clamped(f.defense, 1), ..f },
        };
        let level = self.objects[PLAYER].level + 1;
        self.objects[PLAYER].level = level;
        self.objects[PLAYER].fighter = Some(f);
        let mut text = String::from_str("Your battle skills grow stronger! You reached level ");
        let ghost head = text@;
        text.append(level.to_string().as_str());
        text.append("!");
        assert(text@.subrange(0, head.len() as int) =~= head);
        self.messages.add(text, Color::Yellow);
    }

    /// Moves the object `object_id` from the floor to the end of the inventory,
    /// unless the inventory is full: then nothing but the log changes.
    pub fn pick_item_up(&mut self, object_id: usize)
        requires
            old(self).wf(),
            PLAYER < object_id < old(self).objects@.len(),
        ensures
            final(self).wf(),
            pick_up_outcome(*old(self), object_id as int, *final(self)),
    {
        if self.inventory.len() >= INVENTORY_CAPACITY {
            let mut text = String::from_str("Your inventory is full, cannot pick up ");
            text.append(self.objects[object_id].name.as_str());
            text.append(".");
            self.messages.add(text, Color::Red);
        } else {
            let item = self.objects.swap_remove(object_id);
            let mut text = String::from_str("You picked up a ");
            text.append(item.name.as_str());
            text.append("!");
            self.messages.add(text, Color::Green);
            self.inventory.push(item);
        }
    }

    /// Takes item `inventory_id` out of the inventory and lays it at the player's feet,
    /// as the last object.
    pub fn drop_item(&mut self, inventory_id: usize)
        requires
            old(self).wf(),
            inventory_id < old(self).inventory@.len(),
        ensures
            final(self).wf(),
            drop_outcome(*old(self), inventory_id as int, *final(self)),
    {
        let mut item = self.inventory.remove(inventory_id);
        item.set_pos(self.objects[PLAYER].x, self.objects[PLAYER].y);
        let mut text = String::from_str("You dropped a ");
        text.append(item.name.as_str());
        text.append(".");
        self.messages.add(text, Color::Yellow);
        self.objects.push(item);
    }

    /// Uses item `inventory_id` of the inventory: its effect runs, and the item is
    /// consumed unless the effect was cancelled. `target` is the monster chosen for
    /// a scroll of confusion. An item without a use is cancelled.
    pub fn use_item(&mut self, inventory_id: usize, fov: &FovMap, target: Option<usize>) -> (r: UseResult)
        requires
            old(self).wf(),
            inventory_id < old(self).inventory@.len(),
            target matches Some(t) ==> PLAYER < t < old(self).objects@.len(),
        ensures
            final(self).wf(),
            use_outcome(*old(self), inventory_id as int, *fov, target, *final(self), r),
    {
        match self.inventory[inventory_id].item {
            Some(kind) => {
                let r = match kind {
                    Item::Heal => cast_heal(inventory_id, self),
                    Item::Lightning => cast_lightning(inventory_id, fov, self),
                    Item::Confuse => cast_confuse(inventory_id, target, self),
                };
                match r {
                    UseResult::UsedUp => {
                        self.inventory.remove(inventory_id);
                    },
                    UseResult::Cancelled => {
                        self.messages.add(String::from_str("Cancelled"), Color::White);
                    },
                }
                r
            },
            None => {
                let mut text = String::from_str("The ");
                text.append(self.inventory[inventory_id].name.as_str());
                text.append(" cannot be used.");
                self.messages.add(text, Color::White);
                UseResult::Cancelled
            },
        }
    }

    /// Marks every cell in view as explored.
    pub fn explore(&mut self, fov: &FovMap)
        requires
            old(self).wf(),
        ensures
            final(self).wf(),
            final(self).objects == old(self).objects,
            final(self).inventory == old(self).inventory,
            final(self).messages == old(self).messages,
            final(self).dungeon_level == old(self).dungeon_level,
            final(self).map_builder == old(self).map_builder,
            forall|x: int, y: int|
                in_bounds(x, y) ==> #[trigger] tile_at(final(self).map, x, y) == (Tile {
                    explored: tile_at(old(self).map, x, y).explored || fov.visible(x, y),
                    ..tile_at(old(self).map, x, y)
                }),
    {
        let mut x: i32 = 0;
        while x < MAP_WIDTH
            invariant
                0 <= x <= MAP_WIDTH,
                self.wf(),
                self.objects == old(self).objects,
                self.inventory == old(self).inventory,
                self.messages == old(self).messages,
                self.dungeon_level == old(self).dungeon_level,
                self.map_builder == old(self).map_builder,
                forall|i: int, j: int|
                    in_bounds(i, j) ==> #[trigger] tile_at(self.map, i, j) == if i < x {
                        Tile {
                            explored: tile_at(old(self).map, i, j).explored || fov.visible(i, j),
                            ..tile_at(old(self).map, i, j)
                        }
                    } else {
                        tile_at(old(self).map, i, j)
                    },
            decreases MAP_WIDTH - x,
        {
            let mut y: i32 = 0;
            while y < MAP_HEIGHT
                invariant
                    0 <= x < MAP_WIDTH,
                    0 <= y <= MAP_HEIGHT,
                    self.wf(),
                    self.objects == old(self).objects,
                    self.inventory == old(self).inventory,
                    self.messages == old(self).messages,
                    self.dungeon_level == old(self).dungeon_level,
                    self.map_builder == old(self).map_builder,
                    forall|i: int, j: int|
                        in_bounds(i, j) ==> #[trigger] tile_at(self.map, i, j) == if i < x || (i
                            == x && j < y) {
                            Tile {
                                explored: tile_at(old(self).map, i, j).explored || fov.visible(
                                    i,
                                    j,
                                ),
                                ..tile_at(old(self).map, i, j)
                            }
                        } else {
                            tile_at(old(self).map, i, j)
                        },
                decreases MAP_HEIGHT - y,
            {
                let seen = fov.is_in_fov(x, y);
                let t = self.map[x as usize][y as usize];
                assert(t == tile_at(self.map, x as int, y as int));
                set_tile(&mut self.map, x as usize, y as usize, Tile { explored: t.explored || seen, ..t });
                y = y + 1;
            }
            x = x + 1;
        }
    }

    /// A new game: the player (30 hit points, defense 2, power 5), a first level
    /// generated around it, an empty inventory, dungeon level 1, and a welcome line.
    pub fn new() -> (g: Game)
        ensures
            g.wf(),
            g.dungeon_level == 1,
            g.inventory@.len() == 0,
            g.map_builder == (MapBuilder {
                max_rooms: MAX_ROOMS,
                room_min_size: ROOM_MIN_SIZE,
                room_max_size: ROOM_MAX_SIZE,
                max_room_monsters: MAX_ROOM_MONSTERS,
                max_room_items: MAX_ROOM_ITEMS,
            }),
            fresh_player(g.objects@[PLAYER as int]),
            g.messages.lines().len() == 1,
            line_is(
                g.messages.lines()[0],
                "Welcome stranger! Prepare to perish in the Tombs of the Ancient Kings."@,
                Color::Red,
            ),
            exists|p: Object| #[trigger] generated_level(g.map, g.map_builder, p, g.objects@),
    {
        let mut player = Object::new(0, 0, '@', "player", Color::White, true);
        player.alive = true;
        player.fighter = Some(
            Fighter { max_hp: 30, hp: 30, defense: 2, power: 5, xp: 0, on_death: DeathCallback::Player },
        );
        let mut objects: Vec<Object> = Vec::new();
        objects.push(player);
        let map_builder = MapBuilder {
            max_rooms: MAX_ROOMS,
            room_min_size: ROOM_MIN_SIZE,
            room_max_size: ROOM_MAX_SIZE,
            max_room_monsters: MAX_ROOM_MONSTERS,
            max_room_items: MAX_ROOM_ITEMS,
        };
        let ghost start_player = objects@[0];
        let map = map_builder.build(&mut objects);
        assert(generated_level(map, map_builder, start_player, objects@));
        let mut game = Game {
            map,
            messages: Messages::new(),
            inventory: Vec::new(),
            dungeon_level: 1,
            objects,
            map_builder,
        };
        game.messages.add(
            String::from_str("Welcome stranger! Prepare to perish in the Tombs of the Ancient Kings."),
            Color::Red,
        );
        assert(generated_level(game.map, game.map_builder, start_player, game.objects@));
        game
    }

    /// Replaces the map and every object but the player by a newly generated level.
    pub fn initialize_map(&mut self)
        requires
            old(self).wf(),
        ensures
            final(self).wf(),
            final(self).inventory == old(self).inventory,
            final(self).messages == old(self).messages,
            final(self).dungeon_level == old(self).dungeon_level,
            final(self).map_builder == old(self).map_builder,
            generated_level(
                final(self).map,
                final(self).map_builder,
                old(self).objects@[PLAYER as int],
                final(self).objects@,
            ),
    {
        self.map = self.map_builder.build(&mut self.objects);
    }

    /// Goes one level down: the player rests (healing half its maximum hit
    /// points), the dungeon level goes up by one, and a new level replaces the map
    /// and all objects but the player; stats and inventory are kept.
    pub fn next_level(&mut self)
        requires
            old(self).wf(),
            old(self).dungeon_level < u32::MAX,
        ensures
            final(self).wf(),
            next_level_outcome(*old(self), *final(self)),
    {
        self.messages.add(
            String::from_str("You take a moment to rest, and recover your strength."),
            Color::Violet,
        );
        let heal_hp = match self.objects[PLAYER].fighter {
            Some(f) => f.max_hp / 2,
            None => 0,
        };
        self.objects[PLAYER].heal(heal_hp);
        self.messages.add(
            String::from_str(
                "After a rare moment of peace, you descend deeper into the heart of the dungeon...",
            ),
            Color::Red,
        );
        self.dungeon_level = self.dungeon_level + 1;
        self.initialize_map();
    }

    /// Whether a click on `(x, y)` picks a target: the cell is on the map, in view,
    /// and, when a range is given, within it of the player.
    pub fn target_tile_accepted(&self, fov: &FovMap, x: i32, y: i32, max_range: Option<i32>) -> (r: bool)
        requires
            self.wf(),
        ensures
            r == (x < MAP_WIDTH && y < MAP_HEIGHT && fov.visible(x as int, y as int) && match max_range {
                None => true,
                Some(range) => range >= 0 && dist_sq(
                    self.objects@[PLAYER as int].x as int,
                    self.objects@[PLAYER as int].y as int,
                    x as int,
                    y as int,
                ) <= range * range,
            }),
    {
        let in_fov = x < MAP_WIDTH && y < MAP_HEIGHT && fov.is_in_fov(x, y);
        let in_range = match max_range {
            None => true,
            Some(range) => {
                let r128: i128 = range as i128;
                assert(r128 * r128 <= 0x1_0000_0000_0000_0000i128) by (nonlinear_arith)
                    requires
                        -0x1_0000_0000i128 <= r128 <= 0x1_0000_0000i128,
                ;
                assert(r128 * r128 >= 0) by (nonlinear_arith);
                let rr: i128 = r128 * r128;
                range >= 0 && self.objects[PLAYER].distance_sq(x, y) <= rr
            },
        };
        in_fov && in_range
    }

    /// The first item (not the player) lying at the player's feet.
    fn item_at_player(&self) -> (r: Option<usize>)
        requires
            self.wf(),
        ensures
            r matches Some(i) ==> first_item_at(
                self.objects@,
                self.objects@[PLAYER as int].x as int,
                self.objects@[PLAYER as int].y as int,
                i as int,
            ),
            r is None ==> forall|i: int|
                !#[trigger] item_at(
                    self.objects@,
                    self.objects@[PLAYER as int].x as int,
                    self.objects@[PLAYER as int].y as int,
                    i,
                ),
    {
        let (px, py) = self.objects[PLAYER].pos();
        let mut i: usize = 1;
        while i < self.objects.len()
            invariant
                1 <= i <= self.objects@.len(),
                px == self.objects@[PLAYER as int].x,
                py == self.objects@[PLAYER as int].y,
                forall|k: int| 0 <= k < i ==> !#[trigger] item_at(self.objects@, px as int, py as int, k),
            decreases self.objects@.len() - i,
        {
            if self.objects[i].item.is_some() && self.objects[i].x == px && self.objects[i].y == py {
                return Some(i);
            }
            i = i + 1;
        }
        None
    }

    /// Whether an object named "stairs" lies at the player's position.
    pub fn player_on_stairs(&self) -> (r: bool)
        requires
            self.wf(),
        ensures
            r == on_stairs(self.objects@),
    {
        let (px, py) = self.objects[PLAYER].pos();
        let mut i: usize = 0;
        while i < self.objects.len()
            invariant
                i <= self.objects@.len(),
                px == self.objects@[PLAYER as int].x,
                py == self.objects@[PLAYER as int].y,
                forall|k: int|
                    0 <= k < i ==> !(#[trigger] self.objects@[k].name@ == "stairs"@ && self.objects@[k].x
                        == px && self.objects@[k].y == py),
            decreases self.objects@.len() - i,
        {
            let o = &self.objects[i];
            if o.x == px && o.y == py && same_text(o.name.as_str(), "stairs") {
                return true;
            }
            i = i + 1;
        }
        false
    }

    /// Carries out one command of the player and says whether it took a turn. Only
    /// a move or attack of a living player takes one; leaving is `Exit`; a dead
    /// player can do nothing else.
    pub fn handle_command(&mut self, command: PlayerCommand, fov: &FovMap) -> (r: PlayerAction)
        requires
            old(self).wf(),
        ensures
            final(self).wf(),
            r == match command {
                PlayerCommand::Exit => PlayerAction::Exit,
                PlayerCommand::Move { .. } => if old(self).objects@[PLAYER as int].alive {
                    PlayerAction::TookTurn
                } else {
                    PlayerAction::DidntTakeTurn
                },
                _ => PlayerAction::DidntTakeTurn,
            },
            (command == PlayerCommand::Exit || command == PlayerCommand::Wait
                || !old(self).objects@[PLAYER as int].alive) ==> *final(self) == *old(self),
            command matches PlayerCommand::Move { dx, dy } ==> (old(self).objects@[PLAYER as int].alive
                ==> move_or_attack_outcome(*old(self), dx as int, dy as int, *final(self))),
            (command == PlayerCommand::PickUp && old(self).objects@[PLAYER as int].alive) ==> ({
                let p = old(self).objects@[PLAYER as int];
                &&& (forall|i: int| !#[trigger] item_at(old(self).objects@, p.x as int, p.y as int, i))
                    ==> *final(self) == *old(self)
                &&& forall|i: int| #[trigger] first_item_at(old(self).objects@, p.x as int, p.y as int, i)
                    ==> pick_up_outcome(*old(self), i, *final(self))
            }),
            command matches PlayerCommand::DropItem { index } ==> (old(self).objects@[PLAYER as int].alive
                ==> if index < old(self).inventory@.len() {
                drop_outcome(*old(self), index as int, *final(self))
            } else {
                *final(self) == *old(self)
            }),
            command matches PlayerCommand::UseItem { index, target } ==> (old(
                self,
            ).objects@[PLAYER as int].alive
                ==> if index < old(self).inventory@.len() && (target matches Some(t) ==> PLAYER < t < old(
                self,
            ).objects@.len()) {
                exists|r: UseResult|
                    #[trigger] use_outcome(*old(self), index as int, *fov, target, *final(self), r)
            } else {
                *final(self) == *old(self)
            }),
            (command == PlayerCommand::Descend && old(self).objects@[PLAYER as int].alive) ==> if on_stairs(
                old(self).objects@,
            ) && old(self).dungeon_level < u32::MAX {
                next_level_outcome(*old(self), *final(self))
            } else {
                *final(self) == *old(self)
            },
    {
        if let PlayerCommand::Exit = command {
            return PlayerAction::Exit;
        }
        if !self.objects[PLAYER].alive {
            return PlayerAction::DidntTakeTurn;
        }
        match command {
            PlayerCommand::Move { dx, dy } => {
                self.player_move_or_attack(dx, dy);
                PlayerAction::TookTurn
            },
            PlayerCommand::PickUp => {
                if let Some(item_id) = self.item_at_player() {
                    self.pick_item_up(item_id);
                }
                PlayerAction::DidntTakeTurn
            },
            PlayerCommand::UseItem { index, target } => {
                let target_ok = match target {
                    Some(t) => PLAYER < t && t < self.objects.len(),
                    None => true,
                };
                if index < self.inventory.len() && target_ok {
                    self.use_item(index, fov, target);
                }
                PlayerAction::DidntTakeTurn
            },
            PlayerCommand::DropItem { index } => {
                if index < self.inventory.len() {
                    self.drop_item(index);
                }
                PlayerAction::DidntTakeTurn
            },
            PlayerCommand::Descend => {
                if self.player_on_stairs() && self.dungeon_level < u32::MAX {
                    self.next_level();
                }
                PlayerAction::DidntTakeTurn
            },
            _ => PlayerAction::DidntTakeTurn,
        }
    }

    /// Whether object `id` is drawn: it is in view, or it is always shown and its
    /// cell has been explored.
    pub fn is_shown(&self, id: usize, fov: &FovMap) -> (r: bool)
        requires
            self.wf(),
            id < self.objects@.len(),
        ensures
            r == ({
                let o = self.objects@[id as int];
                fov.visible(o.x as int, o.y as int) || (o.always_visible && in_bounds(
                    o.x as int,
                    o.y as int,
                )
                    && tile_at(self.map, o.x as int, o.y as int).explored)
            }),
    {
        let o = &self.objects[id];
        if fov.is_in_fov(o.x, o.y) {
            return true;
        }
        o.always_visible && 0 <= o.x && o.x < MAP_WIDTH && 0 <= o.y && o.y < MAP_HEIGHT
            && self.map[o.x as usize][o.y as usize].explored
    }

}

} // verus!
