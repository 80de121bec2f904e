//! Items and their effects: healing, lightning, confusion.

use vstd::prelude::*;
use vstd::string::*;

use crate::ai::{confused, Ai};
use crate::colors::Color;
use crate::fov::FovMap;
use crate::combat::hit_objects;
use crate::game::{same_world, Game, PLAYER};
use crate::fighter::death_line;
use crate::messages::{appended, line_starts, logged, Messages};
use crate::object::{dies_from, dist_sq, healed, Object};
use crate::random::{total_weight, weighted_index};

verus! {

/// Hit points restored by a healing potion.
pub const HEAL_AMOUNT: i32 = 4;

/// Damage of a lightning bolt; defense does not reduce it.
pub const LIGHTNING_DAMAGE: i32 = 40;

/// Reach of a lightning bolt.
pub const LIGHTNING_RANGE: i32 = 5;

/// Reach of a scroll of confusion.
pub const CONFUSE_RANGE: i32 = 8;

/// Turns that a confusion lasts.
pub const CONFUSE_NUM_TURNS: i32 = 10;

/// The kinds of usable items.
#[derive(Clone, Copy, Debug, PartialEq, Eq, Structural)]
pub enum Item {
    Heal,
    Lightning,
    Confuse,
}

/// Whether using an item consumed it.
#[derive(Clone, Copy, Debug, PartialEq, Eq, Structural)]
pub enum UseResult {
    UsedUp,
    Cancelled,
}

/// `o` is a fresh item of kind `kind` lying at `(x, y)`: not blocking, always
/// shown once its cell is explored.
pub open spec fn is_item_of(o: Object, x: int, y: int, kind: Item) -> bool {
    &&& o.x == x
    &&& o.y == y
    &&& !o.blocks
    &&& !o.alive
    &&& o.always_visible
    &&& o.level == 1
    &&& o.fighter is None
    &&& o.ai is None
    &&& o.item == Some(kind)
    &&& match kind {
        Item::Heal => o.glyph == '!' && o.name@ == "healing potion"@ && o.color == Color::Violet,
        Item::Lightning => o.glyph == '#' && o.name@ == "scroll of lightning bolt"@ && o.color
            == Color::LightYellow,
        Item::Confuse => o.glyph == '#' && o.name@ == "scroll of confusion"@ && o.color
            == Color::LightYellow,
    }
}

/// The item kind of table entry `choice`: 0 a healing potion, 1 a scroll of
/// lightning bolt, any other a scroll of confusion.
pub open spec fn kind_of_choice(choice: usize) -> Item {
    if choice == 0 {
        Item::Heal
    } else if choice == 1 {
        Item::Lightning
    } else {
        Item::Confuse
    }
}

/// The item of table entry `choice` at `(x, y)` (see `kind_of_choice`).
pub fn item_of_choice(choice: usize, x: i32, y: i32) -> (o: Object)
    ensures
        is_item_of(o, x as int, y as int, kind_of_choice(choice)),
{
    let mut item = if choice == 0 {
        let mut object = Object::new(x, y, '!', "healing potion", Color::Violet, false);
        object.item = Some(Item::Heal);
        object
    } else if choice == 1 {
        let mut object = Object::new(x, y, '#', "scroll of lightning bolt", Color::LightYellow, false);
        object.item = Some(Item::Lightning);
        object
    } else {
        let mut object = Object::new(x, y, '#', "scroll of confusion", Color::LightYellow, false);
        object.item = Some(Item::Confuse);
        object
    };
    item.always_visible = true;
    item
}

/// A new item at `(x, y)`, drawn from the table: a healing potion (weight 70), a
/// scroll of lightning bolt (weight 10) or a scroll of confusion (weight 10).
pub fn create_item(x: i32, y: i32) -> (o: Object)
    ensures
        exists|kind: Item| is_item_of(o, x as int, y as int, kind),
{
    let weights: Vec<u32> = vec![70, 10, 10];
    assert(total_weight(weights@) == 90) by {
        reveal_with_fuel(total_weight, 4);
        assert(weights@.drop_last().drop_last().drop_last() =~= Seq::<u32>::empty());
    }
    let choice = weighted_index(&weights);
    item_of_choice(choice, x, y)
}

/// The square of the distance from the player to object `i`.
pub open spec fn dist_to_player(objects: Seq<Object>, i: int) -> int {
    dist_sq(objects[0].x as int, objects[0].y as int, objects[i].x as int, objects[i].y as int)
}

/// Object `i` is a hostile in view: not the player, with a fighter and a
/// behaviour, on a cell that the player sees.
pub open spec fn hostile_in_view(objects: Seq<Object>, fov: FovMap, i: int) -> bool {
    &&& PLAYER < i < objects.len()
    &&& objects[i].fighter is Some
    &&& objects[i].ai is Some
    &&& fov.visible(objects[i].x as int, objects[i].y as int)
}

/// Object `i` is a hostile in view no farther from the player than `max_range`.
pub open spec fn in_reach(objects: Seq<Object>, fov: FovMap, max_range: int, i: int) -> bool {
    &&& hostile_in_view(objects, fov, i)
    &&& max_range >= 0
    &&& dist_to_player(objects, i) <= max_range * max_range
}

/// Object `t` is the hostile in reach nearest to the player, the first one among
/// equally near ones.
pub open spec fn is_closest(objects: Seq<Object>, fov: FovMap, max_range: int, t: int) -> bool {
    &&& in_reach(objects, fov, max_range, t)
    &&& forall|i: int| #[trigger] in_reach(objects, fov, max_range, i) ==> dist_to_player(objects, t)
        <= dist_to_player(objects, i) && (i < t ==> dist_to_player(objects, t) < dist_to_player(
        objects,
        i,
    ))
}

/// A bolt goes to the nearer of two hostiles in view when the range covers both:
/// with `near` strictly closer to the player than `far`, and `far` within
/// `LIGHTNING_RANGE`, `far` is not the target and the target is no farther than
/// `near`. No target ever lies beyond the range.
pub proof fn lightning_prefers_the_nearer(objects: Seq<Object>, fov: FovMap, near: int, far: int)
    requires
        hostile_in_view(objects, fov, near),
        hostile_in_view(objects, fov, far),
        dist_to_player(objects, near) < dist_to_player(objects, far),
        dist_to_player(objects, far) <= LIGHTNING_RANGE * LIGHTNING_RANGE,
    ensures
        !is_closest(objects, fov, LIGHTNING_RANGE as int, far),
        forall|t: int|
            #[trigger] is_closest(objects, fov, LIGHTNING_RANGE as int, t) ==> dist_to_player(objects, t)
                <= dist_to_player(objects, near) && dist_to_player(objects, t)
                <= LIGHTNING_RANGE * LIGHTNING_RANGE,
{
    assert(in_reach(objects, fov, LIGHTNING_RANGE as int, near));
    assert(in_reach(objects, fov, LIGHTNING_RANGE as int, far));
}

/// The effect of a healing potion on the objects: the player, unless already at
/// full health (or without a fighter), regains `HEAL_AMOUNT` hit points.
pub open spec fn heal_effect(before: Seq<Object>, after: Seq<Object>, r: UseResult) -> bool {
    let p = before[0];
    if p.fighter is Some && p.fighter->Some_0.hp != p.fighter->Some_0.max_hp {
        r == UseResult::UsedUp && after == before.update(0, healed(p, HEAL_AMOUNT))
    } else {
        r == UseResult::Cancelled && after == before
    }
}

/// The effect of a lightning bolt: the nearest hostile in reach takes
/// `LIGHTNING_DAMAGE`, a kill's experience going to the player; with none in
/// reach, it is cancelled.
pub open spec fn lightning_effect(
    before: Seq<Object>,
    fov: FovMap,
    after: Seq<Object>,
    r: UseResult,
) -> bool {
    if exists|t: int| #[trigger] is_closest(before, fov, LIGHTNING_RANGE as int, t) {
        &&& r == UseResult::UsedUp
        &&& forall|t: int| #[trigger] is_closest(before, fov, LIGHTNING_RANGE as int, t) ==> hit_objects(
            before,
            PLAYER as int,
            t,
            LIGHTNING_DAMAGE,
            after,
        )
    } else {
        r == UseResult::Cancelled && after == before
    }
}

/// The behaviour that a confusion wraps: the current one, or basic if none.
pub open spec fn wrapped_ai(o: Object) -> Ai {
    match o.ai {
        Some(a) => a,
        None => Ai::Basic,
    }
}

/// The effect of a scroll of confusion on the chosen `target`: its behaviour is
/// wrapped in a confusion of `CONFUSE_NUM_TURNS` turns; with no target it is cancelled.
pub open spec fn confuse_effect(
    before: Seq<Object>,
    target: Option<usize>,
    after: Seq<Object>,
    r: UseResult,
) -> bool {
    match target {
        Some(t) => r == UseResult::UsedUp && after == before.update(
            t as int,
            Object {
                ai: Some(confused(wrapped_ai(before[t as int]), CONFUSE_NUM_TURNS as int)),
                ..before[t as int]
            },
        ),
        None => r == UseResult::Cancelled && after == before,
    }
}

/// The log of a healing potion used by the player `p`: a refusal at full health,
/// a line of relief otherwise; nothing without a fighter.
pub open spec fn heal_log(p: Object, m0: Messages, m1: Messages) -> bool {
    match p.fighter {
        Some(f) => if f.hp == f.max_hp {
            logged(m0, m1, "You are already at full health."@, Color::Red)
        } else {
            logged(m0, m1, "Your wounds start to feel better!"@, Color::LightViolet)
        },
        None => m1.lines() == m0.lines(),
    }
}

/// The log of a lightning bolt: with no hostile in reach, one line saying so;
/// otherwise a line naming the target that was struck, then its death line if
/// the bolt killed it.
pub open spec fn lightning_log(objects: Seq<Object>, fov: FovMap, m0: Messages, m1: Messages) -> bool {
    let n = m0.lines().len() as int;
    if exists|t: int| #[trigger] is_closest(objects, fov, LIGHTNING_RANGE as int, t) {
        forall|t: int| #[trigger]
            is_closest(objects, fov, LIGHTNING_RANGE as int, t) ==> {
                let kills = dies_from(objects[t], LIGHTNING_DAMAGE);
                &&& appended(m0, m1, if kills { 2 } else { 1 })
                &&& line_starts(
                    m1.lines()[n],
                    "A lightning bolt strikes the "@ + objects[t].name@,
                    Color::LightBlue,
                )
                &&& kills ==> death_line(objects[t].fighter->Some_0.on_death, objects[t], m1.lines()[n + 1])
            }
    } else {
        logged(m0, m1, "No enemy is close enough to strike."@, Color::Red)
    }
}

/// The effect of a healing potion on `game`.
pub fn cast_heal(_inventory_id: usize, game: &mut Game) -> (r: UseResult)
    requires
        old(game).wf(),
    ensures
        final(game).wf(),
        same_world(*old(game), *final(game)),
        heal_effect(old(game).objects@, final(game).objects@, r),
        heal_log(old(game).objects@[PLAYER as int], old(game).messages, final(game).messages),
{
    if let Some(fighter) = game.objects[PLAYER].fighter {
        if fighter.hp == fighter.max_hp {
            game.messages.add(String::from_str("You are already at full health."), Color::Red);
            return UseResult::Cancelled;
        }
        game.messages.add(String::from_str("Your wounds start to feel better!"), Color::LightViolet);
        game.objects[PLAYER].heal(HEAL_AMOUNT);
        return UseResult::UsedUp;
    }
    UseResult::Cancelled
}

/// The effect of a lightning bolt on `game`, with `fov` the cells the player sees.
pub fn cast_lightning(_inventory_id: usize, fov: &FovMap, game: &mut Game) -> (r: UseResult)
    requires
        old(game).wf(),
    ensures
        final(game).wf(),
        same_world(*old(game), *final(game)),
        lightning_effect(old(game).objects@, *fov, final(game).objects@, r),
        lightning_log(old(game).objects@, *fov, old(game).messages, final(game).messages),
{
    let monster_id = closest_monster(fov, &game.objects, LIGHTNING_RANGE);
    match monster_id {
        Some(id) => {
            let mut text = String::from_str("A lightning bolt strikes the ");
            text.append(game.objects[id].name.as_str());
            let ghost head = text@;
            text.append(" with a loud thunder! The damage is ");
            text.append(LIGHTNING_DAMAGE.to_string().as_str());
            text.append(" hit points.");
            assert(text@.subrange(0, head.len() as int) =~= head);
            game.messages.add(text, Color::LightBlue);
            let xp = game.objects[id].take_damage(LIGHTNING_DAMAGE, &mut game.messages);
            game.objects[PLAYER].gain_xp(xp);
            proof {
                let ghost objs = old(game).objects@;
                assert forall|t: int| #[trigger] is_closest(objs, *fov, LIGHTNING_RANGE as int, t) implies t
                    == id by {
                    if t < id {
                        assert(in_reach(objs, *fov, LIGHTNING_RANGE as int, t));
                    } else if t > id {
                        assert(in_reach(objs, *fov, LIGHTNING_RANGE as int, id as int));
                    }
                }
            }
            UseResult::UsedUp
        },
        None => {
            game.messages.add(String::from_str("No enemy is close enough to strike."), Color::Red);
            UseResult::Cancelled
        },
    }
}

/// The hostile in view nearest to the player (index 0) and within `max_range`
/// of it; among equally near ones, the first.
pub fn closest_monster(fov: &FovMap, objects: &Vec<Object>, max_range: i32) -> (r: Option<usize>)
    requires
        objects@.len() >= 1,
    ensures
        r is None <==> forall|i: int| !#[trigger] in_reach(objects@, *fov, max_range as int, i),
        r matches Some(t) ==> is_closest(objects@, *fov, max_range as int, t as int),
{
    if max_range < 0 {
        return None;
    }
    let range: i128 = max_range as i128;
    assert(range * range <= 0x1_0000_0000_0000_0000i128) by (nonlinear_arith)
        requires
            0 <= range <= 0x1_0000_0000i128,
    ;
    // a candidate must come strictly under this bound, that is within the range
    let bound: i128 = range * range + 1;
    let mut best: Option<usize> = None;
    let mut best_dist: i128 = bound;
    let mut i: usize = 1;
    while i < objects.len()
        invariant
            1 <= i <= objects@.len(),
            max_range >= 0,
            bound == max_range * max_range + 1,
            forall|k: int|
                0 <= k < i && #[trigger] hostile_in_view(objects@, *fov, k) ==> dist_to_player(objects@, k)
                    >= best_dist,
            best is None ==> best_dist == bound,
            best matches Some(t) ==> t < i && hostile_in_view(objects@, *fov, t as int)
                && dist_to_player(objects@, t as int)
                == best_dist && best_dist < bound && forall|k: int|
                0 <= k < t && #[trigger] hostile_in_view(objects@, *fov, k) ==> dist_to_player(objects@, k)
                    > best_dist,
        decreases objects@.len() - i,
    {
        let o = &objects[i];
        if o.fighter.is_some() && o.ai.is_some() && fov.is_in_fov(o.x, o.y) {
            let d = objects[PLAYER].distance_sq(o.x, o.y);
            if d < best_dist {
                best = Some(i);
                best_dist = d;
            }
        }
        i = i + 1;
    }
    if let Some(t) = best {
        assert(in_reach(objects@, *fov, max_range as int, t as int));
    }
    best
}

/// The effect of a scroll of confusion on `game`: `target` is the monster that
/// the player chose, or none.
pub fn cast_confuse(_inventory_id: usize, target: Option<usize>, game: &mut Game) -> (r: UseResult)
    requires
        old(game).wf(),
        target matches Some(t) ==> PLAYER < t < old(game).objects@.len(),
    ensures
        final(game).wf(),
        same_world(*old(game), *final(game)),
        confuse_effect(old(game).objects@, target, final(game).objects@, r),
        match target {
            Some(t) => logged(
                old(game).messages,
                final(game).messages,
                "The eyes of "@ + old(game).objects@[t as int].name@
                    + " look vacant, as he starts to stumble around!"@,
                Color::LightGreen,
            ),
            None => logged(
                old(game).messages,
                final(game).messages,
                "No enemy is close enough to strike."@,
                Color::Red,
            ),
        },
{
    match target {
        Some(id) => {
            let old_ai = match game.objects[id].ai.take() {
                Some(a) => a,
                None => Ai::Basic,
            };
            let ghost prev = old_ai;
            game.objects[id].ai = Some(
                Ai::Confused { previous_ai: Box::new(old_ai), num_turns: CONFUSE_NUM_TURNS },
            );
            assert(game.objects@ == old(game).objects@.update(
                id as int,
                Object {
                    ai: Some(confused(prev, CONFUSE_NUM_TURNS as int)),
                    ..old(game).objects@[id as int]
                },
            ));
            let mut text = String::from_str("The eyes of ");
            text.append(game.objects[id].name.as_str());
            text.append(" look vacant, as he starts to stumble around!");
            game.messages.add(text, Color::LightGreen);
            UseResult::UsedUp
        },
        None => {
            game.messages.add(String::from_str("No enemy is close enough to strike."), Color::Red);
            UseResult::Cancelled
        },
    }
}

} // verus!
