//! Combat statistics, death policies, and arithmetic held to the `i32` range.

use vstd::prelude::*;
use vstd::string::*;

use crate::colors::Color;
use crate::messages::{appended, line_is, line_starts, logged, Messages};
use crate::object::Object;

verus! {

/// Combat properties of the player and of monsters.
#[derive(Clone, Copy, Debug, PartialEq, Eq, Structural)]
pub struct Fighter {
    pub max_hp: i32,
    pub hp: i32,
    pub defense: i32,
    pub power: i32,
    pub xp: i32,
    pub on_death: DeathCallback,
}

/// What happens to a fighter when it dies.
#[derive(Clone, Copy, Debug, PartialEq, Eq, Structural)]
pub enum DeathCallback {
    Player,
    Monster,
}

/// `v` held to the range of `i32`.
pub open spec fn clamp_i32(v: int) -> int {
    if v < i32::MIN {
        i32::MIN as int
    } else if v > i32::MAX {
        i32::MAX as int
    } else {
        v
    }
}

/// `a + b`, held to the range of `i32`.
pub fn add_clamped(a: i32, b: i32) -> (r: i32)
    ensures
        r == clamp_i32(a + b),
{
    let s: i64 = a as i64 + b as i64;
    if s > i32::MAX as i64 {
        i32::MAX
    } else if s < i32::MIN as i64 {
        i32::MIN
    } else {
        s as i32
    }
}

/// `a - b`, held to the range of `i32`.
pub fn sub_clamped(a: i32, b: i32) -> (r: i32)
    ensures
        r == clamp_i32(a - b),
{
    let s: i64 = a as i64 - b as i64;
    if s > i32::MAX as i64 {
        i32::MAX
    } else if s < i32::MIN as i64 {
        i32::MIN
    } else {
        s as i32
    }
}

/// The dead player: no longer alive, and only the look changes.
pub open spec fn player_corpse(before: Object, after: Object) -> bool {
    after == (Object { glyph: '%', color: Color::DarkRed, alive: false, ..before })
}

/// A dead monster: an inert, non-blocking corpse without fighter or behaviour,
/// renamed to "remains of <name>".
pub open spec fn monster_corpse(before: Object, after: Object) -> bool {
    &&& after.name@ == "remains of "@ + before.name@
    &&& after == (Object {
        glyph: '%',
        color: Color::DarkRed,
        alive: false,
        blocks: false,
        fighter: None,
        ai: None,
        name: after.name,
        ..before
    })
}

/// What the death policy `cb` turns `before` into: a corpse if it was alive; an
/// object already dead stays as it is.
pub open spec fn death_applied(cb: DeathCallback, before: Object, after: Object) -> bool {
    if !before.alive {
        after == before
    } else {
        match cb {
            DeathCallback::Player => player_corpse(before, after),
            DeathCallback::Monster => monster_corpse(before, after),
        }
    }
}

/// The line that announces the death of `o` under policy `cb`: "You died!" for
/// the player; for a monster, a line that begins "<name> is dead!".
pub open spec fn death_line(cb: DeathCallback, o: Object, line: (String, Color)) -> bool {
    match cb {
        DeathCallback::Player => line_is(line, "You died!"@, Color::Red),
        DeathCallback::Monster => line_starts(line, o.name@ + " is dead!"@, Color::Orange),
    }
}

/// The log after the death policy `cb` ran on `o`: one death line if `o` was
/// alive, nothing otherwise.
pub open spec fn death_log(cb: DeathCallback, o: Object, before: Messages, after: Messages) -> bool {
    if o.alive {
        appended(before, after, 1) && death_line(cb, o, after.lines().last())
    } else {
        after.lines() == before.lines()
    }
}

/// A death policy runs once: run a second time on the corpse it made, it changes
/// neither the object nor the log.
pub proof fn death_policy_is_idempotent(
    cb: DeathCallback,
    o0: Object,
    o1: Object,
    o2: Object,
    m0: Messages,
    m1: Messages,
    m2: Messages,
)
    requires
        death_applied(cb, o0, o1),
        death_log(cb, o0, m0, m1),
        death_applied(cb, o1, o2),
        death_log(cb, o1, m1, m2),
    ensures
        !o1.alive,
        o2 == o1,
        m2.lines() == m1.lines(),
{
}

impl DeathCallback {
    /// Turns a living `object` into a corpse according to this policy, and says so
    /// in the log. On an object that is already dead it does nothing.
    pub fn callback(self, object: &mut Object, messages: &mut Messages)
        ensures
            death_applied(self, *old(object), *final(object)),
            death_log(self, *old(object), *old(messages), *final(messages)),
    {
        if !object.alive {
            return;
        }
        match self {
            DeathCallback::Player => player_death(object, messages),
            DeathCallback::Monster => monster_death(object, messages),
        }
    }
}

fn player_death(player: &mut Object, messages: &mut Messages)
    ensures
        player_corpse(*old(player), *final(player)),
        logged(*old(messages), *final(messages), "You died!"@, Color::Red),
{
    messages.add(String::from_str("You died!"), Color::Red);
    player.alive = false;
    player.glyph = '%';
    player.color = Color::DarkRed;
}

fn monster_death(monster: &mut Object, messages: &mut Messages)
    ensures
        monster_corpse(*old(monster), *final(monster)),
        appended(*old(messages), *final(messages), 1),
        line_starts(final(messages).lines().last(), old(monster).name@ + " is dead!"@, Color::Orange),
{
    let mut text = monster.name.clone();
    text.append(" is dead!");
    let ghost head = text@;
    if let Some(f) = monster.fighter {
        text.append(" You gain ");
        text.append(f.xp.to_string().as_str());
        text.append(" experience points.");
    }
    assert(text@.subrange(0, head.len() as int) =~= head);
    messages.add(text, Color::Orange);
    let mut name = String::from_str("remains of ");
    name.append(monster.name.as_str());
    monster.glyph = '%';
    monster.color = Color::DarkRed;
    monster.alive = false;
    monster.blocks = false;
    monster.fighter = None;
    monster.ai = None;
    monster.name = name;
}

} // verus!
