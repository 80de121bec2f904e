//! Objects on the map, and damage, healing and death.

use vstd::prelude::*;

use crate::ai::Ai;
use crate::colors::Color;
use crate::fighter::{
    add_clamped, clamp_i32, death_applied, death_log, sub_clamped, DeathCallback, Fighter,
};
use crate::item::Item;
use crate::messages::Messages;

verus! {

/// Anything on the map: the player, a monster, an item, the stairs.
#[derive(Debug)]
pub struct Object {
    pub x: i32,
    pub y: i32,
    pub glyph: char,
    pub color: Color,
    pub name: String,
    pub blocks: bool,
    pub alive: bool,
    pub always_visible: bool,
    pub level: i32,
    pub fighter: Option<Fighter>,
    pub ai: Option<Ai>,
    pub item: Option<Item>,
}

/// `o` after `damage` is subtracted from its hit points (a non-positive amount
/// changes nothing).
pub open spec fn damaged(o: Object, damage: i32) -> Object {
    match o.fighter {
        Some(f) => if damage > 0 {
            Object { fighter: Some(Fighter { hp: clamp_i32(f.hp - damage) as i32, ..f }), ..o }
        } else {
            o
        },
        None => o,
    }
}

/// Taking `damage` kills `o`: it is alive and its hit points drop to zero or below.
pub open spec fn dies_from(o: Object, damage: i32) -> bool {
    &&& o.alive
    &&& damaged(o, damage).fighter is Some
    &&& damaged(o, damage).fighter->Some_0.hp <= 0
}

/// The square of the distance between two cells.
pub open spec fn dist_sq(x1: int, y1: int, x2: int, y2: int) -> int {
    (x2 - x1) * (x2 - x1) + (y2 - y1) * (y2 - y1)
}

/// The experience that `o` hands to its killer when it takes `damage`: a
/// monster's experience value on the hit that kills it, nothing otherwise.
pub open spec fn xp_reward(o: Object, damage: i32) -> Option<i32> {
    if dies_from(o, damage) && o.fighter->Some_0.on_death == DeathCallback::Monster {
        Some(o.fighter->Some_0.xp)
    } else {
        None
    }
}

/// `after` is `before` once it has taken `damage`: if that kills it, it is no
/// longer alive and its death policy has run; otherwise only its hit points changed.
pub open spec fn damage_outcome(before: Object, damage: i32, after: Object) -> bool {
    if dies_from(before, damage) {
        death_applied(before.fighter->Some_0.on_death, damaged(before, damage), after)
    } else {
        after == damaged(before, damage)
    }
}

/// `o` after healing by `amount`, never above its maximum hit points.
pub open spec fn healed(o: Object, amount: i32) -> Object {
    match o.fighter {
        Some(f) => {
            let hp = clamp_i32(f.hp + amount);
            Object {
                fighter: Some(Fighter { hp: if hp > f.max_hp { f.max_hp } else { hp as i32 }, ..f }),
                ..o
            }
        },
        None => o,
    }
}

/// `o` credited with the experience `xp`, if any.
pub open spec fn credited(o: Object, xp: Option<i32>) -> Object {
    match (xp, o.fighter) {
        (Some(v), Some(f)) => Object {
            fighter: Some(Fighter { xp: clamp_i32(f.xp + v) as i32, ..f }),
            ..o
        },
        _ => o,
    }
}

/// The log after `before` took `damage`: one death line on the hit that kills
/// it, no new line otherwise.
pub open spec fn damage_log(before: Object, damage: i32, m0: Messages, m1: Messages) -> bool {
    if dies_from(before, damage) {
        death_log(before.fighter->Some_0.on_death, before, m0, m1)
    } else {
        m1.lines() == m0.lines()
    }
}

/// Death happens once. An object that is alive dies on exactly the hit that takes
/// its hit points to zero or below; an object that has died stays dead, and
/// further damage neither runs its death policy again nor yields experience.
/// The log says so once: the death line comes with the killing hit only.
pub proof fn death_is_final(
    o0: Object,
    d1: i32,
    o1: Object,
    d2: i32,
    o2: Object,
    m0: Messages,
    m1: Messages,
    m2: Messages,
)
    requires
        damage_outcome(o0, d1, o1),
        damage_outcome(o1, d2, o2),
        damage_log(o0, d1, m0, m1),
        damage_log(o1, d2, m1, m2),
    ensures
        o1.alive == (o0.alive && !dies_from(o0, d1)),
        !o1.alive ==> !o2.alive && !dies_from(o1, d2) && xp_reward(o1, d2) is None && o2
            == damaged(o1, d2) && m2.lines() == m1.lines(),
{
}

impl Object {
    pub fn new(x: i32, y: i32, glyph: char, name: &str, color: Color, blocks: bool) -> (o: Object)
        ensures
            o.x == x,
            o.y == y,
            o.glyph == glyph,
            o.color == color,
            o.name@ == name@,
            o.blocks == blocks,
            !o.alive,
            !o.always_visible,
            o.level == 1,
            o.fighter is None,
            o.ai is None,
            o.item is None,
    {
        Object {
            x,
            y,
            glyph,
            color,
            name: name.to_owned(),
            blocks,
            alive: false,
            always_visible: false,
            level: 1,
            fighter: None,
            ai: None,
            item: None,
        }
    }

    pub fn pos(&self) -> (r: (i32, i32))
        ensures
            r == (self.x, self.y),
    {
        (self.x, self.y)
    }

    pub fn set_pos(&mut self, x: i32, y: i32)
        ensures
            *final(self) == (Object { x, y, ..*old(self) }),
    {
        self.x = x;
        self.y = y;
    }

    /// The square of the distance to the cell `(x, y)`.
    pub fn distance_sq(&self, x: i32, y: i32) -> (d: i128)
        ensures
            d == dist_sq(self.x as int, self.y as int, x as int, y as int),
    {
        let dx: i128 = x as i128 - self.x as i128;
        let dy: i128 = y as i128 - self.y as i128;
        assert(dx * dx <= 0x1_0000_0000i128 * 0x1_0000_0000i128) by (nonlinear_arith)
            requires
                -0x1_0000_0000i128 <= dx <= 0x1_0000_0000i128,
        ;
        assert(dy * dy <= 0x1_0000_0000i128 * 0x1_0000_0000i128) by (nonlinear_arith)
            requires
                -0x1_0000_0000i128 <= dy <= 0x1_0000_0000i128,
        ;
        assert(dx * dx >= 0) by (nonlinear_arith);
        assert(dy * dy >= 0) by (nonlinear_arith);
        dx * dx + dy * dy
    }

    /// Restores `amount` hit points, up to the maximum.
    pub fn heal(&mut self, amount: i32)
        ensures
            *final(self) == healed(*old(self), amount),
    {
        if let Some(f) = self.fighter {
            let hp = add_clamped(f.hp, amount);
            let hp = if hp > f.max_hp {
                f.max_hp
            } else {
                hp
            };
            self.fighter = Some(Fighter { hp, ..f });
        }
    }

    /// Adds `xp` (if any) to the experience of this object's fighter.
    pub fn gain_xp(&mut self, xp: Option<i32>)
        ensures
            *final(self) == credited(*old(self), xp),
    {
        if let (Some(v), Some(f)) = (xp, self.fighter) {
            self.fighter = Some(Fighter { xp: add_clamped(f.xp, v), ..f });
        }
    }

    /// Subtracts `damage` from the hit points; on the turn they first drop to zero or
    /// below, the object dies: `alive` turns false and its death policy runs, once.
    /// A dying monster hands back its experience value for the killer.
    pub fn take_damage(&mut self, damage: i32, messages: &mut Messages) -> (xp: Option<i32>)
        ensures
            damage_outcome(*old(self), damage, *final(self)),
            xp == xp_reward(*old(self), damage),
            damage_log(*old(self), damage, *old(messages), *final(messages)),
    {
        if damage > 0 {
            match &mut self.fighter {
                Some(f) => {
                    f.hp = sub_clamped(f.hp, damage);
                },
                None => {},
            }
        }
        let dead = match &self.fighter {
            Some(f) => f.hp <= 0,
            None => false,
        };
        if dead && self.alive {
            let f = self.fighter.unwrap();
            f.on_death.callback(self, messages);
            match f.on_death {
                DeathCallback::Monster => Some(f.xp),
                DeathCallback::Player => None,
            }
        } else {
            None
        }
    }
}

} // verus!
