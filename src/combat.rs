//! Combat: blows between objects and the player's move-or-attack.

use vstd::prelude::*;
use vstd::string::*;

use crate::colors::Color;
use crate::fighter::{clamp_i32, sub_clamped};
use crate::game::{same_world, Game, PLAYER};
use crate::fighter::death_line;
use crate::messages::{appended, line_starts, Messages};
use crate::object::{credited, damage_outcome, dies_from, xp_reward, Object};
use crate::spatial::move_outcome;

verus! {

/// The net damage of a blow: attacker's power minus defender's defense (a
/// missing fighter counts as zero).
pub open spec fn attack_damage(attacker: Object, defender: Object) -> i32 {
    let power: int = match attacker.fighter {
        Some(f) => f.power as int,
        None => 0,
    };
    let defense: int = match defender.fighter {
        Some(f) => f.defense as int,
        None => 0,
    };
    clamp_i32(power - defense) as i32
}

/// `after` is `before` once object `t` has taken `damage` from object `a`: `t`
/// takes the damage, the experience of a kill goes to `a`, nothing else changes.
pub open spec fn hit_objects(before: Seq<Object>, a: int, t: int, damage: i32, after: Seq<Object>) -> bool {
    &&& after.len() == before.len()
    &&& damage_outcome(before[t], damage, after[t])
    &&& after[a] == credited(before[a], xp_reward(before[t], damage))
    &&& forall|i: int| 0 <= i < before.len() && i != a && i != t ==> #[trigger] after[i] == before[i]
}

/// `after` is `before` once object `a` struck object `t`: a positive net damage is
/// taken by `t`, and the experience of a kill goes to `a`; otherwise no object changes.
pub open spec fn struck_objects(before: Seq<Object>, a: int, t: int, after: Seq<Object>) -> bool {
    let d = attack_damage(before[a], before[t]);
    if d > 0 {
        hit_objects(before, a, t, d, after)
    } else {
        after == before
    }
}

/// The log after object `a` struck object `t`: one line "<a> attacks <t> ...",
/// followed, when the blow kills, by the death line of `t`.
pub open spec fn attack_log(before: Seq<Object>, a: int, t: int, m0: Messages, m1: Messages) -> bool {
    let d = attack_damage(before[a], before[t]);
    let n = m0.lines().len() as int;
    let kills = d > 0 && dies_from(before[t], d);
    &&& appended(m0, m1, if kills { 2 } else { 1 })
    &&& line_starts(m1.lines()[n], before[a].name@ + " attacks "@ + before[t].name@, Color::White)
    &&& kills ==> death_line(before[t].fighter->Some_0.on_death, before[t], m1.lines()[n + 1])
}

/// `g1` is `g0` after object `a` struck object `t`.
pub open spec fn attack_outcome(g0: Game, a: int, t: int, g1: Game) -> bool {
    &&& same_world(g0, g1)
    &&& struck_objects(g0.objects@, a, t, g1.objects@)
    &&& attack_log(g0.objects@, a, t, g0.messages, g1.messages)
}

/// Object `t` (not the player) has a fighter and stands on `(x, y)`.
pub open spec fn fighter_at(objects: Seq<Object>, x: int, y: int, t: int) -> bool {
    &&& PLAYER < t < objects.len()
    &&& objects[t].fighter is Some
    &&& objects[t].x == x
    &&& objects[t].y == y
}

/// `t` is the first object but the player with a fighter on `(x, y)`.
pub open spec fn first_fighter_at(objects: Seq<Object>, x: int, y: int, t: int) -> bool {
    &&& fighter_at(objects, x, y, t)
    &&& forall|k: int| 0 <= k < t ==> !#[trigger] fighter_at(objects, x, y, k)
}

/// `g1` is `g0` after the player moved by `(dx, dy)` or, when a fighter stands
/// there, attacked the first such one.
pub open spec fn move_or_attack_outcome(g0: Game, dx: int, dy: int, g1: Game) -> bool {
    let x = g0.objects@[PLAYER as int].x + dx;
    let y = g0.objects@[PLAYER as int].y + dy;
    &&& forall|t: int|
        #[trigger] first_fighter_at(g0.objects@, x, y, t) ==> attack_outcome(g0, PLAYER as int, t, g1)
    &&& (forall|t: int| !#[trigger] fighter_at(g0.objects@, x, y, t)) ==> move_outcome(
        g0,
        PLAYER as int,
        dx,
        dy,
        g1,
    )
}

impl Game {
    /// Object `attacker` strikes object `target`: the net damage is the attacker's
    /// power minus the target's defense; when positive the target takes it, and
    /// the experience of a kill goes to the attacker.
    pub fn attack(&mut self, attacker: usize, target: usize)
        requires
            old(self).wf(),
            attacker < old(self).objects@.len(),
            target < old(self).objects@.len(),
            attacker != target,
        ensures
            final(self).wf(),
            attack_outcome(*old(self), attacker as int, target as int, *final(self)),
    {
        let power = match self.objects[attacker].fighter {
            Some(f) => f.power,
            None => 0,
        };
        let defense = match self.objects[target].fighter {
            Some(f) => f.defense,
            None => 0,
        };
        let damage = sub_clamped(power, defense);
        let mut text = self.objects[attacker].name.clone();
        text.append(" attacks ");
        text.append(self.objects[target].name.as_str());
        let ghost head = text@;
        if damage > 0 {
            text.append(" for ");
            text.append(damage.to_string().as_str());
            text.append(" hit points.");
            assert(text@.subrange(0, head.len() as int) =~= head);
            self.messages.add(text, Color::White);
            let xp = self.objects[target].take_damage(damage, &mut self.messages);
            self.objects[attacker].gain_xp(xp);
        } else {
            text.append(" but it has no effect!");
            assert(text@.subrange(0, head.len() as int) =~= head);
            self.messages.add(text, Color::White);
        }
    }

    /// The player steps by `(dx, dy)`, or attacks the first fighter standing there.
    pub fn player_move_or_attack(&mut self, dx: i32, dy: i32)
        requires
            old(self).wf(),
        ensures
            final(self).wf(),
            move_or_attack_outcome(*old(self), dx as int, dy as int, *final(self)),
    {
        let x: i64 = self.objects[PLAYER].x as i64 + dx as i64;
        let y: i64 = self.objects[PLAYER].y as i64 + dy as i64;
        let ghost gx: int = self.objects@[PLAYER as int].x + dx;
        let ghost gy: int = self.objects@[PLAYER as int].y + dy;
        let mut i: usize = 1;
        while i < self.objects.len()
            invariant
                *self == *old(self),
                self.wf(),
                1 <= i <= self.objects@.len(),
                gx == x,
                gy == y,
                gx == old(self).objects@[PLAYER as int].x + dx,
                gy == old(self).objects@[PLAYER as int].y + dy,
                forall|k: int| 0 <= k < i ==> !#[trigger] fighter_at(self.objects@, x as int, y as int, k),
            decreases self.objects@.len() - i,
        {
            if self.objects[i].fighter.is_some() && self.objects[i].x as i64 == x
                && self.objects[i].y as i64 == y {
                let ghost objs = self.objects@;
                assert(fighter_at(objs, gx, gy, i as int));
                assert forall|t: int| #[trigger] first_fighter_at(objs, gx, gy, t) implies t == i by {
                    if t < i {
                        assert(!fighter_at(objs, gx, gy, t));
                    }
                }
                self.attack(PLAYER, i);
                return;
            }
            i = i + 1;
        }
        self.move_by(PLAYER, dx, dy);
    }

    /// The first object but the player with a fighter on `(x, y)`, if any.
    pub fn monster_at(&self, x: i32, y: i32) -> (r: Option<usize>)
        requires
            self.wf(),
        ensures
            r matches Some(t) ==> first_fighter_at(self.objects@, x as int, y as int, t as int),
            r is None ==> forall|t: int| !#[trigger] fighter_at(self.objects@, x as int, y as int, t),
    {
        let mut i: usize = 1;
        while i < self.objects.len()
            invariant
                1 <= i <= self.objects@.len(),
                forall|k: int| 0 <= k < i ==> !#[trigger] fighter_at(self.objects@, x as int, y as int, k),
            decreases self.objects@.len() - i,
        {
            if self.objects[i].fighter.is_some() && self.objects[i].x == x && self.objects[i].y == y {
                return Some(i);
            }
            i = i + 1;
        }
        None
    }
}

} // verus!
