//! The monsters' turns: basic and confused behaviour, and the order in which
//! monsters act after the player.

use vstd::prelude::*;
use vstd::string::*;

use crate::ai::{next_ai, Ai};
use crate::colors::Color;
use crate::combat::{attack_log, struck_objects};
use crate::messages::logged;
use crate::fov::FovMap;
use crate::game::{same_world, Game, PlayerAction, PLAYER};
use crate::map::TileMap;
use crate::object::{dist_sq, Object};
use crate::random::random_range;
use crate::spatial::{moved_objects, unit_step};

verus! {

/// The objects after a basic monster `id`'s turn: seen by the player, it steps
/// towards the player while at distance 2 or more, and strikes a living player
/// when closer; unseen, it does nothing.
pub open spec fn basic_turn_objects(
    map: TileMap,
    before: Seq<Object>,
    id: int,
    fov: FovMap,
    after: Seq<Object>,
) -> bool {
    let m = before[id];
    let p = before[PLAYER as int];
    let (dx, dy) = (p.x - m.x, p.y - m.y);
    if !fov.visible(m.x as int, m.y as int) {
        after == before
    } else if dist_sq(m.x as int, m.y as int, p.x as int, p.y as int) >= 4 {
        after == moved_objects(map, before, id, unit_step(dx, dy), unit_step(dy, dx))
    } else if p.alive {
        struck_objects(before, id, PLAYER as int, after)
    } else {
        after == before
    }
}

/// The objects after a confused monster `id` stumbles: it tries a step by an
/// offset in `{-1, 0, 1}` on each axis.
pub open spec fn stumbled_objects(map: TileMap, before: Seq<Object>, id: int, after: Seq<Object>) -> bool {
    exists|dx: int, dy: int|
        -1 <= dx <= 1 && -1 <= dy <= 1 && after == #[trigger] moved_objects(map, before, id, dx, dy)
}

/// `objects` with the behaviour of object `id` replaced by `ai`.
pub open spec fn with_ai(objects: Seq<Object>, id: int, ai: Option<Ai>) -> Seq<Object> {
    objects.update(id, Object { ai: ai, ..objects[id] })
}

/// `g1` is `g0` after the turn of object `id`: its behaviour is lifted out, acts
/// (basic, or confused: stumbling while turns remain), and the next behaviour state
/// is put back; an object without behaviour does nothing.
pub open spec fn ai_turn_outcome(g0: Game, id: int, fov: FovMap, g1: Game) -> bool {
    let lifted = with_ai(g0.objects@, id, None);
    &&& same_world(g0, g1)
    &&& g1.objects@.len() == g0.objects@.len()
    &&& match g0.objects@[id].ai {
        None => g1.objects@ == g0.objects@,
        Some(a) => exists|mid: Seq<Object>|
            #[trigger] with_ai(mid, id, Some(next_ai(a))) == g1.objects@ && match a {
                Ai::Basic => basic_turn_objects(g0.map, lifted, id, fov, mid),
                Ai::Confused { num_turns, .. } => if num_turns >= 0 {
                    stumbled_objects(g0.map, lifted, id, mid)
                } else {
                    mid == lifted
                },
            },
    }
}

/// `states` runs through the monsters' turns: from each state to the next, object
/// `k` (the `k`-th step) takes its turn if it has a behaviour, and nothing happens
/// otherwise.
pub open spec fn monsters_acted(states: Seq<Game>, fov: FovMap) -> bool {
    forall|k: int|
        0 <= k < states.len() - 1 ==> if (#[trigger] states[k]).objects@[k].ai is Some {
            ai_turn_outcome(states[k], k, fov, states[k + 1])
        } else {
            states[k + 1] == states[k]
        }
}

impl Game {
    /// A basic monster's turn (see `basic_turn_objects`); the state stays basic.
    pub fn ai_basic(&mut self, monster_id: usize, fov: &FovMap) -> (r: Ai)
        requires
            old(self).wf(),
            PLAYER < monster_id < old(self).objects@.len(),
        ensures
            final(self).wf(),
            r == Ai::Basic,
            same_world(*old(self), *final(self)),
            basic_turn_objects(
                old(self).map,
                old(self).objects@,
                monster_id as int,
                *fov,
                final(self).objects@,
            ),
            ({
                let m = old(self).objects@[monster_id as int];
                let p = old(self).objects@[PLAYER as int];
                if fov.visible(m.x as int, m.y as int) && dist_sq(
                    m.x as int,
                    m.y as int,
                    p.x as int,
                    p.y as int,
                ) < 4 && p.alive {
                    attack_log(
                        old(self).objects@,
                        monster_id as int,
                        PLAYER as int,
                        old(self).messages,
                        final(self).messages,
                    )
                } else {
                    final(self).messages == old(self).messages
                }
            }),
    {
        let (monster_x, monster_y) = self.objects[monster_id].pos();
        if fov.is_in_fov(monster_x, monster_y) {
            let (player_x, player_y) = self.objects[PLAYER].pos();
            if self.objects[monster_id].distance_sq(player_x, player_y) >= 4 {
                self.move_towards(monster_id, player_x, player_y);
            } else if self.objects[PLAYER].alive {
                self.attack(monster_id, PLAYER);
            }
        }
        Ai::Basic
    }

    /// A confused monster's turn: while turns remain (`num_turns >= 0`) it stumbles
    /// by a random offset and the count goes down; after that, it recovers and the
    /// wrapped state is handed back.
    pub fn ai_confused(&mut self, monster_id: usize, previous_ai: Box<Ai>, num_turns: i32) -> (r: Ai)
        requires
            old(self).wf(),
            PLAYER < monster_id < old(self).objects@.len(),
        ensures
            final(self).wf(),
            r == next_ai(Ai::Confused { previous_ai, num_turns }),
            same_world(*old(self), *final(self)),
            num_turns >= 0 ==> stumbled_objects(
                old(self).map,
                old(self).objects@,
                monster_id as int,
                final(self).objects@,
            ),
            num_turns < 0 ==> final(self).objects == old(self).objects,
            num_turns >= 0 ==> final(self).messages == old(self).messages,
            num_turns < 0 ==> logged(
                old(self).messages,
                final(self).messages,
                "The "@ + old(self).objects@[monster_id as int].name@ + " is no longer confused!"@,
                Color::Red,
            ),
    {
        if num_turns >= 0 {
            let dx = random_range(-1, 2);
            let dy = random_range(-1, 2);
            self.move_by(monster_id, dx, dy);
            assert(self.objects@ == moved_objects(
                old(self).map,
                old(self).objects@,
                monster_id as int,
                dx as int,
                dy as int,
            ));
            Ai::Confused { previous_ai, num_turns: num_turns - 1 }
        } else {
            let mut text = String::from_str("The ");
            text.append(self.objects[monster_id].name.as_str());
            text.append(" is no longer confused!");
            self.messages.add(text, Color::Red);
            *previous_ai
        }
    }

    /// The turn of monster `monster_id`: its behaviour is lifted out, acts (basic or
    /// confused), and the next behaviour state is put back; a monster without
    /// behaviour does nothing.
    pub fn ai_take_turn(&mut self, monster_id: usize, fov: &FovMap)
        requires
            old(self).wf(),
            PLAYER < monster_id < old(self).objects@.len(),
        ensures
            final(self).wf(),
            ai_turn_outcome(*old(self), monster_id as int, *fov, *final(self)),
    {
        let ghost before = self.objects@;
        if let Some(ai) = self.objects[monster_id].ai.take() {
            let ghost a = ai;
            assert(self.objects@ == with_ai(old(self).objects@, monster_id as int, None));
            let new_ai = match ai {
                Ai::Basic => self.ai_basic(monster_id, fov),
                Ai::Confused { previous_ai, num_turns } => {
                    self.ai_confused(monster_id, previous_ai, num_turns)
                },
            };
            let ghost mid = self.objects@;
            self.objects[monster_id].ai = Some(new_ai);
            assert(self.objects@ == with_ai(mid, monster_id as int, Some(next_ai(a))));
        } else {
            assert(self.objects@ =~= before);
        }
    }

    /// The monsters' reaction to the player's action: when the player is alive and
    /// the action took a turn, every object with a behaviour takes its turn, in
    /// index order; otherwise nothing happens.
    pub fn monsters_turn(&mut self, action: PlayerAction, fov: &FovMap)
        requires
            old(self).wf(),
        ensures
            final(self).wf(),
            same_world(*old(self), *final(self)),
            final(self).objects@.len() == old(self).objects@.len(),
            (!old(self).objects@[PLAYER as int].alive || action != PlayerAction::TookTurn)
                ==> *final(self) == *old(self),
            (old(self).objects@[PLAYER as int].alive && action == PlayerAction::TookTurn) ==> exists|
                states: Seq<Game>,
            |
                #![trigger monsters_acted(states, *fov)]
                states.len() == old(self).objects@.len() + 1 && states[0] == *old(self)
                    && states.last() == *final(self) && monsters_acted(states, *fov),
    {
        if !self.objects[PLAYER].alive || action != PlayerAction::TookTurn {
            return;
        }
        let ghost mut states: Seq<Game> = seq![*self];
        let mut id: usize = 0;
        while id < self.objects.len()
            invariant
                self.wf(),
                same_world(*old(self), *self),
                self.objects@.len() == old(self).objects@.len(),
                id <= self.objects@.len(),
                states.len() == id + 1,
                states[0] == *old(self),
                states.last() == *self,
                monsters_acted(states, *fov),
            decreases self.objects@.len() - id,
        {
            let ghost before = *self;
            if self.objects[id].ai.is_some() {
                self.ai_take_turn(id, fov);
            }
            proof {
                let next = states.push(*self);
                assert forall|k: int| 0 <= k < next.len() - 1 implies if (#[trigger] next[k]).objects@[k].ai is Some {
                    ai_turn_outcome(next[k], k, *fov, next[k + 1])
                } else {
                    next[k + 1] == next[k]
                } by {
                    if k < states.len() - 1 {
                        assert(next[k] == states[k]);
                        assert(next[k + 1] == states[k + 1]);
                    } else {
                        assert(next[k] == before);
                    }
                }
                states = next;
            }
            id = id + 1;
        }
    }
}

} // verus!
