//! Monster creation.

use vstd::prelude::*;

use crate::ai::Ai;
use crate::colors::Color;
use crate::fighter::{DeathCallback, Fighter};
use crate::object::Object;
use crate::random::{total_weight, weighted_index};

verus! {

/// `o` is a fresh monster at `(x, y)`: alive, blocking, with basic behaviour.
pub open spec fn fresh_monster(o: Object, x: int, y: int) -> bool {
    &&& o.x == x
    &&& o.y == y
    &&& o.blocks
    &&& o.alive
    &&& !o.always_visible
    &&& o.level == 1
    &&& o.ai == Some(Ai::Basic)
    &&& o.item is None
}

/// `o` is an orc at `(x, y)`.
pub open spec fn is_orc(o: Object, x: int, y: int) -> bool {
    &&& fresh_monster(o, x, y)
    &&& o.glyph == 'o'
    &&& o.name@ == "orc"@
    &&& o.color == Color::DesaturatedGreen
    &&& o.fighter == Some(
        Fighter { max_hp: 10, hp: 10, defense: 0, power: 3, xp: 35, on_death: DeathCallback::Monster },
    )
}

/// `o` is a troll at `(x, y)`.
pub open spec fn is_troll(o: Object, x: int, y: int) -> bool {
    &&& fresh_monster(o, x, y)
    &&& o.glyph == 'T'
    &&& o.name@ == "troll"@
    &&& o.color == Color::DarkerGreen
    &&& o.fighter == Some(
        Fighter { max_hp: 16, hp: 16, defense: 1, power: 4, xp: 100, on_death: DeathCallback::Monster },
    )
}

/// Index of the orc in the monster table; any other index is a troll.
pub const ORC: usize = 0;

/// The monster of table entry `choice` at `(x, y)`: an orc for `ORC`, a troll
/// otherwise.
pub fn monster_of_choice(choice: usize, x: i32, y: i32) -> (m: Object)
    ensures
        choice == ORC ==> is_orc(m, x as int, y as int),
        choice != ORC ==> is_troll(m, x as int, y as int),
{
    let mut monster = if choice == ORC {
        let mut orc = Object::new(x, y, 'o', "orc", Color::DesaturatedGreen, true);
        orc.fighter = Some(
            Fighter {
                max_hp: 10,
                hp: 10,
                defense: 0,
                power: 3,
                xp: 35,
                on_death: DeathCallback::Monster,
            },
        );
        orc.ai = Some(Ai::Basic);
        orc
    } else {
        let mut troll = Object::new(x, y, 'T', "troll", Color::DarkerGreen, true);
        troll.fighter = Some(
            Fighter {
                max_hp: 16,
                hp: 16,
                defense: 1,
                power: 4,
                xp: 100,
                on_death: DeathCallback::Monster,
            },
        );
        troll.ai = Some(Ai::Basic);
        troll
    };
    monster.alive = true;
    monster
}

/// A new monster at `(x, y)`, drawn from the table: an orc (weight 80) or a
/// troll (weight 20).
pub fn create_monster(x: i32, y: i32) -> (m: Object)
    ensures
        is_orc(m, x as int, y as int) || is_troll(m, x as int, y as int),
{
    let weights: Vec<u32> = vec![80, 20];
    assert(total_weight(weights@) == 100) by {
        reveal_with_fuel(total_weight, 3);
        assert(weights@.drop_last().drop_last() =~= Seq::<u32>::empty());
    }
    let choice = weighted_index(&weights);
    monster_of_choice(choice, x, y)
}

} // verus!
