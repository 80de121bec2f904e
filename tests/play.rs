use roguelike::ai::Ai;
use roguelike::colors::Color;
use roguelike::fighter::{DeathCallback, Fighter};
use roguelike::fov::FovMap;
use roguelike::game::{
    Game, LevelUpChoice, PlayerAction, PlayerCommand, INVENTORY_CAPACITY, PLAYER,
};
use roguelike::item::{
    cast_confuse, cast_heal, cast_lightning, closest_monster, create_item, Item, UseResult,
    CONFUSE_NUM_TURNS, LIGHTNING_RANGE,
};
use roguelike::map::{create_room, new_map};
use roguelike::mapbuilder::MapBuilder;
use roguelike::messages::Messages;
use roguelike::item::item_of_choice;
use roguelike::monsters::{create_monster, monster_of_choice, ORC};
use roguelike::object::Object;
use roguelike::rect::Rect;

fn fighter(hp: i32, defense: i32, power: i32, xp: i32, on_death: DeathCallback) -> Fighter {
    Fighter { max_hp: hp, hp, defense, power, xp, on_death }
}

fn player_at(x: i32, y: i32) -> Object {
    let mut p = Object::new(x, y, '@', "player", Color::White, true);
    p.alive = true;
    p.fighter = Some(fighter(30, 2, 5, 0, DeathCallback::Player));
    p
}

fn orc_at(x: i32, y: i32) -> Object {
    let mut o = Object::new(x, y, 'o', "orc", Color::DesaturatedGreen, true);
    o.alive = true;
    o.fighter = Some(fighter(10, 0, 3, 35, DeathCallback::Monster));
    o.ai = Some(Ai::Basic);
    o
}

fn potion_at(x: i32, y: i32, kind: Item) -> Object {
    let mut o = Object::new(x, y, '!', "healing potion", Color::Violet, false);
    o.item = Some(kind);
    o
}

/// A game on one open 28x28 room, the player at (5, 5).
fn open_game() -> Game {
    let mut map = new_map();
    create_room(Rect::new(0, 0, 30, 30), &mut map);
    Game {
        map,
        messages: Messages::new(),
        inventory: Vec::new(),
        dungeon_level: 1,
        objects: vec![player_at(5, 5)],
        map_builder: MapBuilder {
            max_rooms: 30,
            room_min_size: 6,
            room_max_size: 10,
            max_room_monsters: 3,
            max_room_items: 2,
        },
    }
}

fn all_visible() -> FovMap {
    let mut fov = FovMap::new();
    for x in 0..80 {
        for y in 0..43 {
            fov.set(x, y, true);
        }
    }
    fov
}

#[test]
fn monster_death_leaves_a_corpse_once() {
    let mut orc = orc_at(3, 3);
    let mut log = Messages::new();
    assert_eq!(orc.take_damage(4, &mut log), None);
    assert_eq!(orc.fighter.unwrap().hp, 6);
    assert!(orc.alive);
    assert_eq!(orc.take_damage(6, &mut log), Some(35));
    assert!(!orc.alive);
    assert_eq!(orc.name, "remains of orc");
    assert_eq!(orc.glyph, '%');
    assert_eq!(orc.color, Color::DarkRed);
    assert!(!orc.blocks);
    assert!(orc.fighter.is_none());
    assert!(orc.ai.is_none());
    let lines = log.len();
    assert_eq!(orc.take_damage(50, &mut log), None);
    assert_eq!(log.len(), lines);
    assert_eq!(orc.name, "remains of orc");
}

#[test]
fn player_death_happens_once() {
    let mut p = player_at(1, 1);
    let mut log = Messages::new();
    assert_eq!(p.take_damage(30, &mut log), None);
    assert!(!p.alive);
    assert_eq!(p.glyph, '%');
    assert_eq!(p.fighter.unwrap().hp, 0);
    let lines = log.len();
    assert_eq!(p.take_damage(5, &mut log), None);
    assert!(!p.alive);
    assert_eq!(p.fighter.unwrap().hp, -5);
    assert_eq!(log.len(), lines);
}

#[test]
fn non_positive_damage_changes_nothing() {
    let mut orc = orc_at(3, 3);
    let mut log = Messages::new();
    assert_eq!(orc.take_damage(0, &mut log), None);
    assert_eq!(orc.take_damage(-3, &mut log), None);
    assert_eq!(orc.fighter.unwrap().hp, 10);
}

#[test]
fn death_callback_dispatches_on_policy() {
    let mut log = Messages::new();
    let mut p = player_at(1, 1);
    DeathCallback::Player.callback(&mut p, &mut log);
    assert_eq!(p.glyph, '%');
    assert_eq!(p.name, "player");
    assert!(p.fighter.is_some());
    let mut o = orc_at(2, 2);
    DeathCallback::Monster.callback(&mut o, &mut log);
    assert_eq!(o.name, "remains of orc");
    assert!(o.fighter.is_none());
    assert!(!o.alive);
    assert_eq!(log.len(), 2);
    assert_eq!(log.messages[0], ("You died!".to_string(), Color::Red));
    assert!(log.messages[1].0.starts_with("orc is dead!"));
    assert_eq!(log.messages[1].1, Color::Orange);
}

#[test]
fn death_policy_is_a_no_op_on_a_corpse() {
    let mut log = Messages::new();
    let mut o = orc_at(2, 2);
    DeathCallback::Monster.callback(&mut o, &mut log);
    DeathCallback::Monster.callback(&mut o, &mut log);
    assert_eq!(o.name, "remains of orc");
    assert_eq!(log.len(), 1);
    let mut p = player_at(1, 1);
    DeathCallback::Player.callback(&mut p, &mut log);
    DeathCallback::Player.callback(&mut p, &mut log);
    assert!(!p.alive);
    assert_eq!(log.len(), 2);
}

#[test]
fn attack_subtracts_power_minus_defense() {
    let mut game = open_game();
    game.objects.push(orc_at(6, 5));
    game.player_move_or_attack(1, 0);
    assert_eq!(game.objects[1].fighter.unwrap().hp, 5);
    assert_eq!(game.objects[PLAYER].pos(), (5, 5));
    // the orc strikes back: 3 - 2
    game.attack(1, PLAYER);
    assert_eq!(game.objects[PLAYER].fighter.unwrap().hp, 29);
}

#[test]
fn attack_without_net_damage_has_no_effect() {
    let mut game = open_game();
    let mut tough = orc_at(6, 5);
    tough.fighter = Some(fighter(10, 9, 3, 35, DeathCallback::Monster));
    game.objects.push(tough);
    let lines = game.messages.len();
    game.attack(PLAYER, 1);
    assert_eq!(game.objects[1].fighter.unwrap().hp, 10);
    assert_eq!(game.messages.len(), lines + 1);
}

#[test]
fn killing_blow_credits_experience() {
    let mut game = open_game();
    let mut weak = orc_at(6, 5);
    weak.fighter = Some(fighter(3, 0, 3, 35, DeathCallback::Monster));
    game.objects.push(weak);
    game.attack(PLAYER, 1);
    assert!(!game.objects[1].alive);
    assert_eq!(game.objects[PLAYER].fighter.unwrap().xp, 35);
}

#[test]
fn move_by_bumps_into_walls() {
    let mut game = open_game();
    game.move_by(PLAYER, 1, 1);
    assert_eq!(game.objects[PLAYER].pos(), (6, 6));
    game.objects[PLAYER].set_pos(1, 1);
    game.move_by(PLAYER, -1, 0);
    assert_eq!(game.objects[PLAYER].pos(), (1, 1));
    game.objects.push(orc_at(2, 1));
    game.move_by(PLAYER, 1, 0);
    assert_eq!(game.objects[PLAYER].pos(), (1, 1));
}

#[test]
fn move_towards_rounds_to_eight_directions() {
    let mut game = open_game();
    game.objects.push(orc_at(10, 10));
    game.move_towards(1, 15, 12);
    assert_eq!(game.objects[1].pos(), (11, 10));
    game.move_towards(1, 14, 14);
    assert_eq!(game.objects[1].pos(), (12, 11));
    game.move_towards(1, 12, 11);
    assert_eq!(game.objects[1].pos(), (12, 11));
    game.move_towards(1, 12, 1);
    assert_eq!(game.objects[1].pos(), (12, 10));
}

#[test]
fn basic_monster_approaches_then_attacks() {
    let mut game = open_game();
    game.objects.push(orc_at(9, 5));
    let fov = all_visible();
    game.ai_take_turn(1, &fov);
    assert_eq!(game.objects[1].pos(), (8, 5));
    game.ai_take_turn(1, &fov);
    game.ai_take_turn(1, &fov);
    assert_eq!(game.objects[1].pos(), (6, 5));
    game.ai_take_turn(1, &fov);
    assert_eq!(game.objects[1].pos(), (6, 5));
    assert_eq!(game.objects[PLAYER].fighter.unwrap().hp, 29);
    assert!(matches!(game.objects[1].ai, Some(Ai::Basic)));
}

#[test]
fn unseen_monster_waits() {
    let mut game = open_game();
    game.objects.push(orc_at(9, 5));
    let fov = FovMap::new();
    game.ai_take_turn(1, &fov);
    assert_eq!(game.objects[1].pos(), (9, 5));
}

#[test]
fn monsters_act_only_after_a_turn_of_a_living_player() {
    let mut game = open_game();
    game.objects.push(orc_at(9, 5));
    let fov = all_visible();
    game.monsters_turn(PlayerAction::DidntTakeTurn, &fov);
    assert_eq!(game.objects[1].pos(), (9, 5));
    game.monsters_turn(PlayerAction::TookTurn, &fov);
    assert_eq!(game.objects[1].pos(), (8, 5));
    game.objects[PLAYER].alive = false;
    game.monsters_turn(PlayerAction::TookTurn, &fov);
    assert_eq!(game.objects[1].pos(), (8, 5));
}

#[test]
fn confusion_restores_the_previous_behaviour() {
    let mut game = open_game();
    game.objects.push(orc_at(15, 15));
    assert_eq!(cast_confuse(0, Some(1), &mut game), UseResult::UsedUp);
    match &game.objects[1].ai {
        Some(Ai::Confused { previous_ai, num_turns }) => {
            assert!(matches!(**previous_ai, Ai::Basic));
            assert_eq!(*num_turns, CONFUSE_NUM_TURNS);
        }
        _ => panic!("not confused"),
    }
    let fov = FovMap::new();
    for _ in 0..(CONFUSE_NUM_TURNS + 1) {
        game.ai_take_turn(1, &fov);
        assert!(matches!(game.objects[1].ai, Some(Ai::Confused { .. })));
    }
    assert!(matches!(game.objects[1].ai, Some(Ai::Confused { num_turns: -1, .. })));
    let (x, y) = game.objects[1].pos();
    assert!((x - 15).abs() <= CONFUSE_NUM_TURNS + 1 && (y - 15).abs() <= CONFUSE_NUM_TURNS + 1);
    game.ai_take_turn(1, &fov);
    assert!(matches!(game.objects[1].ai, Some(Ai::Basic)));
    assert_eq!(game.objects[1].pos(), (x, y));
}

#[test]
fn reconfusing_wraps_the_current_confusion() {
    let mut game = open_game();
    game.objects.push(orc_at(15, 15));
    cast_confuse(0, Some(1), &mut game);
    cast_confuse(0, Some(1), &mut game);
    match &game.objects[1].ai {
        Some(Ai::Confused { previous_ai, num_turns: 10 }) => {
            assert!(matches!(**previous_ai, Ai::Confused { num_turns: 10, .. }));
        }
        _ => panic!("not confused"),
    }
}

#[test]
fn confuse_without_target_is_cancelled() {
    let mut game = open_game();
    game.objects.push(orc_at(15, 15));
    assert_eq!(cast_confuse(0, None, &mut game), UseResult::Cancelled);
    assert!(matches!(game.objects[1].ai, Some(Ai::Basic)));
}

#[test]
fn lightning_strikes_the_nearer_of_two_hostiles() {
    let mut game = open_game();
    game.objects.push(orc_at(10, 5));
    game.objects.push(orc_at(8, 5));
    let fov = all_visible();
    assert_eq!(closest_monster(&fov, &game.objects, LIGHTNING_RANGE), Some(2));
    assert_eq!(cast_lightning(0, &fov, &mut game), UseResult::UsedUp);
    assert!(!game.objects[2].alive);
    assert_eq!(game.objects[2].name, "remains of orc");
    assert!(game.objects[1].alive);
    assert_eq!(game.objects[1].fighter.unwrap().hp, 10);
    assert_eq!(game.objects[PLAYER].fighter.unwrap().xp, 35);
}

#[test]
fn lightning_without_hostile_in_reach_is_cancelled() {
    let mut game = open_game();
    game.objects.push(orc_at(12, 5));
    let fov = all_visible();
    assert_eq!(closest_monster(&fov, &game.objects, LIGHTNING_RANGE), None);
    assert_eq!(cast_lightning(0, &fov, &mut game), UseResult::Cancelled);
    assert_eq!(game.objects[1].fighter.unwrap().hp, 10);
    let mut hidden = open_game();
    hidden.objects.push(orc_at(7, 5));
    assert_eq!(cast_lightning(0, &FovMap::new(), &mut hidden), UseResult::Cancelled);
}

#[test]
fn closest_monster_reach_and_ties() {
    let mut game = open_game();
    // both at distance sqrt(34): within range 6, beyond range 5
    game.objects.push(orc_at(8, 10));
    game.objects.push(orc_at(10, 8));
    let fov = all_visible();
    assert_eq!(closest_monster(&fov, &game.objects, 6), Some(1));
    assert_eq!(closest_monster(&fov, &game.objects, 5), None);
    assert_eq!(closest_monster(&fov, &game.objects, -1), None);
}

#[test]
fn lightning_range_is_inclusive() {
    let mut game = open_game();
    // offset (5, 1): about 5.1 away, just beyond range 5
    game.objects.push(orc_at(10, 6));
    let fov = all_visible();
    assert_eq!(closest_monster(&fov, &game.objects, LIGHTNING_RANGE), None);
    // offset (5, 0): exactly 5 away
    game.objects.push(orc_at(10, 5));
    assert_eq!(closest_monster(&fov, &game.objects, LIGHTNING_RANGE), Some(2));
    let lines = game.messages.len();
    assert_eq!(cast_lightning(0, &fov, &mut game), UseResult::UsedUp);
    assert!(game.messages.messages[lines].0.starts_with("A lightning bolt strikes the orc"));
    assert!(game.messages.messages[lines + 1].0.starts_with("orc is dead!"));
    assert_eq!(game.messages.len(), lines + 2);
}

#[test]
fn heal_is_cancelled_at_full_health_and_clamped() {
    let mut game = open_game();
    assert_eq!(cast_heal(0, &mut game), UseResult::Cancelled);
    let mut p = game.objects[PLAYER].fighter.unwrap();
    p.hp = 28;
    game.objects[PLAYER].fighter = Some(p);
    assert_eq!(cast_heal(0, &mut game), UseResult::UsedUp);
    assert_eq!(game.objects[PLAYER].fighter.unwrap().hp, 30);
    p.hp = 20;
    game.objects[PLAYER].fighter = Some(p);
    assert_eq!(cast_heal(0, &mut game), UseResult::UsedUp);
    assert_eq!(game.objects[PLAYER].fighter.unwrap().hp, 24);
}

#[test]
fn used_items_leave_the_inventory_cancelled_ones_stay() {
    let mut game = open_game();
    game.inventory.push(potion_at(0, 0, Item::Heal));
    let fov = FovMap::new();
    assert_eq!(game.use_item(0, &fov, None), UseResult::Cancelled);
    assert_eq!(game.inventory.len(), 1);
    let mut p = game.objects[PLAYER].fighter.unwrap();
    p.hp = 10;
    game.objects[PLAYER].fighter = Some(p);
    assert_eq!(game.use_item(0, &fov, None), UseResult::UsedUp);
    assert!(game.inventory.is_empty());
    assert_eq!(game.objects[PLAYER].fighter.unwrap().hp, 14);
    game.inventory.push(Object::new(0, 0, '?', "rock", Color::White, false));
    assert_eq!(game.use_item(0, &fov, None), UseResult::Cancelled);
    assert_eq!(game.inventory.len(), 1);
}

#[test]
fn the_twenty_seventh_pickup_is_refused() {
    let mut game = open_game();
    for _ in 0..(INVENTORY_CAPACITY - 1) {
        game.inventory.push(potion_at(0, 0, Item::Heal));
    }
    game.objects.push(potion_at(5, 5, Item::Lightning));
    game.objects.push(potion_at(5, 5, Item::Confuse));
    let r = game.handle_command(PlayerCommand::PickUp, &FovMap::new());
    assert_eq!(r, PlayerAction::DidntTakeTurn);
    assert_eq!(game.inventory.len(), 26);
    assert_eq!(game.inventory[25].item, Some(Item::Lightning));
    assert_eq!(game.objects.len(), 2);
    let lines = game.messages.len();
    game.pick_item_up(1);
    assert_eq!(game.messages.len(), lines + 1);
    assert_eq!(
        game.messages.messages[lines].0,
        "Your inventory is full, cannot pick up healing potion."
    );
    assert_eq!(game.inventory.len(), 26);
    assert_eq!(game.objects.len(), 2);
    assert_eq!(game.objects[1].item, Some(Item::Confuse));
    assert_eq!(game.objects[1].pos(), (5, 5));
}

#[test]
fn drop_puts_the_item_at_the_players_feet() {
    let mut game = open_game();
    game.inventory.push(potion_at(0, 0, Item::Heal));
    game.drop_item(0);
    assert!(game.inventory.is_empty());
    assert_eq!(game.objects.len(), 2);
    assert_eq!(game.objects[1].pos(), (5, 5));
    assert_eq!(game.objects[1].item, Some(Item::Heal));
}

#[test]
fn level_up_at_the_threshold_leaves_nothing() {
    let mut game = open_game();
    let mut f = game.objects[PLAYER].fighter.unwrap();
    f.xp = 350;
    game.objects[PLAYER].fighter = Some(f);
    assert!(game.needs_level_up());
    game.level_up(LevelUpChoice::Strength);
    assert_eq!(game.objects[PLAYER].level, 2);
    let f = game.objects[PLAYER].fighter.unwrap();
    assert_eq!(f.xp, 0);
    assert_eq!(f.power, 6);
    assert!(!game.needs_level_up());
}

#[test]
fn level_up_keeps_the_remainder() {
    let mut game = open_game();
    let mut f = game.objects[PLAYER].fighter.unwrap();
    f.xp = 400;
    game.objects[PLAYER].fighter = Some(f);
    assert!(game.needs_level_up());
    game.level_up(LevelUpChoice::Constitution);
    let f = game.objects[PLAYER].fighter.unwrap();
    assert_eq!(f.xp, 50);
    assert_eq!((f.max_hp, f.hp), (50, 50));
    assert!(!game.needs_level_up());
    let mut g = open_game();
    let mut f = g.objects[PLAYER].fighter.unwrap();
    f.xp = 349;
    g.objects[PLAYER].fighter = Some(f);
    assert!(!g.needs_level_up());
    f.xp = 350;
    g.objects[PLAYER].fighter = Some(f);
    g.level_up(LevelUpChoice::Agility);
    assert_eq!(g.objects[PLAYER].fighter.unwrap().defense, 3);
}

#[test]
fn descending_heals_and_keeps_the_inventory() {
    let mut game = open_game();
    game.inventory.push(potion_at(0, 0, Item::Heal));
    let mut f = game.objects[PLAYER].fighter.unwrap();
    f.hp = 5;
    game.objects[PLAYER].fighter = Some(f);
    game.objects.push(Object::new(5, 5, '<', "stairs", Color::White, false));
    assert!(game.player_on_stairs());
    let r = game.handle_command(PlayerCommand::Descend, &FovMap::new());
    assert_eq!(r, PlayerAction::DidntTakeTurn);
    assert_eq!(game.dungeon_level, 2);
    assert_eq!(game.inventory.len(), 1);
    assert_eq!(game.objects[PLAYER].name, "player");
    assert_eq!(game.objects[PLAYER].fighter.unwrap().hp, 20);
    assert_eq!(game.objects.last().unwrap().name, "stairs");
}

#[test]
fn commands_classify_the_turn() {
    let mut game = open_game();
    let fov = FovMap::new();
    assert_eq!(game.handle_command(PlayerCommand::Exit, &fov), PlayerAction::Exit);
    assert_eq!(game.handle_command(PlayerCommand::Wait, &fov), PlayerAction::DidntTakeTurn);
    assert_eq!(
        game.handle_command(PlayerCommand::Move { dx: 1, dy: 0 }, &fov),
        PlayerAction::TookTurn
    );
    assert_eq!(game.objects[PLAYER].pos(), (6, 5));
    assert!(!game.player_on_stairs());
    assert_eq!(game.handle_command(PlayerCommand::Descend, &fov), PlayerAction::DidntTakeTurn);
    assert_eq!(game.dungeon_level, 1);
    game.objects[PLAYER].alive = false;
    assert_eq!(
        game.handle_command(PlayerCommand::Move { dx: 1, dy: 0 }, &fov),
        PlayerAction::DidntTakeTurn
    );
    assert_eq!(game.objects[PLAYER].pos(), (6, 5));
    assert_eq!(game.handle_command(PlayerCommand::Exit, &fov), PlayerAction::Exit);
}

#[test]
fn targeting_checks_view_and_range() {
    let mut game = open_game();
    game.objects.push(orc_at(9, 5));
    game.objects.push(potion_at(7, 7, Item::Heal));
    let mut fov = FovMap::new();
    fov.set(9, 5, true);
    fov.set(20, 5, true);
    assert!(fov.is_in_fov(9, 5));
    assert!(!fov.is_in_fov(9, 6));
    assert!(game.target_tile_accepted(&fov, 9, 5, Some(8)));
    assert!(game.target_tile_accepted(&fov, 9, 5, Some(4)));
    assert!(!game.target_tile_accepted(&fov, 9, 5, Some(3)));
    assert!(!game.target_tile_accepted(&fov, 20, 5, Some(8)));
    assert!(game.target_tile_accepted(&fov, 20, 5, None));
    assert!(!game.target_tile_accepted(&fov, 9, 6, None));
    assert_eq!(game.monster_at(9, 5), Some(1));
    assert_eq!(game.monster_at(7, 7), None);
    assert_eq!(game.monster_at(5, 5), None);
}

#[test]
fn exploring_marks_what_is_seen() {
    let mut game = open_game();
    let mut fov = FovMap::new();
    fov.set(3, 4, true);
    game.explore(&fov);
    assert!(game.map[3][4].explored);
    assert!(!game.map[4][4].explored);
    let mut stairs = Object::new(3, 4, '<', "stairs", Color::White, false);
    stairs.always_visible = true;
    game.objects.push(stairs);
    game.objects.push(orc_at(4, 4));
    let none = FovMap::new();
    assert!(game.is_shown(1, &none));
    assert!(!game.is_shown(2, &none));
    assert!(game.is_shown(2, &all_visible()));
}

#[test]
fn table_entries_map_to_kinds() {
    let orc = monster_of_choice(ORC, 1, 2);
    assert_eq!(orc.name, "orc");
    assert_eq!(orc.fighter.unwrap().xp, 35);
    let troll = monster_of_choice(1, 1, 2);
    assert_eq!(troll.name, "troll");
    assert_eq!(troll.fighter.unwrap().power, 4);
    assert_eq!(item_of_choice(0, 3, 4).item, Some(Item::Heal));
    assert_eq!(item_of_choice(1, 3, 4).item, Some(Item::Lightning));
    assert_eq!(item_of_choice(2, 3, 4).item, Some(Item::Confuse));
    assert_eq!(item_of_choice(2, 3, 4).name, "scroll of confusion");
}

#[test]
fn log_lines_of_commands() {
    let mut game = open_game();
    let fov = FovMap::new();
    game.inventory.push(Object::new(0, 0, '?', "rock", Color::White, false));
    assert_eq!(game.use_item(0, &fov, None), UseResult::Cancelled);
    assert_eq!(
        game.messages.messages.last().unwrap(),
        &("The rock cannot be used.".to_string(), Color::White)
    );
    game.inventory.push(potion_at(0, 0, Item::Heal));
    assert_eq!(game.use_item(1, &fov, None), UseResult::Cancelled);
    assert_eq!(game.messages.messages.last().unwrap().0, "Cancelled");
    assert_eq!(cast_lightning(0, &fov, &mut game), UseResult::Cancelled);
    assert_eq!(
        game.messages.messages.last().unwrap(),
        &("No enemy is close enough to strike.".to_string(), Color::Red)
    );
    let mut f = game.objects[PLAYER].fighter.unwrap();
    f.xp = 350;
    game.objects[PLAYER].fighter = Some(f);
    game.level_up(LevelUpChoice::Strength);
    assert_eq!(
        game.messages.messages.last().unwrap().0,
        "Your battle skills grow stronger! You reached level 2!"
    );
}

#[test]
fn confusion_ends_with_one_line() {
    let mut game = open_game();
    game.objects.push(orc_at(15, 15));
    let fov = FovMap::new();
    let lines = game.messages.len();
    let r = game.ai_confused(1, Box::new(Ai::Basic), 0);
    assert!(matches!(r, Ai::Confused { num_turns: -1, .. }));
    assert_eq!(game.messages.len(), lines);
    let r = game.ai_confused(1, Box::new(Ai::Basic), -1);
    assert!(matches!(r, Ai::Basic));
    assert_eq!(
        game.messages.messages.last().unwrap(),
        &("The orc is no longer confused!".to_string(), Color::Red)
    );
    let lines = game.messages.len();
    game.ai_basic(1, &fov);
    assert_eq!(game.messages.len(), lines);
}

#[test]
fn created_monsters_and_items_are_of_known_kinds() {
    let mut orcs = 0;
    for _ in 0..200 {
        let m = create_monster(4, 7);
        assert_eq!(m.pos(), (4, 7));
        assert!(m.alive && m.blocks);
        assert!(matches!(m.ai, Some(Ai::Basic)));
        let f = m.fighter.unwrap();
        if m.name == "orc" {
            orcs += 1;
            assert_eq!((f.hp, f.defense, f.power, f.xp), (10, 0, 3, 35));
        } else {
            assert_eq!(m.name, "troll");
            assert_eq!((f.hp, f.defense, f.power, f.xp), (16, 1, 4, 100));
        }
        let i = create_item(2, 3);
        assert_eq!(i.pos(), (2, 3));
        assert!(i.always_visible && !i.blocks);
        match i.item {
            Some(Item::Heal) => assert_eq!(i.name, "healing potion"),
            Some(Item::Lightning) => assert_eq!(i.name, "scroll of lightning bolt"),
            Some(Item::Confuse) => assert_eq!(i.name, "scroll of confusion"),
            None => panic!("item without kind"),
        }
    }
    assert!(orcs > 0 && orcs < 200);
}
