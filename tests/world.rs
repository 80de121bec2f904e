use roguelike::colors::Color;
use roguelike::map::{create_h_tunnel, create_room, create_v_tunnel, new_map, MAP_HEIGHT, MAP_WIDTH};
use roguelike::mapbuilder::MapBuilder;
use roguelike::game::{is_blocked, Game, PLAYER};
use roguelike::object::Object;
use roguelike::rect::Rect;
use roguelike::messages::Messages;

fn builder() -> MapBuilder {
    MapBuilder {
        max_rooms: 30,
        room_min_size: 6,
        room_max_size: 10,
        max_room_monsters: 3,
        max_room_items: 2,
    }
}

fn player_at(x: i32, y: i32) -> Object {
    let mut p = Object::new(x, y, '@', "player", Color::White, true);
    p.alive = true;
    p
}

#[test]
fn rect_overlap_and_center() {
    let a = Rect::new(0, 0, 10, 10);
    assert_eq!(a, Rect { x1: 0, y1: 0, x2: 10, y2: 10 });
    assert_eq!(a.center(), (5, 5));
    let touching = Rect::new(10, 10, 4, 4);
    assert!(a.intersects_with(&touching));
    let apart = Rect::new(11, 0, 4, 4);
    assert!(!a.intersects_with(&apart));
    assert!(!apart.intersects_with(&a));
}

#[test]
fn room_carving_clears_only_the_interior() {
    let mut map = new_map();
    assert_eq!(map.len(), MAP_WIDTH as usize);
    assert_eq!(map[0].len(), MAP_HEIGHT as usize);
    create_room(Rect::new(2, 3, 5, 4), &mut map);
    for x in 0..MAP_WIDTH as usize {
        for y in 0..MAP_HEIGHT as usize {
            let inside = x > 2 && x < 7 && y > 3 && y < 7;
            assert_eq!(map[x][y].blocked, !inside, "cell {} {}", x, y);
            assert_eq!(map[x][y].block_sight, !inside);
        }
    }
}

#[test]
fn tunnels_include_both_ends() {
    let mut map = new_map();
    create_h_tunnel(9, 4, 5, &mut map);
    for x in 4..=9 {
        assert!(!map[x][5].blocked);
    }
    assert!(map[3][5].blocked);
    assert!(map[10][5].blocked);
    create_v_tunnel(2, 6, 20, &mut map);
    for y in 2..=6 {
        assert!(!map[20][y].blocked);
    }
    assert!(map[20][1].blocked);
    assert!(map[20][7].blocked);
}

#[test]
fn blocking_follows_walls_objects_and_map_edge() {
    let mut map = new_map();
    create_room(Rect::new(0, 0, 10, 10), &mut map);
    let mut objects = vec![player_at(2, 2)];
    let potion = Object::new(3, 3, '!', "healing potion", Color::Violet, false);
    objects.push(potion);
    assert!(is_blocked(2, 2, &map, &objects));
    assert!(!is_blocked(3, 3, &map, &objects));
    assert!(is_blocked(0, 0, &map, &objects));
    assert!(is_blocked(-1, 3, &map, &objects));
    assert!(is_blocked(MAP_WIDTH, 3, &map, &objects));
}

#[test]
fn build_places_player_stairs_and_stock_on_open_cells() {
    for _ in 0..20 {
        let mut objects = vec![player_at(0, 0)];
        let map = builder().build(&mut objects);
        assert!(objects.len() >= 2);
        let p = &objects[PLAYER];
        assert_eq!(p.name, "player");
        assert!(!map[p.x as usize][p.y as usize].blocked);
        let stairs = objects.last().unwrap();
        assert_eq!(stairs.name, "stairs");
        assert_eq!(stairs.glyph, '<');
        assert!(stairs.always_visible);
        assert!(!stairs.blocks);
        assert!(!map[stairs.x as usize][stairs.y as usize].blocked);
        for o in &objects[1..objects.len() - 1] {
            assert!(!map[o.x as usize][o.y as usize].blocked);
            let monster = o.name == "orc" || o.name == "troll";
            assert!(monster || o.item.is_some(), "unexpected object {}", o.name);
            if monster {
                assert!(o.alive && o.blocks && o.fighter.is_some() && o.ai.is_some());
            }
        }
        // no two blocking objects share a cell
        for i in 0..objects.len() {
            for j in (i + 1)..objects.len() {
                if objects[i].blocks && objects[j].blocks {
                    assert!(objects[i].pos() != objects[j].pos());
                }
            }
        }
        // tiles are plain walls or floors, none explored
        for col in &map {
            for t in col {
                assert!(!t.explored);
                assert_eq!(t.blocked, t.block_sight);
            }
        }
        // the border of the map stays solid
        for x in 0..MAP_WIDTH as usize {
            assert!(map[x][0].blocked);
            assert!(map[x][MAP_HEIGHT as usize - 1].blocked);
        }
        for y in 0..MAP_HEIGHT as usize {
            assert!(map[0][y].blocked);
            assert!(map[MAP_WIDTH as usize - 1][y].blocked);
        }
    }
}

#[test]
fn build_keeps_the_player_and_drops_the_rest() {
    let mut objects = vec![player_at(0, 0)];
    objects.push(Object::new(1, 1, '!', "old potion", Color::Violet, false));
    let _map = builder().build(&mut objects);
    assert_eq!(objects[0].name, "player");
    assert!(objects.iter().all(|o| o.name != "old potion"));
}

#[test]
fn every_generated_room_is_reachable_from_the_player() {
    for _ in 0..20 {
        let mut objects = vec![player_at(0, 0)];
        let map = builder().build(&mut objects);
        // flood fill over open cells from the player
        let w = MAP_WIDTH as usize;
        let h = MAP_HEIGHT as usize;
        let mut seen = vec![vec![false; h]; w];
        let mut stack = vec![(objects[0].x as usize, objects[0].y as usize)];
        while let Some((x, y)) = stack.pop() {
            if seen[x][y] || map[x][y].blocked {
                continue;
            }
            seen[x][y] = true;
            stack.push((x + 1, y));
            stack.push((x - 1, y));
            stack.push((x, y + 1));
            stack.push((x, y - 1));
        }
        for x in 0..w {
            for y in 0..h {
                if !map[x][y].blocked {
                    assert!(seen[x][y], "open cell {} {} not reachable", x, y);
                }
            }
        }
    }
}

#[test]
fn new_game_starts_well_formed() {
    let game = Game::new();
    assert_eq!(game.dungeon_level, 1);
    assert!(game.inventory.is_empty());
    let p = &game.objects[PLAYER];
    assert_eq!(p.name, "player");
    assert!(p.alive);
    let f = p.fighter.unwrap();
    assert_eq!((f.max_hp, f.hp, f.defense, f.power, f.xp), (30, 30, 2, 5, 0));
    assert_eq!(game.messages.len(), 1);
    assert_eq!(
        game.messages.messages[0].0,
        "Welcome stranger! Prepare to perish in the Tombs of the Ancient Kings."
    );
    assert_eq!(game.map_builder.max_rooms, 30);
}

#[test]
fn messages_keep_their_order() {
    let mut m = Messages::new();
    m.add("one".to_string(), Color::Red);
    m.add("two".to_string(), Color::White);
    assert_eq!(m.len(), 2);
    assert_eq!(m.messages[0].0, "one");
    assert_eq!(m.messages[1], ("two".to_string(), Color::White));
}

#[test]
fn well_formedness_is_checked() {
    let mut game = Game::new();
    assert!(game.is_well_formed());
    game.objects[PLAYER].ai = Some(roguelike::ai::Ai::Basic);
    assert!(!game.is_well_formed());
    game.objects[PLAYER].ai = None;
    game.map.pop();
    assert!(!game.is_well_formed());
    let mut short = Game::new();
    short.objects.clear();
    assert!(!short.is_well_formed());
    let mut bad_builder = Game::new();
    bad_builder.map_builder.room_max_size = MAP_HEIGHT;
    assert!(!bad_builder.is_well_formed());
}

#[test]
fn level_up_thresholds() {
    assert_eq!(roguelike::game::level_up_xp(1), 350);
    assert_eq!(roguelike::game::level_up_xp(2), 500);
    assert_eq!(roguelike::game::level_up_xp(0), 200);
}
