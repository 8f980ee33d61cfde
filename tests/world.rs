use std::collections::HashMap;

use pax_romana::animation::Animations;
use pax_romana::dialogbox::{Dialog, DialogTree};
use pax_romana::map::TileMap;
use pax_romana::math::{next_source, Point, Rect};
use pax_romana::npc::{chord, nearby_point, Behavior, Character, WanderConfig, NPC};
use pax_romana::tileset::TilesetError;
use pax_romana::player::{KeyCode, Player};
use pax_romana::tile::Properties;
use pax_romana::tileset::Tileset;
use pax_romana::world::{within, World};
use pax_romana::entity::Action;
use pax_romana::xmlelements::{Attribute, XMLElements, XmlEvent};

fn tiles() -> Tileset {
    let mut records = Vec::new();
    for (id, entity, kf) in [(0, "player-top", 0), (1, "player-top", 1), (2, "player-bottom", 0), (3, "player-bottom", 1)] {
        let mut p = Properties::default();
        p.entity = Some(entity.to_string());
        p.keyframe = Some(kf);
        records.push((id, p));
    }
    Tileset::from_grid(2, 2, 16, 16, &records).unwrap()
}

fn tree() -> DialogTree {
    let mut dialogs = HashMap::new();
    dialogs.insert(0, Dialog::new("Ave".to_string(), vec![]));
    DialogTree::new(dialogs).unwrap()
}

fn empty_map(ts: &Tileset) -> TileMap {
    let doc = XMLElements::new(vec![
        XmlEvent::StartElement {
            name: "map".to_string(),
            attributes: vec![
                Attribute { name: "width".to_string(), value: "10".to_string() },
                Attribute { name: "height".to_string(), value: "10".to_string() },
            ],
        },
        XmlEvent::EndElement { name: "map".to_string() },
    ]);
    TileMap::new(&doc, ts, 44, 0).unwrap()
}

fn world_with_npc_at(x: i32) -> World {
    let ts = tiles();
    let map = empty_map(&ts);
    let anims = Animations::new(&ts, "player-top", "player-bottom", 0).unwrap();
    let player = Player::new(anims, Point::new(100, 100), (440, 440), (44, 44), 3);
    let npc = NPC::new(
        Character::Peasant,
        tree(),
        Animations::new(&ts, "player-top", "player-bottom", 0).unwrap(),
        Point::new(x, 100),
        (440, 440),
        (44, 44),
        3,
        WanderConfig { radius: 50, reach: 30, wait_time: 3000 },
    );
    World::new(map, player, vec![npc], 30)
}

#[test]
fn distance_gate() {
    assert!(within(Point::new(0, 0), Point::new(17, 17), 25));
    assert!(!within(Point::new(0, 0), Point::new(18, 18), 25));
    assert!(!within(Point::new(0, 0), Point::new(30, 0), 30));
    assert!(within(Point::new(i32::MIN, 0), Point::new(i32::MIN, 0), 1));
}

#[test]
fn talking_to_a_near_npc() {
    let mut w = world_with_npc_at(120);
    assert!(w.player_in_talking_range());
    let t = w.get_dialogtree().unwrap();
    assert_eq!(t.get(0).unwrap().text, "Ave");
    assert_eq!(w.npcs[0].behavior, Behavior::Talking);
    w.update(10);
    assert_eq!(w.npcs[0].entity.position, Point::new(120, 100));
}

#[test]
fn nobody_to_talk_to() {
    let mut w = world_with_npc_at(300);
    assert!(!w.player_in_talking_range());
    assert!(w.get_dialogtree().is_none());
    assert_eq!(w.npcs[0].behavior, Behavior::Wandering(None));
}

#[test]
fn world_passes_keys_to_the_player() {
    let mut w = world_with_npc_at(300);
    w.give_key_down(KeyCode::S);
    assert_eq!(w.player.entity.action, Action::MovingDown);
    w.update(5);
    assert_eq!(w.player.get_position(), Point::new(100, 103));
    w.give_key_up(KeyCode::S);
    assert_eq!(w.player.entity.action, Action::IdleRight);
    assert_eq!(w.get_dimensions(), (440, 440));
}

#[test]
fn source_stepping() {
    let a = Rect::new(0, 0, 16, 16);
    let b = Rect::new(16, 0, 16, 16);
    let list = vec![(100, a), (50, b)];
    assert_eq!(next_source(a, &list, 0, 100), (a, 0));
    assert_eq!(next_source(a, &list, 0, 101), (b, 101));
    assert_eq!(next_source(b, &list, 101, 152), (a, 152));
    assert_eq!(next_source(Rect::zero(), &list, 7, 8), (a, 7));
    assert_eq!(next_source(b, &vec![], 7, 800), (b, 7));
}

#[test]
fn npcs_at_their_spawn_points() {
    let ts = tiles();
    let mut map = empty_map(&ts);
    map.spawns.push(("peasant".to_string(), Point::new(22, 22)));
    map.spawns.push(("player".to_string(), Point::new(66, 22)));
    map.spawns.push(("peasant".to_string(), Point::new(110, 66)));
    assert_eq!(map.get_spawns().len(), 3);
    let npcs = NPC::build_npcs(
        Character::Peasant,
        &ts,
        &map,
        &tree(),
        "player-top",
        "player-bottom",
        (44, 44),
        3,
        WanderConfig { radius: 50, reach: 30, wait_time: 3000 },
        0,
    )
    .unwrap();
    assert_eq!(npcs.len(), 2);
    assert_eq!(npcs[1].entity.position, Point::new(110, 66));
}

#[test]
fn chord_and_nearby_point() {
    assert_eq!(chord(5, 5), 5);
    assert_eq!(chord(5, 0), 0);
    assert_eq!(chord(5, 2), 4);
    assert_eq!(nearby_point(Point::new(100, 100), 5, 2, 8), Point::new(97, 104));
    assert_eq!(nearby_point(Point::new(100, 100), 5, 10, 0), Point::new(105, 100));
}

#[test]
fn npcs_need_both_sprites_and_room() {
    let ts = Tileset::from_grid(2, 2, 16, 16, &vec![]).unwrap();
    let mut map = empty_map(&ts);
    let none = NPC::build_npcs(
        Character::Peasant, &ts, &map, &tree(), "player-top", "player-bottom", (44, 44), 3,
        WanderConfig { radius: 50, reach: 30, wait_time: 3000 }, 0,
    );
    assert_eq!(none.unwrap().len(), 0);
    map.spawns.push(("peasant".to_string(), Point::new(22, 22)));
    let missing = NPC::build_npcs(
        Character::Peasant, &ts, &map, &tree(), "player-top", "player-bottom", (44, 44), 3,
        WanderConfig { radius: 50, reach: 30, wait_time: 3000 }, 0,
    );
    assert_eq!(missing.err(), Some(TilesetError::MissingEntityKeyframe));
    map.spawns.push(("peasant".to_string(), Point::new(i32::MAX - 10, 22)));
    let cramped = NPC::build_npcs(
        Character::Peasant, &tiles(), &map, &tree(), "player-top", "player-bottom", (44, 44), 3,
        WanderConfig { radius: 50, reach: 30, wait_time: 3000 }, 0,
    );
    assert_eq!(cramped.err(), Some(TilesetError::GridTooLarge));
}
