use pax_romana::math::{flip, isqrt, union, Rect};
use pax_romana::tile::{decode, Properties, FLIP_A, FLIP_D, FLIP_H, FLIP_V};
use pax_romana::tileset::{Tileset, TilesetError};

fn props(entity: Option<&str>, keyframe: Option<usize>) -> Properties {
    let mut p = Properties::default();
    p.entity = entity.map(|e| e.to_string());
    p.keyframe = keyframe;
    p
}

fn grid() -> Tileset {
    let records = vec![
        (0, props(Some("player-top"), Some(0))),
        (1, props(Some("player-top"), Some(1))),
        (4, props(Some("player-bottom"), Some(0))),
        (5, props(Some("player-bottom"), Some(1))),
    ];
    Tileset::from_grid(4, 2, 16, 16, &records).unwrap()
}

#[test]
fn decode_strips_flag_bits() {
    assert_eq!(decode(5 | FLIP_H), (5, true, 0));
    assert_eq!(decode(5 | FLIP_V), (5, false, 180));
    assert_eq!(decode(5 | FLIP_H | FLIP_V), (5, false, 180));
    assert_eq!(decode(5 | FLIP_D), (5, false, 90));
    assert_eq!(decode(5 | FLIP_D | FLIP_H), (5, false, 90));
    assert_eq!(decode(5 | FLIP_D | FLIP_V), (5, false, 270));
    assert_eq!(decode(5 | FLIP_A), (5, true, 90));
    assert_eq!(decode(0x1FFF_FFFF | FLIP_A).0, 0x1FFF_FFFF);
}

#[test]
fn flip_twice_is_identity() {
    let r = Rect::new(32, 16, 16, 16);
    let once = flip(r);
    assert_eq!(once, Rect::new(-48, 16, 16, 16));
    assert_eq!(flip(once), r);
}

#[test]
fn horizontally_flipped_tile_mirrors_its_source() {
    let ts = grid();
    let plain = ts.resolve(5).unwrap();
    let mirrored = ts.resolve(5 | FLIP_H).unwrap();
    assert_eq!(plain.source, Rect::new(0, 16, 16, 16));
    assert_eq!(mirrored.source, flip(plain.source));
    assert_eq!(mirrored.properties.rotation, 0);
}

#[test]
fn rotated_variants_keep_the_source() {
    let ts = grid();
    let t = ts.resolve(3 | FLIP_D | FLIP_V).unwrap();
    assert_eq!(t.source, Rect::new(32, 0, 16, 16));
    assert_eq!(t.properties.rotation, 270);
    let t = ts.resolve(3 | FLIP_A).unwrap();
    assert_eq!(t.source, flip(Rect::new(32, 0, 16, 16)));
    assert_eq!(t.properties.rotation, 90);
}

#[test]
fn unknown_base_id_is_an_error() {
    let ts = grid();
    assert_eq!(ts.resolve(9).unwrap_err(), TilesetError::UnknownTile(9));
    assert_eq!(ts.resolve(9 | FLIP_H).unwrap_err(), TilesetError::UnknownTile(9 | FLIP_H));
    assert!(ts.resolve(8).is_ok());
}

#[test]
fn empty_tile_is_id_zero() {
    let ts = grid();
    let t = ts.resolve(0).unwrap();
    assert_eq!(t.source, Rect::zero());
    assert!(t.properties.entity.is_none());
}

#[test]
fn entity_without_keyframe_is_rejected() {
    let records = vec![(2, props(Some("door"), None))];
    assert_eq!(
        Tileset::from_grid(4, 2, 16, 16, &records).unwrap_err(),
        TilesetError::EntityWithoutKeyframe(2)
    );
}

#[test]
fn oversized_grid_is_rejected() {
    let records = vec![];
    assert_eq!(
        Tileset::from_grid(0x1000_0000, 1, 16, 16, &records).unwrap_err(),
        TilesetError::GridTooLarge
    );
}

#[test]
fn entity_keyframe_lookup() {
    let ts = grid();
    let t = ts.get_tile_by_entity_keyframe("player-bottom", 1).unwrap();
    assert_eq!(t.source, Rect::new(16, 16, 16, 16));
    assert_eq!(
        ts.get_tile_by_entity_keyframe("player-bottom", 2).unwrap_err(),
        TilesetError::MissingEntityKeyframe
    );
}

#[test]
fn entity_ids_follow_keyframes() {
    let records = vec![
        (0, props(Some("torch"), Some(2))),
        (1, props(Some("torch"), Some(0))),
        (2, props(Some("torch"), Some(1))),
        (3, props(Some("other"), Some(0))),
    ];
    let ts = Tileset::from_grid(4, 1, 16, 16, &records).unwrap();
    assert_eq!(ts.entity_ids(&"torch".to_string()), vec![2, 3, 1]);
}

#[test]
fn equal_keyframes_keep_id_order() {
    let records = vec![
        (3, props(Some("flag"), Some(0))),
        (0, props(Some("flag"), Some(0))),
        (1, props(Some("flag"), Some(0))),
    ];
    let ts = Tileset::from_grid(4, 1, 16, 16, &records).unwrap();
    assert_eq!(ts.entity_ids(&"flag".to_string()), vec![1, 2, 4]);
}

#[test]
fn animation_of_entity_tile_in_orientation() {
    let records = vec![
        (0, props(Some("torch"), Some(1))),
        (1, props(Some("torch"), Some(0))),
    ];
    let ts = Tileset::from_grid(2, 1, 16, 16, &records).unwrap();
    let a = ts.get_animation(1 | FLIP_H, 7).unwrap();
    assert_eq!(a.frames.len(), 2);
    assert_eq!(a.frames[0].source, flip(Rect::new(16, 0, 16, 16)));
    assert_eq!(a.frames[1].source, flip(Rect::new(0, 0, 16, 16)));
    assert_eq!(a.current, a.frames[0]);
    assert_eq!(a.timer, 7);
    let single = ts.get_animation(0, 0).unwrap();
    assert_eq!(single.frames.len(), 1);
    assert_eq!(ts.get_animation(5, 0).unwrap_err(), TilesetError::UnknownTile(5));
}

#[test]
fn spawn_tiles_are_listed() {
    let mut p = Properties::default();
    p.spawn = Some("peasant".to_string());
    let records = vec![(2, p)];
    let ts = Tileset::from_grid(2, 2, 16, 16, &records).unwrap();
    assert_eq!(ts.get_spawn_tiles(), vec![3]);
    assert_eq!(ts.get_spawn(3 | FLIP_V), Some("peasant".to_string()));
    assert_eq!(ts.get_spawn(2), None);
}

#[test]
fn union_of_stacked_rects() {
    let r = union(Rect::new(16, 0, 16, 16), Rect::new(16, 16, 16, 16));
    assert_eq!(r, Rect::new(16, 0, 16, 32));
}

#[test]
fn integer_square_root() {
    assert_eq!(isqrt(0), 0);
    assert_eq!(isqrt(15), 3);
    assert_eq!(isqrt(16), 4);
    assert_eq!(isqrt(u64::MAX), 0xFFFF_FFFF);
}
