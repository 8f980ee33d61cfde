use pax_romana::layer::{parse_ids, Layer};
use pax_romana::map::{MapError, TileMap};
use pax_romana::math::Point;
use pax_romana::npc::Character;
use pax_romana::tile::{Properties, FLIP_H};
use pax_romana::tileset::{Tileset, TilesetError};
use pax_romana::xmlelements::{Attribute, XMLElements, XmlEvent};

fn start(name: &str, attrs: &[(&str, &str)]) -> XmlEvent {
    XmlEvent::StartElement {
        name: name.to_string(),
        attributes: attrs
            .iter()
            .map(|(n, v)| Attribute { name: n.to_string(), value: v.to_string() })
            .collect(),
    }
}

fn end(name: &str) -> XmlEvent {
    XmlEvent::EndElement { name: name.to_string() }
}

fn property(name: &str, value: &str) -> Vec<XmlEvent> {
    vec![start("property", &[("name", name), ("value", value)]), end("property")]
}

fn tileset_document() -> XMLElements {
    let mut events = vec![
        start("tileset", &[("name", "world"), ("columns", "2")]),
        start("image", &[("source", "tileset.png"), ("height", "32")]),
        end("image"),
        start("tile", &[("id", "1")]),
        start("properties", &[]),
    ];
    events.extend(property("entity", "torch"));
    events.extend(property("keyframe", "0"));
    events.extend(property("delay", "250"));
    events.extend(property("scramble_delay", "true"));
    events.extend(vec![end("properties"), end("tile"), start("tile", &[("id", "2")]), start("properties", &[])]);
    events.extend(property("spawn", "peasant"));
    events.extend(property("visible", "false"));
    events.extend(vec![end("properties"), end("tile"), end("tileset")]);
    XMLElements::new(events)
}

#[test]
fn properties_from_property_elements() {
    let mut events = property("entity", "player-top");
    events.extend(property("keyframe", "+3"));
    events.extend(property("delay", "abc"));
    events.extend(property("visible", "false"));
    let p = Properties::new(&events);
    assert_eq!(p.entity, Some("player-top".to_string()));
    assert_eq!(p.keyframe, Some(3));
    assert_eq!(p.delay, None);
    assert_eq!(p.visible, Some(false));
    assert_eq!(p.scramble_delay, None);
    assert_eq!(p.spawn, None);
}

#[test]
fn element_lookups() {
    let doc = tileset_document();
    assert_eq!(doc.get_element("image"), Some(1));
    assert_eq!(doc.get_element("map"), None);
    assert_eq!(doc.get_element_attribute("tileset", "columns"), Some("2".to_string()));
    assert_eq!(doc.get_element_attribute("image", "width"), None);
    assert_eq!(doc.get_elements("tile").len(), 2);
    let first_tile = doc.get_elements("tile")[0];
    assert_eq!(doc.get_children(first_tile, "property").len(), 4);
    assert_eq!(XMLElements::get_attribute(&end("x"), "id"), None);
}

#[test]
fn tileset_from_document() {
    let doc = tileset_document();
    let ts = Tileset::new(&doc, 16, 16).unwrap();
    let torch = ts.resolve(2).unwrap();
    assert_eq!(torch.properties.entity, Some("torch".to_string()));
    assert_eq!(torch.properties.delay, Some(250));
    assert_eq!(torch.properties.scramble_delay, Some(true));
    let frame = torch.frame();
    assert!(frame.scramble);
    assert!(frame.visible);
    let marker = ts.resolve(3).unwrap();
    assert_eq!(marker.properties.spawn, Some("peasant".to_string()));
    assert!(!marker.frame().visible);
    assert!(ts.resolve(4).is_ok());
    assert_eq!(ts.resolve(5).unwrap_err(), TilesetError::UnknownTile(5));
}

#[test]
fn tileset_document_without_columns() {
    let doc = XMLElements::new(vec![start("tileset", &[]), start("image", &[("height", "32")])]);
    assert_eq!(Tileset::new(&doc, 16, 16).unwrap_err(), TilesetError::Malformed);
}

#[test]
fn layer_ids_parse() {
    assert_eq!(parse_ids("1,2,\n3,4\n"), Some(vec![1, 2, 3, 4]));
    assert_eq!(parse_ids("\n7\n"), Some(vec![7]));
    assert_eq!(parse_ids("4294967295,0"), Some(vec![4294967295, 0]));
    assert_eq!(parse_ids("4294967296"), None);
    assert_eq!(parse_ids("1,,2"), None);
    assert_eq!(parse_ids("1, 2"), None);
    assert_eq!(parse_ids(""), None);
    assert_eq!(parse_ids("1,"), None);
}

fn map_tileset() -> Tileset {
    let doc = tileset_document();
    Tileset::new(&doc, 16, 16).unwrap()
}

#[test]
fn layer_cells_and_errors() {
    let ts = map_tileset();
    let l = Layer::new("1,2,3,4", &ts, 2, 2, 44, 0).unwrap();
    assert_eq!(l.cells.len(), 4);
    assert_eq!(l.cells[3].destination, Point::new(66, 66));
    assert_eq!(l.cells[1].destination, Point::new(66, 22));
    assert_eq!(Layer::new("1,2,3", &ts, 2, 2, 44, 0).unwrap_err(), MapError::WrongSize);
    assert_eq!(Layer::new("1,x,3,4", &ts, 2, 2, 44, 0).unwrap_err(), MapError::BadLayer);
    assert_eq!(Layer::new("1,2,3,9", &ts, 2, 2, 44, 0).unwrap_err(), MapError::UnknownTile(9));
}

#[test]
fn map_from_document() {
    let ts = map_tileset();
    let flipped = (3 | FLIP_H).to_string();
    let data = format!("1,2,\n{},4\n", flipped);
    let doc = XMLElements::new(vec![
        start("map", &[("width", "2"), ("height", "2")]),
        start("layer", &[]),
        start("data", &[("encoding", "csv")]),
        XmlEvent::Characters(data),
        end("data"),
        end("layer"),
        end("map"),
    ]);
    let mut map = TileMap::new(&doc, &ts, 44, 0).unwrap();
    assert_eq!(map.get_dimensions(), (88, 88));
    assert_eq!(map.layers.len(), 1);
    assert_eq!(map.spawns.len(), 1);
    assert_eq!(map.spawns[0].0, "peasant");
    assert_eq!(map.spawn_points_of(Character::Peasant), vec![Point::new(22, 66)]);
    assert!(map.spawn_points_of(Character::Player).is_empty());
    map.update(500);
    assert_eq!(map.layers[0].cells.len(), 4);
}

#[test]
fn map_document_without_size() {
    let ts = map_tileset();
    let doc = XMLElements::new(vec![start("map", &[("width", "2")])]);
    assert_eq!(TileMap::new(&doc, &ts, 44, 0).unwrap_err(), MapError::Malformed);
}
