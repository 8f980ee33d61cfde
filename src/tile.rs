use vstd::prelude::*;

use crate::animation::Frame;
use crate::math::{can_flip, flip_spec, Rect};
use crate::text::{bool_text, opt_view, parse_bool, parse_usize, usize_text};
use crate::xmlelements::{property_text, views, EventView, XMLElements, XmlEvent};

verus! {

/// Tile-id flag: mirror horizontally.
pub const FLIP_H: u32 = 0x8000_0000;

/// Tile-id flag: mirror vertically.
pub const FLIP_V: u32 = 0x4000_0000;

/// Tile-id flag: mirror along the diagonal.
pub const FLIP_D: u32 = 0x2000_0000;

/// All three orientation flags.
pub const FLIP_A: u32 = 0xE000_0000;

/// The base index of a tile id: the id with the three flag bits cleared.
pub open spec fn base_id(raw: u32) -> u32 {
    raw & !FLIP_A
}

pub open spec fn has_flag(raw: u32, flag: u32) -> bool {
    raw & flag != 0
}

/// The transform that a flag combination selects: whether the source is
/// mirrored horizontally, and the draw-time rotation in degrees.
pub open spec fn orientation(d: bool, h: bool, v: bool) -> (bool, u32) {
    if !d {
        if h && !v {
            (true, 0)
        } else if v {
            (false, 180)
        } else {
            (false, 0)
        }
    } else if v {
        if h {
            (true, 90)
        } else {
            (false, 270)
        }
    } else {
        (false, 90)
    }
}

pub open spec fn orientation_of(raw: u32) -> (bool, u32) {
    orientation(has_flag(raw, FLIP_D), has_flag(raw, FLIP_H), has_flag(raw, FLIP_V))
}

/// Splits a tile id into its base index and its transform.
pub fn decode(raw: u32) -> (r: (u32, bool, u32))
    ensures
        r.0 == base_id(raw),
        (r.1, r.2) == orientation_of(raw),
{
    let d = raw & FLIP_D != 0;
    let h = raw & FLIP_H != 0;
    let v = raw & FLIP_V != 0;
    let (flip, degrees) = if !d {
        if h && !v {
            (true, 0)
        } else if v {
            (false, 180)
        } else {
            (false, 0)
        }
    } else if v {
        if h {
            (true, 90)
        } else {
            (false, 270)
        }
    } else {
        (false, 90)
    };
    (raw & !FLIP_A, flip, degrees)
}

/// Clearing the flags keeps every bit below them and no flag bit, so the
/// base index is the id less its flags.
pub proof fn lemma_base_id(raw: u32)
    ensures
        base_id(raw) == raw % 0x2000_0000,
        base_id(raw) < 0x2000_0000,
        base_id(raw) & FLIP_A == 0,
        base_id(base_id(raw)) == base_id(raw),
        orientation_of(base_id(raw)) == (false, 0u32),
        base_id(raw | FLIP_H) == base_id(raw),
        has_flag(raw | FLIP_H, FLIP_H),
        FLIP_A == FLIP_D | FLIP_H | FLIP_V,
{
    assert(0xE000_0000u32 == 0x2000_0000u32 | 0x8000_0000u32 | 0x4000_0000u32) by (bit_vector);
    assert(raw & !0xE000_0000u32 == raw % 0x2000_0000) by (bit_vector);
    assert((raw & !0xE000_0000u32) & 0xE000_0000u32 == 0) by (bit_vector);
    assert((raw & !0xE000_0000u32) & !0xE000_0000u32 == raw & !0xE000_0000u32) by (bit_vector);
    assert((raw & !0xE000_0000u32) & 0x8000_0000u32 == 0) by (bit_vector);
    assert((raw & !0xE000_0000u32) & 0x4000_0000u32 == 0) by (bit_vector);
    assert((raw & !0xE000_0000u32) & 0x2000_0000u32 == 0) by (bit_vector);
    assert((raw | 0x8000_0000u32) & !0xE000_0000u32 == raw & !0xE000_0000u32) by (bit_vector);
    assert((raw | 0x8000_0000u32) & 0x8000_0000u32 != 0) by (bit_vector);
}

/// Setting only the horizontal flag on a base id keeps the base and selects
/// the plain mirror image, so that id resolves to the base tile mirrored.
pub proof fn lemma_horizontal_flag(raw: u32)
    requires
        raw & FLIP_A == 0,
    ensures
        base_id(raw) == raw,
        base_id(raw | FLIP_H) == raw,
        orientation_of(raw) == (false, 0u32),
        orientation_of(raw | FLIP_H) == (true, 0u32),
        forall|t: Tile| #[trigger] orient(t, orientation_of(raw | FLIP_H)) == rotate_spec(flip_tile_spec(t), 0),
{
    assert(raw & 0xE000_0000u32 == 0 ==> raw & !0xE000_0000u32 == raw) by (bit_vector);
    assert(raw & 0xE000_0000u32 == 0 ==> (raw | 0x8000_0000u32) & !0xE000_0000u32 == raw) by (bit_vector);
    assert(raw & 0xE000_0000u32 == 0 ==> raw & 0x8000_0000u32 == 0 && raw & 0x4000_0000u32 == 0
        && raw & 0x2000_0000u32 == 0) by (bit_vector);
    assert(raw & 0xE000_0000u32 == 0 ==> (raw | 0x8000_0000u32) & 0x8000_0000u32 != 0 && (raw
        | 0x8000_0000u32) & 0x4000_0000u32 == 0 && (raw | 0x8000_0000u32) & 0x2000_0000u32 == 0)
        by (bit_vector);
}

/// Authoring-time metadata of a tile.
#[derive(Debug)]
pub struct Properties {
    /// Groups the tiles of one animated subject.
    pub entity: Option<String>,
    /// Draw-time rotation in degrees.
    pub rotation: u32,
    /// Position of the tile within its entity's animation.
    pub keyframe: Option<usize>,
    /// How long the tile is shown, in milliseconds.
    pub delay: Option<usize>,
    /// Whether the delay is jittered each time it is checked.
    pub scramble_delay: Option<bool>,
    /// Names the kind of spawn point the tile marks.
    pub spawn: Option<String>,
    /// `Some(false)` hides the tile.
    pub visible: Option<bool>,
}

pub fn clone_opt_string(s: &Option<String>) -> (r: Option<String>)
    ensures
        r == *s,
{
    match s {
        Some(v) => Some(v.clone()),
        None => None,
    }
}

pub open spec fn usize_prop(t: Option<Seq<char>>) -> Option<usize> {
    match t {
        Some(s) => usize_text(s),
        None => None,
    }
}

pub open spec fn bool_prop(t: Option<Seq<char>>) -> Option<bool> {
    match t {
        Some(s) => bool_text(s),
        None => None,
    }
}

fn usize_of(t: Option<String>) -> (r: Option<usize>)
    ensures
        r == usize_prop(opt_view(t)),
{
    match t {
        Some(s) => parse_usize(s.as_str()),
        None => None,
    }
}

fn bool_of(t: Option<String>) -> (r: Option<bool>)
    ensures
        r == bool_prop(opt_view(t)),
{
    match t {
        Some(s) => parse_bool(s.as_str()),
        None => None,
    }
}

/// Whether `p` holds the properties that the property elements `es` write,
/// a value that does not parse counting as absent.
pub open spec fn props_from(p: Properties, es: Seq<EventView>) -> bool {
    &&& opt_view(p.entity) == property_text(es, "entity"@)
    &&& p.rotation == 0
    &&& p.keyframe == usize_prop(property_text(es, "keyframe"@))
    &&& p.delay == usize_prop(property_text(es, "delay"@))
    &&& p.scramble_delay == bool_prop(property_text(es, "scramble_delay"@))
    &&& opt_view(p.spawn) == property_text(es, "spawn"@)
    &&& p.visible == bool_prop(property_text(es, "visible"@))
}

impl Properties {
    /// The properties written as the property elements `property_elements`
    /// (`name` and `value` attributes); a value that does not parse counts
    /// as absent.
    pub fn new(property_elements: &Vec<XmlEvent>) -> (r: Properties)
        ensures
            props_from(r, views(property_elements@)),
    {
        proof {
            reveal_strlit("entity");
            reveal_strlit("keyframe");
            reveal_strlit("delay");
            reveal_strlit("scramble_delay");
            reveal_strlit("spawn");
            reveal_strlit("visible");
        }
        let entity = XMLElements::get_attribute_value(property_elements, "entity");
        let keyframe = usize_of(XMLElements::get_attribute_value(property_elements, "keyframe"));
        let spawn = XMLElements::get_attribute_value(property_elements, "spawn");
        let visible = bool_of(XMLElements::get_attribute_value(property_elements, "visible"));
        let delay = usize_of(XMLElements::get_attribute_value(property_elements, "delay"));
        let scramble_delay = bool_of(
            XMLElements::get_attribute_value(property_elements, "scramble_delay"),
        );
        Properties { rotation: 0, entity, keyframe, delay, scramble_delay, spawn, visible }
    }
}

impl Clone for Properties {
    fn clone(&self) -> (r: Self)
        ensures
            r == *self,
    {
        Properties {
            entity: clone_opt_string(&self.entity),
            rotation: self.rotation,
            keyframe: self.keyframe,
            delay: self.delay,
            scramble_delay: self.scramble_delay,
            spawn: clone_opt_string(&self.spawn),
            visible: self.visible,
        }
    }
}

pub open spec fn default_properties() -> Properties {
    Properties {
        entity: None,
        rotation: 0,
        keyframe: None,
        delay: None,
        scramble_delay: None,
        spawn: None,
        visible: None,
    }
}

impl Default for Properties {
    fn default() -> (r: Properties)
        ensures
            r == default_properties(),
    {
        Properties {
            entity: None,
            rotation: 0,
            keyframe: None,
            delay: None,
            scramble_delay: None,
            spawn: None,
            visible: None,
        }
    }
}

/// A source rectangle of the atlas together with its metadata.
#[derive(Debug)]
pub struct Tile {
    pub source: Rect,
    pub properties: Properties,
}

impl Clone for Tile {
    fn clone(&self) -> (r: Self)
        ensures
            r == *self,
    {
        Tile { source: self.source, properties: self.properties.clone() }
    }
}

pub open spec fn default_tile() -> Tile {
    Tile { source: Rect { x: 0, y: 0, w: 0, h: 0 }, properties: default_properties() }
}

impl Default for Tile {
    fn default() -> (r: Tile)
        ensures
            r == default_tile(),
    {
        Tile::new(Rect::zero(), Properties::default())
    }
}

/// The frame that shows tile `t` for its delay.
pub open spec fn frame_of(t: Tile) -> Frame {
    Frame {
        source: t.source,
        delay: t.properties.delay,
        rotation: t.properties.rotation,
        scramble: t.properties.scramble_delay == Some(true),
        visible: t.properties.visible != Some(false),
    }
}

impl Tile {
    /// The frame that shows this tile for its delay; only `visible = false`
    /// hides it.
    pub fn frame(&self) -> (r: Frame)
        ensures
            r == frame_of(*self),
    {
        let scramble = match self.properties.scramble_delay {
            Some(b) => b,
            None => false,
        };
        let visible = match self.properties.visible {
            Some(b) => b,
            None => true,
        };
        Frame {
            source: self.source,
            delay: self.properties.delay,
            rotation: self.properties.rotation,
            scramble,
            visible,
        }
    }

    pub fn new(source: Rect, properties: Properties) -> (r: Tile)
        ensures
            r == (Tile { source, properties }),
    {
        Tile { source, properties }
    }
}

/// The tile mirrored horizontally.
pub open spec fn flip_tile_spec(t: Tile) -> Tile {
    Tile { source: flip_spec(t.source), ..t }
}

/// The tile drawn at `degrees`.
pub open spec fn rotate_spec(t: Tile, degrees: u32) -> Tile {
    Tile { properties: Properties { rotation: degrees, ..t.properties }, ..t }
}

/// The tile as the transform `(mirror, degrees)` shows it.
pub open spec fn orient(t: Tile, o: (bool, u32)) -> Tile {
    rotate_spec(if o.0 { flip_tile_spec(t) } else { t }, o.1)
}

/// Mirrors a tile's source rectangle horizontally.
pub fn flip(tile: Tile) -> (r: Tile)
    requires
        can_flip(tile.source),
    ensures
        r == flip_tile_spec(tile),
{
    let mut t = tile;
    t.source = crate::math::flip(t.source);
    t
}

/// Sets the rotation, in degrees, at which a tile is drawn.
pub fn rotate(tile: Tile, angle: u32) -> (r: Tile)
    ensures
        r == rotate_spec(tile, angle),
{
    let mut t = tile;
    t.properties.rotation = angle;
    t
}

} // verus!
