use vstd::arithmetic::div_mod::lemma_fundamental_div_mod_converse;
use vstd::prelude::*;

use crate::math::{can_flip, Rect};
use crate::text::{opt_view, parse_usize};
use crate::tile::{props_from, usize_prop};
use crate::xmlelements::{
    element_attr_text, element_name, end_from, event_attr, picked, starts_in, views, EventView,
    XMLElements,
};
use crate::animation::{Animation, AnimationView, Frame};
use crate::tile::{
    base_id, decode, default_properties, default_tile, flip, frame_of, orient, orientation_of,
    rotate, Properties, Tile,
};

verus! {

/// Content errors found while building or querying a tileset.
#[derive(Clone, Copy, Debug, PartialEq, Eq, Structural)]
pub enum TilesetError {
    /// No tile has this id's base index.
    UnknownTile(u32),
    /// The tile with this id names an entity but no keyframe.
    EntityWithoutKeyframe(usize),
    /// No tile has the entity and keyframe asked for.
    MissingEntityKeyframe,
    /// The grid does not fit the integer ranges used for geometry.
    GridTooLarge,
    /// A required attribute is missing or is not a number.
    Malformed,
}

/// The properties of the first record for tile `id`, or the defaults.
pub open spec fn record_props(records: Seq<(usize, Properties)>, id: int) -> Properties
    decreases records.len(),
{
    if records.len() == 0 {
        default_properties()
    } else if records[0].0 == id {
        records[0].1
    } else {
        record_props(records.drop_first(), id)
    }
}

/// Where tile `gid` (counted from 1, row by row) lies in the atlas.
pub open spec fn grid_source(columns: int, tile_width: i32, tile_height: i32, gid: int) -> Rect {
    Rect {
        x: (((gid - 1) % columns) * tile_width) as i32,
        y: (((gid - 1) / columns) * tile_height) as i32,
        w: tile_width,
        h: tile_height,
    }
}

/// Base tile `gid` of a grid; tile 0 is the empty tile.
pub open spec fn grid_tile(
    columns: int,
    tile_width: i32,
    tile_height: i32,
    records: Seq<(usize, Properties)>,
    gid: int,
) -> Tile {
    if gid == 0 {
        default_tile()
    } else {
        Tile {
            source: grid_source(columns, tile_width, tile_height, gid),
            properties: Properties { rotation: 0, ..record_props(records, gid - 1) },
        }
    }
}

/// What building a grid gives: an error if it is too large or if a record
/// names an entity without a keyframe, else the grid's tiles.
pub open spec fn grid_result(
    columns: usize,
    rows: usize,
    tile_width: i32,
    tile_height: i32,
    records: Seq<(usize, Properties)>,
    r: Result<Tileset, TilesetError>,
) -> bool {
    &&& grid_too_large(columns, rows, tile_width, tile_height) ==> r == Err::<Tileset, TilesetError>(
        TilesetError::GridTooLarge,
    )
    &&& !grid_too_large(columns, rows, tile_width, tile_height) ==> match r {
        Ok(ts) => {
            &&& ts.wf()
            &&& ts@.len() == columns * rows + 1
            &&& forall|gid: int|
                0 <= gid < ts@.len() ==> #[trigger] ts@[gid] == grid_tile(
                    columns as int,
                    tile_width,
                    tile_height,
                    records,
                    gid,
                )
            &&& forall|id: int| 0 <= id < columns * rows ==> !lacks_keyframe(#[trigger] record_props(records, id))
        },
        Err(e) => exists|id: usize|
            id < columns * rows && e == TilesetError::EntityWithoutKeyframe(id) && lacks_keyframe(
                #[trigger] record_props(records, id as int),
            ),
    }
}

/// The records that a tileset document lists: for each `tile` element in
/// order, its `id` and the properties of its `property` children.
pub open spec fn tile_records(es: Seq<EventView>, records: Seq<(usize, Properties)>) -> bool {
    let tiles = starts_in(es, 0, es.len() as int, "tile"@);
    &&& records.len() == tiles.len()
    &&& forall|k: int|
        0 <= k < records.len() ==> {
            let t = tiles[k] as int;
            &&& usize_prop(event_attr(es[t], "id"@)) == Some((#[trigger] records[k]).0)
            &&& props_from(
                records[k].1,
                picked(es, starts_in(es, t, end_from(es, t, element_name(es[t])), "property"@)),
            )
        }
}

/// Whether some `tile` element lacks a numeric `id`.
pub open spec fn bad_tile_id(es: Seq<EventView>) -> bool {
    let tiles = starts_in(es, 0, es.len() as int, "tile"@);
    exists|k: int| 0 <= k < tiles.len() && usize_prop(event_attr(es[#[trigger] tiles[k] as int], "id"@)) is None
}

/// Whether a grid's pixel extents or tile count leave the integer ranges.
pub open spec fn grid_too_large(columns: usize, rows: usize, tile_width: i32, tile_height: i32) -> bool {
    ||| columns * tile_width > i32::MAX
    ||| rows * tile_height > i32::MAX
    ||| columns * rows >= usize::MAX
}

/// Whether a record names an entity without a keyframe.
pub open spec fn lacks_keyframe(p: Properties) -> bool {
    p.entity is Some && p.keyframe is None
}

/// The base tiles of an atlas, indexed by base id; flipped and rotated
/// variants are derived from them on lookup.
#[derive(Clone, Debug)]
pub struct Tileset {
    tiles: Vec<Tile>,
}

impl View for Tileset {
    type V = Seq<Tile>;

    closed spec fn view(&self) -> Seq<Tile> {
        self.tiles@
    }
}

/// A source rectangle inside the non-negative quadrant, with its far edges
/// representable.
pub open spec fn source_ok(r: Rect) -> bool {
    &&& 0 <= r.x && 0 <= r.y && 0 <= r.w && 0 <= r.h
    &&& r.x + r.w <= i32::MAX
    &&& r.y + r.h <= i32::MAX
}

/// A well-formed table of base tiles: tile 0 exists, every source lies in
/// the atlas quadrant, none is rotated, and each tile of an entity has a
/// keyframe.
pub open spec fn tiles_wf(ts: Seq<Tile>) -> bool {
    &&& ts.len() >= 1
    &&& forall|i: int|
        0 <= i < ts.len() ==> {
            &&& source_ok((#[trigger] ts[i]).source)
            &&& can_flip(ts[i].source)
            &&& ts[i].properties.rotation == 0
            &&& !lacks_keyframe(ts[i].properties)
        }
}

/// The properties of the first record for `id`, or the defaults.
fn find_properties(records: &Vec<(usize, Properties)>, id: usize) -> (r: Properties)
    ensures
        r == record_props(records@, id as int),
{
    let mut k: usize = 0;
    assert(records@.subrange(0, records@.len() as int) =~= records@);
    while k < records.len()
        invariant
            k <= records@.len(),
            record_props(records@, id as int) == record_props(
                records@.subrange(k as int, records@.len() as int),
                id as int,
            ),
        decreases records@.len() - k,
    {
        let ghost rest = records@.subrange(k as int, records@.len() as int);
        assert(rest.drop_first() =~= records@.subrange(k + 1, records@.len() as int));
        if records[k].0 == id {
            return records[k].1.clone();
        }
        k += 1;
    }
    Properties::default()
}

proof fn lemma_grid_step(k: int, columns: int, c: int, r: int)
    requires
        columns > 0,
        k >= 0,
        0 <= c < columns,
        r >= 0,
        k == r * columns + c,
    ensures
        c == k % columns,
        r == k / columns,
        c + 1 < columns ==> c + 1 == (k + 1) % columns && r == (k + 1) / columns,
        c + 1 == columns ==> 0 == (k + 1) % columns && r + 1 == (k + 1) / columns,
{
    lemma_fundamental_div_mod_converse(k, columns, r, c);
    if c + 1 < columns {
        lemma_fundamental_div_mod_converse(k + 1, columns, r, c + 1);
    } else {
        assert(k + 1 == (r + 1) * columns + 0) by (nonlinear_arith)
            requires
                k == r * columns + c,
                c + 1 == columns,
        ;
        lemma_fundamental_div_mod_converse(k + 1, columns, r + 1, 0);
    }
}

/// Whether tile `t` belongs to entity `e`.
pub open spec fn in_entity(t: Tile, e: Seq<char>) -> bool {
    t.properties.entity matches Some(s) && s@ == e
}

/// The keyframe of a tile, 0 where it has none.
pub open spec fn keyframe_of(t: Tile) -> int {
    match t.properties.keyframe {
        Some(k) => k as int,
        None => 0,
    }
}

/// Tile `a` comes before tile `b` in an animation: by keyframe, then by id.
pub open spec fn key_lt(ts: Seq<Tile>, a: usize, b: usize) -> bool {
    ||| keyframe_of(ts[a as int]) < keyframe_of(ts[b as int])
    ||| keyframe_of(ts[a as int]) == keyframe_of(ts[b as int]) && a < b
}

/// `ids` lists the base tiles of entity `e` in animation order.
pub open spec fn entity_order(ts: Seq<Tile>, e: Seq<char>, ids: Seq<usize>) -> bool {
    &&& forall|a: int, b: int| 0 <= a < b < ids.len() ==> key_lt(ts, ids[a], ids[b])
    &&& forall|k: int|
        0 <= k < ids.len() ==> (#[trigger] ids[k]) < ts.len() && in_entity(ts[ids[k] as int], e)
    &&& forall|id: int| 0 <= id < ts.len() && in_entity(#[trigger] ts[id], e) ==> ids.contains(id as usize)
}

/// Whether `a` is the animation of tile id `tile_id` started at `now`: the
/// frames of its entity in animation order, in its orientation, or the
/// tile alone if it belongs to none; on the first of them.
pub open spec fn is_animation_of(ts: Seq<Tile>, tile_id: u32, now: u64, a: AnimationView) -> bool {
    let first = ts[base_id(tile_id) as int];
    &&& a.timer == now
    &&& a.frames.len() > 0 ==> a.current == a.frames[0]
    &&& match first.properties.entity {
        Some(e) => exists|ids: Seq<usize>|
            entity_order(ts, e@, ids) && a.frames == ids.map_values(
                |id: usize| frame_of(orient(ts[id as int], orientation_of(tile_id))),
            ),
        None => a.frames == seq![frame_of(orient(first, orientation_of(tile_id)))],
    }
}

/// Whether base tile `id` is the first that is keyframe `k` of entity `e`.
pub open spec fn is_first_entity_keyframe(ts: Seq<Tile>, e: Seq<char>, k: usize, id: int) -> bool {
    &&& 0 <= id < ts.len()
    &&& is_entity_keyframe(ts[id], e, k)
    &&& forall|j: int| 0 <= j < id ==> !is_entity_keyframe(#[trigger] ts[j], e, k)
}

/// Whether some base tile is keyframe `k` of entity `e`.
pub open spec fn has_entity_keyframe(ts: Seq<Tile>, e: Seq<char>, k: usize) -> bool {
    exists|j: int| 0 <= j < ts.len() && is_entity_keyframe(#[trigger] ts[j], e, k)
}

/// Whether base tile `t` is keyframe `k` of entity `e`.
pub open spec fn is_entity_keyframe(t: Tile, e: Seq<char>, k: usize) -> bool {
    in_entity(t, e) && t.properties.keyframe == Some(k)
}

fn keyframe_at(t: &Tile) -> (r: usize)
    ensures
        r == keyframe_of(*t),
{
    match t.properties.keyframe {
        Some(k) => k,
        None => 0,
    }
}

fn entity_is(t: &Tile, entity: &String) -> (r: bool)
    ensures
        r == in_entity(*t, entity@),
{
    match &t.properties.entity {
        Some(s) => *s == *entity,
        None => false,
    }
}

proof fn lemma_insert_sorted(ts: Seq<Tile>, s: Seq<usize>, p: int, id: usize)
    requires
        0 <= p <= s.len(),
        forall|a: int, b: int| 0 <= a < b < s.len() ==> key_lt(ts, s[a], s[b]),
        forall|k: int| 0 <= k < s.len() ==> (#[trigger] s[k]) < id,
        forall|k: int| 0 <= k < p ==> keyframe_of(ts[(#[trigger] s[k]) as int]) <= keyframe_of(ts[id as int]),
        p < s.len() ==> keyframe_of(ts[s[p] as int]) > keyframe_of(ts[id as int]),
    ensures
        forall|a: int, b: int|
            0 <= a < b < s.insert(p, id).len() ==> key_lt(ts, s.insert(p, id)[a], s.insert(p, id)[b]),
{
    let t = s.insert(p, id);
    assert forall|a: int, b: int| 0 <= a < b < t.len() implies key_lt(ts, t[a], t[b]) by {
        if b < p {
            assert(t[a] == s[a] && t[b] == s[b]);
        } else if b == p {
            assert(t[a] == s[a] && t[b] == id);
        } else if a < p {
            assert(t[a] == s[a] && t[b] == s[b - 1]);
        } else if a == p {
            assert(t[a] == id && t[b] == s[b - 1]);
            if b - 1 > p {
                assert(key_lt(ts, s[p], s[b - 1]));
            }
        } else {
            assert(t[a] == s[a - 1] && t[b] == s[b - 1]);
        }
    }
}

impl Tileset {
    pub closed spec fn wf(&self) -> bool {
        tiles_wf(self.tiles@)
    }

    /// What a well-formed tileset guarantees of its tiles.
    pub proof fn lemma_wf(&self)
        requires
            self.wf(),
        ensures
            tiles_wf(self@),
    {
    }

    /// Builds the tiles of a grid of `columns` by `rows` tiles, each
    /// `tile_width` by `tile_height` atlas pixels, with the property
    /// records keyed by tile id counted from 0. Base id 0 is the empty tile;
    /// the tile in row `r` and column `c` has base id `1 + r * columns + c`.
    pub fn from_grid(
        columns: usize,
        rows: usize,
        tile_width: i32,
        tile_height: i32,
        records: &Vec<(usize, Properties)>,
    ) -> (r: Result<Tileset, TilesetError>)
        requires
            tile_width >= 1,
            tile_height >= 1,
        ensures
            grid_result(columns, rows, tile_width, tile_height, records@, r),
    {
        if columns as u64 > i32::MAX as u64 || rows as u64 > i32::MAX as u64 {
            proof {
                if columns > i32::MAX {
                    assert(columns * tile_width >= columns) by (nonlinear_arith)
                        requires tile_width >= 1, columns >= 0;
                } else {
                    assert(rows * tile_height >= rows) by (nonlinear_arith)
                        requires tile_height >= 1, rows >= 0;
                }
            }
            return Err(TilesetError::GridTooLarge);
        }
        assert(columns * tile_width <= i32::MAX * i32::MAX && rows * tile_height <= i32::MAX
            * i32::MAX) by (nonlinear_arith)
            requires
                columns <= i32::MAX,
                rows <= i32::MAX,
                1 <= tile_width <= i32::MAX,
                1 <= tile_height <= i32::MAX,
        ;
        let width_px: i64 = columns as i64 * tile_width as i64;
        let height_px: i64 = rows as i64 * tile_height as i64;
        if width_px > i32::MAX as i64 || height_px > i32::MAX as i64 {
            return Err(TilesetError::GridTooLarge);
        }
        let n: usize = match columns.checked_mul(rows) {
            Some(n) => if n < usize::MAX {
                n
            } else {
                return Err(TilesetError::GridTooLarge);
            },
            None => return Err(TilesetError::GridTooLarge),
        };
        let mut tiles: Vec<Tile> = Vec::new();
        tiles.push(Tile::default());
        let mut c: usize = 0;
        let mut r: usize = 0;
        let mut k: usize = 0;
        assert(0 < n ==> 0 < rows) by (nonlinear_arith)
            requires n == columns * rows;
        while k < n
            invariant
                n == columns * rows,
                !grid_too_large(columns, rows, tile_width, tile_height),
                columns * tile_width <= i32::MAX,
                rows * tile_height <= i32::MAX,
                columns <= i32::MAX,
                rows <= i32::MAX,
                columns > 0 ==> 0 <= c < columns,
                k <= n,
                k == r * columns + c,
                k < n ==> r < rows,
                tile_width >= 1,
                tile_height >= 1,
                tiles@.len() == k + 1,
                forall|gid: int| 0 <= gid < tiles@.len() ==> #[trigger] tiles@[gid] == grid_tile(columns as int, tile_width, tile_height, records@, gid),
                forall|id: int| 0 <= id < k ==> !lacks_keyframe(#[trigger] record_props(records@, id)),
                tiles_wf(tiles@),
            decreases n - k,
        {
            assert(columns > 0) by (nonlinear_arith)
                requires k < n, n == columns * rows;
            proof {
                lemma_grid_step(k as int, columns as int, c as int, r as int);
            }
            assert(c * tile_width + tile_width <= columns * tile_width) by (nonlinear_arith)
                requires c < columns, tile_width >= 1;
            assert(r * tile_height + tile_height <= rows * tile_height) by (nonlinear_arith)
                requires r < rows, tile_height >= 1;
            assert(c * tile_width >= 0 && r * tile_height >= 0) by (nonlinear_arith)
                requires c >= 0, r >= 0, tile_width >= 1, tile_height >= 1;
            let x: i32 = (c as i64 * tile_width as i64) as i32;
            let y: i32 = (r as i64 * tile_height as i64) as i32;
            let mut properties = find_properties(records, k);
            if properties.entity.is_some() && properties.keyframe.is_none() {
                return Err(TilesetError::EntityWithoutKeyframe(k));
            }
            properties.rotation = 0;
            let tile = Tile::new(Rect::new(x, y, tile_width, tile_height), properties);
            assert(tile.source == grid_source(columns as int, tile_width, tile_height, k + 1));
            assert(tile.properties == Properties { rotation: 0, ..record_props(records@, k as int) });
            assert(tile == grid_tile(columns as int, tile_width, tile_height, records@, k + 1));
            tiles.push(tile);
            let ghost (k0, r0, c0) = (k as int, r as int, c as int);
            if c + 1 == columns {
                c = 0;
                r = r + 1;
            } else {
                c = c + 1;
            }
            k = k + 1;
            proof {
                if c0 + 1 == columns {
                    assert(k == r * columns + c) by (nonlinear_arith)
                        requires k0 == r0 * columns + c0, c0 + 1 == columns, k == k0 + 1, r == r0 + 1, c == 0;
                } else {
                    assert(k == r * columns + c) by (nonlinear_arith)
                        requires k0 == r0 * columns + c0, k == k0 + 1, r == r0, c == c0 + 1;
                }
                if k < n {
                    assert(r < rows) by (nonlinear_arith)
                        requires k == r * columns + c, k < n, n == columns * rows, c >= 0, columns > 0;
                }
            }
        }
        Ok(Tileset { tiles })
    }

    /// The tileset that a tileset document describes: the grid's columns
    /// from the `columns` attribute of `tileset`, its rows from the
    /// `height` attribute of `image` over `tile_height`, and each `tile`
    /// element's `property` children as the properties of tile `id`.
    pub fn new(elements: &XMLElements, tile_width: i32, tile_height: i32) -> (r: Result<
        Tileset,
        TilesetError,
    >)
        requires
            tile_width >= 1,
            tile_height >= 1,
        ensures
            ({
                let es = views(elements.events@);
                let columns = usize_prop(element_attr_text(es, "tileset"@, "columns"@));
                let height = usize_prop(element_attr_text(es, "image"@, "height"@));
                &&& (columns is None || height is None || bad_tile_id(es)) ==> r == Err::<
                    Tileset,
                    TilesetError,
                >(TilesetError::Malformed)
                &&& (columns is Some && height is Some && !bad_tile_id(es)) ==> exists|
                    records: Seq<(usize, Properties)>,
                |
                    tile_records(es, records) && #[trigger] grid_result(
                        columns->0,
                        (height->0 / tile_height as usize) as usize,
                        tile_width,
                        tile_height,
                        records,
                        r,
                    )
            }),
    {
        proof {
            reveal_strlit("tileset");
            reveal_strlit("columns");
            reveal_strlit("image");
            reveal_strlit("height");
            reveal_strlit("tile");
            reveal_strlit("property");
            reveal_strlit("id");
        }
        let ghost es = views(elements.events@);
        let height = match elements.get_element_attribute("image", "height") {
            Some(t) => match parse_usize(t.as_str()) {
                Some(h) => h,
                None => return Err(TilesetError::Malformed),
            },
            None => return Err(TilesetError::Malformed),
        };
        let columns = match elements.get_element_attribute("tileset", "columns") {
            Some(t) => match parse_usize(t.as_str()) {
                Some(c) => c,
                None => return Err(TilesetError::Malformed),
            },
            None => return Err(TilesetError::Malformed),
        };
        let rows = height / (tile_height as usize);
        let tile_elements = elements.get_elements("tile");
        let mut records: Vec<(usize, Properties)> = Vec::new();
        let mut k: usize = 0;
        while k < tile_elements.len()
            invariant
                es == views(elements.events@),
                tile_elements@ == starts_in(es, 0, es.len() as int, "tile"@),
                forall|j: int| 0 <= j < tile_elements@.len() ==> #[trigger] tile_elements@[j] < elements.events@.len(),
                k <= tile_elements@.len(),
                records@.len() == k,
                forall|q: int|
                    0 <= q < k ==> {
                        let t = tile_elements@[q] as int;
                        &&& usize_prop(event_attr(es[t], "id"@)) == Some((#[trigger] records@[q]).0)
                        &&& props_from(
                            records@[q].1,
                            picked(es, starts_in(es, t, end_from(es, t, element_name(es[t])), "property"@)),
                        )
                    },
            decreases tile_elements@.len() - k,
        {
            let e = tile_elements[k];
            assert(es[e as int] == elements.events@[e as int]@);
            let id = match XMLElements::get_attribute(&elements.events[e], "id") {
                Some(t) => match parse_usize(t.as_str()) {
                    Some(id) => id,
                    None => {
                        assert(usize_prop(event_attr(es[tile_elements@[k as int] as int], "id"@)) is None);
                        return Err(TilesetError::Malformed);
                    },
                },
                None => {
                    assert(usize_prop(event_attr(es[tile_elements@[k as int] as int], "id"@)) is None);
                    return Err(TilesetError::Malformed);
                },
            };
            let children = elements.get_children(e, "property");
            let events = elements.pick(&children);
            let properties = Properties::new(&events);
            let ghost before = records@;
            records.push((id, properties));
            assert forall|q: int| 0 <= q < k + 1 implies {
                let t = tile_elements@[q] as int;
                &&& usize_prop(event_attr(es[t], "id"@)) == Some((#[trigger] records@[q]).0)
                &&& props_from(
                    records@[q].1,
                    picked(es, starts_in(es, t, end_from(es, t, element_name(es[t])), "property"@)),
                )
            } by {
                if q < k {
                    assert(records@[q] == before[q]);
                }
            }
            k += 1;
        }
        assert(tile_records(es, records@));
        assert forall|q: int| 0 <= q < tile_elements@.len() implies usize_prop(
            event_attr(es[tile_elements@[q] as int], "id"@),
        ) is Some by {
            assert(usize_prop(event_attr(es[tile_elements@[q] as int], "id"@)) == Some(records@[q].0));
        }
        assert(!bad_tile_id(es));
        let r = Tileset::from_grid(columns, rows, tile_width, tile_height, &records);
        assert(grid_result(columns, rows, tile_width, tile_height, records@, r));
        r
    }

    /// The spawn tag of the tile that `tile_id` stands for.
    pub fn get_spawn(&self, tile_id: u32) -> (r: Option<String>)
        ensures
            base_id(tile_id) < self@.len() ==> opt_view(r) == opt_view(
                self@[base_id(tile_id) as int].properties.spawn,
            ),
            base_id(tile_id) >= self@.len() ==> r is None,
    {
        let (base, _, _) = decode(tile_id);
        if (base as usize) < self.tiles.len() {
            crate::tile::clone_opt_string(&self.tiles[base as usize].properties.spawn)
        } else {
            None
        }
    }

    /// The tile that an id stands for: its base tile in the orientation
    /// that its flag bits select.
    pub fn resolve(&self, raw: u32) -> (r: Result<Tile, TilesetError>)
        requires
            self.wf(),
        ensures
            base_id(raw) < self@.len() ==> r == Ok::<Tile, TilesetError>(
                orient(self@[base_id(raw) as int], orientation_of(raw)),
            ),
            base_id(raw) >= self@.len() ==> r == Err::<Tile, TilesetError>(
                TilesetError::UnknownTile(raw),
            ),
    {
        let (base, mirror, degrees) = decode(raw);
        if (base as usize) < self.tiles.len() {
            let t = self.tiles[base as usize].clone();
            assert(can_flip(t.source));
            let t = if mirror {
                flip(t)
            } else {
                t
            };
            Ok(rotate(t, degrees))
        } else {
            Err(TilesetError::UnknownTile(raw))
        }
    }

    /// The base ids of the tiles of `entity`, in animation order: by
    /// keyframe, then by id.
    pub fn entity_ids(&self, entity: &String) -> (r: Vec<usize>)
        ensures
            entity_order(self@, entity@, r@),
    {
        let mut out: Vec<usize> = Vec::new();
        let mut id: usize = 0;
        while id < self.tiles.len()
            invariant
                id <= self@.len(),
                forall|a: int, b: int| 0 <= a < b < out@.len() ==> key_lt(self@, out@[a], out@[b]),
                forall|k: int|
                    0 <= k < out@.len() ==> (#[trigger] out@[k]) < id && in_entity(
                        self@[out@[k] as int],
                        entity@,
                    ),
                forall|j: int| 0 <= j < id && in_entity(#[trigger] self@[j], entity@) ==> out@.contains(j as usize),
            decreases self@.len() - id,
        {
            if entity_is(&self.tiles[id], entity) {
                let k = keyframe_at(&self.tiles[id]);
                let mut p: usize = 0;
                while p < out.len() && keyframe_at(&self.tiles[out[p]]) <= k
                    invariant
                        p <= out@.len(),
                        id < self@.len(),
                        k == keyframe_of(self@[id as int]),
                        forall|j: int| 0 <= j < out@.len() ==> (#[trigger] out@[j]) < id,
                        forall|j: int| 0 <= j < p ==> keyframe_of(self@[(#[trigger] out@[j]) as int]) <= k,
                    decreases out@.len() - p,
                {
                    p += 1;
                }
                let ghost before = out@;
                proof {
                    lemma_insert_sorted(self@, before, p as int, id);
                }
                out.insert(p, id);
                assert forall|j: int| 0 <= j <= id && in_entity(#[trigger] self@[j], entity@) implies out@.contains(j as usize) by {
                    if j == id {
                        assert(out@[p as int] == id);
                    } else {
                        let q = choose|q: int| 0 <= q < before.len() && before[q] == j as usize;
                        if q < p {
                            assert(out@[q] == j as usize);
                        } else {
                            assert(out@[q + 1] == j as usize);
                        }
                    }
                }
                assert forall|q: int| 0 <= q < out@.len() implies (#[trigger] out@[q]) < id + 1 && in_entity(
                    self@[out@[q] as int],
                    entity@,
                ) by {
                    if q < p {
                        assert(out@[q] == before[q]);
                    } else if q > p {
                        assert(out@[q] == before[q - 1]);
                    }
                }
            }
            id += 1;
        }
        out
    }

    /// The animation of the tile that `tile_id` stands for, started at
    /// `now`: the frames of its entity in animation order, in the same
    /// orientation, or the tile alone if it belongs to none.
    pub fn get_animation(&self, tile_id: u32, now: u64) -> (r: Result<Animation, TilesetError>)
        requires
            self.wf(),
        ensures
            base_id(tile_id) >= self@.len() ==> r == Err::<Animation, TilesetError>(
                TilesetError::UnknownTile(tile_id),
            ),
            base_id(tile_id) < self@.len() ==> r is Ok,
            r matches Ok(a) ==> is_animation_of(self@, tile_id, now, a@),
    {
        let first = match self.resolve(tile_id) {
            Ok(t) => t,
            Err(e) => return Err(e),
        };
        let (_, mirror, degrees) = decode(tile_id);
        let mut frames: Vec<Frame> = Vec::new();
        match &first.properties.entity {
            Some(e) => {
                let ids = self.entity_ids(e);
                let mut k: usize = 0;
                while k < ids.len()
                    invariant
                        self.wf(),
                        k <= ids@.len(),
                        (mirror, degrees) == orientation_of(tile_id),
                        forall|q: int| 0 <= q < ids@.len() ==> (#[trigger] ids@[q]) < self@.len(),
                        frames@ == ids@.take(k as int).map_values(
                            |id: usize| frame_of(orient(self@[id as int], orientation_of(tile_id))),
                        ),
                    decreases ids@.len() - k,
                {
                    let t = self.tiles[ids[k]].clone();
                    assert(can_flip(t.source));
                    let t = if mirror {
                        flip(t)
                    } else {
                        t
                    };
                    let t = rotate(t, degrees);
                    frames.push(t.frame());
                    k += 1;
                    assert(ids@.take(k as int).drop_last() =~= ids@.take(k - 1));
                    assert(frames@ =~= ids@.take(k as int).map_values(
                        |id: usize| frame_of(orient(self@[id as int], orientation_of(tile_id))),
                    ));
                }
                assert(ids@.take(ids@.len() as int) =~= ids@);
            },
            None => {
                frames.push(first.frame());
            },
        }
        Ok(Animation::new(frames, now))
    }

    /// The base ids of the tiles that mark spawn points, in increasing order.
    pub fn get_spawn_tiles(&self) -> (r: Vec<usize>)
        ensures
            forall|a: int, b: int| 0 <= a < b < r@.len() ==> r@[a] < r@[b],
            forall|id: usize| #[trigger] r@.contains(id) <==> id < self@.len() && self@[id as int].properties.spawn is Some,
    {
        let mut out: Vec<usize> = Vec::new();
        let mut id: usize = 0;
        while id < self.tiles.len()
            invariant
                id <= self@.len(),
                forall|a: int, b: int| 0 <= a < b < out@.len() ==> out@[a] < out@[b],
                forall|q: int| 0 <= q < out@.len() ==> #[trigger] out@[q] < id,
                forall|j: usize| #[trigger] out@.contains(j) <==> j < id && self@[j as int].properties.spawn is Some,
            decreases self@.len() - id,
        {
            let ghost before = out@;
            if self.tiles[id].properties.spawn.is_some() {
                out.push(id);
                assert forall|j: usize| #[trigger] out@.contains(j) <==> j < id + 1 && self@[j as int].properties.spawn is Some by {
                    if j == id {
                        assert(out@[before.len() as int] == id);
                    }
                    if out@.contains(j) && j != id {
                        let q = choose|q: int| 0 <= q < out@.len() && out@[q] == j;
                        assert(before[q] == j);
                    }
                    if before.contains(j) {
                        let q = choose|q: int| 0 <= q < before.len() && before[q] == j;
                        assert(out@[q] == j);
                    }
                }
            } else {
                assert forall|j: usize| #[trigger] out@.contains(j) <==> j < id + 1 && self@[j as int].properties.spawn is Some by {
                    if j == id && out@.contains(j) {
                        let q = choose|q: int| 0 <= q < out@.len() && out@[q] == j;
                    }
                }
            }
            id += 1;
        }
        out
    }

    /// The base tile that is keyframe `keyframe` of `entity`: the one with
    /// the lowest id if several are.
    pub fn get_tile_by_entity_keyframe(&self, entity: &str, keyframe: usize) -> (r: Result<
        Tile,
        TilesetError,
    >)
        ensures
            match r {
                Ok(t) => exists|id: int|
                    is_first_entity_keyframe(self@, entity@, keyframe, id) && #[trigger] self@[id] == t,
                Err(e) => e == TilesetError::MissingEntityKeyframe && !has_entity_keyframe(
                    self@,
                    entity@,
                    keyframe,
                ),
            },
    {
        let tag = entity.to_owned();
        let mut i: usize = 0;
        while i < self.tiles.len()
            invariant
                i <= self@.len(),
                tag@ == entity@,
                forall|j: int| 0 <= j < i ==> !is_entity_keyframe(#[trigger] self@[j], entity@, keyframe),
            decreases self@.len() - i,
        {
            if entity_is(&self.tiles[i], &tag) && self.tiles[i].properties.keyframe == Some(keyframe) {
                let t = self.tiles[i].clone();
                assert(self@[i as int] == t);
                assert(is_first_entity_keyframe(self@, entity@, keyframe, i as int));
                return Ok(t);
            }
            i += 1;
        }
        Err(TilesetError::MissingEntityKeyframe)
    }
}

} // verus!
