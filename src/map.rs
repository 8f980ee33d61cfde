use vstd::prelude::*;
use vstd::string::StringSliceAdditionalSpecFns;
use vstd::utf8::encode_utf8;

use crate::cell::grid_fits;
use crate::cell::Cell;
use crate::layer::{layer_built, layer_error, layer_ids, layer_ticked, Layer};
use crate::tile::{base_id, Tile};
use crate::math::Point;
use crate::npc::{character_name, Character};
use crate::text::{opt_view, parse_usize};
use crate::tile::usize_prop;
use crate::tileset::Tileset;
use crate::xmlelements::{element_attr_text, views, EventView, XMLElements, XmlEvent};

verus! {

/// Content errors of a map.
#[derive(Clone, Copy, Debug, PartialEq, Eq, Structural)]
pub enum MapError {
    /// The map's width or height is missing or not a number.
    Malformed,
    /// A layer's data is not a list of tile ids.
    BadLayer,
    /// A layer does not hold width times height ids, or the grid is too
    /// large.
    WrongSize,
    /// No tile has this id's base index.
    UnknownTile(u32),
}

/// The text of each spawn tag, with its point.
pub open spec fn spawn_view(s: Seq<(String, Point)>) -> Seq<(Seq<char>, Point)> {
    s.map_values(|p: (String, Point)| (p.0@, p.1))
}

/// The spawn points that the cells `cells` mark, in order.
pub open spec fn cell_spawns(cells: Seq<Cell>, ts: Seq<Tile>) -> Seq<(Seq<char>, Point)>
    decreases cells.len(),
{
    if cells.len() == 0 {
        Seq::empty()
    } else {
        let rest = cell_spawns(cells.drop_last(), ts);
        let c = cells.last();
        if base_id(c.id) < ts.len() && ts[base_id(c.id) as int].properties.spawn is Some {
            rest.push((ts[base_id(c.id) as int].properties.spawn->0@, c.destination))
        } else {
            rest
        }
    }
}

/// The spawn points of all layers, layer by layer.
pub open spec fn all_spawns(layers: Seq<Layer>, ts: Seq<Tile>) -> Seq<(Seq<char>, Point)>
    decreases layers.len(),
{
    if layers.len() == 0 {
        Seq::empty()
    } else {
        all_spawns(layers.drop_last(), ts) + cell_spawns(layers.last().cells@, ts)
    }
}

/// The points of the spawns tagged `name`, in order.
pub open spec fn tagged(s: Seq<(String, Point)>, name: Seq<char>) -> Seq<Point>
    decreases s.len(),
{
    if s.len() == 0 {
        Seq::empty()
    } else if s.last().0@ == name {
        tagged(s.drop_last(), name).push(s.last().1)
    } else {
        tagged(s.drop_last(), name)
    }
}

/// The character data of a document, run by run.
pub open spec fn text_runs(es: Seq<EventView>) -> Seq<Seq<char>>
    decreases es.len(),
{
    if es.len() == 0 {
        Seq::empty()
    } else {
        let rest = text_runs(es.drop_last());
        match es.last() {
            EventView::Text(t) => rest.push(t),
            _ => rest,
        }
    }
}

/// The runs of a prefix of a document come first among the runs of all of it.
pub proof fn lemma_runs_prefix(es: Seq<EventView>, k: int)
    requires
        0 <= k <= es.len(),
    ensures
        text_runs(es.take(k)).len() <= text_runs(es).len(),
        forall|j: int|
            0 <= j < text_runs(es.take(k)).len() ==> #[trigger] text_runs(es.take(k))[j] == text_runs(es)[j],
    decreases es.len() - k,
{
    if k < es.len() {
        lemma_runs_prefix(es, k + 1);
        assert(es.take(k + 1).drop_last() =~= es.take(k));
        let a = text_runs(es.take(k));
        let b = text_runs(es.take(k + 1));
        assert(a.len() <= b.len());
        assert forall|j: int| 0 <= j < a.len() implies #[trigger] a[j] == b[j] by {}
    } else {
        assert(es.take(k) =~= es);
    }
}

/// Whether run `k` is the first whose layer data is at fault.
pub open spec fn is_first_bad_run(ts: Seq<Tile>, runs: Seq<Seq<char>>, width: usize, height: usize, k: int) -> bool {
    &&& 0 <= k < runs.len()
    &&& layer_error(ts, encode_utf8(runs[k]), width, height) is Some
    &&& forall|j: int| 0 <= j < k ==> layer_error(ts, encode_utf8(#[trigger] runs[j]), width, height) is None
}

/// What building a `width` by `height` map from layer data `runs` gives:
/// `WrongSize` if the grid does not fit, else the fault of the first bad
/// run, else the map of one layer per run.
pub open spec fn map_result(
    ts: Seq<Tile>,
    runs: Seq<Seq<char>>,
    width: usize,
    height: usize,
    cell_size: i32,
    now: u64,
    r: Result<TileMap, MapError>,
) -> bool {
    if !grid_fits(width as int, height as int, cell_size as int) {
        r == Err::<TileMap, MapError>(MapError::WrongSize)
    } else if exists|k: int| is_first_bad_run(ts, runs, width, height, k) {
        r == Err::<TileMap, MapError>(
            layer_error(ts, encode_utf8(runs[choose|k: int| is_first_bad_run(ts, runs, width, height, k)]), width, height)->0,
        )
    } else {
        r matches Ok(m) && {
            &&& m.dimensions == (width, height)
            &&& m.cell_size == cell_size
            &&& m.layers@.len() == runs.len()
            &&& forall|k: int|
                0 <= k < runs.len() ==> layer_built(
                    ts,
                    #[trigger] m.layers@[k],
                    layer_ids(encode_utf8(runs[k]))->0,
                    width,
                    height,
                    cell_size,
                    now,
                )
            &&& spawn_view(m.spawns@) == all_spawns(m.layers@, ts)
        }
    }
}

/// Whether `new` is map `old` with every cell's clock stepped once at `now`.
pub open spec fn map_ticked(old: TileMap, new: TileMap, now: u64) -> bool {
    &&& new.dimensions == old.dimensions
    &&& new.cell_size == old.cell_size
    &&& new.spawns == old.spawns
    &&& new.layers@.len() == old.layers@.len()
    &&& forall|l: int| 0 <= l < old.layers@.len() ==> layer_ticked(old.layers@[l], #[trigger] new.layers@[l], now)
}

/// Layers of cells over one grid, and the spawn points that their tiles
/// mark.
#[derive(Debug)]
pub struct TileMap {
    pub dimensions: (usize, usize),
    pub cell_size: i32,
    pub layers: Vec<Layer>,
    pub spawns: Vec<(String, Point)>,
}

impl TileMap {
    /// The map that a map document describes: its width and height from
    /// the `map` element, one layer for each run of character data.
    pub fn new(elements: &XMLElements, tileset: &Tileset, cell_size: i32, now: u64) -> (r: Result<
        TileMap,
        MapError,
    >)
        requires
            tileset.wf(),
        ensures
            ({
                let es = views(elements.events@);
                let w = usize_prop(element_attr_text(es, "map"@, "width"@));
                let h = usize_prop(element_attr_text(es, "map"@, "height"@));
                &&& (w is None || h is None) ==> r == Err::<TileMap, MapError>(MapError::Malformed)
                &&& (w is Some && h is Some) ==> map_result(
                    tileset@,
                    text_runs(es),
                    w->0,
                    h->0,
                    cell_size,
                    now,
                    r,
                )
            }),
    {
        proof {
            reveal_strlit("map");
            reveal_strlit("width");
            reveal_strlit("height");
        }
        let ghost es = views(elements.events@);
        let width = match elements.get_element_attribute("map", "width") {
            Some(t) => match parse_usize(t.as_str()) {
                Some(v) => v,
                None => return Err(MapError::Malformed),
            },
            None => return Err(MapError::Malformed),
        };
        let height = match elements.get_element_attribute("map", "height") {
            Some(t) => match parse_usize(t.as_str()) {
                Some(v) => v,
                None => return Err(MapError::Malformed),
            },
            None => return Err(MapError::Malformed),
        };
        if width == 0 || cell_size < 1 || width > i32::MAX as usize || height > i32::MAX as usize {
            proof {
                if cell_size >= 1 && width > i32::MAX {
                    assert(width * cell_size >= width) by (nonlinear_arith)
                        requires cell_size >= 1, width >= 0;
                }
                if cell_size >= 1 && height > i32::MAX {
                    assert(height * cell_size >= height) by (nonlinear_arith)
                        requires cell_size >= 1, height >= 0;
                }
            }
            return Err(MapError::WrongSize);
        }
        assert(width * cell_size <= i32::MAX * i32::MAX && height * cell_size <= i32::MAX * i32::MAX)
            by (nonlinear_arith)
            requires
                width <= i32::MAX,
                height <= i32::MAX,
                1 <= cell_size <= i32::MAX,
        ;
        let wpx: i64 = width as i64 * cell_size as i64;
        let hpx: i64 = height as i64 * cell_size as i64;
        if wpx > i32::MAX as i64 || hpx > i32::MAX as i64 {
            return Err(MapError::WrongSize);
        }
        let mut layers: Vec<Layer> = Vec::new();
        let mut k: usize = 0;
        while k < elements.events.len()
            invariant
                tileset.wf(),
                es == views(elements.events@),
                k <= es.len(),
                usize_prop(element_attr_text(es, "map"@, "width"@)) == Some(width),
                usize_prop(element_attr_text(es, "map"@, "height"@)) == Some(height),
                grid_fits(width as int, height as int, cell_size as int),
                layers@.len() == text_runs(es.take(k as int)).len(),
                forall|j: int|
                    0 <= j < layers@.len() ==> layer_error(
                        tileset@,
                        encode_utf8(#[trigger] text_runs(es.take(k as int))[j]),
                        width,
                        height,
                    ) is None && layer_built(
                        tileset@,
                        layers@[j],
                        layer_ids(encode_utf8(text_runs(es.take(k as int))[j]))->0,
                        width,
                        height,
                        cell_size,
                        now,
                    ),
            decreases elements.events@.len() - k,
        {
            let ghost prev = text_runs(es.take(k as int));
            assert(es.take(k + 1).drop_last() =~= es.take(k as int));
            assert(es.take(k + 1).last() == elements.events@[k as int]@);
            if let XmlEvent::Characters(text) = &elements.events[k] {
                let ghost runs = text_runs(es.take(k + 1));
                assert(runs == prev.push(text@));
                let data: &str = text.as_str();
                assert(data.spec_bytes() == encode_utf8(text@));
                match Layer::new(data, tileset, width, height, cell_size, now) {
                    Ok(l) => {
                        let ghost before = layers@;
                        layers.push(l);
                        assert forall|j: int| 0 <= j < layers@.len() implies layer_error(
                            tileset@,
                            encode_utf8(#[trigger] runs[j]),
                            width,
                            height,
                        ) is None && layer_built(
                            tileset@,
                            layers@[j],
                            layer_ids(encode_utf8(runs[j]))->0,
                            width,
                            height,
                            cell_size,
                            now,
                        ) by {
                            if j < before.len() {
                                assert(runs[j] == prev[j]);
                                assert(layers@[j] == before[j]);
                            }
                        }
                    },
                    Err(e) => {
                        proof {
                            let total = text_runs(es);
                            lemma_runs_prefix(es, k + 1);
                            assert(runs[prev.len() as int] == text@);
                            assert(layer_error(tileset@, encode_utf8(text@), width, height) == Some(e));
                            assert(is_first_bad_run(tileset@, total, width, height, prev.len() as int)) by {
                                assert forall|j: int| 0 <= j < prev.len() implies layer_error(
                                    tileset@,
                                    encode_utf8(#[trigger] total[j]),
                                    width,
                                    height,
                                ) is None by {
                                    assert(total[j] == runs[j]);
                                    assert(runs[j] == prev[j]);
                                }
                                assert(total[prev.len() as int] == runs[prev.len() as int]);
                            }
                            let c = choose|c: int| is_first_bad_run(tileset@, total, width, height, c);
                            assert(c == prev.len()) by {
                                if c < prev.len() {
                                    assert(total[c] == prev[c]);
                                }
                                if c > prev.len() {
                                    assert(layer_error(tileset@, encode_utf8(total[prev.len() as int]), width, height) is None);
                                }
                            }
                            assert(total[c] == text@);
                        }
                        return Err(e);
                    },
                }
            } else {
                assert(text_runs(es.take(k + 1)) == prev);
            }
            k += 1;
        }
        assert(es.take(es.len() as int) =~= es);
        let spawns = TileMap::get_spawn_points(&layers, tileset);
        assert(!exists|c: int| is_first_bad_run(tileset@, text_runs(es), width, height, c));
        Ok(TileMap { dimensions: (width, height), cell_size, layers, spawns })
    }

    /// The spawn tag and centre of every cell whose tile marks a spawn
    /// point, layer by layer, row by row.
    pub fn get_spawn_points(layers: &Vec<Layer>, tileset: &Tileset) -> (r: Vec<(String, Point)>)
        ensures
            spawn_view(r@) == all_spawns(layers@, tileset@),
    {
        let mut out: Vec<(String, Point)> = Vec::new();
        let mut l: usize = 0;
        while l < layers.len()
            invariant
                l <= layers@.len(),
                spawn_view(out@) == all_spawns(layers@.take(l as int), tileset@),
            decreases layers@.len() - l,
        {
            let ghost base = spawn_view(out@);
            let mut k: usize = 0;
            while k < layers[l].cells.len()
                invariant
                    l < layers@.len(),
                    k <= layers@[l as int].cells@.len(),
                    spawn_view(out@) == base + cell_spawns(layers@[l as int].cells@.take(k as int), tileset@),
                decreases layers@[l as int].cells@.len() - k,
            {
                let ghost cells = layers@[l as int].cells@;
                assert(cells.take(k + 1).drop_last() =~= cells.take(k as int));
                let cell = &layers[l].cells[k];
                if let Some(tag) = tileset.get_spawn(cell.id) {
                    let ghost before = out@;
                    out.push((tag, cell.destination));
                    assert(spawn_view(out@) =~= spawn_view(before).push((tag@, cell.destination)));
                    assert(spawn_view(out@) =~= base + cell_spawns(cells.take(k + 1), tileset@));
                }
                k += 1;
            }
            assert(layers@[l as int].cells@.take(layers@[l as int].cells@.len() as int) =~= layers@[l as int].cells@);
            assert(layers@.take(l + 1).drop_last() =~= layers@.take(l as int));
            l += 1;
        }
        assert(layers@.take(layers@.len() as int) =~= layers@);
        out
    }

    /// The spawn tags and points of the map, in order.
    pub fn get_spawns(&self) -> (r: Vec<(String, Point)>)
        ensures
            spawn_view(r@) == spawn_view(self.spawns@),
    {
        let mut out: Vec<(String, Point)> = Vec::new();
        let mut k: usize = 0;
        while k < self.spawns.len()
            invariant
                k <= self.spawns@.len(),
                out@.len() == k,
                spawn_view(out@) == spawn_view(self.spawns@.take(k as int)),
            decreases self.spawns@.len() - k,
        {
            let ghost before = out@;
            let item = (self.spawns[k].0.clone(), self.spawns[k].1);
            out.push(item);
            assert forall|j: int| 0 <= j < k + 1 implies #[trigger] spawn_view(out@)[j] == spawn_view(
                self.spawns@.take(k + 1),
            )[j] by {
                if j < k {
                    assert(out@[j] == before[j]);
                    assert(spawn_view(before)[j] == spawn_view(self.spawns@.take(k as int))[j]);
                }
            }
            k += 1;
            assert(spawn_view(out@) =~= spawn_view(self.spawns@.take(k as int)));
        }
        assert(self.spawns@.take(self.spawns@.len() as int) =~= self.spawns@);
        out
    }

    /// Where the spawn points of `character` are, in order.
    pub fn spawn_points_of(&self, character: Character) -> (r: Vec<Point>)
        ensures
            r@ == tagged(self.spawns@, character_name(character)),
    {
        let name = character.to_str().to_owned();
        let mut out: Vec<Point> = Vec::new();
        let mut k: usize = 0;
        while k < self.spawns.len()
            invariant
                k <= self.spawns@.len(),
                name@ == character_name(character),
                out@ == tagged(self.spawns@.take(k as int), character_name(character)),
            decreases self.spawns@.len() - k,
        {
            assert(self.spawns@.take(k + 1).drop_last() =~= self.spawns@.take(k as int));
            if self.spawns[k].0 == name {
                out.push(self.spawns[k].1);
            }
            k += 1;
        }
        assert(self.spawns@.take(self.spawns@.len() as int) =~= self.spawns@);
        out
    }

    /// The map's extent in position units.
    pub fn get_dimensions(&self) -> (r: (i32, i32))
        requires
            grid_fits(self.dimensions.0 as int, self.dimensions.1 as int, self.cell_size as int),
        ensures
            r.0 == self.dimensions.0 * self.cell_size,
            r.1 == self.dimensions.1 * self.cell_size,
    {
        assert(self.dimensions.0 <= self.dimensions.0 * self.cell_size && self.dimensions.1 <= self.dimensions.1
            * self.cell_size) by (nonlinear_arith)
            requires
                self.cell_size >= 1,
        ;
        ((self.dimensions.0 as i64 * self.cell_size as i64) as i32, (self.dimensions.1 as i64
            * self.cell_size as i64) as i32)
    }

    /// One step of every cell's animation clock.
    pub fn update(&mut self, now: u64)
        ensures
            map_ticked(*old(self), *final(self), now),
    {
        let ghost before = self.layers@;
        let mut k: usize = 0;
        while k < self.layers.len()
            invariant
                k <= self.layers@.len(),
                before == old(self).layers@,
                self.dimensions == old(self).dimensions,
                self.cell_size == old(self).cell_size,
                self.spawns == old(self).spawns,
                self.layers@.len() == before.len(),
                forall|q: int| 0 <= q < k ==> layer_ticked(before[q], #[trigger] self.layers@[q], now),
                forall|q: int| k <= q < before.len() ==> #[trigger] self.layers@[q] == before[q],
            decreases self.layers@.len() - k,
        {
            let ghost cur = self.layers@;
            let mut layer = self.layers.remove(k);
            layer.update(now);
            self.layers.insert(k, layer);
            assert forall|q: int| 0 <= q < k + 1 implies layer_ticked(before[q], #[trigger] self.layers@[q], now) by {
                if q < k {
                    assert(self.layers@[q] == cur[q]);
                }
            }
            assert forall|q: int| k + 1 <= q < before.len() implies #[trigger] self.layers@[q] == before[q] by {
                assert(self.layers@[q] == cur[q]);
            }
            k += 1;
        }
    }
}

} // verus!
