use vstd::prelude::*;
use vstd::string::StringSliceAdditionalSpecFns;

use crate::cell::{cell_center, cell_ticked, grid_fits, Cell};
use crate::map::MapError;
use crate::tile::{base_id, Tile};
use crate::tileset::{is_animation_of, Tileset};


verus! {

/// Scanning state of a tile-id list: the ids closed so far, the value and
/// digit count of the field being read, and whether every byte so far was
/// a digit, a comma closing a non-empty field, or a newline.
pub struct Scan {
    pub done: Seq<int>,
    pub value: int,
    pub digits: nat,
    pub ok: bool,
}

/// Scans `b` byte by byte; newlines are skipped.
pub open spec fn scan(b: Seq<u8>) -> Scan
    decreases b.len(),
{
    if b.len() == 0 {
        Scan { done: Seq::empty(), value: 0, digits: 0, ok: true }
    } else {
        let s = scan(b.drop_last());
        let c = b.last();
        if c == 10 {
            s
        } else if c == 44 {
            if s.digits > 0 {
                Scan { done: s.done.push(s.value), value: 0, digits: 0, ok: s.ok }
            } else {
                Scan { done: s.done, value: 0, digits: 0, ok: false }
            }
        } else if 48 <= c <= 57 {
            Scan { value: s.value * 10 + (c - 48), digits: s.digits + 1, ..s }
        } else {
            Scan { ok: false, ..s }
        }
    }
}

/// The tile ids of a layer's data: decimal numbers separated by commas,
/// newlines ignored, each fitting 32 bits; `None` for anything else.
pub open spec fn layer_ids(b: Seq<u8>) -> Option<Seq<u32>> {
    let s = scan(b);
    let all = s.done.push(s.value);
    if s.ok && s.digits > 0 && forall|i: int| 0 <= i < all.len() ==> #[trigger] all[i] <= u32::MAX {
        Some(all.map_values(|v: int| v as u32))
    } else {
        None
    }
}

proof fn lemma_scan_nonneg(b: Seq<u8>)
    ensures
        scan(b).value >= 0,
        forall|i: int| 0 <= i < scan(b).done.len() ==> #[trigger] scan(b).done[i] >= 0,
        scan(b).digits == 0 ==> scan(b).value == 0,
    decreases b.len(),
{
    if b.len() > 0 {
        lemma_scan_nonneg(b.drop_last());
    }
}

/// Reads the tile ids of a layer's data.
pub fn parse_ids(text: &str) -> (r: Option<Vec<u32>>)
    ensures
        match r {
            Some(v) => layer_ids(text.spec_bytes()) == Some(v@),
            None => layer_ids(text.spec_bytes()) is None,
        },
{
    let b = text.as_bytes();
    let ghost bs = text.spec_bytes();
    let mut done: Vec<u32> = Vec::new();
    let mut value: u64 = 0;
    let mut digits: usize = 0;
    let mut ok = true;
    let mut big = false;
    let mut over = false;
    let mut i: usize = 0;
    while i < b.len()
        invariant
            b@ == bs,
            i <= bs.len(),
            digits <= i,
            ok == scan(bs.take(i as int)).ok,
            digits == scan(bs.take(i as int)).digits,
            big <==> scan(bs.take(i as int)).value > u32::MAX,
            !big ==> value == scan(bs.take(i as int)).value,
            over <==> exists|j: int|
                0 <= j < scan(bs.take(i as int)).done.len() && #[trigger] scan(bs.take(i as int)).done[j]
                    > u32::MAX,
            !over ==> done@ == scan(bs.take(i as int)).done.map_values(|v: int| v as u32),
        decreases bs.len() - i,
    {
        let ghost before = bs.take(i as int);
        let ghost s0 = scan(before);
        proof {
            assert(bs.take(i + 1).drop_last() =~= before);
            lemma_scan_nonneg(before);
        }
        let c = b[i];
        if c == 10 {
        } else if c == 44 {
            if digits > 0 {
                if big {
                    over = true;
                } else {
                    done.push(value as u32);
                }
                value = 0;
                digits = 0;
                big = false;
            } else {
                value = 0;
                ok = false;
            }
        } else if 48 <= c && c <= 57 {
            if !big {
                let next: u64 = value * 10 + (c - 48) as u64;
                if next > 0xFFFF_FFFF {
                    big = true;
                } else {
                    value = next;
                }
            }
            digits = digits + 1;
        } else {
            ok = false;
        }
        i += 1;
        proof {
            let s1 = scan(bs.take(i as int));
            assert(bs.take(i as int).last() == c);
            assert(bs.take(i as int).drop_last() =~= before);
            if c == 44 && s0.digits > 0 {
                assert(s1.done == s0.done.push(s0.value));
                if s0.value > u32::MAX {
                    assert(s1.done[s0.done.len() as int] > u32::MAX);
                } else {
                    if over {
                        let j = choose|j: int| 0 <= j < s0.done.len() && #[trigger] s0.done[j] > u32::MAX;
                        assert(s1.done[j] > u32::MAX);
                    }
                    if !over {
                        assert(done@ =~= s1.done.map_values(|v: int| v as u32));
                    }
                }
                if exists|j: int| 0 <= j < s1.done.len() && #[trigger] s1.done[j] > u32::MAX {
                    let j = choose|j: int| 0 <= j < s1.done.len() && #[trigger] s1.done[j] > u32::MAX;
                    if j < s0.done.len() {
                        assert(s0.done[j] > u32::MAX);
                    }
                }
            }
            if !(c == 44 && s0.digits > 0) {
                assert(s1.done == s0.done);
                if over {
                    let j = choose|j: int| 0 <= j < s0.done.len() && #[trigger] s0.done[j] > u32::MAX;
                    assert(s1.done[j] > u32::MAX);
                }
            }
            if 48 <= c <= 57 && s0.value > u32::MAX {
                assert(s1.value > u32::MAX);
            }
        }
    }
    assert(bs.take(bs.len() as int) =~= bs);
    let ghost s = scan(bs);
    let ghost all = s.done.push(s.value);
    proof {
        lemma_scan_nonneg(bs);
    }
    if ok && digits > 0 && !big && !over {
        done.push(value as u32);
        assert forall|j: int| 0 <= j < all.len() implies #[trigger] all[j] <= u32::MAX by {
            if j < s.done.len() {
                assert(all[j] == s.done[j]);
            }
        }
        assert(done@ =~= all.map_values(|v: int| v as u32));
        Some(done)
    } else {
        proof {
            if over {
                let j = choose|j: int| 0 <= j < s.done.len() && #[trigger] s.done[j] > u32::MAX;
                assert(all[j] > u32::MAX);
            }
            if big {
                assert(all[s.done.len() as int] > u32::MAX);
            }
        }
        None
    }
}

/// Whether `k` is the first of `ids` whose base index has no tile.
pub open spec fn is_first_unknown(ts: Seq<Tile>, ids: Seq<u32>, k: int) -> bool {
    &&& 0 <= k < ids.len()
    &&& base_id(ids[k]) >= ts.len()
    &&& forall|j: int| 0 <= j < k ==> base_id(#[trigger] ids[j]) < ts.len()
}

/// What is wrong with layer data `b` for a `width` by `height` grid, if
/// anything: it is no id list, it has the wrong count, or (the first) id
/// names no tile.
pub open spec fn layer_error(ts: Seq<Tile>, b: Seq<u8>, width: usize, height: usize) -> Option<MapError> {
    match layer_ids(b) {
        None => Some(MapError::BadLayer),
        Some(ids) => if ids.len() != width * height {
            Some(MapError::WrongSize)
        } else if exists|k: int| is_first_unknown(ts, ids, k) {
            Some(MapError::UnknownTile(ids[choose|k: int| is_first_unknown(ts, ids, k)]))
        } else {
            None
        },
    }
}

/// Whether `l` is the layer of cells showing `ids`, row by row.
pub open spec fn layer_built(
    ts: Seq<Tile>,
    l: Layer,
    ids: Seq<u32>,
    width: usize,
    height: usize,
    cell_size: i32,
    now: u64,
) -> bool {
    &&& l.width == width
    &&& l.height == height
    &&& l.cells@.len() == ids.len()
    &&& forall|k: int|
        0 <= k < ids.len() ==> {
            &&& (#[trigger] l.cells@[k]).id == ids[k]
            &&& l.cells@[k].destination == cell_center(k, width as int, cell_size as int)
            &&& is_animation_of(ts, ids[k], now, l.cells@[k].animation@)
        }
}

/// Whether every cell of `new` is the same cell of `old` after one step of
/// its clock at `now`.
pub open spec fn layer_ticked(old: Layer, new: Layer, now: u64) -> bool {
    &&& new.width == old.width
    &&& new.height == old.height
    &&& new.cells@.len() == old.cells@.len()
    &&& forall|k: int| 0 <= k < old.cells@.len() ==> cell_ticked(old.cells@[k], #[trigger] new.cells@[k], now)
}

/// A layer of a map: a grid of cells, row by row.
#[derive(Debug)]
pub struct Layer {
    pub cells: Vec<Cell>,
    pub width: usize,
    pub height: usize,
}

impl Layer {
    /// The layer `width` by `height` cells whose tile ids `text` lists.
    pub fn new(
        text: &str,
        tileset: &Tileset,
        width: usize,
        height: usize,
        cell_size: i32,
        now: u64,
    ) -> (r: Result<Layer, MapError>)
        requires
            tileset.wf(),
            grid_fits(width as int, height as int, cell_size as int),
        ensures
            match layer_error(tileset@, text.spec_bytes(), width, height) {
                Some(e) => r == Err::<Layer, MapError>(e),
                None => r matches Ok(l) && layer_built(
                    tileset@,
                    l,
                    layer_ids(text.spec_bytes())->0,
                    width,
                    height,
                    cell_size,
                    now,
                ),
            },
    {
        let ids = match parse_ids(text) {
            Some(ids) => ids,
            None => return Err(MapError::BadLayer),
        };
        assert(width <= width * cell_size && height <= height * cell_size) by (nonlinear_arith)
            requires
                cell_size >= 1,
                width >= 0,
                height >= 0,
        ;
        assert(width * height <= i32::MAX * i32::MAX) by (nonlinear_arith)
            requires
                0 <= width <= i32::MAX,
                0 <= height <= i32::MAX,
        ;
        if ids.len() as u64 != width as u64 * height as u64 {
            return Err(MapError::WrongSize);
        }
        let n: usize = ids.len();
        let mut cells: Vec<Cell> = Vec::new();
        let mut k: usize = 0;
        while k < ids.len()
            invariant
                tileset.wf(),
                grid_fits(width as int, height as int, cell_size as int),
                layer_ids(text.spec_bytes()) == Some(ids@),
                ids@.len() == n,
                n == width * height,
                k <= n,
                cells@.len() == k,
                forall|q: int| 0 <= q < k ==> base_id(#[trigger] ids@[q]) < tileset@.len(),
                forall|q: int|
                    0 <= q < k ==> {
                        &&& (#[trigger] cells@[q]).id == ids@[q]
                        &&& cells@[q].destination == cell_center(q, width as int, cell_size as int)
                        &&& is_animation_of(tileset@, ids@[q], now, cells@[q].animation@)
                    },
            decreases n - k,
        {
            match Cell::new(ids[k], k, tileset, width, height, cell_size, now) {
                Ok(c) => {
                    cells.push(c);
                },
                Err(_) => {
                    let t = ids[k];
                    assert(is_first_unknown(tileset@, ids@, k as int));
                    let ghost c = choose|c: int| is_first_unknown(tileset@, ids@, c);
                    assert(c == k) by {
                        if c < k {
                            assert(base_id(ids@[c]) < tileset@.len());
                        }
                        if c > k {
                            assert(base_id(ids@[k as int]) < tileset@.len());
                        }
                    }
                    return Err(MapError::UnknownTile(t));
                },
            }
            k += 1;
        }
        assert(!exists|q: int| is_first_unknown(tileset@, ids@, q));
        Ok(Layer { cells, width, height })
    }

    /// One step of every cell's animation clock.
    pub fn update(&mut self, now: u64)
        ensures
            layer_ticked(*old(self), *final(self), now),
    {
        let mut k: usize = 0;
        let ghost before = self.cells@;
        while k < self.cells.len()
            invariant
                k <= self.cells@.len(),
                self.cells@.len() == before.len(),
                self.width == old(self).width,
                self.height == old(self).height,
                before == old(self).cells@,
                forall|q: int| 0 <= q < k ==> cell_ticked(before[q], #[trigger] self.cells@[q], now),
                forall|q: int| k <= q < before.len() ==> #[trigger] self.cells@[q] == before[q],
            decreases self.cells@.len() - k,
        {
            let ghost cur = self.cells@;
            let mut c = self.cells.remove(k);
            c.update(now);
            self.cells.insert(k, c);
            assert forall|q: int| 0 <= q < k + 1 implies cell_ticked(before[q], #[trigger] self.cells@[q], now) by {
                if q < k {
                    assert(self.cells@[q] == cur[q]);
                }
            }
            assert forall|q: int| k + 1 <= q < before.len() implies #[trigger] self.cells@[q] == before[q] by {
                assert(self.cells@[q] == cur[q]);
            }
            k += 1;
        }
    }
}

} // verus!
