use vstd::prelude::*;

use crate::animation::{ticked, Animation};
use crate::math::Point;
use crate::tile::base_id;
use crate::tileset::{is_animation_of, Tileset, TilesetError};

verus! {

/// The centre of cell `i` of a grid `width` cells wide, row by row, with
/// cells `cell_size` units square.
pub open spec fn cell_center(i: int, width: int, cell_size: int) -> Point {
    Point {
        x: ((i % width) * cell_size + cell_size / 2) as i32,
        y: ((i / width) * cell_size + cell_size / 2) as i32,
    }
}

/// Whether a grid of `width` by `height` cells of `cell_size` fits the
/// coordinate range.
pub open spec fn grid_fits(width: int, height: int, cell_size: int) -> bool {
    &&& width >= 1
    &&& height >= 0
    &&& cell_size >= 1
    &&& width * cell_size <= i32::MAX
    &&& height * cell_size <= i32::MAX
}

/// Whether `new` is cell `old` after one step of its clock at `now`.
pub open spec fn cell_ticked(old: Cell, new: Cell, now: u64) -> bool {
    &&& new.id == old.id
    &&& new.destination == old.destination
    &&& ticked(old.animation@, new.animation@, now)
}

/// One cell of a map layer: its tile id, its animation and where it is
/// drawn.
#[derive(Debug)]
pub struct Cell {
    pub id: u32,
    pub animation: Animation,
    pub destination: Point,
}

impl Cell {
    /// Cell `i` of a layer `width` by `height` cells, showing tile `id`.
    pub fn new(
        id: u32,
        i: usize,
        tileset: &Tileset,
        width: usize,
        height: usize,
        cell_size: i32,
        now: u64,
    ) -> (r: Result<Cell, TilesetError>)
        requires
            tileset.wf(),
            grid_fits(width as int, height as int, cell_size as int),
            i < width * height,
        ensures
            base_id(id) >= tileset@.len() ==> r == Err::<Cell, TilesetError>(
                TilesetError::UnknownTile(id),
            ),
            base_id(id) < tileset@.len() ==> (r matches Ok(c) && {
                &&& c.id == id
                &&& c.destination == cell_center(i as int, width as int, cell_size as int)
                &&& is_animation_of(tileset@, id, now, c.animation@)
            }),
    {
        let animation = match tileset.get_animation(id, now) {
            Ok(a) => a,
            Err(e) => return Err(e),
        };
        let x: usize = i % width;
        let y: usize = i / width;
        assert(y < height) by (nonlinear_arith)
            requires
                i < width * height,
                y == i / width,
                width >= 1,
        ;
        assert(x * cell_size + cell_size <= width * cell_size) by (nonlinear_arith)
            requires
                x < width,
                cell_size >= 0,
        ;
        assert(y * cell_size + cell_size <= height * cell_size) by (nonlinear_arith)
            requires
                y < height,
                cell_size >= 0,
        ;
        assert(x * cell_size >= 0 && y * cell_size >= 0) by (nonlinear_arith)
            requires
                cell_size >= 0,
        ;
        assert(width <= width * cell_size && height <= height * cell_size) by (nonlinear_arith)
            requires
                cell_size >= 1,
                width >= 0,
                height >= 0,
        ;
        let cs = cell_size as i64;
        let destination = Point {
            x: (x as i64 * cs + cs / 2) as i32,
            y: (y as i64 * cs + cs / 2) as i32,
        };
        Ok(Cell { id, animation, destination })
    }

    /// One step of the cell's animation clock.
    pub fn update(&mut self, now: u64)
        ensures
            cell_ticked(*old(self), *final(self), now),
    {
        self.animation.update(now);
    }
}

} // verus!
