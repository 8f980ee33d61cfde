use vstd::prelude::*;

use crate::math::Point;

verus! {

/// One axis of the camera offset: the window centred on `center`, shifted
/// by `margin`, but never showing past either edge of the map.
pub open spec fn offset_spec(window: int, map: int, center: int, margin: int) -> int {
    let d = window / 2 - center - margin;
    if d > 0 {
        0
    } else if d - window < -map {
        -(map - window)
    } else {
        d
    }
}

/// Where the map is drawn so that the window follows a point.
#[derive(Clone, Copy, Debug)]
pub struct Camera {
    /// The offset at which the map is drawn.
    pub draw: Point,
    pub window_dimensions: (i32, i32),
    pub map_dimensions: (i32, i32),
    /// Shift of the centre, half a sprite on each axis.
    pub margin: (i32, i32),
}

/// Bound on window, map and margin extents, which keeps the offsets in
/// range.
pub const MAX_EXTENT: i32 = 0x1000_0000;

pub open spec fn extent_ok(v: i32) -> bool {
    0 <= v <= MAX_EXTENT
}

fn axis_offset(window: i32, map: i32, center: i32, margin: i32) -> (r: i32)
    requires
        extent_ok(window),
        extent_ok(map),
        extent_ok(margin),
        -MAX_EXTENT <= center <= MAX_EXTENT,
    ensures
        r == offset_spec(window as int, map as int, center as int, margin as int),
{
    let d: i64 = window as i64 / 2 - center as i64 - margin as i64;
    if d > 0 {
        0
    } else if d - (window as i64) < -(map as i64) {
        -(map - window)
    } else {
        d as i32
    }
}

impl Camera {
    pub fn new(window_dimensions: (i32, i32), map_dimensions: (i32, i32), margin: (i32, i32)) -> (r: Camera)
        ensures
            r.draw == (Point { x: 0, y: 0 }),
            r.window_dimensions == window_dimensions,
            r.map_dimensions == map_dimensions,
            r.margin == margin,
    {
        Camera { draw: Point { x: 0, y: 0 }, window_dimensions, map_dimensions, margin }
    }

    /// Centres the window on `center`, clamped to the map's edges.
    pub fn give_center(&mut self, center: Point)
        requires
            extent_ok(old(self).window_dimensions.0),
            extent_ok(old(self).window_dimensions.1),
            extent_ok(old(self).map_dimensions.0),
            extent_ok(old(self).map_dimensions.1),
            extent_ok(old(self).margin.0),
            extent_ok(old(self).margin.1),
            -MAX_EXTENT <= center.x <= MAX_EXTENT,
            -MAX_EXTENT <= center.y <= MAX_EXTENT,
        ensures
            *final(self) == (Camera {
                draw: Point {
                    x: offset_spec(
                        old(self).window_dimensions.0 as int,
                        old(self).map_dimensions.0 as int,
                        center.x as int,
                        old(self).margin.0 as int,
                    ) as i32,
                    y: offset_spec(
                        old(self).window_dimensions.1 as int,
                        old(self).map_dimensions.1 as int,
                        center.y as int,
                        old(self).margin.1 as int,
                    ) as i32,
                },
                ..*old(self)
            }),
    {
        let x = axis_offset(self.window_dimensions.0, self.map_dimensions.0, center.x, self.margin.0);
        let y = axis_offset(self.window_dimensions.1, self.map_dimensions.1, center.y, self.margin.1);
        self.draw = Point { x, y };
    }
}

} // verus!
