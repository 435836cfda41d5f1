//! Static colliders: the walls around the screen and the boxes of wall tiles.
use vstd::prelude::*;
use crate::geometry::{Vec2i, UNIT};

verus! {

/// Half the side of a wall tile, in position units.
pub const HALF_TILE: i64 = 8 * UNIT;

/// An axis-aligned box collider: its centre and half its size.
#[derive(Clone, Copy, Debug, PartialEq, Eq, Structural)]
pub struct ColliderBox {
    pub center: Vec2i,
    pub half_extents: Vec2i,
}

impl ColliderBox {
    /// The box has this centre and these half sizes.
    pub open spec fn is_box(&self, cx: int, cy: int, hx: int, hy: int) -> bool {
        &&& self.center.x == cx
        &&& self.center.y == cy
        &&& self.half_extents.x == hx
        &&& self.half_extents.y == hy
    }
}

/// The four walls that close the screen in.
#[derive(Clone, Copy, Debug, PartialEq, Eq, Structural)]
pub struct ArenaWalls {
    pub bottom: ColliderBox,
    pub top: ColliderBox,
    pub left: ColliderBox,
    pub right: ColliderBox,
}

/// Walls of the given thickness centred on the four edges of a screen of the
/// given size, centred on the origin. Halves are rounded toward zero.
pub fn boundary_walls(width: i64, height: i64, thickness: i64) -> (r: ArenaWalls)
    requires
        width >= 0,
        height >= 0,
        thickness >= 0,
    ensures
        r.bottom.is_box(0, -(height / 2), width / 2, thickness / 2),
        r.top.is_box(0, height / 2, width / 2, thickness / 2),
        r.left.is_box(-(width / 2), 0, thickness / 2, height / 2),
        r.right.is_box(width / 2, 0, thickness / 2, height / 2),
{
    let half_w = width / 2;
    let half_h = height / 2;
    let half_t = thickness / 2;
    let across = Vec2i { x: half_w, y: half_t };
    let upright = Vec2i { x: half_t, y: half_h };
    ArenaWalls {
        bottom: ColliderBox { center: Vec2i { x: 0, y: -half_h }, half_extents: across },
        top: ColliderBox { center: Vec2i { x: 0, y: half_h }, half_extents: across },
        left: ColliderBox { center: Vec2i { x: -half_w, y: 0 }, half_extents: upright },
        right: ColliderBox { center: Vec2i { x: half_w, y: 0 }, half_extents: upright },
    }
}

/// The collider of a wall tile whose lower-left corner is at `tile`: a box of
/// one tile centred on the tile.
pub fn wall_collider(tile: Vec2i) -> (r: ColliderBox)
    requires
        tile.x + HALF_TILE <= i64::MAX,
        tile.y + HALF_TILE <= i64::MAX,
    ensures
        r.center.x == tile.x + HALF_TILE,
        r.center.y == tile.y + HALF_TILE,
        r.half_extents == (Vec2i { x: HALF_TILE, y: HALF_TILE }),
{
    ColliderBox {
        center: Vec2i { x: tile.x + HALF_TILE, y: tile.y + HALF_TILE },
        half_extents: Vec2i { x: HALF_TILE, y: HALF_TILE },
    }
}

/// The centre of the grid cell at `(column, row)` for cells of the given size
/// in pixels, in position units.
pub open spec fn cell_center(column: int, row: int, cell_w: int, cell_h: int) -> (int, int) {
    (column * cell_w * UNIT + cell_w * UNIT / 2, row * cell_h * UNIT + cell_h * UNIT / 2)
}

/// Where an entity placed on the grid stands: the centre of its cell.
pub fn grid_coords_to_translation(column: i32, row: i32, cell_w: i32, cell_h: i32) -> (r: Vec2i)
    requires
        cell_w >= 0,
        cell_h >= 0,
        i64::MIN <= cell_center(column as int, row as int, cell_w as int, cell_h as int).0 <= i64::MAX,
        i64::MIN <= cell_center(column as int, row as int, cell_w as int, cell_h as int).1 <= i64::MAX,
    ensures
        (r.x as int, r.y as int) == cell_center(column as int, row as int, cell_w as int, cell_h as int),
{
    assert(-0x8000_0000int * 0x8000_0000int * 1000 <= column * cell_w * UNIT <= 0x8000_0000int * 0x8000_0000int * 1000) by (nonlinear_arith)
        requires
            -0x8000_0000 <= column < 0x8000_0000,
            0 <= cell_w < 0x8000_0000,
            UNIT == 1000,
    ;
    assert(-0x8000_0000int * 0x8000_0000int * 1000 <= row * cell_h * UNIT <= 0x8000_0000int * 0x8000_0000int * 1000) by (nonlinear_arith)
        requires
            -0x8000_0000 <= row < 0x8000_0000,
            0 <= cell_h < 0x8000_0000,
            UNIT == 1000,
    ;
    let unit = UNIT as i128;
    let x: i128 = column as i128 * cell_w as i128 * unit + cell_w as i128 * unit / 2;
    let y: i128 = row as i128 * cell_h as i128 * unit + cell_h as i128 * unit / 2;
    Vec2i { x: x as i64, y: y as i64 }
}

} // verus!
