use vstd::prelude::*;

verus! {

/// Invocations per workgroup along x for image-space kernels.
pub const TILE_WIDTH: u32 = 8;

/// Invocations per workgroup along y for image-space kernels.
pub const TILE_HEIGHT: u32 = 8;

/// The number of workgroups needed along one dimension: the least count whose
/// tiles cover `extent` invocations.
pub open spec fn spec_workgroups(extent: int, tile: int) -> int
    recommends
        tile > 0,
{
    if extent % tile == 0 {
        extent / tile
    } else {
        extent / tile + 1
    }
}

/// Workgroup count along one dimension: `ceil(extent / tile)`.
///
/// The count is the least one that covers the extent: its tiles reach at
/// least `extent` invocations, and one workgroup fewer would fall short.
pub fn workgroups_for(extent: u32, tile: u32) -> (r: u32)
    requires
        tile > 0,
    ensures
        r == spec_workgroups(extent as int, tile as int),
        r * tile >= extent,
        extent > 0 ==> (r - 1) * tile < extent,
        r == 0 <==> extent == 0,
{
    let q: u32 = extent / tile;
    let rem: u32 = extent % tile;
    proof {
        assert(extent as int == (extent as int / tile as int) * tile as int
            + extent as int % tile as int) by (nonlinear_arith)
            requires
                tile > 0,
        ;
        assert(q * tile + rem == extent);
    }
    if rem == 0 {
        proof {
            if extent > 0 {
                assert(q > 0) by (nonlinear_arith)
                    requires
                        q * tile + rem == extent,
                        rem == 0,
                        extent > 0,
                ;
                assert((q - 1) * tile == q * tile - tile) by (nonlinear_arith);
            }
        }
        q
    } else {
        proof {
            assert(tile >= 2);
            assert(q * 2 <= q * tile) by (nonlinear_arith)
                requires
                    tile >= 2,
                    q >= 0,
            ;
            assert((q + 1) * tile == q * tile + tile) by (nonlinear_arith);
        }
        q + 1
    }
}

/// A 3D grid of workgroup counts for one dispatch.
#[derive(Clone, Copy, Debug, PartialEq, Eq, Structural)]
pub struct DispatchGrid {
    pub x: u32,
    pub y: u32,
    pub z: u32,
}

impl DispatchGrid {
    /// The grid covers a `width` by `height` image with the fixed tile size.
    pub open spec fn covers(self, width: int, height: int) -> bool {
        &&& self.x * TILE_WIDTH >= width
        &&& self.y * TILE_HEIGHT >= height
        &&& self.z == 1
    }
}

/// The workgroup grid for an image-space dispatch over `width` by `height`
/// pixels: the least grid whose 8 by 8 tiles cover the image, one layer deep.
///
/// A resolution that is not evenly divisible by the tile size is covered by
/// over-dispatch: the last row or column of workgroups reaches past the image
/// bounds, and the kernel contract requires out-of-range invocations to no-op.
pub fn grid_for(width: u32, height: u32) -> (r: DispatchGrid)
    requires
        width > 0,
        height > 0,
    ensures
        r.covers(width as int, height as int),
        r.x == spec_workgroups(width as int, TILE_WIDTH as int),
        r.y == spec_workgroups(height as int, TILE_HEIGHT as int),
        (r.x - 1) * TILE_WIDTH < width,
        (r.y - 1) * TILE_HEIGHT < height,
        r.z == 1,
{
    let x = workgroups_for(width, TILE_WIDTH);
    let y = workgroups_for(height, TILE_HEIGHT);
    DispatchGrid { x, y, z: 1 }
}

} // verus!
