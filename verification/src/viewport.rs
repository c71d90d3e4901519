use vstd::prelude::*;
use crate::ext::in_world;
use crate::point::{div_trunc, Numeric, Point, WorldPoint};
use crate::transform::{in_local, Transform2, LOCAL_MAX, TRANS_MAX};
use crate::types::RenderError;
use crate::units::{COORD_MAX, MAX_DIM};

verus! {

/// What the host window reports: the raster size in pixels (after any display
/// scale factor) and the window's extents in world units.
#[derive(Clone, Copy, Debug)]
pub struct WindowInfo {
    pub width_px: u32,
    pub height_px: u32,
    pub world_extents: WorldPoint,
}

impl WindowInfo {
    /// Well-formed: at least one pixel each way, bounded raster size, and
    /// non-negative bounded world extents.
    pub open spec fn wf(self) -> bool {
        &&& 1 <= self.width_px <= MAX_DIM
        &&& 1 <= self.height_px <= MAX_DIM
        &&& 0 <= self.world_extents.x <= 2 * LOCAL_MAX
        &&& 0 <= self.world_extents.y <= 2 * LOCAL_MAX
    }
}

/// The world-space window one frame renders: the camera-transformed corners,
/// the camera position that normalized device coordinates are measured from,
/// the half window size they are divided by, and the raster size in pixels.
#[derive(Clone, Copy, Debug)]
pub struct Viewport {
    pub bottom_left: WorldPoint,
    pub top_right: WorldPoint,
    pub camera_pos: WorldPoint,
    pub half_win: WorldPoint,
    pub width_px: u32,
    pub height_px: u32,
}

impl Viewport {
    /// Well-formed: corners and camera position within the world bound, the
    /// half window size positive and consistent with the corners, and a
    /// bounded, non-empty raster.
    pub open spec fn wf(self) -> bool {
        &&& in_world(self.bottom_left)
        &&& in_world(self.top_right)
        &&& in_world(self.camera_pos)
        &&& self.half_win.x == div_trunc(self.top_right.x - self.bottom_left.x, 2)
        &&& self.half_win.y == div_trunc(self.top_right.y - self.bottom_left.y, 2)
        &&& 0 < self.half_win.x <= COORD_MAX
        &&& 0 < self.half_win.y <= COORD_MAX
        &&& 1 <= self.width_px <= MAX_DIM
        &&& 1 <= self.height_px <= MAX_DIM
    }
}

/// Half of the window's world extents, the local-space corner offset.
pub open spec fn spec_half_extents(window: WindowInfo) -> WorldPoint {
    Point {
        x: (window.world_extents.x as int / 2) as i64,
        y: (window.world_extents.y as int / 2) as i64,
    }
}

/// The bottom-left window corner in world space: the camera transform applied
/// to the negated half extents.
pub open spec fn spec_bottom_left(window: WindowInfo, camera: Transform2) -> WorldPoint {
    let half = spec_half_extents(window);
    camera.spec_apply(Point { x: (-half.x) as i64, y: (-half.y) as i64 })
}

/// The top-right window corner in world space: the camera transform applied
/// to the half extents.
pub open spec fn spec_top_right(window: WindowInfo, camera: Transform2) -> WorldPoint {
    camera.spec_apply(spec_half_extents(window))
}

/// Half the world-space window size, per axis.
pub open spec fn spec_half_win(window: WindowInfo, camera: Transform2) -> WorldPoint {
    let bl = spec_bottom_left(window, camera);
    let tr = spec_top_right(window, camera);
    Point {
        x: div_trunc(tr.x - bl.x, 2) as i64,
        y: div_trunc(tr.y - bl.y, 2) as i64,
    }
}

/// Whether the camera-transformed window spans a usable (positive) world
/// window along both axes.
pub open spec fn spec_viewport_ok(window: WindowInfo, camera: Transform2) -> bool {
    spec_half_win(window, camera).x > 0 && spec_half_win(window, camera).y > 0
}

/// The viewport the window and camera describe.
pub open spec fn spec_viewport(window: WindowInfo, camera: Transform2) -> Viewport {
    Viewport {
        bottom_left: spec_bottom_left(window, camera),
        top_right: spec_top_right(window, camera),
        camera_pos: Point { x: camera.tx, y: camera.ty },
        half_win: spec_half_win(window, camera),
        width_px: window.width_px,
        height_px: window.height_px,
    }
}

/// Derives the world-space visible window from the primary window and the
/// camera's world transform: both corners are the camera transform applied to
/// half the window extents (so the camera's rotation and scale are
/// respected), and normalized device coordinates are later measured from the
/// camera's translation in units of the half window size. Fails with a
/// configuration error exactly when the transformed window spans no positive
/// world window.
pub fn compute_viewport(window: &WindowInfo, camera: &Transform2) -> (r: Result<
    Viewport,
    RenderError,
>)
    requires
        window.wf(),
        camera.wf(),
    ensures
        r is Ok <==> spec_viewport_ok(*window, *camera),
        r is Ok ==> r->Ok_0 == spec_viewport(*window, *camera) && r->Ok_0.wf(),
        r is Err ==> r->Err_0 == RenderError::Configuration,
{
    let ext = window.world_extents;
    proof {
        vstd::arithmetic::div_mod::lemma_div_is_ordered(ext.x as int, 2 * LOCAL_MAX, 2);
        vstd::arithmetic::div_mod::lemma_div_is_ordered(ext.y as int, 2 * LOCAL_MAX, 2);
        vstd::arithmetic::div_mod::lemma_div_pos_is_pos(ext.x as int, 2);
        vstd::arithmetic::div_mod::lemma_div_pos_is_pos(ext.y as int, 2);
    }
    let half_x: i64 = ext.x / 2;
    let half_y: i64 = ext.y / 2;
    let bl = camera.apply(Point::new(-half_x, -half_y));
    let tr = camera.apply(Point::new(half_x, half_y));
    let hx: i64 = (tr.x - bl.x).div_val(2);
    let hy: i64 = (tr.y - bl.y).div_val(2);
    if hx <= 0 || hy <= 0 {
        return Err(RenderError::Configuration);
    }
    proof {
        assert(TRANS_MAX <= COORD_MAX);
        crate::transform::lemma_div_trunc_bound((tr.x - bl.x) as int, 2, 2 * COORD_MAX);
        crate::transform::lemma_div_trunc_bound((tr.y - bl.y) as int, 2, 2 * COORD_MAX);
    }
    Ok(
        Viewport {
            bottom_left: bl,
            top_right: tr,
            camera_pos: Point::new(camera.tx, camera.ty),
            half_win: Point::new(hx, hy),
            width_px: window.width_px,
            height_px: window.height_px,
        },
    )
}

} // verus!
