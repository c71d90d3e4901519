use vstd::prelude::*;
use crate::point::Point;
use crate::raster::{mask_at, px_num, py_num, spec_mask};
use crate::shadow::{build_shadow_geometry, spec_shadow_geometry, ShadowVertex};
use crate::transform::Transform2;
use crate::types::{LightData, OcclusionData, RenderError, Rgb};
use crate::units::{BYTES_PER_PIXEL, COORD_MAX, INTENSITY_MAX, MAX_DIM, TERM_MAX, UNIT, UNIT_CUBED};
use crate::viewport::{
    compute_viewport, spec_viewport, spec_viewport_ok, Viewport, WindowInfo,
};

verus! {

/// The per-light uniform block handed to the additive light pass: the light's
/// colour and intensity, and whether this is the last light of the frame (the
/// backend may apply its finishing step there).
#[derive(Clone, Copy, Debug, PartialEq, Eq)]
pub struct LightUniform {
    pub color: Rgb,
    pub intensity: i64,
    pub is_last: bool,
}

/// One light's two passes: the shadow-mask pass draws `verts` (clearing the
/// mask channel to its fully lit baseline first on the frame's first light
/// only), and the additive pass accumulates the light under `uniform`.
#[derive(Clone, Debug)]
pub struct LightPass {
    pub clear_base: bool,
    pub verts: Vec<ShadowVertex>,
    pub uniform: LightUniform,
}

/// Everything one frame asks of the rasterization backend, in order: the
/// raster size, the readback layout (tightly packed rows), and the per-light
/// passes whose accumulation texture chains from each light to the next.
#[derive(Clone, Debug)]
pub struct FramePlan {
    pub width_px: u32,
    pub height_px: u32,
    pub bytes_per_row: u32,
    pub buffer_size: u64,
    pub passes: Vec<LightPass>,
}

/// The output raster: row-major, top-left origin, four bytes per pixel
/// (red, green, blue, alpha), alpha always fully opaque.
#[derive(Clone, Debug, PartialEq, Eq)]
pub struct Lightmap {
    pub width_px: u32,
    pub height_px: u32,
    pub pixels: Vec<u8>,
}

impl Lightmap {
    /// Well-formed: exactly four bytes per pixel.
    pub open spec fn wf(self) -> bool {
        self.pixels@.len() == 4 * self.width_px * self.height_px
    }
}

/// The uniform block light `i` of the list receives: its colour and
/// intensity, and the last-light flag exactly on the final index.
pub open spec fn spec_uniform(lights: Seq<LightData>, i: int) -> LightUniform {
    LightUniform {
        color: lights[i].color,
        intensity: lights[i].intensity,
        is_last: i == lights.len() - 1,
    }
}

/// One channel of a colour: red, green, blue for `ch` zero, one, two.
pub open spec fn channel_of(c: Rgb, ch: int) -> int {
    if ch == 0 {
        c.r as int
    } else if ch == 1 {
        c.g as int
    } else {
        c.b as int
    }
}

/// The shadow mask of one light at pixel `(px, py)`: its shadow geometry
/// rasterized against the pixel centre.
pub open spec fn spec_light_mask(
    light: LightData,
    occs: Seq<OcclusionData>,
    vp: Viewport,
    px: int,
    py: int,
) -> int {
    spec_mask(
        spec_shadow_geometry(light, occs, vp),
        px_num(px, vp.width_px as int),
        py_num(py, vp.height_px as int),
        vp.width_px as int,
        vp.height_px as int,
        vp.half_win.x as int,
        vp.half_win.y as int,
    )
}

/// One light's contribution to one channel of one pixel, in raw fixed-point
/// product units (colour times intensity times transmitted fraction).
pub open spec fn spec_term(
    light: LightData,
    occs: Seq<OcclusionData>,
    vp: Viewport,
    px: int,
    py: int,
    ch: int,
) -> int {
    channel_of(light.color, ch) * light.intensity * spec_light_mask(light, occs, vp, px, py)
}

/// The additive accumulation over the whole light list of one channel of one
/// pixel, in raw fixed-point product units.
pub open spec fn spec_acc(
    lights: Seq<LightData>,
    occs: Seq<OcclusionData>,
    vp: Viewport,
    px: int,
    py: int,
    ch: int,
) -> int
    decreases lights.len(),
{
    if lights.len() == 0 {
        0
    } else {
        spec_acc(lights.drop_last(), occs, vp, px, py, ch) + spec_term(
            lights.last(),
            occs,
            vp,
            px,
            py,
            ch,
        )
    }
}

/// An accumulated channel as an output byte: scaled so that a fully saturated
/// channel at whole intensity under no shadow is 255, then clamped to 255.
pub open spec fn spec_channel_byte(sum: int) -> u8 {
    let s = sum * 255 / (UNIT * UNIT * UNIT);
    if s > 255 {
        255u8
    } else {
        s as u8
    }
}

/// Byte `ch` of pixel `(px, py)`: the three accumulated colour channels, then
/// a fully opaque alpha.
pub open spec fn spec_pixel_byte(
    lights: Seq<LightData>,
    occs: Seq<OcclusionData>,
    vp: Viewport,
    px: int,
    py: int,
    ch: int,
) -> u8 {
    if ch == 3 {
        255u8
    } else {
        spec_channel_byte(spec_acc(lights, occs, vp, px, py, ch))
    }
}

/// Byte `i` of the row-major, top-left-origin RGBA raster.
pub open spec fn spec_byte_at(
    lights: Seq<LightData>,
    occs: Seq<OcclusionData>,
    vp: Viewport,
    i: int,
) -> u8 {
    let j = i / 4;
    let ch = i % 4;
    let w = vp.width_px as int;
    spec_pixel_byte(lights, occs, vp, j % w, j / w, ch)
}

/// The whole output raster: with zero lights every accumulation is zero, so
/// the baseline lightmap is deterministically black (with opaque alpha).
pub open spec fn spec_lightmap(
    lights: Seq<LightData>,
    occs: Seq<OcclusionData>,
    vp: Viewport,
) -> Seq<u8> {
    Seq::new(
        (4 * vp.width_px * vp.height_px) as nat,
        |i: int| spec_byte_at(lights, occs, vp, i),
    )
}

/// Lays out one frame for the rasterization backend: one pass per light, in
/// list order (their accumulation chains, so the order of execution is
/// fixed), the mask cleared to its baseline only before the first light, the
/// last-light flag only on the final pass, and a tightly packed readback
/// buffer of four bytes per pixel.
pub fn plan_frame(
    lights: &Vec<LightData>,
    occlusions: &Vec<OcclusionData>,
    vp: &Viewport,
) -> (plan: FramePlan)
    requires
        vp.wf(),
        forall|i: int| 0 <= i < lights@.len() ==> (#[trigger] lights@[i]).wf(),
        forall|i: int| 0 <= i < occlusions@.len() ==> (#[trigger] occlusions@[i]).wf(),
    ensures
        plan.width_px == vp.width_px,
        plan.height_px == vp.height_px,
        plan.bytes_per_row == BYTES_PER_PIXEL * vp.width_px,
        plan.buffer_size == BYTES_PER_PIXEL * vp.width_px * vp.height_px,
        plan.passes@.len() == lights@.len(),
        forall|i: int|
            0 <= i < lights@.len() ==> {
                &&& (#[trigger] plan.passes@[i]).clear_base == (i == 0)
                &&& plan.passes@[i].uniform == spec_uniform(lights@, i)
                &&& plan.passes@[i].verts@ == spec_shadow_geometry(lights@[i], occlusions@, *vp)
                &&& forall|k: int|
                    0 <= k < plan.passes@[i].verts@.len() ==> (#[trigger] plan.passes@[i].verts@[k]).wf()
            },
{
    let mut passes: Vec<LightPass> = Vec::new();
    let n = lights.len();
    let mut i: usize = 0;
    while i < n
        invariant
            n == lights@.len(),
            i <= n,
            vp.wf(),
            forall|j: int| 0 <= j < lights@.len() ==> (#[trigger] lights@[j]).wf(),
            forall|j: int| 0 <= j < occlusions@.len() ==> (#[trigger] occlusions@[j]).wf(),
            passes@.len() == i,
            forall|j: int|
                0 <= j < i ==> {
                    &&& (#[trigger] passes@[j]).clear_base == (j == 0)
                    &&& passes@[j].uniform == spec_uniform(lights@, j)
                    &&& passes@[j].verts@ == spec_shadow_geometry(lights@[j], occlusions@, *vp)
                    &&& forall|k: int|
                        0 <= k < passes@[j].verts@.len() ==> (#[trigger] passes@[j].verts@[k]).wf()
                },
        decreases n - i,
    {
        let light = lights[i];
        let verts = build_shadow_geometry(&light, occlusions, vp);
        let uniform = LightUniform {
            color: light.color,
            intensity: light.intensity,
            is_last: i == n - 1,
        };
        passes.push(LightPass { clear_base: i == 0, verts, uniform });
        i = i + 1;
    }
    let bytes_per_row: u32 = BYTES_PER_PIXEL * vp.width_px;
    proof {
        crate::raster::lemma_mul_le(
            bytes_per_row as int,
            vp.height_px as int,
            4 * MAX_DIM as int,
            MAX_DIM as int,
        );
    }
    let buffer_size: u64 = (bytes_per_row as u64) * (vp.height_px as u64);
    FramePlan {
        width_px: vp.width_px,
        height_px: vp.height_px,
        bytes_per_row,
        buffer_size,
        passes,
    }
}

/// The reference compositor: rasterizes the frame plan exactly as
/// `spec_lightmap` states it, pixel by pixel — per light the shadow mask at
/// the pixel centre, each channel accumulated additively across the lights,
/// scaled and clamped to a byte once at the end. This function defines what
/// a backend executing the plan must produce.
#[verifier::loop_isolation(false)]
pub fn render(
    lights: &Vec<LightData>,
    occlusions: &Vec<OcclusionData>,
    vp: &Viewport,
) -> (lm: Lightmap)
    requires
        vp.wf(),
        forall|i: int| 0 <= i < lights@.len() ==> (#[trigger] lights@[i]).wf(),
        forall|i: int| 0 <= i < occlusions@.len() ==> (#[trigger] occlusions@[i]).wf(),
    ensures
        lm.width_px == vp.width_px,
        lm.height_px == vp.height_px,
        lm.pixels@ == spec_lightmap(lights@, occlusions@, *vp),
        lm.wf(),
{
    let plan = plan_frame(lights, occlusions, vp);
    let w_us = vp.width_px as usize;
    let h_us = vp.height_px as usize;
    proof {
        crate::raster::lemma_mul_le(w_us as int, h_us as int, MAX_DIM as int, MAX_DIM as int);
    }
    let n_px: usize = w_us * h_us;
    let w64 = vp.width_px as i64;
    let h64 = vp.height_px as i64;
    let dx = vp.half_win.x;
    let dy = vp.half_win.y;
    let n_lights = plan.passes.len();
    let mut pixels: Vec<u8> = Vec::new();
    let mut p: usize = 0;
    while p < n_px
        invariant
            p <= n_px,
            pixels@.len() == 4 * p,
            forall|i: int|
                0 <= i < 4 * p ==> pixels@[i] == spec_byte_at(
                    lights@,
                    occlusions@,
                    *vp,
                    i,
                ),
        decreases n_px - p,
    {
        let px = p % w_us;
        let py = p / w_us;
        proof {
            vstd::arithmetic::div_mod::lemma_multiply_divide_lt(
                p as int,
                w_us as int,
                h_us as int,
            );
            vstd::arithmetic::div_mod::lemma_mod_bound(p as int, w_us as int);
        }
        let pxn: i64 = 2 * (px as i64) + 1 - w64;
        let pyn: i64 = h64 - 2 * (py as i64) - 1;
        let mut acc_r: u128 = 0;
        let mut acc_g: u128 = 0;
        let mut acc_b: u128 = 0;
        let mut li: usize = 0;
        while li < n_lights
            invariant
                li <= n_lights,
                acc_r == spec_acc(lights@.take(li as int), occlusions@, *vp, px as int, py as int, 0),
                acc_g == spec_acc(lights@.take(li as int), occlusions@, *vp, px as int, py as int, 1),
                acc_b == spec_acc(lights@.take(li as int), occlusions@, *vp, px as int, py as int, 2),
                acc_r <= li * TERM_MAX,
                acc_g <= li * TERM_MAX,
                acc_b <= li * TERM_MAX,
            decreases n_lights - li,
        {
            let pass = &plan.passes[li];
            let m = mask_at(&pass.verts, pxn, pyn, w64, h64, dx, dy);
            proof {
                crate::raster::lemma_mul_le(
                    pass.uniform.color.r as int,
                    pass.uniform.intensity as int,
                    UNIT as int,
                    INTENSITY_MAX as int,
                );
                crate::raster::lemma_mul_le(
                    pass.uniform.color.g as int,
                    pass.uniform.intensity as int,
                    UNIT as int,
                    INTENSITY_MAX as int,
                );
                crate::raster::lemma_mul_le(
                    pass.uniform.color.b as int,
                    pass.uniform.intensity as int,
                    UNIT as int,
                    INTENSITY_MAX as int,
                );
                crate::raster::lemma_mul_le(
                    pass.uniform.color.r * pass.uniform.intensity,
                    m as int,
                    UNIT * INTENSITY_MAX,
                    UNIT as int,
                );
                crate::raster::lemma_mul_le(
                    pass.uniform.color.g * pass.uniform.intensity,
                    m as int,
                    UNIT * INTENSITY_MAX,
                    UNIT as int,
                );
                crate::raster::lemma_mul_le(
                    pass.uniform.color.b * pass.uniform.intensity,
                    m as int,
                    UNIT * INTENSITY_MAX,
                    UNIT as int,
                );
            }
            let term_r: u128 = (pass.uniform.color.r as u128) * (pass.uniform.intensity as u128)
                * (m as u128);
            let term_g: u128 = (pass.uniform.color.g as u128) * (pass.uniform.intensity as u128)
                * (m as u128);
            let term_b: u128 = (pass.uniform.color.b as u128) * (pass.uniform.intensity as u128)
                * (m as u128);
            proof {
                crate::raster::lemma_mul_le(
                    li as int,
                    TERM_MAX as int,
                    usize::MAX as int,
                    TERM_MAX as int,
                );
                assert(UNIT * INTENSITY_MAX * UNIT == TERM_MAX);
                let k = li as int;
                assert(lights@.take(k + 1).drop_last() =~= lights@.take(k));
                assert(lights@.take(k + 1).last() == lights@[k]);
            }
            acc_r = acc_r + term_r;
            acc_g = acc_g + term_g;
            acc_b = acc_b + term_b;
            li = li + 1;
        }
        proof {
            assert(lights@.take(n_lights as int) =~= lights@);
            crate::raster::lemma_mul_le(
                n_lights as int,
                TERM_MAX as int,
                usize::MAX as int,
                TERM_MAX as int,
            );
            assert(UNIT * UNIT * UNIT == UNIT_CUBED);
        }
        let s_r: u128 = acc_r * 255 / (UNIT_CUBED as u128);
        let s_g: u128 = acc_g * 255 / (UNIT_CUBED as u128);
        let s_b: u128 = acc_b * 255 / (UNIT_CUBED as u128);
        let b_r: u8 = if s_r > 255 {
            255
        } else {
            s_r as u8
        };
        let b_g: u8 = if s_g > 255 {
            255
        } else {
            s_g as u8
        };
        let b_b: u8 = if s_b > 255 {
            255
        } else {
            s_b as u8
        };
        pixels.push(b_r);
        pixels.push(b_g);
        pixels.push(b_b);
        pixels.push(255u8);
        proof {
            let pi = p as int;
            vstd::arithmetic::div_mod::lemma_fundamental_div_mod_converse(4 * pi, 4, pi, 0);
            vstd::arithmetic::div_mod::lemma_fundamental_div_mod_converse(4 * pi + 1, 4, pi, 1);
            vstd::arithmetic::div_mod::lemma_fundamental_div_mod_converse(4 * pi + 2, 4, pi, 2);
            vstd::arithmetic::div_mod::lemma_fundamental_div_mod_converse(4 * pi + 3, 4, pi, 3);
            assert(pixels@[4 * pi] == spec_byte_at(lights@, occlusions@, *vp, 4 * pi));
            assert(pixels@[4 * pi + 1] == spec_byte_at(lights@, occlusions@, *vp, 4 * pi + 1));
            assert(pixels@[4 * pi + 2] == spec_byte_at(lights@, occlusions@, *vp, 4 * pi + 2));
            assert(pixels@[4 * pi + 3] == spec_byte_at(lights@, occlusions@, *vp, 4 * pi + 3));
        }
        p = p + 1;
    }
    proof {
        let target = spec_lightmap(lights@, occlusions@, *vp);
        vstd::arithmetic::mul::lemma_mul_is_associative(
            4,
            vp.width_px as int,
            vp.height_px as int,
        );
        assert(pixels@.len() == target.len());
        assert forall|i: int| 0 <= i < pixels@.len() implies pixels@[i] == target[i] by {
            assert(pixels@[i] == spec_byte_at(lights@, occlusions@, *vp, i));
            assert(target[i] == spec_byte_at(lights@, occlusions@, *vp, i));
        }
        assert(pixels@ =~= target);
    }
    Lightmap { width_px: vp.width_px, height_px: vp.height_px, pixels }
}

/// Whether every light of the list is well-formed, checked at run time.
fn check_lights(lights: &Vec<LightData>) -> (r: bool)
    ensures
        r == (forall|i: int| 0 <= i < lights@.len() ==> (#[trigger] lights@[i]).wf()),
{
    let mut i: usize = 0;
    while i < lights.len()
        invariant
            i <= lights@.len(),
            forall|j: int| 0 <= j < i ==> (#[trigger] lights@[j]).wf(),
        decreases lights@.len() - i,
    {
        let l = &lights[i];
        let ok = -COORD_MAX <= l.pos.x && l.pos.x <= COORD_MAX && -COORD_MAX <= l.pos.y && l.pos.y
            <= COORD_MAX && 0 <= l.intensity && l.intensity <= INTENSITY_MAX && 0 <= l.color.r
            && l.color.r <= UNIT && 0 <= l.color.g && l.color.g <= UNIT && 0 <= l.color.b
            && l.color.b <= UNIT;
        if !ok {
            proof {
                assert(!lights@[i as int].wf());
            }
            return false;
        }
        i = i + 1;
    }
    true
}

/// Whether every occluder of the list is well-formed, checked at run time.
fn check_occlusions(occlusions: &Vec<OcclusionData>) -> (r: bool)
    ensures
        r == (forall|i: int|
            0 <= i < occlusions@.len() ==> (#[trigger] occlusions@[i]).wf()),
{
    let mut i: usize = 0;
    while i < occlusions.len()
        invariant
            i <= occlusions@.len(),
            forall|j: int| 0 <= j < i ==> (#[trigger] occlusions@[j]).wf(),
        decreases occlusions@.len() - i,
    {
        let o = &occlusions[i];
        let ok = -COORD_MAX <= o.start.x && o.start.x <= COORD_MAX && -COORD_MAX <= o.start.y
            && o.start.y <= COORD_MAX && -COORD_MAX <= o.end.x && o.end.x <= COORD_MAX
            && -COORD_MAX <= o.end.y && o.end.y <= COORD_MAX && 0 <= o.visibility && o.visibility
            <= UNIT;
        if !ok {
            proof {
                assert(!occlusions@[i as int].wf());
            }
            return false;
        }
        i = i + 1;
    }
    true
}

/// Whether the window description is well-formed, checked at run time.
fn check_window(window: &WindowInfo) -> (r: bool)
    ensures
        r == window.wf(),
{
    1 <= window.width_px && window.width_px <= MAX_DIM && 1 <= window.height_px
        && window.height_px <= MAX_DIM && 0 <= window.world_extents.x && window.world_extents.x
        <= 2 * crate::transform::LOCAL_MAX && 0 <= window.world_extents.y
        && window.world_extents.y <= 2 * crate::transform::LOCAL_MAX
}

/// Whether the camera transform is well-formed, checked at run time.
fn check_camera(t: &Transform2) -> (r: bool)
    ensures
        r == t.wf(),
{
    let m = crate::transform::MAT_MAX;
    let tr = crate::transform::TRANS_MAX;
    -m <= t.m00 && t.m00 <= m && -m <= t.m01 && t.m01 <= m && -m <= t.m10 && t.m10 <= m && -m
        <= t.m11 && t.m11 <= m && -tr <= t.tx && t.tx <= tr && -tr <= t.ty && t.ty <= tr
}

/// Whether a frame can be rendered at all from these inputs: a well-formed
/// primary window and camera, every scene element within the documented
/// bounds, and a viewport spanning a positive world window.
pub open spec fn spec_inputs_ok(
    window: Option<&WindowInfo>,
    lights: Seq<LightData>,
    occs: Seq<OcclusionData>,
    camera: Transform2,
) -> bool {
    match window {
        Option::None => false,
        Option::Some(w) => {
            &&& w.wf()
            &&& camera.wf()
            &&& forall|i: int| 0 <= i < lights.len() ==> (#[trigger] lights[i]).wf()
            &&& forall|i: int| 0 <= i < occs.len() ==> (#[trigger] occs[i]).wf()
            &&& spec_viewport_ok(*w, camera)
        },
    }
}

/// Renders one frame: derives the viewport from the primary window and the
/// camera, builds every light's shadow geometry, composites the lights in
/// order and returns the raster. Fails with a configuration error exactly
/// when no primary window was given, an input is outside the documented
/// bounds, or the camera window spans no positive world area — never with a
/// partial or blank raster.
pub fn get_lightmap(
    window: Option<&WindowInfo>,
    lights: &Vec<LightData>,
    occlusions: &Vec<OcclusionData>,
    camera_transform: &Transform2,
) -> (r: Result<Lightmap, RenderError>)
    ensures
        r is Ok <==> spec_inputs_ok(window, lights@, occlusions@, *camera_transform),
        r is Ok ==> {
            &&& window is Some
            &&& r->Ok_0.width_px == window->Some_0.width_px
            &&& r->Ok_0.height_px == window->Some_0.height_px
            &&& r->Ok_0.pixels@ == spec_lightmap(
                lights@,
                occlusions@,
                spec_viewport(*(window->Some_0), *camera_transform),
            )
            &&& r->Ok_0.wf()
        },
        r is Err ==> r->Err_0 == RenderError::Configuration,
{
    let window = match window {
        Option::Some(w) => w,
        Option::None => {
            return Err(RenderError::Configuration);
        },
    };
    if !check_window(window) {
        return Err(RenderError::Configuration);
    }
    if !check_camera(camera_transform) {
        return Err(RenderError::Configuration);
    }
    if !check_lights(lights) {
        return Err(RenderError::Configuration);
    }
    if !check_occlusions(occlusions) {
        return Err(RenderError::Configuration);
    }
    let vp = match compute_viewport(window, camera_transform) {
        Ok(vp) => vp,
        Err(e) => {
            return Err(e);
        },
    };
    Ok(render(lights, occlusions, &vp))
}

} // verus!
