use vstd::prelude::*;
use crate::ext::in_world;
use crate::point::{Point, WorldPoint};
use crate::transform::{in_local, Transform2, TRANS_MAX};
use crate::units::{COORD_MAX, INTENSITY_MAX, UNIT};

verus! {

/// A colour with fixed-point channels: `UNIT` is a fully saturated channel.
#[derive(Clone, Copy, Debug, PartialEq, Eq, Structural)]
pub struct Rgb {
    pub r: i64,
    pub g: i64,
    pub b: i64,
}

impl Rgb {
    /// Well-formed: every channel within `[0, UNIT]`.
    pub open spec fn wf(self) -> bool {
        0 <= self.r <= UNIT && 0 <= self.g <= UNIT && 0 <= self.b <= UNIT
    }
}

/// A shadow-casting body: a triangle list in local space (three consecutive
/// vertices per triangle) and the fraction of light it blocks.
#[derive(Clone, Debug)]
pub struct ShadowCaster {
    pub verts: Vec<WorldPoint>,
    pub visibility: i64,
}

impl ShadowCaster {
    /// Well-formed: bounded local vertices and a visibility within `[0, UNIT]`.
    pub open spec fn wf(self) -> bool {
        &&& 0 <= self.visibility <= UNIT
        &&& forall|i: int| 0 <= i < self.verts@.len() ==> in_local(#[trigger] self.verts@[i])
    }
}

/// One directed occluder edge in world space, with the fraction of light it
/// blocks: `visibility` zero occludes nothing, `UNIT` is fully opaque.
#[derive(Clone, Copy, Debug, PartialEq, Eq)]
pub struct OcclusionData {
    pub start: WorldPoint,
    pub end: WorldPoint,
    pub visibility: i64,
}

impl OcclusionData {
    /// Well-formed: endpoints within the world bound, visibility in `[0, UNIT]`.
    pub open spec fn wf(self) -> bool {
        in_world(self.start) && in_world(self.end) && 0 <= self.visibility <= UNIT
    }
}

/// A light-emitting body: its colour and intensity; its position comes from
/// its transform when the per-frame sample is taken.
#[derive(Clone, Copy, Debug)]
pub struct LightSource {
    pub intensity: i64,
    pub color: Rgb,
}

impl LightSource {
    /// Well-formed: a bounded, non-negative intensity and a well-formed colour.
    pub open spec fn wf(self) -> bool {
        0 <= self.intensity <= INTENSITY_MAX && self.color.wf()
    }
}

/// One per-frame light sample: world position, colour and intensity.
#[derive(Clone, Copy, Debug, PartialEq, Eq)]
pub struct LightData {
    pub pos: WorldPoint,
    pub intensity: i64,
    pub color: Rgb,
}

impl LightData {
    /// Well-formed: position within the world bound, bounded non-negative
    /// intensity, well-formed colour.
    pub open spec fn wf(self) -> bool {
        in_world(self.pos) && 0 <= self.intensity <= INTENSITY_MAX && self.color.wf()
    }
}

/// The world-space occluder edge a triangle edge from `v0` to `v1` becomes
/// under `transform`, carrying the caster's visibility.
pub open spec fn spec_edge_segment(
    transform: Transform2,
    v0: WorldPoint,
    v1: WorldPoint,
    visibility: i64,
) -> OcclusionData {
    OcclusionData {
        start: transform.spec_apply(v0),
        end: transform.spec_apply(v1),
        visibility: visibility,
    }
}

/// Turns a shadow caster into occluder edges: each triangle (three
/// consecutive vertices) emits its three directed edges, each endpoint
/// transformed to world space, each edge carrying the caster's visibility.
/// Trailing vertices that do not fill a triangle are ignored. Shared edges of
/// adjacent triangles are emitted once per triangle, deliberately: their
/// attenuation may differ per caster.
pub fn shadow_caster_to_occlusion_data(
    input: (&Transform2, &ShadowCaster),
) -> (occlusions: Vec<OcclusionData>)
    requires
        input.0.wf(),
        input.1.wf(),
    ensures
        occlusions@.len() == 3 * (input.1.verts@.len() as int / 3),
        forall|i: int|
            0 <= i < input.1.verts@.len() as int / 3 ==> {
                &&& #[trigger] occlusions@[3 * i] == spec_edge_segment(
                    *input.0,
                    input.1.verts@[3 * i],
                    input.1.verts@[3 * i + 1],
                    input.1.visibility,
                )
                &&& occlusions@[3 * i + 1] == spec_edge_segment(
                    *input.0,
                    input.1.verts@[3 * i + 1],
                    input.1.verts@[3 * i + 2],
                    input.1.visibility,
                )
                &&& occlusions@[3 * i + 2] == spec_edge_segment(
                    *input.0,
                    input.1.verts@[3 * i + 2],
                    input.1.verts@[3 * i],
                    input.1.visibility,
                )
            },
        forall|i: int| 0 <= i < occlusions@.len() ==> (#[trigger] occlusions@[i]).wf(),
{
    let (transform, shadow_caster) = input;
    let mut occlusions: Vec<OcclusionData> = Vec::new();
    let n_tris: usize = shadow_caster.verts.len() / 3;
    let mut i: usize = 0;
    while i < n_tris
        invariant
            shadow_caster.verts@.len() <= usize::MAX,
            n_tris == shadow_caster.verts@.len() as int / 3,
            i <= n_tris,
            transform.wf(),
            shadow_caster.wf(),
            occlusions@.len() == 3 * i,
            forall|j: int|
                0 <= j < i ==> {
                    &&& #[trigger] occlusions@[3 * j] == spec_edge_segment(
                        *transform,
                        shadow_caster.verts@[3 * j],
                        shadow_caster.verts@[3 * j + 1],
                        shadow_caster.visibility,
                    )
                    &&& occlusions@[3 * j + 1] == spec_edge_segment(
                        *transform,
                        shadow_caster.verts@[3 * j + 1],
                        shadow_caster.verts@[3 * j + 2],
                        shadow_caster.visibility,
                    )
                    &&& occlusions@[3 * j + 2] == spec_edge_segment(
                        *transform,
                        shadow_caster.verts@[3 * j + 2],
                        shadow_caster.verts@[3 * j],
                        shadow_caster.visibility,
                    )
                },
            forall|j: int| 0 <= j < occlusions@.len() ==> (#[trigger] occlusions@[j]).wf(),
        decreases n_tris - i,
    {
        let ghost pre = occlusions@;
        proof {
            vstd::arithmetic::div_mod::lemma_fundamental_div_mod(
                shadow_caster.verts@.len() as int,
                3,
            );
            assert(3 * (i as int) + 2 < shadow_caster.verts@.len());
        }
        let v0 = shadow_caster.verts[3 * i];
        let v1 = shadow_caster.verts[3 * i + 1];
        let v2 = shadow_caster.verts[3 * i + 2];
        let w0 = transform.apply(v0);
        let w1 = transform.apply(v1);
        let w2 = transform.apply(v2);
        occlusions.push(
            OcclusionData { start: w0, end: w1, visibility: shadow_caster.visibility },
        );
        occlusions.push(
            OcclusionData { start: w1, end: w2, visibility: shadow_caster.visibility },
        );
        occlusions.push(
            OcclusionData { start: w2, end: w0, visibility: shadow_caster.visibility },
        );
        proof {
            assert(forall|k: int| 0 <= k < pre.len() ==> occlusions@[k] == pre[k]);
            assert(occlusions@[3 * (i as int)] == spec_edge_segment(
                *transform,
                shadow_caster.verts@[3 * (i as int)],
                shadow_caster.verts@[3 * (i as int) + 1],
                shadow_caster.visibility,
            ));
            assert(occlusions@[3 * (i as int) + 1] == spec_edge_segment(
                *transform,
                shadow_caster.verts@[3 * (i as int) + 1],
                shadow_caster.verts@[3 * (i as int) + 2],
                shadow_caster.visibility,
            ));
            assert(occlusions@[3 * (i as int) + 2] == spec_edge_segment(
                *transform,
                shadow_caster.verts@[3 * (i as int) + 2],
                shadow_caster.verts@[3 * (i as int)],
                shadow_caster.visibility,
            ));
        }
        i = i + 1;
    }
    occlusions
}

/// Takes the per-frame sample of one light: the position is the translation
/// of the light's transform (its world position, depth ignored), the colour
/// and intensity are carried over.
pub fn light_source_to_light_data(
    input: (&Transform2, &LightSource),
) -> (light: LightData)
    requires
        input.0.wf(),
        input.1.wf(),
    ensures
        light.pos.x == input.0.tx,
        light.pos.y == input.0.ty,
        light.intensity == input.1.intensity,
        light.color == input.1.color,
        light.wf(),
{
    let (transform, light_source) = input;
    proof {
        assert(TRANS_MAX <= COORD_MAX);
    }
    LightData {
        pos: Point::new(transform.tx, transform.ty),
        intensity: light_source.intensity,
        color: light_source.color,
    }
}

/// Why a frame could not be rendered.
#[derive(Clone, Copy, Debug, PartialEq, Eq, Structural)]
pub enum RenderError {
    /// No primary window or no camera, or a viewport or scene input outside
    /// the documented bounds: the frame must be aborted rather than silently
    /// rendered blank.
    Configuration,
    /// The rasterization backend could not be acquired.
    Backend,
    /// Reading the composited raster back from the backend failed.
    Readback,
}

} // verus!
