use vstd::prelude::*;
use crate::ext::{in_world, intersect_aabb, spec_intersect_aabb};
use crate::point::{Point, WorldPoint};
use crate::types::{LightData, OcclusionData};
use crate::units::{COORD_MAX, UNIT};
use crate::viewport::Viewport;

verus! {

/// One vertex of a shadow skirt, in normalized device coordinates held as
/// exact numerators: the NDC position is `(x / half_win.x, y / half_win.y)`
/// for the viewport's half window size. `near` marks the two vertices on the
/// occluder edge itself (depth weight one); the far vertices (weight zero)
/// lie along the direction from the light through the edge. `shade` is the
/// fraction of light the skirt lets through, `UNIT - visibility`, the texture
/// coordinate every vertex of one skirt carries.
#[derive(Clone, Copy, Debug, PartialEq, Eq)]
pub struct ShadowVertex {
    pub x: i64,
    pub y: i64,
    pub near: bool,
    pub shade: i64,
}

impl ShadowVertex {
    /// Well-formed: coordinates within four world bounds (differences of two
    /// differences of world coordinates) and a shade within `[0, UNIT]`.
    pub open spec fn wf(self) -> bool {
        &&& -4 * COORD_MAX <= self.x <= 4 * COORD_MAX
        &&& -4 * COORD_MAX <= self.y <= 4 * COORD_MAX
        &&& 0 <= self.shade <= UNIT
    }
}

/// The ray direction from the light to a world point.
pub open spec fn spec_ray_dir(light: LightData, p: WorldPoint) -> WorldPoint {
    Point { x: (p.x - light.pos.x) as i64, y: (p.y - light.pos.y) as i64 }
}

/// Whether an occluder casts into the viewport for this light: the ray from
/// the light through either endpoint meets the viewport's bounding box. The
/// cull is conservative — one intersecting endpoint ray keeps the occluder.
pub open spec fn spec_included(light: LightData, occ: OcclusionData, vp: Viewport) -> bool {
    ||| spec_intersect_aabb(
        occ.start,
        spec_ray_dir(light, occ.start),
        vp.bottom_left,
        vp.top_right,
    )
    ||| spec_intersect_aabb(occ.end, spec_ray_dir(light, occ.end), vp.bottom_left, vp.top_right)
}

/// The six skirt vertices of one occluder for one light, as NDC numerators
/// over the viewport's half window size: the two near vertices are the
/// occluder endpoints relative to the camera, the far vertices are the
/// directions from the light through them, and the quad is wound
/// `(start_near, start_far, end_near, end_near, start_far, end_far)`.
pub open spec fn spec_skirt(light: LightData, occ: OcclusionData, vp: Viewport) -> Seq<
    ShadowVertex,
> {
    let shade = (UNIT - occ.visibility) as i64;
    let sx = (occ.start.x - vp.camera_pos.x) as i64;
    let sy = (occ.start.y - vp.camera_pos.y) as i64;
    let ex = (occ.end.x - vp.camera_pos.x) as i64;
    let ey = (occ.end.y - vp.camera_pos.y) as i64;
    let lx = (light.pos.x - vp.camera_pos.x) as i64;
    let ly = (light.pos.y - vp.camera_pos.y) as i64;
    let d1x = (sx - lx) as i64;
    let d1y = (sy - ly) as i64;
    let d2x = (ex - lx) as i64;
    let d2y = (ey - ly) as i64;
    seq![
        ShadowVertex { x: sx, y: sy, near: true, shade },
        ShadowVertex { x: d1x, y: d1y, near: false, shade },
        ShadowVertex { x: ex, y: ey, near: true, shade },
        ShadowVertex { x: ex, y: ey, near: true, shade },
        ShadowVertex { x: d1x, y: d1y, near: false, shade },
        ShadowVertex { x: d2x, y: d2y, near: false, shade },
    ]
}

/// All shadow geometry of one light: the skirts of the occluders the cull
/// keeps, concatenated in occluder order into one vertex list for one draw.
pub open spec fn spec_shadow_geometry(
    light: LightData,
    occs: Seq<OcclusionData>,
    vp: Viewport,
) -> Seq<ShadowVertex>
    decreases occs.len(),
{
    if occs.len() == 0 {
        Seq::empty()
    } else {
        spec_shadow_geometry(light, occs.drop_last(), vp) + (if spec_included(
            light,
            occs.last(),
            vp,
        ) {
            spec_skirt(light, occs.last(), vp)
        } else {
            Seq::empty()
        })
    }
}

/// The cull test for one (light, occluder) pair.
pub fn occluder_included(light: &LightData, occ: &OcclusionData, vp: &Viewport) -> (r: bool)
    requires
        light.wf(),
        occ.wf(),
        vp.wf(),
    ensures
        r == spec_included(*light, *occ, *vp),
{
    let d1 = Point::new(occ.start.x - light.pos.x, occ.start.y - light.pos.y);
    let d2 = Point::new(occ.end.x - light.pos.x, occ.end.y - light.pos.y);
    intersect_aabb(occ.start, d1, vp.bottom_left, vp.top_right) || intersect_aabb(
        occ.end,
        d2,
        vp.bottom_left,
        vp.top_right,
    )
}

/// Builds the shadow geometry of one light over the whole occluder list.
pub fn build_shadow_geometry(
    light: &LightData,
    occlusions: &Vec<OcclusionData>,
    vp: &Viewport,
) -> (verts: Vec<ShadowVertex>)
    requires
        light.wf(),
        vp.wf(),
        forall|i: int| 0 <= i < occlusions@.len() ==> (#[trigger] occlusions@[i]).wf(),
    ensures
        verts@ == spec_shadow_geometry(*light, occlusions@, *vp),
        forall|i: int| 0 <= i < verts@.len() ==> (#[trigger] verts@[i]).wf(),
{
    let mut verts: Vec<ShadowVertex> = Vec::new();
    let mut i: usize = 0;
    proof {
        assert(occlusions@.take(0int) =~= Seq::<OcclusionData>::empty());
    }
    while i < occlusions.len()
        invariant
            i <= occlusions@.len(),
            light.wf(),
            vp.wf(),
            forall|j: int| 0 <= j < occlusions@.len() ==> (#[trigger] occlusions@[j]).wf(),
            verts@ == spec_shadow_geometry(*light, occlusions@.take(i as int), *vp),
            forall|j: int| 0 <= j < verts@.len() ==> (#[trigger] verts@[j]).wf(),
        decreases occlusions@.len() - i,
    {
        let occ = occlusions[i];
        let ghost pre = verts@;
        if occluder_included(light, &occ, vp) {
            let shade = UNIT - occ.visibility;
            let sx = occ.start.x - vp.camera_pos.x;
            let sy = occ.start.y - vp.camera_pos.y;
            let ex = occ.end.x - vp.camera_pos.x;
            let ey = occ.end.y - vp.camera_pos.y;
            let lx = light.pos.x - vp.camera_pos.x;
            let ly = light.pos.y - vp.camera_pos.y;
            verts.push(ShadowVertex { x: sx, y: sy, near: true, shade });
            verts.push(ShadowVertex { x: sx - lx, y: sy - ly, near: false, shade });
            verts.push(ShadowVertex { x: ex, y: ey, near: true, shade });
            verts.push(ShadowVertex { x: ex, y: ey, near: true, shade });
            verts.push(ShadowVertex { x: sx - lx, y: sy - ly, near: false, shade });
            verts.push(ShadowVertex { x: ex - lx, y: ey - ly, near: false, shade });
            proof {
                assert(verts@ =~= pre + spec_skirt(*light, occlusions@[i as int], *vp));
            }
        }
        proof {
            let k = i as int;
            assert(occlusions@.take(k + 1).drop_last() =~= occlusions@.take(k));
            assert(occlusions@.take(k + 1).last() == occlusions@[k]);
        }
        i = i + 1;
    }
    proof {
        assert(occlusions@.take(occlusions@.len() as int) =~= occlusions@);
    }
    verts
}

/// Every vertex the shadow-volume builder can produce is well-formed: skirt
/// coordinates are differences of bounded world coordinates, and the shade is
/// a visibility within range reflected in `[0, UNIT]`. This holds for any
/// occluder, a degenerate (zero-length, or light-collinear) one included.
pub proof fn lemma_geometry_wf(light: LightData, occs: Seq<OcclusionData>, vp: Viewport)
    requires
        light.wf(),
        vp.wf(),
        forall|i: int| 0 <= i < occs.len() ==> (#[trigger] occs[i]).wf(),
    ensures
        forall|k: int|
            0 <= k < spec_shadow_geometry(light, occs, vp).len() ==> (#[trigger] spec_shadow_geometry(
                light,
                occs,
                vp,
            )[k]).wf(),
    decreases occs.len(),
{
    if occs.len() > 0 {
        assert(forall|i: int| 0 <= i < occs.drop_last().len() ==> (#[trigger] occs.drop_last()[i]).wf());
        lemma_geometry_wf(light, occs.drop_last(), vp);
        let last = occs.last();
        assert(last.wf());
        let rec = spec_shadow_geometry(light, occs.drop_last(), vp);
        let part = if spec_included(light, last, vp) {
            spec_skirt(light, last, vp)
        } else {
            Seq::<ShadowVertex>::empty()
        };
        let skirt = spec_skirt(light, last, vp);
        assert(forall|k: int| 0 <= k < skirt.len() ==> (#[trigger] skirt[k]).wf()) by {
            assert(skirt[0].wf());
            assert(skirt[1].wf());
            assert(skirt[2].wf());
            assert(skirt[3].wf());
            assert(skirt[4].wf());
            assert(skirt[5].wf());
        }
        let full = spec_shadow_geometry(light, occs, vp);
        assert(full == rec + part);
        assert forall|k: int| 0 <= k < full.len() implies (#[trigger] full[k]).wf() by {
            if k < rec.len() {
                assert(full[k] == rec[k]);
            } else {
                assert(full[k] == part[k - rec.len()]);
            }
        }
    }
}

/// The builder's vertex count is always a whole number of triangles.
pub proof fn lemma_geometry_mod3(light: LightData, occs: Seq<OcclusionData>, vp: Viewport)
    ensures
        spec_shadow_geometry(light, occs, vp).len() % 3 == 0,
    decreases occs.len(),
{
    if occs.len() > 0 {
        lemma_geometry_mod3(light, occs.drop_last(), vp);
    }
}

/// Dropping an occluder whose both endpoint rays miss the viewport box leaves
/// the shadow geometry unchanged: culling is exact for fully invisible
/// occluders, and it keeps every occluder with at least one intersecting
/// endpoint ray by the definition of `spec_included`.
pub proof fn lemma_culled_occluder_contributes_nothing(
    light: LightData,
    occs: Seq<OcclusionData>,
    vp: Viewport,
    i: int,
)
    requires
        0 <= i < occs.len(),
        !spec_included(light, occs[i], vp),
    ensures
        spec_shadow_geometry(light, occs, vp) == spec_shadow_geometry(light, occs.remove(i), vp),
    decreases occs.len(),
{
    if i == occs.len() - 1 {
        assert(occs.remove(i) =~= occs.drop_last());
    } else {
        assert(occs.remove(i).drop_last() =~= occs.drop_last().remove(i));
        assert(occs.remove(i).last() == occs.last());
        lemma_culled_occluder_contributes_nothing(light, occs.drop_last(), vp, i);
    }
}

/// Every vertex of one skirt is well-formed, for any light and occluder
/// within bounds — a degenerate skirt included.
pub proof fn lemma_skirt_wf(light: LightData, occ: OcclusionData, vp: Viewport)
    requires
        light.wf(),
        occ.wf(),
        vp.wf(),
    ensures
        forall|k: int|
            0 <= k < spec_skirt(light, occ, vp).len() ==> (#[trigger] spec_skirt(
                light,
                occ,
                vp,
            )[k]).wf(),
{
    let skirt = spec_skirt(light, occ, vp);
    assert(skirt[0].wf());
    assert(skirt[1].wf());
    assert(skirt[2].wf());
    assert(skirt[3].wf());
    assert(skirt[4].wf());
    assert(skirt[5].wf());
}

/// The cull never excludes a partially visible occluder: one endpoint ray
/// meeting the viewport box keeps it, by the definition of the cull test.
pub proof fn lemma_one_visible_endpoint_keeps_occluder(
    light: LightData,
    occ: OcclusionData,
    vp: Viewport,
)
    requires
        spec_intersect_aabb(occ.start, spec_ray_dir(light, occ.start), vp.bottom_left, vp.top_right)
            || spec_intersect_aabb(
            occ.end,
            spec_ray_dir(light, occ.end),
            vp.bottom_left,
            vp.top_right,
        ),
    ensures
        spec_included(light, occ, vp),
{
}

} // verus!
