use vstd::prelude::*;
use crate::compositor::{
    channel_of, spec_acc, spec_byte_at, spec_channel_byte, spec_light_mask, spec_lightmap,
    spec_pixel_byte, spec_term,
};
use crate::raster::{
    lemma_mask_bounds, lemma_mask_concat, lemma_mask_le_covering, px_num, py_num, spec_covers,
    spec_mask,
};
use crate::shadow::{
    lemma_culled_occluder_contributes_nothing, lemma_geometry_mod3, lemma_geometry_wf,
    lemma_skirt_wf, spec_included, spec_shadow_geometry, spec_skirt, ShadowVertex,
};
use crate::types::{LightData, OcclusionData};
use crate::units::UNIT;
use crate::viewport::Viewport;

verus! {

/// The compositor is a pure function of its inputs: two runs over the same
/// lights, occluders and viewport produce byte-identical rasters.
pub proof fn lemma_pipeline_deterministic(
    first: Seq<u8>,
    second: Seq<u8>,
    lights: Seq<LightData>,
    occs: Seq<OcclusionData>,
    vp: Viewport,
)
    requires
        first == spec_lightmap(lights, occs, vp),
        second == spec_lightmap(lights, occs, vp),
    ensures
        first == second,
{
}

/// With zero active lights the lightmap is the documented baseline: every
/// colour channel zero (no light accumulated) and alpha fully opaque — a
/// deterministic raster, never an uninitialized buffer.
pub proof fn lemma_zero_lights_baseline(occs: Seq<OcclusionData>, vp: Viewport, i: int)
    requires
        0 <= i < spec_lightmap(Seq::<LightData>::empty(), occs, vp).len(),
    ensures
        spec_lightmap(Seq::<LightData>::empty(), occs, vp)[i] == if i % 4 == 3 {
            255u8
        } else {
            0u8
        },
{
    let lights = Seq::<LightData>::empty();
    assert(spec_lightmap(lights, occs, vp)[i] == spec_byte_at(lights, occs, vp, i));
    let j = i / 4;
    let ch = i % 4;
    let w = vp.width_px as int;
    if ch != 3 {
        assert(spec_acc(lights, occs, vp, j % w, j / w, ch) == 0);
        vstd::arithmetic::div_mod::lemma_div_of0(UNIT * UNIT * UNIT);
    }
}

/// With exactly one light and zero occluders, every pixel receives the same
/// pure additive contribution: the shadow mask is everywhere the fully lit
/// baseline, so each channel is the light's colour times its intensity, at
/// every pixel alike.
pub proof fn lemma_single_light_no_occluders(
    light: LightData,
    vp: Viewport,
    px: int,
    py: int,
    ch: int,
)
    ensures
        spec_acc(seq![light], Seq::<OcclusionData>::empty(), vp, px, py, ch) == channel_of(
            light.color,
            ch,
        ) * light.intensity * UNIT,
        0 <= ch < 3 ==> spec_pixel_byte(seq![light], Seq::<OcclusionData>::empty(), vp, px, py, ch)
            == spec_channel_byte(channel_of(light.color, ch) * light.intensity * UNIT),
{
    let lights = seq![light];
    let occs = Seq::<OcclusionData>::empty();
    assert(spec_shadow_geometry(light, occs, vp) =~= Seq::<crate::shadow::ShadowVertex>::empty());
    assert(spec_light_mask(light, occs, vp, px, py) == UNIT);
    assert(lights.drop_last() =~= Seq::<LightData>::empty());
    assert(lights.last() == light);
    assert(spec_acc(lights.drop_last(), occs, vp, px, py, ch) == 0);
}

/// A brighter light never darkens a pixel: with one light and no occluders,
/// the output byte is monotone in the light's intensity.
pub proof fn lemma_intensity_monotone(c: int, i1: int, i2: int)
    requires
        0 <= c,
        0 <= i1 <= i2,
    ensures
        spec_channel_byte(c * i1 * UNIT) <= spec_channel_byte(c * i2 * UNIT),
{
    let k = UNIT * UNIT * UNIT;
    assert(0 <= c * i1 * UNIT <= c * i2 * UNIT) by (nonlinear_arith)
        requires
            0 <= c,
            0 <= i1 <= i2,
    ;
    let s1 = c * i1 * UNIT * 255;
    let s2 = c * i2 * UNIT * 255;
    assert(0 <= s1 <= s2);
    vstd::arithmetic::div_mod::lemma_div_is_ordered(s1, s2, k);
    vstd::arithmetic::div_mod::lemma_div_pos_is_pos(s1, k);
}

/// An occluder both of whose endpoint rays miss the viewport box for every
/// light of the frame leaves the whole lightmap unchanged: culling such an
/// occluder is invisible in the output. (Per light, the same already holds of
/// the shadow geometry itself: see
/// `lemma_culled_occluder_contributes_nothing`.)
pub proof fn lemma_offscreen_occluder_invisible(
    lights: Seq<LightData>,
    occs: Seq<OcclusionData>,
    vp: Viewport,
    i: int,
)
    requires
        0 <= i < occs.len(),
        forall|j: int| 0 <= j < lights.len() ==> !spec_included(#[trigger] lights[j], occs[i], vp),
    ensures
        spec_lightmap(lights, occs, vp) == spec_lightmap(lights, occs.remove(i), vp),
{
    assert forall|j: int, px: int, py: int|
        0 <= j < lights.len() implies #[trigger] spec_light_mask(lights[j], occs, vp, px, py)
        == spec_light_mask(lights[j], occs.remove(i), vp, px, py) by {
        lemma_culled_occluder_contributes_nothing(lights[j], occs, vp, i);
    }
    lemma_lightmap_occs_equiv(lights, occs, occs.remove(i), vp);
}

/// If every light of the list sees the same shadow mask over two occluder
/// lists at one pixel, the accumulated channel there is the same.
proof fn lemma_acc_occs_equiv(
    lights: Seq<LightData>,
    occs1: Seq<OcclusionData>,
    occs2: Seq<OcclusionData>,
    vp: Viewport,
    px: int,
    py: int,
    ch: int,
)
    requires
        forall|j: int|
            0 <= j < lights.len() ==> spec_light_mask(#[trigger] lights[j], occs1, vp, px, py)
                == spec_light_mask(lights[j], occs2, vp, px, py),
    ensures
        spec_acc(lights, occs1, vp, px, py, ch) == spec_acc(lights, occs2, vp, px, py, ch),
    decreases lights.len(),
{
    if lights.len() > 0 {
        assert(forall|j: int|
            0 <= j < lights.drop_last().len() ==> #[trigger] lights.drop_last()[j] == lights[j]);
        lemma_acc_occs_equiv(lights.drop_last(), occs1, occs2, vp, px, py, ch);
        assert(spec_light_mask(lights.last(), occs1, vp, px, py) == spec_light_mask(
            lights.last(),
            occs2,
            vp,
            px,
            py,
        ));
    }
}

/// If every light of the list sees the same shadow mask over two occluder
/// lists at every pixel, the whole lightmap is the same.
proof fn lemma_lightmap_occs_equiv(
    lights: Seq<LightData>,
    occs1: Seq<OcclusionData>,
    occs2: Seq<OcclusionData>,
    vp: Viewport,
)
    requires
        forall|j: int, px: int, py: int|
            0 <= j < lights.len() ==> #[trigger] spec_light_mask(lights[j], occs1, vp, px, py)
                == spec_light_mask(lights[j], occs2, vp, px, py),
    ensures
        spec_lightmap(lights, occs1, vp) == spec_lightmap(lights, occs2, vp),
{
    let a = spec_lightmap(lights, occs1, vp);
    let b = spec_lightmap(lights, occs2, vp);
    assert forall|i: int| 0 <= i < a.len() implies a[i] == b[i] by {
        let j = i / 4;
        let ch = i % 4;
        let w = vp.width_px as int;
        if ch != 3 {
            lemma_acc_occs_equiv(lights, occs1, occs2, vp, j % w, j / w, ch);
        }
        assert(a[i] == spec_byte_at(lights, occs1, vp, i));
        assert(b[i] == spec_byte_at(lights, occs2, vp, i));
    }
    assert(a =~= b);
}

/// A skirt whose occluder blocks nothing (visibility zero) rasterizes to the
/// fully transmitting baseline everywhere: its shade is the baseline itself.
proof fn lemma_skirt_zero_vis_mask(
    light: LightData,
    occ: OcclusionData,
    vp: Viewport,
    pxn: int,
    pyn: int,
    w: int,
    h: int,
    dx: int,
    dy: int,
)
    requires
        occ.visibility == 0,
    ensures
        spec_mask(spec_skirt(light, occ, vp), pxn, pyn, w, h, dx, dy) == UNIT,
{
    let sk = spec_skirt(light, occ, vp);
    assert(sk.len() == 6);
    assert(sk[0].shade == UNIT);
    assert(sk.skip(3).len() == 3);
    assert(sk.skip(3)[0] == sk[3]);
    assert(sk[3].shade == UNIT);
    assert(sk.skip(3).skip(3).len() == 0);
    assert(spec_mask(sk.skip(3).skip(3), pxn, pyn, w, h, dx, dy) == UNIT);
    assert(spec_mask(sk.skip(3), pxn, pyn, w, h, dx, dy) == UNIT);
}

/// Removing a visibility-zero occluder does not change any light's shadow
/// mask at any pixel: such a skirt only ever writes the baseline, and the
/// strongest-attenuation rule lets it never darken anything.
proof fn lemma_light_mask_remove_zero_vis(
    light: LightData,
    occs: Seq<OcclusionData>,
    vp: Viewport,
    i: int,
    px: int,
    py: int,
)
    requires
        light.wf(),
        vp.wf(),
        forall|j: int| 0 <= j < occs.len() ==> (#[trigger] occs[j]).wf(),
        0 <= i < occs.len(),
        occs[i].visibility == 0,
    ensures
        spec_light_mask(light, occs, vp, px, py) == spec_light_mask(
            light,
            occs.remove(i),
            vp,
            px,
            py,
        ),
    decreases occs.len(),
{
    let w = vp.width_px as int;
    let h = vp.height_px as int;
    let dx = vp.half_win.x as int;
    let dy = vp.half_win.y as int;
    let pxn = px_num(px, w);
    let pyn = py_num(py, h);
    let dl = occs.drop_last();
    assert(forall|j: int| 0 <= j < dl.len() ==> (#[trigger] dl[j]).wf());
    let gdl = spec_shadow_geometry(light, dl, vp);
    lemma_geometry_mod3(light, dl, vp);
    lemma_geometry_wf(light, dl, vp);
    if i == occs.len() - 1 {
        assert(occs.remove(i) =~= dl);
        if spec_included(light, occs.last(), vp) {
            let sk = spec_skirt(light, occs.last(), vp);
            lemma_skirt_wf(light, occs.last(), vp);
            lemma_mask_concat(gdl, sk, pxn, pyn, w, h, dx, dy);
            lemma_skirt_zero_vis_mask(light, occs.last(), vp, pxn, pyn, w, h, dx, dy);
            lemma_mask_bounds(gdl, pxn, pyn, w, h, dx, dy);
        } else {
            assert(gdl + Seq::<ShadowVertex>::empty() =~= gdl);
        }
    } else {
        assert(occs.remove(i).drop_last() =~= dl.remove(i));
        assert(occs.remove(i).last() == occs.last());
        lemma_light_mask_remove_zero_vis(light, dl, vp, i, px, py);
        let gdlr = spec_shadow_geometry(light, dl.remove(i), vp);
        assert(forall|j: int| 0 <= j < dl.remove(i).len() ==> (#[trigger] dl.remove(i)[j]).wf())
            by {
            assert forall|j: int| 0 <= j < dl.remove(i).len() implies (#[trigger] dl.remove(
                i,
            )[j]).wf() by {
                if j < i {
                    assert(dl.remove(i)[j] == dl[j]);
                } else {
                    assert(dl.remove(i)[j] == dl[j + 1]);
                }
            }
        }
        lemma_geometry_mod3(light, dl.remove(i), vp);
        lemma_geometry_wf(light, dl.remove(i), vp);
        if spec_included(light, occs.last(), vp) {
            let sk = spec_skirt(light, occs.last(), vp);
            lemma_skirt_wf(light, occs.last(), vp);
            lemma_mask_concat(gdl, sk, pxn, pyn, w, h, dx, dy);
            lemma_mask_concat(gdlr, sk, pxn, pyn, w, h, dx, dy);
        } else {
            assert(gdl + Seq::<ShadowVertex>::empty() =~= gdl);
            assert(gdlr + Seq::<ShadowVertex>::empty() =~= gdlr);
        }
    }
}

/// A visibility-zero occluder never darkens the output: removing it yields a
/// byte-identical lightmap, for any lights and any other occluders.
pub proof fn lemma_zero_visibility_occluder_no_effect(
    lights: Seq<LightData>,
    occs: Seq<OcclusionData>,
    vp: Viewport,
    i: int,
)
    requires
        vp.wf(),
        forall|j: int| 0 <= j < lights.len() ==> (#[trigger] lights[j]).wf(),
        forall|j: int| 0 <= j < occs.len() ==> (#[trigger] occs[j]).wf(),
        0 <= i < occs.len(),
        occs[i].visibility == 0,
    ensures
        spec_lightmap(lights, occs, vp) == spec_lightmap(lights, occs.remove(i), vp),
{
    assert forall|j: int, px: int, py: int|
        0 <= j < lights.len() implies #[trigger] spec_light_mask(lights[j], occs, vp, px, py)
        == spec_light_mask(lights[j], occs.remove(i), vp, px, py) by {
        lemma_light_mask_remove_zero_vis(lights[j], occs, vp, i, px, py);
    }
    lemma_lightmap_occs_equiv(lights, occs, occs.remove(i), vp);
}

/// A fully opaque occluder kept by the cull forces the light's mask to zero
/// at every pixel one of its skirt triangles covers: no light passes, so the
/// light's contribution to every channel of that pixel is zero.
pub proof fn lemma_opaque_occluder_blocks(
    light: LightData,
    occs: Seq<OcclusionData>,
    vp: Viewport,
    i: int,
    px: int,
    py: int,
    ch: int,
)
    requires
        light.wf(),
        vp.wf(),
        forall|j: int| 0 <= j < occs.len() ==> (#[trigger] occs[j]).wf(),
        0 <= i < occs.len(),
        occs[i].visibility == UNIT,
        spec_included(light, occs[i], vp),
        ({
            let sk = spec_skirt(light, occs[i], vp);
            let w = vp.width_px as int;
            let h = vp.height_px as int;
            ||| spec_covers(
                sk[0],
                sk[1],
                sk[2],
                px_num(px, w),
                py_num(py, h),
                w,
                h,
                vp.half_win.x as int,
                vp.half_win.y as int,
            )
            ||| spec_covers(
                sk[3],
                sk[4],
                sk[5],
                px_num(px, w),
                py_num(py, h),
                w,
                h,
                vp.half_win.x as int,
                vp.half_win.y as int,
            )
        }),
    ensures
        spec_light_mask(light, occs, vp, px, py) == 0,
        spec_term(light, occs, vp, px, py, ch) == 0,
    decreases occs.len(),
{
    let w = vp.width_px as int;
    let h = vp.height_px as int;
    let dx = vp.half_win.x as int;
    let dy = vp.half_win.y as int;
    let pxn = px_num(px, w);
    let pyn = py_num(py, h);
    let dl = occs.drop_last();
    assert(forall|j: int| 0 <= j < dl.len() ==> (#[trigger] dl[j]).wf());
    let gdl = spec_shadow_geometry(light, dl, vp);
    lemma_geometry_mod3(light, dl, vp);
    lemma_geometry_wf(light, dl, vp);
    lemma_mask_bounds(gdl, pxn, pyn, w, h, dx, dy);
    if i == occs.len() - 1 {
        let sk = spec_skirt(light, occs[i], vp);
        lemma_skirt_wf(light, occs[i], vp);
        lemma_mask_concat(gdl, sk, pxn, pyn, w, h, dx, dy);
        lemma_mask_bounds(sk, pxn, pyn, w, h, dx, dy);
        assert(sk[0].shade == 0);
        assert(sk[3].shade == 0);
        if spec_covers(sk[0], sk[1], sk[2], pxn, pyn, w, h, dx, dy) {
            lemma_mask_le_covering(sk, 0, pxn, pyn, w, h, dx, dy);
        } else {
            assert(sk[3int * 1] == sk[3int] && sk[3int * 1 + 1] == sk[4int] && sk[3int * 1 + 2] == sk[5int]);
            lemma_mask_le_covering(sk, 1, pxn, pyn, w, h, dx, dy);
        }
        assert(spec_mask(sk, pxn, pyn, w, h, dx, dy) == 0);
    } else {
        lemma_opaque_occluder_blocks(light, dl, vp, i, px, py, ch);
        if spec_included(light, occs.last(), vp) {
            let sk = spec_skirt(light, occs.last(), vp);
            lemma_skirt_wf(light, occs.last(), vp);
            lemma_mask_concat(gdl, sk, pxn, pyn, w, h, dx, dy);
            lemma_mask_bounds(sk, pxn, pyn, w, h, dx, dy);
        } else {
            assert(gdl + Seq::<ShadowVertex>::empty() =~= gdl);
        }
    }
    assert(channel_of(light.color, ch) * light.intensity * 0 == 0) by (nonlinear_arith);
}

/// Splitting one light out of the accumulation: the sum over the list is the
/// sum without light `j` plus light `j`'s own term.
proof fn lemma_acc_remove(
    lights: Seq<LightData>,
    occs: Seq<OcclusionData>,
    vp: Viewport,
    px: int,
    py: int,
    ch: int,
    j: int,
)
    requires
        0 <= j < lights.len(),
    ensures
        spec_acc(lights, occs, vp, px, py, ch) == spec_acc(lights.remove(j), occs, vp, px, py, ch)
            + spec_term(lights[j], occs, vp, px, py, ch),
    decreases lights.len(),
{
    if j == lights.len() - 1 {
        assert(lights.remove(j) =~= lights.drop_last());
    } else {
        assert(lights.remove(j).drop_last() =~= lights.drop_last().remove(j));
        assert(lights.remove(j).last() == lights.last());
        lemma_acc_remove(lights.drop_last(), occs, vp, px, py, ch, j);
    }
}

/// The accumulated channel is the same over any reordering of the lights: the
/// sum is over a multiset, not a sequence.
proof fn lemma_acc_permutation(
    lights1: Seq<LightData>,
    lights2: Seq<LightData>,
    occs: Seq<OcclusionData>,
    vp: Viewport,
    px: int,
    py: int,
    ch: int,
)
    requires
        lights1.to_multiset() == lights2.to_multiset(),
    ensures
        spec_acc(lights1, occs, vp, px, py, ch) == spec_acc(lights2, occs, vp, px, py, ch),
    decreases lights1.len(),
{
    broadcast use vstd::seq_lib::group_to_multiset_ensures;

    if lights1.len() == 0 {
        assert(lights1.to_multiset().len() == 0);
        assert(lights2.len() == 0);
    } else {
        let x = lights1.last();
        assert(lights1.contains(x));
        assert(lights1.to_multiset().count(x) > 0);
        assert(lights2.to_multiset().count(x) > 0);
        assert(lights2.contains(x));
        let j = choose|j: int| 0 <= j < lights2.len() && lights2[j] == x;
        lemma_acc_remove(lights2, occs, vp, px, py, ch, j);
        assert(lights1.drop_last() =~= lights1.remove(lights1.len() - 1));
        assert(lights1.remove(lights1.len() - 1).to_multiset() =~= lights1.to_multiset().remove(
            x,
        ));
        assert(lights2.remove(j).to_multiset() =~= lights2.to_multiset().remove(x));
        lemma_acc_permutation(
            lights1.drop_last(),
            lights2.remove(j),
            occs,
            vp,
            px,
            py,
            ch,
        );
    }
}

/// Permuting the light list does not change the lightmap: the additive
/// accumulation is order-independent, and the reference semantics applies no
/// positional finishing step (the last-light flag is plumbing for backends,
/// with no effect on the composited values).
pub proof fn lemma_light_order_irrelevant(
    lights1: Seq<LightData>,
    lights2: Seq<LightData>,
    occs: Seq<OcclusionData>,
    vp: Viewport,
)
    requires
        lights1.to_multiset() == lights2.to_multiset(),
    ensures
        spec_lightmap(lights1, occs, vp) == spec_lightmap(lights2, occs, vp),
{
    let a = spec_lightmap(lights1, occs, vp);
    let b = spec_lightmap(lights2, occs, vp);
    assert forall|i: int| 0 <= i < a.len() implies a[i] == b[i] by {
        let j = i / 4;
        let ch = i % 4;
        let w = vp.width_px as int;
        if ch != 3 {
            lemma_acc_permutation(lights1, lights2, occs, vp, j % w, j / w, ch);
        }
        assert(a[i] == spec_byte_at(lights1, occs, vp, i));
        assert(b[i] == spec_byte_at(lights2, occs, vp, i));
    }
    assert(a =~= b);
}

} // verus!
