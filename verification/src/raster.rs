use vstd::prelude::*;
use crate::shadow::ShadowVertex;
use crate::units::{COORD_MAX, MAX_DIM, UNIT};

verus! {

/// Numerator of a pixel column's centre in NDC; the denominator is the raster
/// width. Column zero is the left edge, near minus one.
pub open spec fn px_num(px: int, w: int) -> int {
    2 * px + 1 - w
}

/// Numerator of a pixel row's centre in NDC; the denominator is the raster
/// height. Row zero is the top edge, near plus one.
pub open spec fn py_num(py: int, h: int) -> int {
    h - 2 * py - 1
}

/// The edge function of the directed edge from `a` to `b` against the centre
/// of the pixel with NDC numerators `(pxn / w, pyn / h)`: the cross product
/// of `b - a` with `p - a`, multiplied through by the positive factor
/// `dx * dy * w * h` so that it is an exact integer. Its sign tells which
/// side of the edge the pixel centre lies on.
pub open spec fn spec_edge(
    a: ShadowVertex,
    b: ShadowVertex,
    pxn: int,
    pyn: int,
    w: int,
    h: int,
    dx: int,
    dy: int,
) -> int {
    (b.x - a.x) * (pyn * dy - a.y * h) * w - (b.y - a.y) * (pxn * dx - a.x * w) * h
}

/// Whether the triangle `(a, b, c)` covers the pixel centre: all three edge
/// functions on one side (either winding), boundaries included. A degenerate
/// (collinear) triangle covers only pixel centres exactly on its line.
pub open spec fn spec_covers(
    a: ShadowVertex,
    b: ShadowVertex,
    c: ShadowVertex,
    pxn: int,
    pyn: int,
    w: int,
    h: int,
    dx: int,
    dy: int,
) -> bool {
    let e0 = spec_edge(a, b, pxn, pyn, w, h, dx, dy);
    let e1 = spec_edge(b, c, pxn, pyn, w, h, dx, dy);
    let e2 = spec_edge(c, a, pxn, pyn, w, h, dx, dy);
    (e0 >= 0 && e1 >= 0 && e2 >= 0) || (e0 <= 0 && e1 <= 0 && e2 <= 0)
}

/// The shadow mask of one light at one pixel: the vertex list is read as a
/// triangle list (each triangle's shade is its first vertex's), and the
/// strongest attenuation among the triangles covering the pixel wins, from a
/// fully transmitting baseline of `UNIT`. Trailing vertices that do not fill
/// a triangle are ignored.
pub open spec fn spec_mask(
    verts: Seq<ShadowVertex>,
    pxn: int,
    pyn: int,
    w: int,
    h: int,
    dx: int,
    dy: int,
) -> int
    decreases verts.len(),
{
    if verts.len() < 3 {
        UNIT as int
    } else {
        let rest = spec_mask(verts.skip(3), pxn, pyn, w, h, dx, dy);
        if spec_covers(verts[0], verts[1], verts[2], pxn, pyn, w, h, dx, dy) && verts[0].shade
            < rest {
            verts[0].shade as int
        } else {
            rest
        }
    }
}

/// The mask stays within `[0, UNIT]` when every shade does.
pub proof fn lemma_mask_bounds(
    verts: Seq<ShadowVertex>,
    pxn: int,
    pyn: int,
    w: int,
    h: int,
    dx: int,
    dy: int,
)
    requires
        forall|i: int| 0 <= i < verts.len() ==> (#[trigger] verts[i]).wf(),
    ensures
        0 <= spec_mask(verts, pxn, pyn, w, h, dx, dy) <= UNIT,
    decreases verts.len(),
{
    if verts.len() >= 3 {
        assert(forall|i: int|
            0 <= i < verts.skip(3).len() ==> (#[trigger] verts.skip(3)[i]).wf());
        lemma_mask_bounds(verts.skip(3), pxn, pyn, w, h, dx, dy);
    }
}

/// Both factors bounded in magnitude bounds the product in magnitude.
pub proof fn lemma_mul_le(a: int, b: int, bound_a: int, bound_b: int)
    requires
        -bound_a <= a <= bound_a,
        -bound_b <= b <= bound_b,
        0 <= bound_a,
        0 <= bound_b,
    ensures
        -(bound_a * bound_b) <= a * b <= bound_a * bound_b,
{
    assert(-(bound_a * bound_b) <= a * b <= bound_a * bound_b) by (nonlinear_arith)
        requires
            -bound_a <= a <= bound_a,
            -bound_b <= b <= bound_b,
            0 <= bound_a,
            0 <= bound_b,
    ;
}

/// The edge function, evaluated exactly in 128-bit arithmetic.
pub fn edge_val(
    a: &ShadowVertex,
    b: &ShadowVertex,
    pxn: i64,
    pyn: i64,
    w: i64,
    h: i64,
    dx: i64,
    dy: i64,
) -> (r: i128)
    requires
        a.wf(),
        b.wf(),
        1 <= w <= MAX_DIM,
        1 <= h <= MAX_DIM,
        1 <= dx <= COORD_MAX,
        1 <= dy <= COORD_MAX,
        -w <= pxn <= w,
        -h <= pyn <= h,
    ensures
        r == spec_edge(*a, *b, pxn as int, pyn as int, w as int, h as int, dx as int, dy as int),
{
    let bax: i128 = (b.x as i128) - (a.x as i128);
    let bay: i128 = (b.y as i128) - (a.y as i128);
    proof {
        lemma_mul_le(pyn as int, dy as int, MAX_DIM as int, COORD_MAX as int);
        lemma_mul_le(a.y as int, h as int, 8 * COORD_MAX, MAX_DIM as int);
        lemma_mul_le(pxn as int, dx as int, MAX_DIM as int, COORD_MAX as int);
        lemma_mul_le(a.x as int, w as int, 8 * COORD_MAX, MAX_DIM as int);
    }
    let f1: i128 = (pyn as i128) * (dy as i128) - (a.y as i128) * (h as i128);
    let f2: i128 = (pxn as i128) * (dx as i128) - (a.x as i128) * (w as i128);
    proof {
        lemma_mul_le(bax as int, f1 as int, 8 * COORD_MAX, 16 * COORD_MAX * MAX_DIM as int);
        lemma_mul_le(bay as int, f2 as int, 8 * COORD_MAX, 16 * COORD_MAX * MAX_DIM as int);
    }
    let t1: i128 = bax * f1;
    let t2: i128 = bay * f2;
    proof {
        lemma_mul_le(
            t1 as int,
            w as int,
            128 * COORD_MAX * COORD_MAX * MAX_DIM as int,
            MAX_DIM as int,
        );
        lemma_mul_le(
            t2 as int,
            h as int,
            128 * COORD_MAX * COORD_MAX * MAX_DIM as int,
            MAX_DIM as int,
        );
    }
    t1 * (w as i128) - t2 * (h as i128)
}

/// Whether the triangle `(a, b, c)` covers the pixel centre.
pub fn covers(
    a: &ShadowVertex,
    b: &ShadowVertex,
    c: &ShadowVertex,
    pxn: i64,
    pyn: i64,
    w: i64,
    h: i64,
    dx: i64,
    dy: i64,
) -> (r: bool)
    requires
        a.wf(),
        b.wf(),
        c.wf(),
        1 <= w <= MAX_DIM,
        1 <= h <= MAX_DIM,
        1 <= dx <= COORD_MAX,
        1 <= dy <= COORD_MAX,
        -w <= pxn <= w,
        -h <= pyn <= h,
    ensures
        r == spec_covers(*a, *b, *c, pxn as int, pyn as int, w as int, h as int, dx as int, dy as int),
{
    let e0 = edge_val(a, b, pxn, pyn, w, h, dx, dy);
    let e1 = edge_val(b, c, pxn, pyn, w, h, dx, dy);
    let e2 = edge_val(c, a, pxn, pyn, w, h, dx, dy);
    (e0 >= 0 && e1 >= 0 && e2 >= 0) || (e0 <= 0 && e1 <= 0 && e2 <= 0)
}

/// The shadow mask of one light's geometry at one pixel.
pub fn mask_at(
    verts: &Vec<ShadowVertex>,
    pxn: i64,
    pyn: i64,
    w: i64,
    h: i64,
    dx: i64,
    dy: i64,
) -> (m: i64)
    requires
        forall|i: int| 0 <= i < verts@.len() ==> (#[trigger] verts@[i]).wf(),
        1 <= w <= MAX_DIM,
        1 <= h <= MAX_DIM,
        1 <= dx <= COORD_MAX,
        1 <= dy <= COORD_MAX,
        -w <= pxn <= w,
        -h <= pyn <= h,
    ensures
        m == spec_mask(verts@, pxn as int, pyn as int, w as int, h as int, dx as int, dy as int),
        0 <= m <= UNIT,
{
    let n_tris: usize = verts.len() / 3;
    let mut t: usize = n_tris;
    let mut m: i64 = UNIT;
    proof {
        vstd::arithmetic::div_mod::lemma_fundamental_div_mod(verts@.len() as int, 3);
        assert(verts@.skip(3 * (n_tris as int)).len() < 3);
    }
    while t > 0
        invariant
            t <= n_tris,
            n_tris == verts@.len() as int / 3,
            verts@.len() <= usize::MAX,
            3 * (n_tris as int) <= verts@.len(),
            forall|i: int| 0 <= i < verts@.len() ==> (#[trigger] verts@[i]).wf(),
            1 <= w <= MAX_DIM,
            1 <= h <= MAX_DIM,
            1 <= dx <= COORD_MAX,
            1 <= dy <= COORD_MAX,
            -w <= pxn <= w,
            -h <= pyn <= h,
            0 <= m <= UNIT,
            m == spec_mask(verts@.skip(3 * (t as int)), pxn as int, pyn as int, w as int, h as int, dx as int, dy as int),
        decreases t,
    {
        let base = 3 * (t - 1);
        let c = covers(&verts[base], &verts[base + 1], &verts[base + 2], pxn, pyn, w, h, dx, dy);
        let shade = verts[base].shade;
        proof {
            let k = 3 * ((t - 1) as int);
            let s = verts@.skip(k);
            assert(s.skip(3) =~= verts@.skip(k + 3));
            assert(s[0] == verts@[k]);
            assert(s[1] == verts@[k + 1]);
            assert(s[2] == verts@[k + 2]);
        }
        if c && shade < m {
            m = shade;
        }
        t = t - 1;
    }
    proof {
        assert(verts@.skip(0) =~= verts@);
    }
    m
}

/// The mask of two triangle lists drawn together is the stronger of their two
/// masks: concatenating geometry can only darken, and only as far as the
/// darker part.
pub proof fn lemma_mask_concat(
    a: Seq<ShadowVertex>,
    b: Seq<ShadowVertex>,
    pxn: int,
    pyn: int,
    w: int,
    h: int,
    dx: int,
    dy: int,
)
    requires
        a.len() % 3 == 0,
        forall|i: int| 0 <= i < a.len() ==> (#[trigger] a[i]).wf(),
        forall|i: int| 0 <= i < b.len() ==> (#[trigger] b[i]).wf(),
    ensures
        spec_mask(a + b, pxn, pyn, w, h, dx, dy) == if spec_mask(a, pxn, pyn, w, h, dx, dy)
            <= spec_mask(b, pxn, pyn, w, h, dx, dy) {
            spec_mask(a, pxn, pyn, w, h, dx, dy)
        } else {
            spec_mask(b, pxn, pyn, w, h, dx, dy)
        },
    decreases a.len(),
{
    if a.len() == 0 {
        assert(a + b =~= b);
        lemma_mask_bounds(b, pxn, pyn, w, h, dx, dy);
    } else {
        assert(a.len() >= 3);
        assert((a + b).skip(3) =~= a.skip(3) + b);
        assert((a + b)[0] == a[0]);
        assert((a + b)[1] == a[1]);
        assert((a + b)[2] == a[2]);
        assert(forall|i: int| 0 <= i < a.skip(3).len() ==> (#[trigger] a.skip(3)[i]).wf());
        lemma_mask_concat(a.skip(3), b, pxn, pyn, w, h, dx, dy);
    }
}

/// A covering triangle caps the mask at its own shade.
pub proof fn lemma_mask_le_covering(
    verts: Seq<ShadowVertex>,
    t: int,
    pxn: int,
    pyn: int,
    w: int,
    h: int,
    dx: int,
    dy: int,
)
    requires
        0 <= t,
        3 * t + 2 < verts.len(),
        spec_covers(verts[3 * t], verts[3 * t + 1], verts[3 * t + 2], pxn, pyn, w, h, dx, dy),
    ensures
        spec_mask(verts, pxn, pyn, w, h, dx, dy) <= verts[3 * t].shade,
    decreases t,
{
    if t > 0 {
        assert(verts.skip(3)[3 * (t - 1)] == verts[3 * t]);
        assert(verts.skip(3)[3 * (t - 1) + 1] == verts[3 * t + 1]);
        assert(verts.skip(3)[3 * (t - 1) + 2] == verts[3 * t + 2]);
        lemma_mask_le_covering(verts.skip(3), t - 1, pxn, pyn, w, h, dx, dy);
    }
}

} // verus!
