use vstd::prelude::*;
use crate::point::{div_trunc, Numeric, Point, WorldPoint};
use crate::units::COORD_MAX;

verus! {

/// One whole unit of the fixed-point scale of a transform's linear part:
/// the identity transform has `TF_ONE` on the diagonal.
pub const TF_ONE: i64 = 65536;

/// Bound on the entries of a transform's linear part (sixteen whole units,
/// enough for any rotation combined with a scale of up to sixteen).
pub const MAT_MAX: i64 = 1048576;

/// Bound on the entries of a transform's translation.
pub const TRANS_MAX: i64 = 0x80_0000_0000;

/// Bound on local-space (untransformed) coordinates; applying a well-formed
/// transform to a point within this bound lands within the world bound.
pub const LOCAL_MAX: i64 = 0x4_0000_0000;

/// A 2D affine transform: a linear part in `TF_ONE` fixed-point units and a
/// translation in world units. Rotation, scaling and mirroring all fit in the
/// linear part; the entries of the identity are `(TF_ONE, 0, 0, TF_ONE)`.
#[derive(Clone, Copy, Debug)]
pub struct Transform2 {
    pub m00: i64,
    pub m01: i64,
    pub m10: i64,
    pub m11: i64,
    pub tx: i64,
    pub ty: i64,
}

impl Transform2 {
    /// Well-formed: bounded linear entries and translation.
    pub open spec fn wf(self) -> bool {
        &&& -MAT_MAX <= self.m00 <= MAT_MAX
        &&& -MAT_MAX <= self.m01 <= MAT_MAX
        &&& -MAT_MAX <= self.m10 <= MAT_MAX
        &&& -MAT_MAX <= self.m11 <= MAT_MAX
        &&& -TRANS_MAX <= self.tx <= TRANS_MAX
        &&& -TRANS_MAX <= self.ty <= TRANS_MAX
    }

    /// The x coordinate this transform sends `p` to.
    pub open spec fn apply_x(self, p: WorldPoint) -> int {
        div_trunc(self.m00 * p.x + self.m01 * p.y, TF_ONE as int) + self.tx
    }

    /// The y coordinate this transform sends `p` to.
    pub open spec fn apply_y(self, p: WorldPoint) -> int {
        div_trunc(self.m10 * p.x + self.m11 * p.y, TF_ONE as int) + self.ty
    }

    /// The point this transform sends `p` to.
    pub open spec fn spec_apply(self, p: WorldPoint) -> WorldPoint {
        Point { x: self.apply_x(p) as i64, y: self.apply_y(p) as i64 }
    }

    /// The identity transform.
    pub fn identity() -> (r: Transform2)
        ensures
            r.wf(),
            r.m00 == TF_ONE,
            r.m01 == 0,
            r.m10 == 0,
            r.m11 == TF_ONE,
            r.tx == 0,
            r.ty == 0,
    {
        Transform2 { m00: TF_ONE, m01: 0, m10: 0, m11: TF_ONE, tx: 0, ty: 0 }
    }

    /// A pure translation.
    pub fn from_translation(tx: i64, ty: i64) -> (r: Transform2)
        requires
            -TRANS_MAX <= tx <= TRANS_MAX,
            -TRANS_MAX <= ty <= TRANS_MAX,
        ensures
            r.wf(),
            r.m00 == TF_ONE,
            r.m01 == 0,
            r.m10 == 0,
            r.m11 == TF_ONE,
            r.tx == tx,
            r.ty == ty,
    {
        Transform2 { m00: TF_ONE, m01: 0, m10: 0, m11: TF_ONE, tx, ty }
    }

    /// Transform a local-space point to world space. The linear part is
    /// applied in fixed point (truncating toward zero, as the division of the
    /// machine does) and the translation is added; the result always lies
    /// within the world-coordinate bound.
    pub fn apply(&self, p: WorldPoint) -> (r: WorldPoint)
        requires
            self.wf(),
            in_local(p),
        ensures
            r == self.spec_apply(p),
            r.x == self.apply_x(p),
            r.y == self.apply_y(p),
            crate::ext::in_world(r),
    {
        proof {
            lemma_linear_part_bound(self.m00 as int, self.m01 as int, p.x as int, p.y as int);
            lemma_linear_part_bound(self.m10 as int, self.m11 as int, p.x as int, p.y as int);
        }
        let nx: i64 = self.m00 * p.x + self.m01 * p.y;
        let ny: i64 = self.m10 * p.x + self.m11 * p.y;
        let qx: i64 = nx.div_val(TF_ONE);
        let qy: i64 = ny.div_val(TF_ONE);
        proof {
            lemma_div_trunc_bound(nx as int, TF_ONE as int, MAT_MAX * 2 * LOCAL_MAX);
            lemma_div_trunc_bound(ny as int, TF_ONE as int, MAT_MAX * 2 * LOCAL_MAX);
        }
        Point { x: qx + self.tx, y: qy + self.ty }
    }
}

/// Whether a point lies within the local-coordinate bound.
pub open spec fn in_local(p: WorldPoint) -> bool {
    -LOCAL_MAX <= p.x <= LOCAL_MAX && -LOCAL_MAX <= p.y <= LOCAL_MAX
}

/// The linear combination of two bounded matrix entries with two bounded
/// local coordinates stays within the 64-bit range.
proof fn lemma_linear_part_bound(m0: int, m1: int, x: int, y: int)
    requires
        -MAT_MAX <= m0 <= MAT_MAX,
        -MAT_MAX <= m1 <= MAT_MAX,
        -LOCAL_MAX <= x <= LOCAL_MAX,
        -LOCAL_MAX <= y <= LOCAL_MAX,
    ensures
        -(MAT_MAX * LOCAL_MAX) <= m0 * x <= MAT_MAX * LOCAL_MAX,
        -(MAT_MAX * LOCAL_MAX) <= m1 * y <= MAT_MAX * LOCAL_MAX,
        -(MAT_MAX * 2 * LOCAL_MAX) <= m0 * x + m1 * y <= MAT_MAX * 2 * LOCAL_MAX,
{
    assert(-(MAT_MAX * LOCAL_MAX) <= m0 * x <= MAT_MAX * LOCAL_MAX) by (nonlinear_arith)
        requires
            -MAT_MAX <= m0 <= MAT_MAX,
            -LOCAL_MAX <= x <= LOCAL_MAX,
    ;
    assert(-(MAT_MAX * LOCAL_MAX) <= m1 * y <= MAT_MAX * LOCAL_MAX) by (nonlinear_arith)
        requires
            -MAT_MAX <= m1 <= MAT_MAX,
            -LOCAL_MAX <= y <= LOCAL_MAX,
    ;
}

/// Truncating division shrinks magnitude: a bound on the dividend, divided by
/// the divisor, bounds the quotient.
pub proof fn lemma_div_trunc_bound(a: int, b: int, m: int)
    requires
        b > 0,
        0 <= m,
        -m <= a <= m,
    ensures
        -(m / b) <= div_trunc(a, b) <= m / b,
{
    if a >= 0 {
        vstd::arithmetic::div_mod::lemma_div_is_ordered(a, m, b);
        vstd::arithmetic::div_mod::lemma_div_pos_is_pos(a, b);
        vstd::arithmetic::div_mod::lemma_div_pos_is_pos(m, b);
    } else {
        vstd::arithmetic::div_mod::lemma_div_is_ordered(-a, m, b);
        vstd::arithmetic::div_mod::lemma_div_pos_is_pos(-a, b);
        vstd::arithmetic::div_mod::lemma_div_pos_is_pos(m, b);
    }
}

} // verus!
