use vstd::prelude::*;
use crate::point::WorldPoint;
use crate::units::COORD_MAX;

verus! {

/// Mathematical model of one slab-test parameter: the ratio of a coordinate
/// difference to a ray-direction component. Dividing by a zero component
/// produces an infinity, and dividing zero by zero produces `Nan`, exactly as
/// IEEE division of finite values does; the culling test must tolerate both.
pub enum ExtVal {
    Finite { num: int, den: int },
    PosInf,
    NegInf,
    Nan,
}

impl ExtVal {
    pub open spec fn is_nan(self) -> bool {
        self is Nan
    }
}

/// The value `delta / d` as IEEE division of finite operands gives it:
/// a finite ratio when `d` is not zero, a signed infinity when only `delta`
/// is not zero, and `Nan` for zero over zero. Finite ratios keep a positive
/// denominator.
pub open spec fn ext_div(delta: int, d: int) -> ExtVal {
    if d > 0 {
        ExtVal::Finite { num: delta, den: d }
    } else if d < 0 {
        ExtVal::Finite { num: -delta, den: -d }
    } else if delta > 0 {
        ExtVal::PosInf
    } else if delta < 0 {
        ExtVal::NegInf
    } else {
        ExtVal::Nan
    }
}

/// Strict order on extended values. Any comparison involving `Nan` is false;
/// the infinities compare as usual; finite ratios (with positive
/// denominators) compare by cross-multiplication.
pub open spec fn ext_lt(a: ExtVal, b: ExtVal) -> bool {
    match a {
        ExtVal::Nan => false,
        ExtVal::PosInf => false,
        ExtVal::NegInf => match b {
            ExtVal::Nan => false,
            ExtVal::NegInf => false,
            _ => true,
        },
        ExtVal::Finite { num: an, den: ad } => match b {
            ExtVal::Nan => false,
            ExtVal::PosInf => true,
            ExtVal::NegInf => false,
            ExtVal::Finite { num: bn, den: bd } => an * bd < bn * ad,
        },
    }
}

/// The larger of two extended values, NaN-tolerant: a comparison against
/// `Nan` returns the other operand, and two `Nan`s return the second.
/// For ordinary values the second operand is returned when they are equal.
pub open spec fn ext_max(a: ExtVal, b: ExtVal) -> ExtVal {
    if a.is_nan() {
        b
    } else if b.is_nan() {
        a
    } else if ext_lt(b, a) {
        a
    } else {
        b
    }
}

/// The smaller of two extended values, NaN-tolerant in the same way as
/// `ext_max`.
pub open spec fn ext_min(a: ExtVal, b: ExtVal) -> ExtVal {
    if a.is_nan() {
        b
    } else if b.is_nan() {
        a
    } else if ext_lt(a, b) {
        a
    } else {
        b
    }
}

/// The slab-method ray–box intersection test, stated over extended values:
/// entry and exit parameters are computed per axis, and the ray meets the box
/// exactly when the latest entry lies strictly before the earliest exit.
pub open spec fn spec_intersect_aabb(
    ray_origin: WorldPoint,
    ray_dir: WorldPoint,
    box_min: WorldPoint,
    box_max: WorldPoint,
) -> bool {
    let t_min_x = ext_div(box_min.x - ray_origin.x, ray_dir.x as int);
    let t_min_y = ext_div(box_min.y - ray_origin.y, ray_dir.y as int);
    let t_max_x = ext_div(box_max.x - ray_origin.x, ray_dir.x as int);
    let t_max_y = ext_div(box_max.y - ray_origin.y, ray_dir.y as int);
    let t1_x = ext_min(t_min_x, t_max_x);
    let t1_y = ext_min(t_min_y, t_max_y);
    let t2_x = ext_max(t_min_x, t_max_x);
    let t2_y = ext_max(t_min_y, t_max_y);
    let t_near = ext_max(t1_x, t1_y);
    let t_far = ext_min(t2_x, t2_y);
    ext_lt(t_near, t_far)
}

/// Executable extended value. The numerator and denominator stay small enough
/// that cross-multiplication never overflows 128-bit arithmetic.
#[derive(Clone, Copy, Debug)]
pub enum Ext {
    Finite { num: i64, den: i64 },
    PosInf,
    NegInf,
    Nan,
}

/// Bound within which executable extended values keep their numerator and
/// denominator.
pub const EXT_BOUND: i64 = 0x4000_0000_0000_0000;

impl Ext {
    /// The mathematical value this executable value stands for.
    pub open spec fn model(self) -> ExtVal {
        match self {
            Ext::Finite { num, den } => ExtVal::Finite { num: num as int, den: den as int },
            Ext::PosInf => ExtVal::PosInf,
            Ext::NegInf => ExtVal::NegInf,
            Ext::Nan => ExtVal::Nan,
        }
    }

    /// Well-formed: a positive, bounded denominator and a bounded numerator.
    pub open spec fn wf(self) -> bool {
        match self {
            Ext::Finite { num, den } => 0 < den <= EXT_BOUND && -EXT_BOUND <= num <= EXT_BOUND,
            _ => true,
        }
    }

    pub fn is_nan(&self) -> (r: bool)
        ensures
            r == self.model().is_nan(),
    {
        match self {
            Ext::Nan => true,
            _ => false,
        }
    }
}

/// `delta / d` over the executable extended values.
pub fn div_ext(delta: i64, d: i64) -> (r: Ext)
    requires
        -EXT_BOUND <= delta <= EXT_BOUND,
        -EXT_BOUND <= d <= EXT_BOUND,
    ensures
        r.model() == ext_div(delta as int, d as int),
        r.wf(),
{
    if d > 0 {
        Ext::Finite { num: delta, den: d }
    } else if d < 0 {
        Ext::Finite { num: -delta, den: -d }
    } else if delta > 0 {
        Ext::PosInf
    } else if delta < 0 {
        Ext::NegInf
    } else {
        Ext::Nan
    }
}

/// Strict comparison of two executable extended values.
pub fn ext_lt_exec(a: Ext, b: Ext) -> (r: bool)
    requires
        a.wf(),
        b.wf(),
    ensures
        r == ext_lt(a.model(), b.model()),
{
    match a {
        Ext::Nan => false,
        Ext::PosInf => false,
        Ext::NegInf => match b {
            Ext::Nan => false,
            Ext::NegInf => false,
            _ => true,
        },
        Ext::Finite { num: an, den: ad } => match b {
            Ext::Nan => false,
            Ext::PosInf => true,
            Ext::NegInf => false,
            Ext::Finite { num: bn, den: bd } => {
                proof {
                    lemma_cross_mul_bound(an as int, bd as int);
                    lemma_cross_mul_bound(bn as int, ad as int);
                }
                (an as i128) * (bd as i128) < (bn as i128) * (ad as i128)
            },
        },
    }
}

/// Cross-multiplication of bounded 64-bit values stays far within the 128-bit
/// range.
proof fn lemma_cross_mul_bound(a: int, b: int)
    requires
        -EXT_BOUND <= a <= EXT_BOUND,
        -EXT_BOUND <= b <= EXT_BOUND,
    ensures
        -(EXT_BOUND * EXT_BOUND) <= a * b <= EXT_BOUND * EXT_BOUND,
{
    assert(-(EXT_BOUND * EXT_BOUND) <= a * b <= EXT_BOUND * EXT_BOUND) by (nonlinear_arith)
        requires
            -EXT_BOUND <= a <= EXT_BOUND,
            -EXT_BOUND <= b <= EXT_BOUND,
    ;
}

/// NaN-tolerant maximum: if one operand is `Nan` the other is returned
/// (the second, if both are); otherwise the larger operand.
pub fn max(a: Ext, b: Ext) -> (r: Ext)
    requires
        a.wf(),
        b.wf(),
    ensures
        r.model() == ext_max(a.model(), b.model()),
        r.wf(),
{
    if a.is_nan() {
        return b;
    }
    if b.is_nan() {
        return a;
    }
    if ext_lt_exec(b, a) {
        a
    } else {
        b
    }
}

/// NaN-tolerant minimum, the mirror image of `max`.
pub fn min(a: Ext, b: Ext) -> (r: Ext)
    requires
        a.wf(),
        b.wf(),
    ensures
        r.model() == ext_min(a.model(), b.model()),
        r.wf(),
{
    if a.is_nan() {
        return b;
    }
    if b.is_nan() {
        return a;
    }
    if ext_lt_exec(a, b) {
        a
    } else {
        b
    }
}

/// A pair of extended values, one per axis.
#[derive(Clone, Copy, Debug)]
pub struct Ext2 {
    pub x: Ext,
    pub y: Ext,
}

impl Ext2 {
    pub open spec fn wf(self) -> bool {
        self.x.wf() && self.y.wf()
    }
}

/// Componentwise NaN-tolerant maximum.
pub fn max_vec2(a: Ext2, b: Ext2) -> (r: Ext2)
    requires
        a.wf(),
        b.wf(),
    ensures
        r.x.model() == ext_max(a.x.model(), b.x.model()),
        r.y.model() == ext_max(a.y.model(), b.y.model()),
        r.wf(),
{
    Ext2 { x: max(a.x, b.x), y: max(a.y, b.y) }
}

/// Componentwise NaN-tolerant minimum.
pub fn min_vec2(a: Ext2, b: Ext2) -> (r: Ext2)
    requires
        a.wf(),
        b.wf(),
    ensures
        r.x.model() == ext_min(a.x.model(), b.x.model()),
        r.y.model() == ext_min(a.y.model(), b.y.model()),
        r.wf(),
{
    Ext2 { x: min(a.x, b.x), y: min(a.y, b.y) }
}

/// Whether the ray from `ray_origin` along `ray_dir` meets the axis-aligned
/// box, by the slab method. Degenerate rays — a zero direction component, or
/// a zero direction altogether — are handled by the extended values: they
/// produce infinities or `Nan`, never a fault.
pub fn intersect_aabb(
    ray_origin: WorldPoint,
    ray_dir: WorldPoint,
    box_min: WorldPoint,
    box_max: WorldPoint,
) -> (r: bool)
    requires
        in_world(ray_origin),
        in_world(box_min),
        in_world(box_max),
        -2 * COORD_MAX <= ray_dir.x <= 2 * COORD_MAX,
        -2 * COORD_MAX <= ray_dir.y <= 2 * COORD_MAX,
    ensures
        r == spec_intersect_aabb(ray_origin, ray_dir, box_min, box_max),
{
    let t_min = Ext2 {
        x: div_ext(box_min.x - ray_origin.x, ray_dir.x),
        y: div_ext(box_min.y - ray_origin.y, ray_dir.y),
    };
    let t_max = Ext2 {
        x: div_ext(box_max.x - ray_origin.x, ray_dir.x),
        y: div_ext(box_max.y - ray_origin.y, ray_dir.y),
    };
    let t1 = min_vec2(t_min, t_max);
    let t2 = max_vec2(t_min, t_max);
    let t_near = max(t1.x, t1.y);
    let t_far = min(t2.x, t2.y);
    ext_lt_exec(t_near, t_far)
}

/// Whether a point lies within the world-coordinate bound.
pub open spec fn in_world(p: WorldPoint) -> bool {
    -COORD_MAX <= p.x <= COORD_MAX && -COORD_MAX <= p.y <= COORD_MAX
}

} // verus!
