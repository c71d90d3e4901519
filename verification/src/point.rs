use vstd::prelude::*;

verus! {

/// The arithmetic a coordinate type must offer for `Point` to combine its
/// components. Each operation comes with a spec-level meaning and a
/// spec-level guard saying when the operation is defined (in range, divisor
/// not zero), so that `Point`'s own operations can carry exact contracts.
pub trait Numeric: Sized + Copy {
    /// Meaning of `add_val`.
    spec fn add_spec(self, rhs: Self) -> Self;

    /// Meaning of `sub_val`.
    spec fn sub_spec(self, rhs: Self) -> Self;

    /// Meaning of `mul_val`.
    spec fn mul_spec(self, rhs: Self) -> Self;

    /// Meaning of `div_val`.
    spec fn div_spec(self, rhs: Self) -> Self;

    /// When addition is defined.
    spec fn add_ok(self, rhs: Self) -> bool;

    /// When subtraction is defined.
    spec fn sub_ok(self, rhs: Self) -> bool;

    /// When multiplication is defined.
    spec fn mul_ok(self, rhs: Self) -> bool;

    /// When division is defined.
    spec fn div_ok(self, rhs: Self) -> bool;

    fn add_val(self, rhs: Self) -> (r: Self)
        requires
            self.add_ok(rhs),
        ensures
            r == self.add_spec(rhs),
    ;

    fn sub_val(self, rhs: Self) -> (r: Self)
        requires
            self.sub_ok(rhs),
        ensures
            r == self.sub_spec(rhs),
    ;

    fn mul_val(self, rhs: Self) -> (r: Self)
        requires
            self.mul_ok(rhs),
        ensures
            r == self.mul_spec(rhs),
    ;

    fn div_val(self, rhs: Self) -> (r: Self)
        requires
            self.div_ok(rhs),
        ensures
            r == self.div_spec(rhs),
    ;
}

impl Numeric for i64 {
    open spec fn add_spec(self, rhs: i64) -> i64 {
        (self + rhs) as i64
    }

    open spec fn sub_spec(self, rhs: i64) -> i64 {
        (self - rhs) as i64
    }

    open spec fn mul_spec(self, rhs: i64) -> i64 {
        (self * rhs) as i64
    }

    open spec fn div_spec(self, rhs: i64) -> i64 {
        crate::point::div_trunc(self as int, rhs as int) as i64
    }

    open spec fn add_ok(self, rhs: i64) -> bool {
        i64::MIN <= self + rhs <= i64::MAX
    }

    open spec fn sub_ok(self, rhs: i64) -> bool {
        i64::MIN <= self - rhs <= i64::MAX
    }

    open spec fn mul_ok(self, rhs: i64) -> bool {
        i64::MIN <= self * rhs <= i64::MAX
    }

    open spec fn div_ok(self, rhs: i64) -> bool {
        rhs != 0 && self != i64::MIN && rhs != i64::MIN
    }

    fn add_val(self, rhs: i64) -> (r: i64) {
        self + rhs
    }

    fn sub_val(self, rhs: i64) -> (r: i64) {
        self - rhs
    }

    fn mul_val(self, rhs: i64) -> (r: i64) {
        self * rhs
    }

    fn div_val(self, rhs: i64) -> (r: i64) {
        if rhs > 0 {
            if self >= 0 {
                self / rhs
            } else {
                -((-self) / rhs)
            }
        } else {
            if self >= 0 {
                -(self / (-rhs))
            } else {
                (-self) / (-rhs)
            }
        }
    }
}

/// Division that truncates toward zero (the meaning of `/` on machine
/// integers), written over mathematical integers: the magnitudes are divided
/// and the sign is put back.
pub open spec fn div_trunc(a: int, b: int) -> int {
    if b > 0 {
        if a >= 0 {
            a / b
        } else {
            -((-a) / b)
        }
    } else {
        if a >= 0 {
            -(a / (-b))
        } else {
            (-a) / (-b)
        }
    }
}

/// A 2D point (or vector) over any coordinate type with basic arithmetic.
/// Operations combine points componentwise.
#[derive(Clone, Copy, Debug, PartialEq, Eq, Hash)]
pub struct Point<T> where T: Numeric {
    pub x: T,
    pub y: T,
}

impl<T> Point<T> where T: Numeric {
    pub fn new(x: T, y: T) -> (r: Point<T>)
        ensures
            r.x == x,
            r.y == y,
    {
        Point { x, y }
    }

    /// Componentwise sum of two points.
    pub fn add(self, rhs: Point<T>) -> (r: Point<T>)
        requires
            self.x.add_ok(rhs.x),
            self.y.add_ok(rhs.y),
        ensures
            r.x == self.x.add_spec(rhs.x),
            r.y == self.y.add_spec(rhs.y),
    {
        Point { x: self.x.add_val(rhs.x), y: self.y.add_val(rhs.y) }
    }

    /// Componentwise difference of two points.
    pub fn sub(self, rhs: Point<T>) -> (r: Point<T>)
        requires
            self.x.sub_ok(rhs.x),
            self.y.sub_ok(rhs.y),
        ensures
            r.x == self.x.sub_spec(rhs.x),
            r.y == self.y.sub_spec(rhs.y),
    {
        Point { x: self.x.sub_val(rhs.x), y: self.y.sub_val(rhs.y) }
    }

    /// Componentwise product of two points.
    pub fn mul(self, rhs: Point<T>) -> (r: Point<T>)
        requires
            self.x.mul_ok(rhs.x),
            self.y.mul_ok(rhs.y),
        ensures
            r.x == self.x.mul_spec(rhs.x),
            r.y == self.y.mul_spec(rhs.y),
    {
        Point { x: self.x.mul_val(rhs.x), y: self.y.mul_val(rhs.y) }
    }

    /// Componentwise quotient of two points.
    pub fn div(self, rhs: Point<T>) -> (r: Point<T>)
        requires
            self.x.div_ok(rhs.x),
            self.y.div_ok(rhs.y),
        ensures
            r.x == self.x.div_spec(rhs.x),
            r.y == self.y.div_spec(rhs.y),
    {
        Point { x: self.x.div_val(rhs.x), y: self.y.div_val(rhs.y) }
    }

    /// Both components scaled by one value.
    pub fn scale(self, rhs: T) -> (r: Point<T>)
        requires
            self.x.mul_ok(rhs),
            self.y.mul_ok(rhs),
        ensures
            r.x == self.x.mul_spec(rhs),
            r.y == self.y.mul_spec(rhs),
    {
        Point { x: self.x.mul_val(rhs), y: self.y.mul_val(rhs) }
    }
}

impl Point<i64> {
    /// Linear interpolation between two points: `amount` is a fixed-point
    /// weight in `UNIT` units (`UNIT` gives `self`, zero gives `other`),
    /// each coordinate divided back with truncation toward zero.
    pub fn lerp(self, other: Point<i64>, amount: i64) -> (r: Point<i64>)
        requires
            0 <= amount <= crate::units::UNIT,
            -crate::units::COORD_MAX <= self.x <= crate::units::COORD_MAX,
            -crate::units::COORD_MAX <= self.y <= crate::units::COORD_MAX,
            -crate::units::COORD_MAX <= other.x <= crate::units::COORD_MAX,
            -crate::units::COORD_MAX <= other.y <= crate::units::COORD_MAX,
        ensures
            r.x == div_trunc(
                self.x * amount + other.x * (crate::units::UNIT - amount),
                crate::units::UNIT as int,
            ),
            r.y == div_trunc(
                self.y * amount + other.y * (crate::units::UNIT - amount),
                crate::units::UNIT as int,
            ),
    {
        proof {
            lemma_lerp_part_bound(self.x as int, amount as int);
            lemma_lerp_part_bound(self.y as int, amount as int);
            lemma_lerp_part_bound(other.x as int, crate::units::UNIT - amount);
            lemma_lerp_part_bound(other.y as int, crate::units::UNIT - amount);
        }
        let x: i64 = (self.x * amount + other.x * (crate::units::UNIT - amount)).div_val(
            crate::units::UNIT,
        );
        let y: i64 = (self.y * amount + other.y * (crate::units::UNIT - amount)).div_val(
            crate::units::UNIT,
        );
        Point { x, y }
    }
}

/// A coordinate weighted by an interpolation amount stays far within the
/// 64-bit range.
proof fn lemma_lerp_part_bound(x: int, amount: int)
    requires
        0 <= amount <= crate::units::UNIT,
        -crate::units::COORD_MAX <= x <= crate::units::COORD_MAX,
    ensures
        -(crate::units::COORD_MAX * crate::units::UNIT) <= x * amount <= crate::units::COORD_MAX
            * crate::units::UNIT,
{
    assert(-(crate::units::COORD_MAX * crate::units::UNIT) <= x * amount
        <= crate::units::COORD_MAX * crate::units::UNIT) by (nonlinear_arith)
        requires
            0 <= amount <= crate::units::UNIT,
            -crate::units::COORD_MAX <= x <= crate::units::COORD_MAX,
    ;
}

/// World-space and local-space positions throughout the lighting pipeline.
pub type WorldPoint = Point<i64>;

} // verus!
