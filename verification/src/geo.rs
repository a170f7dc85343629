//! Vector algebra over the numeric kinds the renderer needs.
//!
//! Vectors are generic over [`VecNum`], an explicit arithmetic
//! capability implemented for the two integer kinds used here: `i32`
//! for pixel coordinates and `i64` for fixed-point quantities.

use vstd::prelude::*;

verus! {

/// One unit of the fixed-point scale used for fractional quantities
/// (object coordinates, depths, normalized texture coordinates):
/// 16 fractional bits.
pub const FP_ONE: i64 = 65536;

/// Largest magnitude accepted for an object-space or light-direction
/// fixed-point component (16 units of 4.2): keeps every cross and dot
/// product of such components exactly representable.
pub const OBJ_LIMIT: i64 = 16777216;

/// Largest magnitude accepted for a screen-space fixed-point x or y
/// component (2^18 pixels): keeps the truncated pixel coordinates, and
/// every edge-function product over them, exactly representable.
pub const SCREEN_LIMIT: i64 = 17179869184;

/// The arithmetic capability a vector component must offer: exact
/// addition, subtraction and multiplication, plus a conversion to
/// `i32`. Implemented individually for the kinds actually needed.
pub trait VecNum: Sized + Copy {
    /// The mathematical value of this number.
    spec fn as_int(self) -> int;

    /// Whether a mathematical integer is representable in this kind.
    spec fn in_range(x: int) -> bool;

    /// Every value of the kind is representable in it.
    proof fn lemma_in_range(self)
        ensures
            Self::in_range(self.as_int()),
    ;

    fn plus(self, other: Self) -> (r: Self)
        requires
            Self::in_range(self.as_int() + other.as_int()),
        ensures
            r.as_int() == self.as_int() + other.as_int(),
    ;

    fn minus(self, other: Self) -> (r: Self)
        requires
            Self::in_range(self.as_int() - other.as_int()),
        ensures
            r.as_int() == self.as_int() - other.as_int(),
    ;

    fn times(self, other: Self) -> (r: Self)
        requires
            Self::in_range(self.as_int() * other.as_int()),
        ensures
            r.as_int() == self.as_int() * other.as_int(),
    ;

    fn to_i32(self) -> (r: i32)
        requires
            i32::MIN <= self.as_int() <= i32::MAX,
        ensures
            r as int == self.as_int(),
    ;
}

impl VecNum for i32 {
    open spec fn as_int(self) -> int {
        self as int
    }

    open spec fn in_range(x: int) -> bool {
        i32::MIN <= x <= i32::MAX
    }

    proof fn lemma_in_range(self) {
    }

    fn plus(self, other: Self) -> (r: Self) {
        self + other
    }

    fn minus(self, other: Self) -> (r: Self) {
        self - other
    }

    fn times(self, other: Self) -> (r: Self) {
        self * other
    }

    fn to_i32(self) -> (r: i32) {
        self
    }
}

impl VecNum for i64 {
    open spec fn as_int(self) -> int {
        self as int
    }

    open spec fn in_range(x: int) -> bool {
        i64::MIN <= x <= i64::MAX
    }

    proof fn lemma_in_range(self) {
    }

    fn plus(self, other: Self) -> (r: Self) {
        self + other
    }

    fn minus(self, other: Self) -> (r: Self) {
        self - other
    }

    fn times(self, other: Self) -> (r: Self) {
        self * other
    }

    fn to_i32(self) -> (r: i32) {
        self as i32
    }
}

/// A two-component vector.
#[derive(Clone, Copy, Debug)]
pub struct Vec2<T: VecNum> {
    pub x: T,
    pub y: T,
}

impl<T: VecNum> Vec2<T> {
    pub fn new(x: T, y: T) -> (r: Self)
        ensures
            r.x == x,
            r.y == y,
    {
        Vec2 { x, y }
    }

    pub fn to_i32(self) -> (r: Vec2<i32>)
        requires
            i32::MIN <= self.x.as_int() <= i32::MAX,
            i32::MIN <= self.y.as_int() <= i32::MAX,
        ensures
            r.x as int == self.x.as_int(),
            r.y as int == self.y.as_int(),
    {
        Vec2 { x: self.x.to_i32(), y: self.y.to_i32() }
    }

    /// Component-wise addition.
    pub fn plus(self, other: Vec2<T>) -> (r: Vec2<T>)
        requires
            T::in_range(self.x.as_int() + other.x.as_int()),
            T::in_range(self.y.as_int() + other.y.as_int()),
        ensures
            r.x.as_int() == self.x.as_int() + other.x.as_int(),
            r.y.as_int() == self.y.as_int() + other.y.as_int(),
    {
        Vec2 { x: self.x.plus(other.x), y: self.y.plus(other.y) }
    }

    /// Component-wise subtraction.
    pub fn minus(self, other: Vec2<T>) -> (r: Vec2<T>)
        requires
            T::in_range(self.x.as_int() - other.x.as_int()),
            T::in_range(self.y.as_int() - other.y.as_int()),
        ensures
            r.x.as_int() == self.x.as_int() - other.x.as_int(),
            r.y.as_int() == self.y.as_int() - other.y.as_int(),
    {
        Vec2 { x: self.x.minus(other.x), y: self.y.minus(other.y) }
    }
}

/// A three-component vector.
#[derive(Clone, Copy, Debug)]
pub struct Vec3<T: VecNum> {
    pub x: T,
    pub y: T,
    pub z: T,
}

impl<T: VecNum> Vec3<T> {
    pub fn new(x: T, y: T, z: T) -> (r: Self)
        ensures
            r.x == x,
            r.y == y,
            r.z == z,
    {
        Vec3 { x, y, z }
    }

    /// The first three elements of a vector of components, in order.
    pub fn from_vec(vec: Vec<T>) -> (r: Self)
        requires
            vec@.len() >= 3,
        ensures
            r.x == vec@[0],
            r.y == vec@[1],
            r.z == vec@[2],
    {
        Vec3 { x: vec[0], y: vec[1], z: vec[2] }
    }

    pub fn to_i32(self) -> (r: Vec3<i32>)
        requires
            i32::MIN <= self.x.as_int() <= i32::MAX,
            i32::MIN <= self.y.as_int() <= i32::MAX,
            i32::MIN <= self.z.as_int() <= i32::MAX,
        ensures
            r.x as int == self.x.as_int(),
            r.y as int == self.y.as_int(),
            r.z as int == self.z.as_int(),
    {
        Vec3 { x: self.x.to_i32(), y: self.y.to_i32(), z: self.z.to_i32() }
    }

    /// The x and y components, dropping z.
    pub fn xy(self) -> (r: Vec2<T>)
        ensures
            r.x == self.x,
            r.y == self.y,
    {
        Vec2 { x: self.x, y: self.y }
    }

    /// Component-wise subtraction.
    pub fn minus(self, other: Vec3<T>) -> (r: Vec3<T>)
        requires
            T::in_range(self.x.as_int() - other.x.as_int()),
            T::in_range(self.y.as_int() - other.y.as_int()),
            T::in_range(self.z.as_int() - other.z.as_int()),
        ensures
            r.x.as_int() == self.x.as_int() - other.x.as_int(),
            r.y.as_int() == self.y.as_int() - other.y.as_int(),
            r.z.as_int() == self.z.as_int() - other.z.as_int(),
    {
        Vec3 { x: self.x.minus(other.x), y: self.y.minus(other.y), z: self.z.minus(other.z) }
    }

    /// Dot product: the sum of the component products.
    pub fn dot(self, other: Vec3<T>) -> (r: T)
        requires
            T::in_range(self.x.as_int() * other.x.as_int()),
            T::in_range(self.y.as_int() * other.y.as_int()),
            T::in_range(self.z.as_int() * other.z.as_int()),
            T::in_range(
                self.x.as_int() * other.x.as_int() + self.y.as_int() * other.y.as_int(),
            ),
            T::in_range(spec_dot(self, other)),
        ensures
            r.as_int() == spec_dot(self, other),
    {
        self.x.times(other.x).plus(self.y.times(other.y)).plus(self.z.times(other.z))
    }
}

/// The dot product of two vectors, as a mathematical integer.
pub open spec fn spec_dot<T: VecNum>(a: Vec3<T>, b: Vec3<T>) -> int {
    a.x.as_int() * b.x.as_int() + a.y.as_int() * b.y.as_int() + a.z.as_int() * b.z.as_int()
}

/// The components of the cross product of two vectors whose components
/// are the given mathematical integers, in the standard determinant
/// form.
pub open spec fn spec_cross(
    ax: int,
    ay: int,
    az: int,
    bx: int,
    by: int,
    bz: int,
) -> (int, int, int) {
    (ay * bz - az * by, az * bx - ax * bz, ax * by - ay * bx)
}

/// Cross product in the standard determinant form.
pub fn cross_product<T: VecNum>(a: Vec3<T>, b: Vec3<T>) -> (r: Vec3<T>)
    requires
        T::in_range(a.y.as_int() * b.z.as_int()),
        T::in_range(a.z.as_int() * b.y.as_int()),
        T::in_range(a.z.as_int() * b.x.as_int()),
        T::in_range(a.x.as_int() * b.z.as_int()),
        T::in_range(a.x.as_int() * b.y.as_int()),
        T::in_range(a.y.as_int() * b.x.as_int()),
        T::in_range(spec_cross(a.x.as_int(), a.y.as_int(), a.z.as_int(),
                b.x.as_int(), b.y.as_int(), b.z.as_int()).0),
        T::in_range(spec_cross(a.x.as_int(), a.y.as_int(), a.z.as_int(),
                b.x.as_int(), b.y.as_int(), b.z.as_int()).1),
        T::in_range(spec_cross(a.x.as_int(), a.y.as_int(), a.z.as_int(),
                b.x.as_int(), b.y.as_int(), b.z.as_int()).2),
    ensures
        r.x.as_int() == spec_cross(a.x.as_int(), a.y.as_int(), a.z.as_int(),
            b.x.as_int(), b.y.as_int(), b.z.as_int()).0,
        r.y.as_int() == spec_cross(a.x.as_int(), a.y.as_int(), a.z.as_int(),
            b.x.as_int(), b.y.as_int(), b.z.as_int()).1,
        r.z.as_int() == spec_cross(a.x.as_int(), a.y.as_int(), a.z.as_int(),
            b.x.as_int(), b.y.as_int(), b.z.as_int()).2,
{
    Vec3 {
        x: a.y.times(b.z).minus(a.z.times(b.y)),
        y: a.z.times(b.x).minus(a.x.times(b.z)),
        z: a.x.times(b.y).minus(a.y.times(b.x)),
    }
}

/// The cross product is anti-commutative: exchanging the arguments
/// negates every component, for all pairs of vectors.
pub proof fn lemma_cross_antisymmetric<T: VecNum>(a: Vec3<T>, b: Vec3<T>)
    ensures
        spec_cross(a.x.as_int(), a.y.as_int(), a.z.as_int(),
            b.x.as_int(), b.y.as_int(), b.z.as_int()).0
            == -spec_cross(b.x.as_int(), b.y.as_int(), b.z.as_int(),
                a.x.as_int(), a.y.as_int(), a.z.as_int()).0,
        spec_cross(a.x.as_int(), a.y.as_int(), a.z.as_int(),
            b.x.as_int(), b.y.as_int(), b.z.as_int()).1
            == -spec_cross(b.x.as_int(), b.y.as_int(), b.z.as_int(),
                a.x.as_int(), a.y.as_int(), a.z.as_int()).1,
        spec_cross(a.x.as_int(), a.y.as_int(), a.z.as_int(),
            b.x.as_int(), b.y.as_int(), b.z.as_int()).2
            == -spec_cross(b.x.as_int(), b.y.as_int(), b.z.as_int(),
                a.x.as_int(), a.y.as_int(), a.z.as_int()).2,
{
}

/// Bounds the magnitude of a product by a bound on the product of the
/// factor bounds.
pub proof fn lemma_mul_bound(x: int, y: int, bx: int, by: int, c: int)
    by (nonlinear_arith)
    requires
        -bx <= x <= bx,
        -by <= y <= by,
        0 <= bx,
        0 <= by,
        bx * by <= c,
    ensures
        -c <= x * y <= c,
{
}

} // verus!
