//! Quaternions over the reals and the rotations they stand for.

use crate::reals::lemma_mul_associative;
use crate::reals::lemma_mul_commutative;
use crate::reals::lemma_mul_distributive;
use crate::reals::lemma_mul_exchange;
use crate::reals::lemma_mul_into_signed;
use crate::reals::lemma_mul_negation;
use crate::reals::lemma_mul_three;
use crate::reals::lemma_mul_unit;
use crate::reals::lemma_product_of_two;
use crate::reals::lemma_square_of_two;
use crate::trig::Trig;
use crate::vector::Vector3;
use vstd::prelude::*;

verus! {

/// A scalar part and a vector part.
pub struct Quaternion {
    pub w: real,
    pub v: Vector3,
}

impl Quaternion {
    /// The quaternion of the rotation that moves nothing.
    pub open spec fn identity() -> Quaternion {
        Quaternion { w: 1 as real, v: Vector3::zero() }
    }

    /// The vector `v` as a quaternion without scalar part.
    pub open spec fn pure(v: Vector3) -> Quaternion {
        Quaternion { w: 0 as real, v }
    }

    /// The conjugate: the vector part turned round.
    pub open spec fn conjugate(self) -> Quaternion {
        Quaternion { w: self.w, v: self.v.negated() }
    }

    /// Every component multiplied by `k`.
    pub open spec fn scaled(self, k: real) -> Quaternion {
        Quaternion { w: k * self.w, v: self.v.scaled(k) }
    }

    /// The sum of the squares of the four components.
    pub open spec fn norm_sq(self) -> real {
        self.w * self.w + self.v.norm_sq()
    }

    /// Whether the quaternion has norm one, as a rotation's has.
    pub open spec fn is_unit(self) -> bool {
        self.norm_sq() == 1 as real
    }

    /// The inverse under multiplication, of a quaternion other than zero.
    pub open spec fn inverse(self) -> Quaternion {
        self.conjugate().scaled((1 as real) / self.norm_sq())
    }

    /// The conjugate has the norm of the quaternion.
    pub proof fn lemma_conjugate_norm(self)
        ensures
            self.conjugate().norm_sq() == self.norm_sq(),
    {
        lemma_mul_negation(self.v.x, self.v.x);
        lemma_mul_negation(self.v.y, self.v.y);
        lemma_mul_negation(self.v.z, self.v.z);
    }

    /// The inverse of a unit quaternion is its conjugate.
    pub proof fn lemma_unit_inverse(self)
        requires
            self.is_unit(),
        ensures
            self.inverse() == self.conjugate(),
    {
        let k = (1 as real) / self.norm_sq();
        let c = self.conjugate();
        assert(k == 1 as real);
        lemma_mul_unit(c.w);
        lemma_mul_unit(c.v.x);
        lemma_mul_unit(c.v.y);
        lemma_mul_unit(c.v.z);
    }
}

/// The Hamilton product of `a` and `b`.
pub open spec fn multiply(a: Quaternion, b: Quaternion) -> Quaternion {
    Quaternion {
        w: a.w * b.w - a.v.dot(b.v),
        v: b.v.scaled(a.w).plus(a.v.scaled(b.w)).plus(a.v.cross(b.v)),
    }
}

/// The norm of a product is the product of the norms.
pub proof fn lemma_multiply_norm(a: Quaternion, b: Quaternion)
    ensures
        multiply(a, b).norm_sq() == a.norm_sq() * b.norm_sq(),
{
    let d = a.v.dot(b.v);
    let x = b.v.scaled(a.w);
    let y = a.v.scaled(b.w);
    let c = a.v.cross(b.v);
    let xy = x.plus(y);
    let v = xy.plus(c);
    // The scalar part.
    lemma_square_of_two(a.w * b.w, d);
    lemma_mul_exchange(a.w, b.w, a.w, b.w);
    // The vector part, term by term.
    v.lemma_dot_plus(xy, c);
    v.lemma_dot_plus(x, y);
    x.lemma_dot_plus(xy, c);
    x.lemma_dot_plus(x, y);
    y.lemma_dot_plus(xy, c);
    y.lemma_dot_plus(x, y);
    c.lemma_dot_plus(xy, c);
    c.lemma_dot_plus(x, y);
    b.v.lemma_norm_sq_scaled(a.w);
    a.v.lemma_norm_sq_scaled(b.w);
    b.v.lemma_dot_scaled(a.w, y);
    b.v.lemma_dot_scaled(b.w, a.v);
    b.v.lemma_dot_commutative(a.v);
    x.lemma_dot_commutative(y);
    b.v.lemma_dot_scaled(a.w, c);
    a.v.lemma_dot_scaled(b.w, c);
    a.v.lemma_cross_orthogonal(b.v);
    x.lemma_dot_commutative(c);
    y.lemma_dot_commutative(c);
    a.v.lemma_lagrange(b.v);
    lemma_mul_associative(a.w, b.w, d);
    // The right-hand side.
    lemma_product_of_two(a.w * a.w, a.v.norm_sq(), b.w * b.w, b.v.norm_sq());
    lemma_mul_commutative(a.v.norm_sq(), b.w * b.w);
}

/// The quaternion with the components of its vector part moved round by one
/// place. Products keep step with it, so that what holds of the first
/// component of every product holds of the second and the third.
spec fn cycled(q: Quaternion) -> Quaternion {
    Quaternion { w: q.w, v: Vector3 { x: q.v.y, y: q.v.z, z: q.v.x } }
}

proof fn lemma_multiply_cycled(a: Quaternion, b: Quaternion)
    ensures
        multiply(cycled(a), cycled(b)) == cycled(multiply(a, b)),
{
}

/// Associativity, for the scalar part.
proof fn lemma_multiply_associative_scalar(a: Quaternion, b: Quaternion, c: Quaternion)
    ensures
        multiply(multiply(a, b), c).w == multiply(a, multiply(b, c)).w,
{
    let (a0, a1, a2, a3) = (a.w, a.v.x, a.v.y, a.v.z);
    let (b0, b1, b2, b3) = (b.w, b.v.x, b.v.y, b.v.z);
    let (c0, c1, c2, c3) = (c.w, c.v.x, c.v.y, c.v.z);
    // Every product of a component with a component of a product, written out.
    lemma_mul_into_signed(c0, a0 * b0, a1 * b1, a2 * b2, a3 * b3);
    lemma_mul_into_signed(c1, a0 * b1, b0 * a1, a2 * b3, a3 * b2);
    lemma_mul_into_signed(c2, a0 * b2, b0 * a2, a3 * b1, a1 * b3);
    lemma_mul_into_signed(c3, a0 * b3, b0 * a3, a1 * b2, a2 * b1);
    lemma_mul_into_signed(a0, b0 * c0, b1 * c1, b2 * c2, b3 * c3);
    lemma_mul_into_signed(a1, b0 * c1, c0 * b1, b2 * c3, b3 * c2);
    lemma_mul_into_signed(a2, b0 * c2, c0 * b2, b3 * c1, b1 * c3);
    lemma_mul_into_signed(a3, b0 * c3, c0 * b3, b1 * c2, b2 * c1);
    // The sixteen products of three components that occur on both sides.
    lemma_mul_three(a0, b0, c0);
    lemma_mul_three(a1, b1, c0);
    lemma_mul_three(a2, b2, c0);
    lemma_mul_three(a3, b3, c0);
    lemma_mul_three(a0, b1, c1);
    lemma_mul_three(a1, b0, c1);
    lemma_mul_three(a2, b3, c1);
    lemma_mul_three(a3, b2, c1);
    lemma_mul_three(a0, b2, c2);
    lemma_mul_three(a2, b0, c2);
    lemma_mul_three(a3, b1, c2);
    lemma_mul_three(a1, b3, c2);
    lemma_mul_three(a0, b3, c3);
    lemma_mul_three(a3, b0, c3);
    lemma_mul_three(a1, b2, c3);
    lemma_mul_three(a2, b1, c3);
}

/// Associativity, for the first component of the vector part.
proof fn lemma_multiply_associative_first(a: Quaternion, b: Quaternion, c: Quaternion)
    ensures
        multiply(multiply(a, b), c).v.x == multiply(a, multiply(b, c)).v.x,
{
    let (a0, a1, a2, a3) = (a.w, a.v.x, a.v.y, a.v.z);
    let (b0, b1, b2, b3) = (b.w, b.v.x, b.v.y, b.v.z);
    let (c0, c1, c2, c3) = (c.w, c.v.x, c.v.y, c.v.z);
    // Every product of a component with a component of a product, written out.
    lemma_mul_into_signed(c1, a0 * b0, a1 * b1, a2 * b2, a3 * b3);
    lemma_mul_into_signed(c0, a0 * b1, b0 * a1, a2 * b3, a3 * b2);
    lemma_mul_into_signed(c3, a0 * b2, b0 * a2, a3 * b1, a1 * b3);
    lemma_mul_into_signed(c2, a0 * b3, b0 * a3, a1 * b2, a2 * b1);
    lemma_mul_into_signed(a0, b0 * c1, c0 * b1, b2 * c3, b3 * c2);
    lemma_mul_into_signed(a1, b0 * c0, b1 * c1, b2 * c2, b3 * c3);
    lemma_mul_into_signed(a2, b0 * c3, c0 * b3, b1 * c2, b2 * c1);
    lemma_mul_into_signed(a3, b0 * c2, c0 * b2, b3 * c1, b1 * c3);
    // The sixteen products of three components that occur on both sides.
    lemma_mul_three(a0, b0, c1);
    lemma_mul_three(a1, b1, c1);
    lemma_mul_three(a2, b2, c1);
    lemma_mul_three(a3, b3, c1);
    lemma_mul_three(a0, b1, c0);
    lemma_mul_three(a1, b0, c0);
    lemma_mul_three(a2, b3, c0);
    lemma_mul_three(a3, b2, c0);
    lemma_mul_three(a0, b2, c3);
    lemma_mul_three(a2, b0, c3);
    lemma_mul_three(a3, b1, c3);
    lemma_mul_three(a1, b3, c3);
    lemma_mul_three(a0, b3, c2);
    lemma_mul_three(a3, b0, c2);
    lemma_mul_three(a1, b2, c2);
    lemma_mul_three(a2, b1, c2);
}

/// Multiplication is associative.
pub proof fn lemma_multiply_associative(a: Quaternion, b: Quaternion, c: Quaternion)
    ensures
        multiply(multiply(a, b), c) == multiply(a, multiply(b, c)),
{
    let left = multiply(multiply(a, b), c);
    let right = multiply(a, multiply(b, c));
    lemma_multiply_associative_scalar(a, b, c);
    lemma_multiply_associative_first(a, b, c);
    // The second component is the first component after one move round.
    let (a1, b1, c1) = (cycled(a), cycled(b), cycled(c));
    lemma_multiply_cycled(a, b);
    lemma_multiply_cycled(multiply(a, b), c);
    lemma_multiply_cycled(b, c);
    lemma_multiply_cycled(a, multiply(b, c));
    lemma_multiply_associative_first(a1, b1, c1);
    assert(left.v.y == right.v.y);
    // The third component is the first component after two moves round.
    let (a2, b2, c2) = (cycled(a1), cycled(b1), cycled(c1));
    lemma_multiply_cycled(a1, b1);
    lemma_multiply_cycled(multiply(a1, b1), c1);
    lemma_multiply_cycled(b1, c1);
    lemma_multiply_cycled(a1, multiply(b1, c1));
    lemma_multiply_associative_first(a2, b2, c2);
    assert(left.v.z == right.v.z);
}

/// The vector `v` turned by the rotation that `q` stands for: the vector part
/// of `q` times `v` times the inverse of `q`.
pub open spec fn rotate(q: Quaternion, v: Vector3) -> Vector3 {
    multiply(multiply(q, Quaternion::pure(v)), q.inverse()).v
}

/// The quaternion of the rotation by `angle` about the unit vector `axis`.
pub open spec fn from_axis_angle(t: Trig, axis: Vector3, angle: real) -> Quaternion {
    let half = angle / (2 as real);
    Quaternion { w: t.cos(half), v: axis.scaled(t.sin(half)) }
}

/// Rotating by a unit quaternion may be written with the conjugate, and the
/// product then has no scalar part.
pub proof fn lemma_rotate_by_conjugate(q: Quaternion, v: Vector3)
    requires
        q.is_unit(),
    ensures
        multiply(multiply(q, Quaternion::pure(v)), q.conjugate()) == Quaternion::pure(rotate(q, v)),
{
    q.lemma_unit_inverse();
    let r = multiply(q, Quaternion::pure(v));
    let x = v.scaled(q.w);
    let y = q.v.scaled(0 as real);
    let c = q.v.cross(v);
    r.v.lemma_dot_negated(q.v);
    q.v.lemma_dot_plus(x.plus(y), c);
    q.v.lemma_dot_plus(x, y);
    v.lemma_dot_scaled(q.w, q.v);
    q.v.lemma_dot_scaled(0 as real, q.v);
    q.v.lemma_cross_orthogonal(v);
    q.v.lemma_dot_commutative(v);
    lemma_mul_negation(q.v.dot(v), q.w);
    lemma_mul_commutative(q.v.dot(v), q.w);
}

/// A rotation keeps the length of every vector.
pub proof fn lemma_rotate_norm(q: Quaternion, v: Vector3)
    requires
        q.is_unit(),
    ensures
        rotate(q, v).norm_sq() == v.norm_sq(),
        rotate(q, v).norm() == v.norm(),
{
    let p = Quaternion::pure(v);
    let r = multiply(q, p);
    let c = q.conjugate();
    lemma_rotate_by_conjugate(q, v);
    lemma_multiply_norm(q, p);
    lemma_multiply_norm(r, c);
    q.lemma_conjugate_norm();
}

/// The axis-angle constructor gives a unit quaternion for a unit axis. For
/// any other axis it does so only where the sine of half the angle is zero.
pub proof fn lemma_from_axis_angle_unit(t: Trig, axis: Vector3, angle: real)
    requires
        t.pythagorean(),
    ensures
        axis.is_unit() ==> from_axis_angle(t, axis, angle).is_unit(),
        from_axis_angle(t, axis, angle).is_unit() <==> (axis.is_unit() || t.sin(
            angle / (2 as real),
        ) == 0 as real),
{
    let half = angle / (2 as real);
    let c = t.cos(half);
    let s = t.sin(half);
    let n = axis.norm_sq();
    axis.lemma_norm_sq_scaled(s);
    assert(c * c + s * s == 1 as real);
    lemma_mul_distributive(s * s, n, 1 as real);
    lemma_mul_unit(s * s);
    assert(from_axis_angle(t, axis, angle).norm_sq() == (1 as real) + (s * s) * (n - (1 as real)));
    assert((s * s) * (n - (1 as real)) == 0 as real <==> (s == 0 as real || n == 1 as real))
        by (nonlinear_arith);
}

/// A rotation made by the axis-angle constructor keeps the length of every vector.
pub proof fn lemma_axis_angle_rotation_norm(t: Trig, axis: Vector3, angle: real, v: Vector3)
    requires
        t.pythagorean(),
        axis.is_unit(),
    ensures
        rotate(from_axis_angle(t, axis, angle), v).norm() == v.norm(),
{
    lemma_from_axis_angle_unit(t, axis, angle);
    lemma_rotate_norm(from_axis_angle(t, axis, angle), v);
}

/// The identity is neutral on either side of a product.
pub proof fn lemma_multiply_identity(q: Quaternion)
    ensures
        multiply(Quaternion::identity(), q) == q,
        multiply(q, Quaternion::identity()) == q,
{
    lemma_mul_unit(q.w);
    lemma_mul_unit(q.v.x);
    lemma_mul_unit(q.v.y);
    lemma_mul_unit(q.v.z);
}

/// The identity stands for the rotation that moves nothing.
pub proof fn lemma_rotate_identity(v: Vector3)
    ensures
        rotate(Quaternion::identity(), v) == v,
{
    let one = Quaternion::identity();
    assert(one.is_unit());
    assert(one.conjugate() == one);
    lemma_rotate_by_conjugate(one, v);
    lemma_multiply_identity(Quaternion::pure(v));
}

/// The conjugate of a product is the product of the conjugates, the other
/// way round.
pub proof fn lemma_conjugate_of_product(a: Quaternion, b: Quaternion)
    ensures
        multiply(a, b).conjugate() == multiply(b.conjugate(), a.conjugate()),
{
    let (a0, a1, a2, a3) = (a.w, a.v.x, a.v.y, a.v.z);
    let (b0, b1, b2, b3) = (b.w, b.v.x, b.v.y, b.v.z);
    lemma_mul_negation(b1, a1);
    lemma_mul_commutative(b1, a1);
    lemma_mul_negation(b2, a2);
    lemma_mul_commutative(b2, a2);
    lemma_mul_negation(b3, a3);
    lemma_mul_commutative(b3, a3);
    lemma_mul_negation(b2, a3);
    lemma_mul_commutative(b2, a3);
    lemma_mul_negation(b3, a2);
    lemma_mul_commutative(b3, a2);
    lemma_mul_negation(b3, a1);
    lemma_mul_commutative(b3, a1);
    lemma_mul_negation(b1, a3);
    lemma_mul_commutative(b1, a3);
    lemma_mul_negation(b1, a2);
    lemma_mul_commutative(b1, a2);
    lemma_mul_negation(b2, a1);
    lemma_mul_commutative(b2, a1);
    lemma_mul_negation(b0, a1);
    lemma_mul_commutative(b0, a1);
    lemma_mul_negation(b0, a2);
    lemma_mul_commutative(b0, a2);
    lemma_mul_negation(b0, a3);
    lemma_mul_commutative(b0, a3);
    lemma_mul_negation(b1, a0);
    lemma_mul_commutative(b1, a0);
    lemma_mul_negation(b2, a0);
    lemma_mul_commutative(b2, a0);
    lemma_mul_negation(b3, a0);
    lemma_mul_commutative(b3, a0);
    lemma_mul_commutative(b0, a0);
    lemma_mul_negation(a0, b1);
    lemma_mul_negation(a0, b2);
    lemma_mul_negation(a0, b3);
}

/// The product of two rotations applies the right factor first, then the
/// left factor.
pub proof fn lemma_rotate_product(a: Quaternion, b: Quaternion, v: Vector3)
    requires
        a.is_unit(),
        b.is_unit(),
    ensures
        multiply(a, b).is_unit(),
        rotate(multiply(a, b), v) == rotate(a, rotate(b, v)),
{
    let ab = multiply(a, b);
    let p = Quaternion::pure(v);
    let bp = multiply(b, p);
    let back = multiply(b.conjugate(), a.conjugate());
    let turned = Quaternion::pure(rotate(b, v));
    lemma_multiply_norm(a, b);
    lemma_mul_unit(1 as real);
    lemma_rotate_by_conjugate(ab, v);
    lemma_conjugate_of_product(a, b);
    lemma_multiply_associative(a, b, p);
    lemma_multiply_associative(a, bp, back);
    lemma_multiply_associative(bp, b.conjugate(), a.conjugate());
    lemma_rotate_by_conjugate(b, v);
    lemma_multiply_associative(a, turned, a.conjugate());
    lemma_rotate_by_conjugate(a, rotate(b, v));
    assert(Quaternion::pure(rotate(ab, v)) == Quaternion::pure(rotate(a, rotate(b, v))));
}

/// Every rotation leaves the origin in place.
pub proof fn lemma_rotate_origin(q: Quaternion)
    ensures
        rotate(q, Vector3::zero()) == Vector3::zero(),
{
    let i = q.inverse();
    let nothing = Quaternion::pure(Vector3::zero());
    lemma_mul_unit(q.w);
    lemma_mul_unit(q.v.x);
    lemma_mul_unit(q.v.y);
    lemma_mul_unit(q.v.z);
    assert(multiply(q, nothing) == nothing);
    lemma_mul_unit(i.w);
    lemma_mul_unit(i.v.x);
    lemma_mul_unit(i.v.y);
    lemma_mul_unit(i.v.z);
    assert(multiply(nothing, i) == nothing);
}

/// The quaternion of a rotation about the third axis whose half angle has
/// the cosine `c` and the sine `s`.
pub open spec fn about_third_axis(c: real, s: real) -> Quaternion {
    Quaternion { w: c, v: Vector3 { x: 0 as real, y: 0 as real, z: s } }
}

/// A rotation about the third axis turns the first two components of a
/// vector in their plane and keeps the third.
pub proof fn lemma_rotate_about_third_axis(c: real, s: real, a: Vector3)
    requires
        c * c + s * s == 1 as real,
    ensures
        rotate(about_third_axis(c, s), a) == (Vector3 {
            x: (c * c - s * s) * a.x - ((2 as real) * (s * c)) * a.y,
            y: ((2 as real) * (s * c)) * a.x + (c * c - s * s) * a.y,
            z: a.z,
        }),
{
    let q = about_third_axis(c, s);
    assert(q.is_unit());
    lemma_rotate_by_conjugate(q, a);
    let m = multiply(q, Quaternion::pure(a));
    let k = q.conjugate();
    assert(m.w == -(s * a.z));
    assert(m.v == Vector3 { x: c * a.x - s * a.y, y: c * a.y + s * a.x, z: c * a.z });
    let r = multiply(m, k).v;
    // The first component.
    lemma_mul_distributive(c, c * a.x, s * a.y);
    lemma_mul_distributive(s, c * a.y, s * a.x);
    lemma_mul_negation(c * a.y + s * a.x, s);
    lemma_mul_commutative(c * a.y + s * a.x, s);
    lemma_mul_associative(c, c, a.x);
    lemma_mul_associative(c, s, a.y);
    lemma_mul_associative(s, c, a.y);
    lemma_mul_associative(s, s, a.x);
    lemma_mul_commutative(c, s);
    lemma_mul_distributive(a.x, c * c, s * s);
    lemma_mul_commutative(a.x, c * c - s * s);
    lemma_mul_commutative(a.x, c * c);
    lemma_mul_commutative(a.x, s * s);
    lemma_mul_associative(2 as real, s * c, a.y);
    assert(r.x == (c * c - s * s) * a.x - ((2 as real) * (s * c)) * a.y);
    // The second component.
    lemma_mul_distributive(c, c * a.y, s * a.x);
    lemma_mul_distributive(s, c * a.x, s * a.y);
    lemma_mul_negation(c * a.x - s * a.y, s);
    lemma_mul_commutative(c * a.x - s * a.y, s);
    lemma_mul_associative(c, c, a.y);
    lemma_mul_associative(c, s, a.x);
    lemma_mul_associative(s, c, a.x);
    lemma_mul_associative(s, s, a.y);
    lemma_mul_distributive(a.y, c * c, s * s);
    lemma_mul_commutative(a.y, c * c - s * s);
    lemma_mul_commutative(a.y, c * c);
    lemma_mul_commutative(a.y, s * s);
    lemma_mul_associative(2 as real, s * c, a.x);
    assert(r.y == ((2 as real) * (s * c)) * a.x + (c * c - s * s) * a.y);
    // The third component.
    lemma_mul_negation(s * a.z, s);
    lemma_mul_commutative(s * a.z, s);
    lemma_mul_associative(s, s, a.z);
    lemma_mul_associative(c, c, a.z);
    lemma_mul_distributive(a.z, c * c, s * s);
    lemma_mul_commutative(a.z, c * c + s * s);
    lemma_mul_commutative(a.z, c * c);
    lemma_mul_commutative(a.z, s * s);
    lemma_mul_unit(a.z);
    assert(r.z == a.z);
}

/// Multiplication is not commutative, and the rotations show it: there are
/// unit quaternions `a` and `b` and a vector that `a` times `b` and `b` times
/// `a` turn to different places.
pub proof fn lemma_multiply_not_commutative()
    ensures
        exists|a: Quaternion, b: Quaternion, v: Vector3|
            a.is_unit() && b.is_unit() && #[trigger] rotate(multiply(a, b), v) != rotate(
                multiply(b, a),
                v,
            ),
{
    // A half turn about the first axis, and a turn about the third axis
    // whose half angle has the cosine 3/5 and the sine 4/5.
    let x = Vector3 { x: 1 as real, y: 0 as real, z: 0 as real };
    let c = (3 as real) / (5 as real);
    let s = (4 as real) / (5 as real);
    let a = Quaternion { w: 0 as real, v: x };
    let b = Quaternion { w: c, v: Vector3 { x: 0 as real, y: 0 as real, z: s } };
    let ab = multiply(a, b);
    let ba = multiply(b, a);
    assert(a.is_unit());
    assert(b.is_unit());
    assert(ab == Quaternion { w: 0 as real, v: Vector3 { x: c, y: -s, z: 0 as real } });
    assert(ba == Quaternion { w: 0 as real, v: Vector3 { x: c, y: s, z: 0 as real } });
    lemma_multiply_norm(a, b);
    lemma_multiply_norm(b, a);
    lemma_rotate_by_conjugate(ab, x);
    lemma_rotate_by_conjugate(ba, x);
    let p = multiply(ab, Quaternion::pure(x));
    let q = multiply(ba, Quaternion::pure(x));
    assert(p == Quaternion { w: -c, v: Vector3 { x: 0 as real, y: 0 as real, z: s } });
    assert(q == Quaternion { w: -c, v: Vector3 { x: 0 as real, y: 0 as real, z: -s } });
    lemma_mul_negation(c, s);
    lemma_mul_negation(s, c);
    lemma_mul_commutative(c, s);
    assert(multiply(p, ab.conjugate()).v.y == -(c * s) - c * s);
    assert(multiply(q, ba.conjugate()).v.y == c * s + c * s);
    assert(c * s > 0 as real) by (nonlinear_arith)
        requires
            c > 0 as real,
            s > 0 as real,
    ;
    assert(rotate(ab, x).y < 0 as real);
    assert(rotate(ba, x).y > 0 as real);
}

} // verus!
