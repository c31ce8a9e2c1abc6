//! Vectors of three real components, with the identities of the dot and the
//! cross product that the quaternion laws rest on.

use crate::reals::lemma_mul_associative;
use crate::reals::lemma_mul_commutative;
use crate::reals::lemma_mul_distributive;
use crate::reals::lemma_mul_exchange;
use crate::reals::lemma_mul_left_commute;
use crate::reals::lemma_mul_negation;
use crate::reals::lemma_product_of_three;
use crate::reals::lemma_square_of_three;
use crate::reals::lemma_square_of_two;
use crate::reals::square_root;
use vstd::prelude::*;

verus! {

/// A point or a direction in space.
pub struct Vector3 {
    pub x: real,
    pub y: real,
    pub z: real,
}

impl Vector3 {
    /// The origin.
    pub open spec fn zero() -> Vector3 {
        Vector3 { x: 0 as real, y: 0 as real, z: 0 as real }
    }

    /// The sum of two vectors.
    pub open spec fn plus(self, other: Vector3) -> Vector3 {
        Vector3 { x: self.x + other.x, y: self.y + other.y, z: self.z + other.z }
    }

    /// The vector stretched by the factor `k`.
    pub open spec fn scaled(self, k: real) -> Vector3 {
        Vector3 { x: k * self.x, y: k * self.y, z: k * self.z }
    }

    /// The opposite vector.
    pub open spec fn negated(self) -> Vector3 {
        Vector3 { x: -self.x, y: -self.y, z: -self.z }
    }

    /// The dot product.
    pub open spec fn dot(self, other: Vector3) -> real {
        self.x * other.x + self.y * other.y + self.z * other.z
    }

    /// The cross product.
    pub open spec fn cross(self, other: Vector3) -> Vector3 {
        Vector3 {
            x: self.y * other.z - self.z * other.y,
            y: self.z * other.x - self.x * other.z,
            z: self.x * other.y - self.y * other.x,
        }
    }

    /// The square of the length.
    pub open spec fn norm_sq(self) -> real {
        self.dot(self)
    }

    /// The length.
    pub open spec fn norm(self) -> real {
        square_root(self.norm_sq())
    }

    /// Whether the length is one.
    pub open spec fn is_unit(self) -> bool {
        self.norm_sq() == 1 as real
    }

    /// The dot product does not depend on the order of its factors.
    pub proof fn lemma_dot_commutative(self, other: Vector3)
        ensures
            self.dot(other) == other.dot(self),
    {
        lemma_mul_commutative(self.x, other.x);
        lemma_mul_commutative(self.y, other.y);
        lemma_mul_commutative(self.z, other.z);
    }

    /// Turning one factor round turns the sign of the dot product.
    pub proof fn lemma_dot_negated(self, other: Vector3)
        ensures
            self.dot(other.negated()) == -self.dot(other),
            self.negated().dot(other) == -self.dot(other),
    {
        lemma_mul_negation(self.x, other.x);
        lemma_mul_negation(self.y, other.y);
        lemma_mul_negation(self.z, other.z);
    }

    /// A factor moves out of either side of a dot product.
    pub proof fn lemma_dot_scaled(self, k: real, other: Vector3)
        ensures
            self.scaled(k).dot(other) == k * self.dot(other),
            self.dot(other.scaled(k)) == k * self.dot(other),
    {
        lemma_mul_associative(k, self.x, other.x);
        lemma_mul_associative(k, self.y, other.y);
        lemma_mul_associative(k, self.z, other.z);
        lemma_mul_left_commute(self.x, k, other.x);
        lemma_mul_left_commute(self.y, k, other.y);
        lemma_mul_left_commute(self.z, k, other.z);
        lemma_mul_distributive(k, self.x * other.x + self.y * other.y, self.z * other.z);
        lemma_mul_distributive(k, self.x * other.x, self.y * other.y);
    }

    /// The dot product distributes over a sum on either side.
    pub proof fn lemma_dot_plus(self, a: Vector3, b: Vector3)
        ensures
            self.dot(a.plus(b)) == self.dot(a) + self.dot(b),
            a.plus(b).dot(self) == a.dot(self) + b.dot(self),
    {
        lemma_mul_distributive(self.x, a.x, b.x);
        lemma_mul_distributive(self.y, a.y, b.y);
        lemma_mul_distributive(self.z, a.z, b.z);
        self.lemma_dot_commutative(a.plus(b));
        self.lemma_dot_commutative(a);
        self.lemma_dot_commutative(b);
    }

    /// The square of the length of a stretched vector.
    pub proof fn lemma_norm_sq_scaled(self, k: real)
        ensures
            self.scaled(k).norm_sq() == (k * k) * self.norm_sq(),
    {
        self.scaled(k).lemma_dot_scaled(k, self);
        self.lemma_dot_scaled(k, self);
        lemma_mul_associative(k, k, self.norm_sq());
        let inner = self.scaled(k).dot(self);
        assert(self.scaled(k).dot(self.scaled(k)) == k * inner);
        assert(inner == k * self.dot(self));
    }

    /// The cross product is at right angles to both of its factors.
    pub proof fn lemma_cross_orthogonal(self, other: Vector3)
        ensures
            self.dot(self.cross(other)) == 0 as real,
            other.dot(self.cross(other)) == 0 as real,
            self.cross(other).dot(self) == 0 as real,
            self.cross(other).dot(other) == 0 as real,
    {
        let a = self;
        let b = other;
        lemma_mul_distributive(a.x, a.y * b.z, a.z * b.y);
        lemma_mul_distributive(a.y, a.z * b.x, a.x * b.z);
        lemma_mul_distributive(a.z, a.x * b.y, a.y * b.x);
        lemma_mul_left_commute(a.x, a.y, b.z);
        lemma_mul_left_commute(a.x, a.z, b.y);
        lemma_mul_left_commute(a.y, a.z, b.x);
        lemma_mul_distributive(b.x, a.y * b.z, a.z * b.y);
        lemma_mul_distributive(b.y, a.z * b.x, a.x * b.z);
        lemma_mul_distributive(b.z, a.x * b.y, a.y * b.x);
        lemma_mul_left_commute(b.x, a.y, b.z);
        lemma_mul_left_commute(b.x, a.z, b.y);
        lemma_mul_left_commute(b.y, a.z, b.x);
        lemma_mul_left_commute(b.y, a.x, b.z);
        lemma_mul_left_commute(b.z, a.x, b.y);
        lemma_mul_left_commute(b.z, a.y, b.x);
        a.lemma_dot_commutative(a.cross(b));
        b.lemma_dot_commutative(a.cross(b));
    }

    /// Lagrange's identity: the squares of the cross and of the dot product
    /// add up to the product of the squares of the lengths.
    pub proof fn lemma_lagrange(self, other: Vector3)
        ensures
            self.cross(other).norm_sq() + self.dot(other) * self.dot(other) == self.norm_sq()
                * other.norm_sq(),
    {
        let a = self;
        let b = other;
        lemma_square_of_two(a.y * b.z, a.z * b.y);
        lemma_square_of_two(a.z * b.x, a.x * b.z);
        lemma_square_of_two(a.x * b.y, a.y * b.x);
        lemma_square_of_three(a.x * b.x, a.y * b.y, a.z * b.z);
        lemma_mul_exchange(a.y, b.z, a.z, b.y);
        lemma_mul_exchange(a.z, b.x, a.x, b.z);
        lemma_mul_exchange(a.x, b.y, a.y, b.x);
        lemma_product_of_three(a.x * a.x, a.y * a.y, a.z * a.z, b.x * b.x, b.y * b.y, b.z * b.z);
        lemma_mul_exchange(a.x, a.x, b.x, b.x);
        lemma_mul_exchange(a.x, a.x, b.y, b.y);
        lemma_mul_exchange(a.x, a.x, b.z, b.z);
        lemma_mul_exchange(a.y, a.y, b.x, b.x);
        lemma_mul_exchange(a.y, a.y, b.y, b.y);
        lemma_mul_exchange(a.y, a.y, b.z, b.z);
        lemma_mul_exchange(a.z, a.z, b.x, b.x);
        lemma_mul_exchange(a.z, a.z, b.y, b.y);
        lemma_mul_exchange(a.z, a.z, b.z, b.z);
    }
}

} // verus!
