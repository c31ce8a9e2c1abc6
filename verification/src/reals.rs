//! Identities of real arithmetic that the solver does not find by itself.

use vstd::prelude::*;

verus! {

/// Whether `n` is the square root of `s`: not negative, with the square `s`.
pub open spec fn is_square_root(n: real, s: real) -> bool {
    0 as real <= n && n * n == s
}

/// The square root of `s`.
pub open spec fn square_root(s: real) -> real {
    choose|n: real| is_square_root(n, s)
}

/// A number has at most one square root.
pub proof fn lemma_square_root_is(n: real, s: real)
    requires
        is_square_root(n, s),
    ensures
        square_root(s) == n,
{
    let m = square_root(s);
    assert(is_square_root(m, s));
    assert(m == n) by (nonlinear_arith)
        requires
            0 as real <= m,
            0 as real <= n,
            m * m == n * n,
    ;
}

/// One and zero as factors.
pub proof fn lemma_mul_unit(a: real)
    ensures
        (1 as real) * a == a,
        a * (1 as real) == a,
        (0 as real) * a == 0 as real,
        a * (0 as real) == 0 as real,
{
}

/// Dividing by a number other than zero and multiplying by it again changes nothing.
pub proof fn lemma_div_mul_cancels(a: real, d: real)
    requires
        d != 0 as real,
    ensures
        a / d * d == a,
        (a * d) / d == a,
{
    assert(a / d * d == a) by (nonlinear_arith)
        requires
            d != 0 as real,
    ;
    assert((a * d) / d == a) by (nonlinear_arith)
        requires
            d != 0 as real,
    ;
}

/// Multiplication is commutative.
pub proof fn lemma_mul_commutative(a: real, b: real)
    ensures
        a * b == b * a,
{
    assert(a * b == b * a) by (nonlinear_arith);
}

/// Multiplication is associative.
pub proof fn lemma_mul_associative(a: real, b: real, c: real)
    ensures
        (a * b) * c == a * (b * c),
{
    assert((a * b) * c == a * (b * c)) by (nonlinear_arith);
}

/// Multiplication distributes over a sum and over a difference.
pub proof fn lemma_mul_distributive(a: real, b: real, c: real)
    ensures
        a * (b + c) == a * b + a * c,
        a * (b - c) == a * b - a * c,
{
    assert(a * (b + c) == a * b + a * c) by (nonlinear_arith);
    assert(a * (b - c) == a * b - a * c) by (nonlinear_arith);
}

/// A sign moves out of a product.
pub proof fn lemma_mul_negation(a: real, b: real)
    ensures
        (-a) * b == -(a * b),
        a * (-b) == -(a * b),
        (-a) * (-b) == a * b,
{
    assert((-a) * b == -(a * b)) by (nonlinear_arith);
    assert(a * (-b) == -(a * b)) by (nonlinear_arith);
    assert((-a) * (-b) == a * b) by (nonlinear_arith);
}

/// The inner factors of a product of two products may change places.
pub proof fn lemma_mul_exchange(a: real, b: real, c: real, d: real)
    ensures
        (a * b) * (c * d) == (a * c) * (b * d),
        (a * b) * (c * d) == (a * d) * (c * b),
{
    assert((a * b) * (c * d) == (a * c) * (b * d)) by (nonlinear_arith);
    assert((a * b) * (c * d) == (a * d) * (c * b)) by (nonlinear_arith);
}

/// A product of three factors does not depend on their order or grouping.
pub proof fn lemma_mul_three(a: real, b: real, c: real)
    ensures
        (a * b) * c == a * (b * c),
        (b * a) * c == a * (b * c),
        (a * c) * b == a * (b * c),
        (c * a) * b == a * (b * c),
        (b * c) * a == a * (b * c),
        (c * b) * a == a * (b * c),
        a * (c * b) == a * (b * c),
        b * (a * c) == a * (b * c),
        b * (c * a) == a * (b * c),
        c * (a * b) == a * (b * c),
        c * (b * a) == a * (b * c),
{
    lemma_mul_associative(a, b, c);
    lemma_mul_associative(a, c, b);
    lemma_mul_associative(b, a, c);
    lemma_mul_associative(b, c, a);
    lemma_mul_associative(c, a, b);
    lemma_mul_associative(c, b, a);
    lemma_mul_commutative(a, b);
    lemma_mul_commutative(a, c);
    lemma_mul_commutative(b, c);
    lemma_mul_commutative(a, b * c);
    lemma_mul_commutative(b, a * c);
    lemma_mul_commutative(c, a * b);
}

/// A factor multiplied, from either side, into the two signed sums of four
/// terms that the components of a quaternion product are.
pub proof fn lemma_mul_into_signed(k: real, p: real, q: real, r: real, s: real)
    ensures
        k * (p - ((q + r) + s)) == k * p - k * q - k * r - k * s,
        (p - ((q + r) + s)) * k == k * p - k * q - k * r - k * s,
        k * ((p + q) + (r - s)) == k * p + k * q + k * r - k * s,
        ((p + q) + (r - s)) * k == k * p + k * q + k * r - k * s,
{
    lemma_mul_distributive(k, p, (q + r) + s);
    lemma_mul_distributive(k, q + r, s);
    lemma_mul_distributive(k, q, r);
    lemma_mul_commutative(k, p - ((q + r) + s));
    lemma_mul_distributive(k, p + q, r - s);
    lemma_mul_distributive(k, p, q);
    lemma_mul_distributive(k, r, s);
    lemma_mul_commutative(k, (p + q) + (r - s));
}

/// The first two factors of a product of three may change places.
pub proof fn lemma_mul_left_commute(a: real, b: real, c: real)
    ensures
        a * (b * c) == b * (a * c),
{
    assert(a * (b * c) == b * (a * c)) by (nonlinear_arith);
}

/// The square of a sum and of a difference of two terms.
pub proof fn lemma_square_of_two(p: real, q: real)
    ensures
        (p + q) * (p + q) == p * p + q * q + (2 as real) * (p * q),
        (p - q) * (p - q) == p * p + q * q - (2 as real) * (p * q),
{
    assert((p + q) * (p + q) == p * p + q * q + (2 as real) * (p * q)) by (nonlinear_arith);
    assert((p - q) * (p - q) == p * p + q * q - (2 as real) * (p * q)) by (nonlinear_arith);
}

/// The square of a sum of three terms.
pub proof fn lemma_square_of_three(p: real, q: real, r: real)
    ensures
        (p + q + r) * (p + q + r) == p * p + q * q + r * r + (2 as real) * (p * q + p * r + q * r),
{
    lemma_square_of_two(p + q, r);
    lemma_square_of_two(p, q);
    lemma_mul_distributive(r, p, q);
}

/// The product of two sums of two terms.
pub proof fn lemma_product_of_two(p: real, q: real, s: real, t: real)
    ensures
        (p + q) * (s + t) == p * s + p * t + q * s + q * t,
{
    lemma_mul_distributive(p + q, s, t);
    lemma_mul_distributive(s, p, q);
    lemma_mul_distributive(t, p, q);
}

/// The product of two sums of three terms.
pub proof fn lemma_product_of_three(p: real, q: real, r: real, s: real, t: real, u: real)
    ensures
        (p + q + r) * (s + t + u) == p * s + p * t + p * u + q * s + q * t + q * u + r * s + r * t
            + r * u,
{
    lemma_mul_distributive(p + q + r, s + t, u);
    lemma_mul_distributive(p + q + r, s, t);
    lemma_mul_distributive(s, p + q, r);
    lemma_mul_distributive(s, p, q);
    lemma_mul_distributive(t, p + q, r);
    lemma_mul_distributive(t, p, q);
    lemma_mul_distributive(u, p + q, r);
    lemma_mul_distributive(u, p, q);
}

} // verus!
