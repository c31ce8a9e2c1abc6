//! The spherical involute and the tooth surfaces swept by it.
//!
//! A disk that rolls on the base cone without slipping carries a point along
//! a curve on the sphere about the apex: the spherical involute. The plain
//! tooth surface is a family of such curves at different slant distances.
//! The helicoid is a family at different tooth-width offsets, each curve
//! shifted in phase so that the surface twists by the helix angle.

use crate::cone::cone_axis;
use crate::cone::ConeSpec;
use crate::grid::Cell;
use crate::grid::SampleGrid;
use crate::quaternion::from_axis_angle;
use crate::quaternion::lemma_from_axis_angle_unit;
use crate::quaternion::lemma_multiply_identity;
use crate::quaternion::lemma_multiply_norm;
use crate::quaternion::lemma_rotate_identity;
use crate::quaternion::lemma_rotate_norm;
use crate::quaternion::multiply;
use crate::quaternion::rotate;
use crate::quaternion::Quaternion;
use crate::reals::is_square_root;
use crate::reals::lemma_div_mul_cancels;
use crate::reals::lemma_mul_distributive;
use crate::reals::lemma_mul_exchange;
use crate::reals::lemma_mul_negation;
use crate::reals::lemma_mul_unit;
use crate::reals::lemma_square_root_is;
use crate::trig::Trig;
use crate::vector::Vector3;
use vstd::prelude::*;

verus! {

/// The helix angle of a helicoid.
pub struct HelixSpec {
    pub beta: real,
}

impl HelixSpec {
    /// Whether the helix angle lies between minus a quarter turn and a
    /// quarter turn, where an angle is found again from its sine.
    pub open spec fn in_range(self, t: Trig) -> bool {
        -(t.pi() / (2 as real)) <= self.beta <= t.pi() / (2 as real)
    }
}

/// A tooth-width offset for which the twist has no angle, with the helix
/// angle and the generatrix that rule it out.
pub struct DomainError {
    pub b: real,
    pub beta: real,
    pub generatrix: real,
}

/// The step between neighbouring samples along each axis of a lattice.
pub struct GridSteps {
    pub sweep: real,
    pub roll: real,
}

/// The point of the involute at the slant distance `length` from the apex,
/// after the disk has rolled by `theta`, with the whole curve turned about
/// the cone's axis by `offset`.
///
/// The disk's own spin is `tau`, the sine of the cone angle times `theta`.
/// The anchor is first turned back by `tau` about the rolling axis, then
/// swept about the cone's axis by `offset` and `theta` together.
pub open spec fn shifted_involute_point(
    t: Trig,
    length: real,
    offset: real,
    theta: real,
    cone: ConeSpec,
) -> Vector3 {
    let tau = t.sin(cone.phi) * theta;
    let a = cone.anchor(t, length);
    let c = cone.rolling_axis(t);
    let q_z = from_axis_angle(t, cone_axis(), offset + theta);
    let q_c = from_axis_angle(t, c, -tau);
    rotate(multiply(q_z, q_c), a)
}

/// The point of the spherical involute at the slant distance `generatrix`
/// from the apex, after the disk has rolled by `theta`.
pub open spec fn involute_point(t: Trig, generatrix: real, theta: real, cone: ConeSpec) -> Vector3 {
    shifted_involute_point(t, generatrix, 0 as real, theta, cone)
}

/// What the inverse sine is asked for at the tooth-width offset `b`.
pub open spec fn twist_sine(t: Trig, b: real, cone: ConeSpec, helix: HelixSpec) -> real {
    cone.generatrix * t.sin(helix.beta) / (cone.generatrix - b)
}

/// Whether the twist has an angle at the tooth-width offset `b`.
pub open spec fn twist_defined(t: Trig, b: real, cone: ConeSpec, helix: HelixSpec) -> bool {
    cone.generatrix * t.sin(helix.beta) <= cone.generatrix - b
}

/// The phase by which the involute at the tooth-width offset `b` is shifted,
/// or the error that names `b` where the twist has no angle.
pub open spec fn theta_offset(t: Trig, b: real, cone: ConeSpec, helix: HelixSpec) -> Result<
    real,
    DomainError,
> {
    if twist_defined(t, b, cone, helix) {
        let gamma = t.asin(twist_sine(t, b, cone, helix)) - helix.beta;
        Ok(gamma / t.sin(cone.phi))
    } else {
        Err(DomainError { b, beta: helix.beta, generatrix: cone.generatrix })
    }
}

/// The point of the helicoid at the tooth-width offset `b`, measured from
/// the base of the cone towards its apex, after the disk has rolled by
/// `theta`; or the error of the phase shift.
pub open spec fn involute_point_helicoid(
    t: Trig,
    b: real,
    theta: real,
    cone: ConeSpec,
    helix: HelixSpec,
) -> Result<Vector3, DomainError> {
    match theta_offset(t, b, cone, helix) {
        Ok(offset) => Ok(shifted_involute_point(t, cone.generatrix - b, offset, theta, cone)),
        Err(error) => Err(error),
    }
}

/// The point of one cell of the plain tooth surface. The slant distance
/// starts at half the generatrix, away from the apex.
pub open spec fn tooth_surface_cell(
    t: Trig,
    cone: ConeSpec,
    steps: GridSteps,
    cell: Cell,
) -> Vector3 {
    let half = (1 as real) / (2 as real);
    let generatrix = cone.generatrix * (steps.sweep * (cell.sweep as real) + half);
    let theta = steps.roll * (cell.roll as real);
    involute_point(t, generatrix, theta, cone)
}

/// The plain tooth surface: one involute after the other, and along each
/// involute one rolling angle after the other.
pub open spec fn tooth_surface(
    t: Trig,
    cone: ConeSpec,
    grid: SampleGrid,
    steps: GridSteps,
) -> Seq<Vector3> {
    Seq::new(grid.len(), |k: int| tooth_surface_cell(t, cone, steps, grid.cell_at(k)))
}

/// The point of one cell of the helicoid, or the error of its phase shift.
pub open spec fn helicoid_surface_cell(
    t: Trig,
    cone: ConeSpec,
    helix: HelixSpec,
    steps: GridSteps,
    cell: Cell,
) -> Result<Vector3, DomainError> {
    let b = steps.sweep * (cell.sweep as real);
    let theta = steps.roll * (cell.roll as real);
    involute_point_helicoid(t, b, theta, cone, helix)
}

/// The helicoid, in the order of the plain tooth surface: for every cell its
/// point, or the error of its phase shift.
pub open spec fn helicoid_surface(
    t: Trig,
    cone: ConeSpec,
    helix: HelixSpec,
    grid: SampleGrid,
    steps: GridSteps,
) -> Seq<Result<Vector3, DomainError>> {
    Seq::new(grid.len(), |k: int| helicoid_surface_cell(t, cone, helix, steps, grid.cell_at(k)))
}

/// The plain tooth surface has one point for every cell of its lattice, at
/// the place that the sweep-major order gives the cell.
pub proof fn lemma_tooth_surface_points(
    t: Trig,
    cone: ConeSpec,
    grid: SampleGrid,
    steps: GridSteps,
    cell: Cell,
)
    requires
        grid.contains(cell),
    ensures
        tooth_surface(t, cone, grid, steps).len() == grid.sweep_count * grid.roll_count,
        0 <= grid.position(cell) < tooth_surface(t, cone, grid, steps).len(),
        tooth_surface(t, cone, grid, steps)[grid.position(cell)] == tooth_surface_cell(
            t,
            cone,
            steps,
            cell,
        ),
{
    grid.lemma_position(cell);
}

/// The helicoid has one entry for every cell of its lattice, at the place
/// that the sweep-major order gives the cell.
pub proof fn lemma_helicoid_surface_points(
    t: Trig,
    cone: ConeSpec,
    helix: HelixSpec,
    grid: SampleGrid,
    steps: GridSteps,
    cell: Cell,
)
    requires
        grid.contains(cell),
    ensures
        helicoid_surface(t, cone, helix, grid, steps).len() == grid.sweep_count * grid.roll_count,
        0 <= grid.position(cell) < helicoid_surface(t, cone, helix, grid, steps).len(),
        helicoid_surface(t, cone, helix, grid, steps)[grid.position(cell)] == helicoid_surface_cell(
            t,
            cone,
            helix,
            steps,
            cell,
        ),
{
    grid.lemma_position(cell);
}

/// Before the disk has rolled, the involute is at the anchor.
pub proof fn lemma_involute_starts_at_anchor(t: Trig, generatrix: real, cone: ConeSpec)
    requires
        t.starts_at_zero(),
    ensures
        involute_point(t, generatrix, 0 as real, cone) == cone.anchor(t, generatrix),
{
    let tau = t.sin(cone.phi) * (0 as real);
    let c = cone.rolling_axis(t);
    lemma_mul_unit(t.sin(cone.phi));
    assert(-tau / (2 as real) == 0 as real);
    assert(((0 as real) + (0 as real)) / (2 as real) == 0 as real);
    lemma_mul_unit(c.x);
    lemma_mul_unit(c.y);
    lemma_mul_unit(c.z);
    assert(from_axis_angle(t, c, -tau) == Quaternion::identity());
    assert(from_axis_angle(t, cone_axis(), (0 as real) + (0 as real)) == Quaternion::identity());
    lemma_multiply_identity(Quaternion::identity());
    lemma_rotate_identity(cone.anchor(t, generatrix));
}

/// The involute lies on a sphere about the apex: every point of it, shifted
/// or not, is as far from the apex as its anchor is.
pub proof fn lemma_shifted_involute_on_sphere(
    t: Trig,
    length: real,
    offset: real,
    theta: real,
    cone: ConeSpec,
)
    requires
        t.pythagorean(),
        (0 as real) <= length,
    ensures
        shifted_involute_point(t, length, offset, theta, cone).norm() == length,
{
    let tau = t.sin(cone.phi) * theta;
    let a = cone.anchor(t, length);
    let c = cone.rolling_axis(t);
    let q_z = from_axis_angle(t, cone_axis(), offset + theta);
    let q_c = from_axis_angle(t, c, -tau);
    let s = t.sin(cone.phi);
    let k = t.cos(cone.phi);
    // Both axes are unit vectors, so both quaternions and their product are unit.
    assert(cone_axis().is_unit());
    let psi = cone.psi(t);
    assert(t.cos(psi) * t.cos(psi) + t.sin(psi) * t.sin(psi) == 1 as real);
    assert(c.is_unit());
    lemma_from_axis_angle_unit(t, cone_axis(), offset + theta);
    lemma_from_axis_angle_unit(t, c, -tau);
    lemma_multiply_norm(q_z, q_c);
    lemma_rotate_norm(multiply(q_z, q_c), a);
    // The anchor is at the distance `length` from the apex.
    assert(k * k + s * s == 1 as real);
    lemma_mul_negation(length * k, length * k);
    lemma_mul_exchange(length, s, length, s);
    lemma_mul_exchange(length, k, length, k);
    lemma_mul_distributive(length * length, s * s, k * k);
    lemma_mul_unit(length * length);
    assert(a.norm_sq() == length * length);
    assert(is_square_root(length, a.norm_sq()));
    lemma_square_root_is(length, a.norm_sq());
}

/// The spherical involute lies on the sphere about the apex whose radius is
/// its slant distance.
pub proof fn lemma_involute_on_sphere(t: Trig, generatrix: real, theta: real, cone: ConeSpec)
    requires
        t.pythagorean(),
        (0 as real) <= generatrix,
    ensures
        involute_point(t, generatrix, theta, cone).norm() == generatrix,
{
    lemma_shifted_involute_on_sphere(t, generatrix, 0 as real, theta, cone);
}

/// A point of the helicoid at the tooth-width offset `b` is as far from the
/// apex as the generatrix less `b`.
pub proof fn lemma_helicoid_on_sphere(
    t: Trig,
    b: real,
    theta: real,
    cone: ConeSpec,
    helix: HelixSpec,
)
    requires
        t.pythagorean(),
        (0 as real) <= cone.generatrix,
        (0 as real) <= t.sin(helix.beta),
    ensures
        match involute_point_helicoid(t, b, theta, cone, helix) {
            Ok(point) => point.norm() == cone.generatrix - b,
            Err(error) => !twist_defined(t, b, cone, helix),
        },
{
    if twist_defined(t, b, cone, helix) {
        let g = cone.generatrix;
        let s = t.sin(helix.beta);
        assert((0 as real) <= g * s) by (nonlinear_arith)
            requires
                (0 as real) <= g,
                (0 as real) <= s,
        ;
        let offset = theta_offset(t, b, cone, helix)->Ok_0;
        lemma_shifted_involute_on_sphere(t, g - b, offset, theta, cone);
    }
}

/// The twist has an angle exactly up to the tooth-width offset at which the
/// generatrix times one less the sine of the helix angle is reached. Up to
/// it the phase shift is a number and the helicoid has a point; beyond it
/// both are the error that names the offset.
pub proof fn lemma_twist_bound(t: Trig, b: real, theta: real, cone: ConeSpec, helix: HelixSpec)
    ensures
        twist_defined(t, b, cone, helix) <==> b <= cone.generatrix * ((1 as real) - t.sin(
            helix.beta,
        )),
        theta_offset(t, b, cone, helix) is Ok <==> twist_defined(t, b, cone, helix),
        involute_point_helicoid(t, b, theta, cone, helix) is Ok <==> twist_defined(
            t,
            b,
            cone,
            helix,
        ),
        !twist_defined(t, b, cone, helix) ==> {
            let error = DomainError { b, beta: helix.beta, generatrix: cone.generatrix };
            &&& theta_offset(t, b, cone, helix) == Err::<real, DomainError>(error)
            &&& involute_point_helicoid(t, b, theta, cone, helix) == Err::<Vector3, DomainError>(
                error,
            )
        },
{
    lemma_mul_distributive(cone.generatrix, 1 as real, t.sin(helix.beta));
    lemma_mul_unit(cone.generatrix);
}

/// Where the offset stays below the generatrix, the twist has an angle
/// exactly if what the inverse sine is asked for is at most one.
pub proof fn lemma_twist_sine_bound(t: Trig, b: real, cone: ConeSpec, helix: HelixSpec)
    requires
        b < cone.generatrix,
    ensures
        twist_defined(t, b, cone, helix) <==> twist_sine(t, b, cone, helix) <= 1 as real,
        (0 as real) <= cone.generatrix && (0 as real) <= t.sin(helix.beta) ==> (0 as real)
            <= twist_sine(t, b, cone, helix),
{
    let n = cone.generatrix * t.sin(helix.beta);
    let d = cone.generatrix - b;
    assert((n <= d) <==> (n / d <= 1 as real)) by (nonlinear_arith)
        requires
            (0 as real) < d,
    ;
    assert((0 as real) <= cone.generatrix && (0 as real) <= t.sin(helix.beta) ==> (0 as real) <= n)
        by (nonlinear_arith)
        requires
            n == cone.generatrix * t.sin(helix.beta),
    ;
    assert((0 as real) <= n ==> (0 as real) <= n / d) by (nonlinear_arith)
        requires
            (0 as real) < d,
    ;
}

/// At the base of the cone the involute is not shifted.
pub proof fn lemma_no_offset_at_base(t: Trig, cone: ConeSpec, helix: HelixSpec)
    requires
        t.pythagorean(),
        t.inverts_sine(),
        helix.in_range(t),
        (0 as real) < cone.generatrix,
        t.sin(cone.phi) != 0 as real,
    ensures
        theta_offset(t, 0 as real, cone, helix) == Ok::<real, DomainError>(0 as real),
{
    let s = t.sin(helix.beta);
    let g = cone.generatrix;
    let c = t.cos(helix.beta);
    assert(c * c + s * s == 1 as real);
    assert((0 as real) <= c * c) by (nonlinear_arith);
    assert(s <= 1 as real) by (nonlinear_arith)
        requires
            s * s <= 1 as real,
    ;
    assert(g * s <= g) by (nonlinear_arith)
        requires
            s <= 1 as real,
            (0 as real) < g,
    ;
    lemma_div_mul_cancels(s, g);
    assert(s * g == g * s) by (nonlinear_arith);
    assert(twist_sine(t, 0 as real, cone, helix) == s);
    assert(t.asin(s) == helix.beta);
    assert((0 as real) / t.sin(cone.phi) == 0 as real) by (nonlinear_arith)
        requires
            t.sin(cone.phi) != 0 as real,
    ;
}

/// At the base of the cone the helicoid is the plain involute of the whole
/// generatrix.
pub proof fn lemma_helicoid_base_is_plain(t: Trig, theta: real, cone: ConeSpec, helix: HelixSpec)
    requires
        t.pythagorean(),
        t.inverts_sine(),
        helix.in_range(t),
        (0 as real) < cone.generatrix,
        t.sin(cone.phi) != 0 as real,
    ensures
        involute_point_helicoid(t, 0 as real, theta, cone, helix) == Ok::<Vector3, DomainError>(
            involute_point(t, cone.generatrix, theta, cone),
        ),
{
    lemma_no_offset_at_base(t, cone, helix);
}

} // verus!
