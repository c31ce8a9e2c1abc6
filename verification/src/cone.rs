//! The base cone: its reference points and the grid of points that shows it.

use crate::grid::Cell;
use crate::grid::SampleGrid;
use crate::quaternion::about_third_axis;
use crate::quaternion::from_axis_angle;
use crate::quaternion::lemma_rotate_about_third_axis;
use crate::quaternion::lemma_rotate_origin;
use crate::quaternion::rotate;
use crate::reals::lemma_div_mul_cancels;
use crate::reals::lemma_mul_commutative;
use crate::reals::lemma_mul_unit;
use crate::trig::Trig;
use crate::vector::Vector3;
use vstd::prelude::*;

verus! {

/// A base cone: the angle `phi` between its axis and its surface, and the
/// length `generatrix` of its slant from the apex to the base circle. The
/// apex is the origin, and the axis is the third coordinate axis, with the
/// cone below the apex.
pub struct ConeSpec {
    pub phi: real,
    pub generatrix: real,
}

impl ConeSpec {
    /// The half angle of the complementary cone: a quarter turn less `phi`.
    pub open spec fn psi(self, t: Trig) -> real {
        t.pi() / (2 as real) - self.phi
    }

    /// The point of the cone's surface at the slant distance `length` from
    /// the apex, in the reference position before any rotation.
    pub open spec fn anchor(self, t: Trig, length: real) -> Vector3 {
        Vector3 {
            x: length * t.sin(self.phi),
            y: 0 as real,
            z: -(length * t.cos(self.phi)),
        }
    }

    /// The axis about which the rolling disk spins.
    pub open spec fn rolling_axis(self, t: Trig) -> Vector3 {
        Vector3 { x: t.sin(self.psi(t)), y: 0 as real, z: t.cos(self.psi(t)) }
    }
}

/// The axis of the cone.
pub open spec fn cone_axis() -> Vector3 {
    Vector3 { x: 0 as real, y: 0 as real, z: 1 as real }
}

/// The point of the cone's surface at the slant distance `length` from the
/// apex and at the angle `theta` about the axis: the anchor, turned.
pub open spec fn base_cone_point(t: Trig, cone: ConeSpec, length: real, theta: real) -> Vector3 {
    rotate(from_axis_angle(t, cone_axis(), theta), cone.anchor(t, length))
}

/// The same point in cylindrical form: a radius, an angle and a height.
pub open spec fn base_cone_point_cylindrical(
    t: Trig,
    cone: ConeSpec,
    length: real,
    theta: real,
) -> Vector3 {
    let r = length * t.sin(cone.phi);
    Vector3 { x: r * t.cos(theta), y: r * t.sin(theta), z: -(length * t.cos(cone.phi)) }
}

/// The point of one cell of the divided cone: slant distances run evenly from
/// zero to the generatrix, angles evenly from zero to a full turn.
pub open spec fn base_cone_cell(
    t: Trig,
    cone: ConeSpec,
    generatrix_divisions: usize,
    angular_divisions: usize,
    cell: Cell,
) -> Vector3 {
    let length = cone.generatrix / (generatrix_divisions as real) * (cell.sweep as real);
    let theta = (2 as real) * t.pi() / (angular_divisions as real) * (cell.roll as real);
    base_cone_point(t, cone, length, theta)
}

/// The points that show the base cone, slant distance by slant distance and,
/// within one slant distance, angle by angle.
pub open spec fn sample_base_cone(
    t: Trig,
    cone: ConeSpec,
    generatrix_divisions: usize,
    angular_divisions: usize,
) -> Seq<Vector3> {
    let grid = SampleGrid::divided(generatrix_divisions, angular_divisions);
    Seq::new(
        grid.len(),
        |k: int| base_cone_cell(t, cone, generatrix_divisions, angular_divisions, grid.cell_at(k)),
    )
}

/// The divided cone has one point for every pair of a slant distance and an
/// angle, both ends of both ranges included, and the point of the slant
/// distance `i` and the angle `j` stands at the place that the sweep-major
/// order gives it.
pub proof fn lemma_base_cone_points(
    t: Trig,
    cone: ConeSpec,
    generatrix_divisions: usize,
    angular_divisions: usize,
    i: usize,
    j: usize,
)
    requires
        generatrix_divisions < usize::MAX,
        angular_divisions < usize::MAX,
        i <= generatrix_divisions,
        j <= angular_divisions,
    ensures
        sample_base_cone(t, cone, generatrix_divisions, angular_divisions).len() == (
        generatrix_divisions + 1) * (angular_divisions + 1),
        0 <= i * (angular_divisions + 1) + j < sample_base_cone(
            t,
            cone,
            generatrix_divisions,
            angular_divisions,
        ).len(),
        sample_base_cone(t, cone, generatrix_divisions, angular_divisions)[i * (angular_divisions
            + 1) + j] == base_cone_cell(
            t,
            cone,
            generatrix_divisions,
            angular_divisions,
            Cell { sweep: i, roll: j },
        ),
{
    SampleGrid::divided(generatrix_divisions, angular_divisions).lemma_position(
        Cell { sweep: i, roll: j },
    );
}

/// The points at the slant distance zero, which come first, are the apex,
/// whatever their angle.
pub proof fn lemma_base_cone_apex(
    t: Trig,
    cone: ConeSpec,
    generatrix_divisions: usize,
    angular_divisions: usize,
    k: int,
)
    requires
        generatrix_divisions < usize::MAX,
        angular_divisions < usize::MAX,
        0 <= k <= angular_divisions,
    ensures
        k < sample_base_cone(t, cone, generatrix_divisions, angular_divisions).len(),
        sample_base_cone(t, cone, generatrix_divisions, angular_divisions)[k] == Vector3::zero(),
{
    let grid = SampleGrid::divided(generatrix_divisions, angular_divisions);
    let cell = Cell { sweep: 0, roll: k as usize };
    grid.lemma_position(cell);
    assert(grid.position(cell) == k);
    let step = cone.generatrix / (generatrix_divisions as real);
    let theta = (2 as real) * t.pi() / (angular_divisions as real) * (cell.roll as real);
    lemma_mul_unit(step);
    lemma_mul_unit(t.sin(cone.phi));
    lemma_mul_unit(t.cos(cone.phi));
    assert(cone.anchor(t, step * (0 as real)) == Vector3::zero());
    lemma_rotate_origin(from_axis_angle(t, cone_axis(), theta));
}

/// The points at the last slant distance lie on the base circle: their
/// slant distance is the generatrix.
pub proof fn lemma_base_cone_rim(
    t: Trig,
    cone: ConeSpec,
    generatrix_divisions: usize,
    angular_divisions: usize,
    roll: usize,
)
    requires
        generatrix_divisions > 0,
    ensures
        base_cone_cell(
            t,
            cone,
            generatrix_divisions,
            angular_divisions,
            Cell { sweep: generatrix_divisions, roll },
        ) == base_cone_point(
            t,
            cone,
            cone.generatrix,
            (2 as real) * t.pi() / (angular_divisions as real) * (roll as real),
        ),
{
    lemma_div_mul_cancels(cone.generatrix, generatrix_divisions as real);
}

/// The turned anchor and the cylindrical form are the same point.
pub proof fn lemma_base_cone_forms_agree(t: Trig, cone: ConeSpec, length: real, theta: real)
    requires
        t.pythagorean(),
        t.doubles(),
    ensures
        base_cone_point(t, cone, length, theta) == base_cone_point_cylindrical(
            t,
            cone,
            length,
            theta,
        ),
{
    let c = t.cos(theta / (2 as real));
    let s = t.sin(theta / (2 as real));
    let a = cone.anchor(t, length);
    lemma_mul_unit(s);
    assert(from_axis_angle(t, cone_axis(), theta) == about_third_axis(c, s));
    assert(c * c + s * s == 1 as real);
    lemma_rotate_about_third_axis(c, s, a);
    lemma_mul_unit(c * c - s * s);
    lemma_mul_unit((2 as real) * (s * c));
    lemma_mul_commutative(a.x, t.cos(theta));
    lemma_mul_commutative(a.x, t.sin(theta));
}

/// The divided cone closes: at every slant distance, the point at the full
/// turn is the point at the angle zero once more.
pub proof fn lemma_base_cone_closes(
    t: Trig,
    cone: ConeSpec,
    generatrix_divisions: usize,
    angular_divisions: usize,
    sweep: usize,
)
    requires
        t.starts_at_zero(),
        t.turns_back(),
        angular_divisions > 0,
    ensures
        base_cone_cell(
            t,
            cone,
            generatrix_divisions,
            angular_divisions,
            Cell { sweep, roll: angular_divisions },
        ) == base_cone_cell(
            t,
            cone,
            generatrix_divisions,
            angular_divisions,
            Cell { sweep, roll: 0 },
        ),
{
    let length = cone.generatrix / (generatrix_divisions as real) * (sweep as real);
    let a = cone.anchor(t, length);
    let step = (2 as real) * t.pi() / (angular_divisions as real);
    lemma_mul_unit(step);
    lemma_div_mul_cancels((2 as real) * t.pi(), angular_divisions as real);
    assert(step * (0 as real) / (2 as real) == 0 as real);
    assert(step * (angular_divisions as real) / (2 as real) == t.pi());
    let none = about_third_axis(1 as real, 0 as real);
    let full = about_third_axis(-(1 as real), 0 as real);
    assert(from_axis_angle(t, cone_axis(), step * (0 as real)) == none);
    assert(from_axis_angle(t, cone_axis(), step * (angular_divisions as real)) == full);
    lemma_rotate_about_third_axis(1 as real, 0 as real, a);
    lemma_rotate_about_third_axis(-(1 as real), 0 as real, a);
    lemma_mul_unit(a.x);
    lemma_mul_unit(a.y);
}

} // verus!
