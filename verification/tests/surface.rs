use involute_helicoid::grid::Cell;
use involute_helicoid::grid::SampleGrid;

const PI: f64 = std::f64::consts::PI;
const TOLERANCE: f64 = 1e-9;

struct Cone {
    phi: f64,
    generatrix: f64,
}

#[derive(Debug, PartialEq)]
struct OutOfDomain {
    b: f64,
}

fn degrees(angle: f64) -> f64 {
    angle * (PI / 180.0)
}

fn norm(v: [f64; 3]) -> f64 {
    (v[0] * v[0] + v[1] * v[1] + v[2] * v[2]).sqrt()
}

fn distance(a: [f64; 3], b: [f64; 3]) -> f64 {
    norm([a[0] - b[0], a[1] - b[1], a[2] - b[2]])
}

fn anchor(cone: &Cone, length: f64) -> [f64; 3] {
    [length * cone.phi.sin(), 0.0, -length * cone.phi.cos()]
}

fn base_cone_point(cone: &Cone, length: f64, theta: f64) -> [f64; 3] {
    let q = quaternion_core::from_axis_angle([0.0, 0.0, 1.0], theta);
    quaternion_core::point_rotation(q, anchor(cone, length))
}

fn shifted_involute_point(cone: &Cone, length: f64, offset: f64, theta: f64) -> [f64; 3] {
    let psi = 0.5 * PI - cone.phi;
    let tau = cone.phi.sin() * theta;
    let c = [psi.sin(), 0.0, psi.cos()];
    let q_z = quaternion_core::from_axis_angle([0.0, 0.0, 1.0], offset + theta);
    let q_c = quaternion_core::from_axis_angle(c, -tau);
    quaternion_core::point_rotation(quaternion_core::mul(q_z, q_c), anchor(cone, length))
}

fn theta_offset(cone: &Cone, beta: f64, b: f64) -> Result<f64, OutOfDomain> {
    if cone.generatrix * beta.sin() <= cone.generatrix - b {
        let gamma = (cone.generatrix * beta.sin() / (cone.generatrix - b)).asin() - beta;
        Ok(gamma / cone.phi.sin())
    } else {
        Err(OutOfDomain { b })
    }
}

fn helicoid_point(cone: &Cone, beta: f64, b: f64, theta: f64) -> Result<[f64; 3], OutOfDomain> {
    let offset = theta_offset(cone, beta, b)?;
    Ok(shifted_involute_point(cone, cone.generatrix - b, offset, theta))
}

fn sample_base_cone(cone: &Cone, gen_split: usize, theta_split: usize) -> Vec<[f64; 3]> {
    let grid = SampleGrid::with_divisions(gen_split, theta_split).unwrap();
    grid.sample(|cell: Cell| {
        let length = (cone.generatrix / gen_split as f64) * cell.sweep as f64;
        let theta = (2.0 * PI / theta_split as f64) * cell.roll as f64;
        base_cone_point(cone, length, theta)
    })
}

fn sample_helicoid(
    cone: &Cone,
    beta: f64,
    grid: SampleGrid,
    delta_width: f64,
    delta_theta: f64,
) -> Result<Vec<[f64; 3]>, OutOfDomain> {
    grid.try_sample(|cell: Cell| {
        helicoid_point(cone, beta, delta_width * cell.sweep as f64, delta_theta * cell.roll as f64)
    })
}

#[test]
fn base_cone_has_a_point_for_both_ends_of_every_interval() {
    let cone = Cone { phi: degrees(60.0), generatrix: 20.0 };
    let points = sample_base_cone(&cone, 10, 50);
    assert_eq!(points.len(), 11 * 51);
    assert_eq!(points.len(), 561);
}

#[test]
fn base_cone_starts_at_the_apex_whatever_the_angle() {
    let cone = Cone { phi: degrees(60.0), generatrix: 20.0 };
    let points = sample_base_cone(&cone, 10, 50);
    for point in &points[0..51] {
        assert!(norm(*point) < TOLERANCE);
    }
    assert!(norm(points[51]) > 1.0);
}

#[test]
fn base_cone_ends_on_the_base_circle() {
    let cone = Cone { phi: degrees(60.0), generatrix: 20.0 };
    let points = sample_base_cone(&cone, 10, 50);
    let radius = 20.0 * degrees(60.0).sin();
    let height = -20.0 * degrees(60.0).cos();
    for point in &points[510..561] {
        assert!(((point[0] * point[0] + point[1] * point[1]).sqrt() - radius).abs() < TOLERANCE);
        assert!((point[2] - height).abs() < TOLERANCE);
    }
    assert!(distance(points[510], [radius, 0.0, height]) < TOLERANCE);
}

#[test]
fn base_cone_closes_after_a_full_turn() {
    let cone = Cone { phi: degrees(60.0), generatrix: 20.0 };
    let points = sample_base_cone(&cone, 10, 50);
    for sweep in 0..11 {
        assert!(distance(points[sweep * 51], points[sweep * 51 + 50]) < TOLERANCE);
    }
}

#[test]
fn base_cone_point_is_the_cylindrical_form() {
    let cone = Cone { phi: degrees(60.0), generatrix: 20.0 };
    for step in 0..40 {
        let theta = 0.2 * step as f64;
        let length = 0.5 * step as f64;
        let r = length * cone.phi.sin();
        let expected = [r * theta.cos(), r * theta.sin(), -length * cone.phi.cos()];
        assert!(distance(base_cone_point(&cone, length, theta), expected) < TOLERANCE);
    }
}

#[test]
fn involute_starts_at_the_anchor() {
    for phi in [5.0, 20.0, 45.0, 60.0, 85.0] {
        let cone = Cone { phi: degrees(phi), generatrix: 20.0 };
        let point = shifted_involute_point(&cone, 20.0, 0.0, 0.0);
        assert!(distance(point, anchor(&cone, 20.0)) < TOLERANCE);
    }
}

#[test]
fn rotation_keeps_the_length_of_a_vector() {
    let axes = [[1.0, 0.0, 0.0], [0.0, 0.6, 0.8], [2.0 / 3.0, -1.0 / 3.0, 2.0 / 3.0]];
    let vectors = [[1.0, 2.0, 3.0], [-4.5, 0.0, 0.25], [0.0, 0.0, 0.0], [1e3, -2e3, 5e2]];
    for axis in axes {
        for step in 0..25 {
            let q = quaternion_core::from_axis_angle(axis, 0.37 * step as f64 - 3.0);
            for v in vectors {
                let turned = quaternion_core::point_rotation(q, v);
                assert!((norm(turned) - norm(v)).abs() < TOLERANCE * (1.0 + norm(v)));
            }
        }
    }
}

#[test]
fn order_of_the_product_changes_the_rotation() {
    let a = (0.0, [1.0, 0.0, 0.0]);
    let b = (0.6, [0.0, 0.0, 0.8]);
    let x = [1.0, 0.0, 0.0];
    let one_way = quaternion_core::point_rotation(quaternion_core::mul(a, b), x);
    let other_way = quaternion_core::point_rotation(quaternion_core::mul(b, a), x);
    assert!(distance(one_way, [-0.28, -0.96, 0.0]) < TOLERANCE);
    assert!(distance(other_way, [-0.28, 0.96, 0.0]) < TOLERANCE);
    assert!(distance(one_way, other_way) > 1.0);
}

#[test]
fn product_applies_the_right_factor_first() {
    let a = quaternion_core::from_axis_angle([0.0, 0.0, 1.0], 0.7);
    let b = quaternion_core::from_axis_angle([0.6, 0.0, 0.8], -1.1);
    let v = [0.3, -2.0, 1.5];
    let at_once = quaternion_core::point_rotation(quaternion_core::mul(a, b), v);
    let in_turn = quaternion_core::point_rotation(a, quaternion_core::point_rotation(b, v));
    assert!(distance(at_once, in_turn) < TOLERANCE);
}

#[test]
fn twist_is_defined_up_to_the_bound_and_not_beyond() {
    let cone = Cone { phi: degrees(60.0), generatrix: 20.0 };
    let beta = degrees(20.0);
    let bound = 20.0 * (1.0 - beta.sin());
    assert!((bound - 13.159).abs() < 1e-3);
    for b in [-5.0, 0.0, 1.0, 12.25, 13.0, 13.159, bound - 1e-9] {
        let offset = theta_offset(&cone, beta, b).unwrap();
        assert!(offset.is_finite());
    }
    for b in [bound + 1e-9, 13.16, 13.25, 19.0, 20.0, 25.0] {
        assert_eq!(theta_offset(&cone, beta, b), Err(OutOfDomain { b }));
    }
}

#[test]
fn no_offset_at_the_base() {
    for phi in [10.0, 45.0, 60.0, 80.0] {
        for beta in [0.0, 5.0, 20.0, 45.0, 70.0] {
            let cone = Cone { phi: degrees(phi), generatrix: 20.0 };
            let offset = theta_offset(&cone, degrees(beta), 0.0).unwrap();
            assert!(offset.abs() < TOLERANCE);
        }
    }
}

#[test]
fn involute_lies_on_the_sphere_about_the_apex() {
    let cone = Cone { phi: degrees(60.0), generatrix: 200.0 };
    let point = shifted_involute_point(&cone, 200.0, 0.0, 0.1);
    assert!((norm(point) - 200.0).abs() < TOLERANCE);
    for step in 0..60 {
        let point = shifted_involute_point(&cone, 200.0, 0.0, 0.1 * step as f64);
        assert!((norm(point) - 200.0).abs() < TOLERANCE);
    }
}

#[test]
fn involute_leaves_the_cone_as_the_disk_rolls() {
    let cone = Cone { phi: degrees(60.0), generatrix: 200.0 };
    let start = shifted_involute_point(&cone, 200.0, 0.0, 0.0);
    let later = shifted_involute_point(&cone, 200.0, 0.0, 0.1);
    assert!(distance(start, later) > 1e-3);
}

#[test]
fn helicoid_is_sampled_width_by_width() {
    let cone = Cone { phi: degrees(60.0), generatrix: 20.0 };
    let beta = degrees(20.0);
    let points = sample_helicoid(&cone, beta, SampleGrid::new(50, 20), 0.25, 0.1).unwrap();
    assert_eq!(points.len(), 1000);
    for (k, point) in points.iter().enumerate() {
        let b = 0.25 * (k / 20) as f64;
        assert!((norm(*point) - (20.0 - b)).abs() < TOLERANCE);
        assert_eq!(*point, helicoid_point(&cone, beta, b, 0.1 * (k % 20) as f64).unwrap());
    }
    assert!(distance(points[0], anchor(&cone, 20.0)) < TOLERANCE);
}

#[test]
fn helicoid_stops_at_the_first_width_beyond_the_bound() {
    let cone = Cone { phi: degrees(60.0), generatrix: 20.0 };
    let beta = degrees(20.0);
    let visited = std::cell::Cell::new(0usize);
    let outcome = SampleGrid::new(60, 20).try_sample(|cell: Cell| {
        visited.set(visited.get() + 1);
        helicoid_point(&cone, beta, 0.25 * cell.sweep as f64, 0.1 * cell.roll as f64)
    });
    assert_eq!(outcome, Err(OutOfDomain { b: 13.25 }));
    assert_eq!(visited.get(), 53 * 20 + 1);
}

#[test]
fn plain_surface_is_sampled_generatrix_by_generatrix() {
    let cone = Cone { phi: degrees(60.0), generatrix: 200.0 };
    let grid = SampleGrid::new(5, 20);
    let points = grid.sample(|cell: Cell| {
        let generatrix = cone.generatrix * (0.1 * cell.sweep as f64 + 0.5);
        shifted_involute_point(&cone, generatrix, 0.0, 0.1 * cell.roll as f64)
    });
    assert_eq!(points.len(), 100);
    for (k, point) in points.iter().enumerate() {
        let generatrix = 200.0 * (0.1 * (k / 20) as f64 + 0.5);
        assert!((norm(*point) - generatrix).abs() < TOLERANCE);
    }
    assert!(distance(points[0], anchor(&cone, 100.0)) < TOLERANCE);
    assert!(distance(points[80], anchor(&cone, 180.0)) < TOLERANCE);
}

#[test]
fn involute_point_has_the_expected_coordinates() {
    let cone = Cone { phi: degrees(60.0), generatrix: 200.0 };
    let near = shifted_involute_point(&cone, 200.0, 0.0, 0.1);
    let expected = [173.42091131058618, 0.0144085185871754, -99.62523431641414];
    assert!(distance(near, expected) < TOLERANCE);
    let far = shifted_involute_point(&cone, 200.0, 0.0, 1.0);
    let expected = [188.82847313417147, 12.107453352829696, -64.78593448524573];
    assert!(distance(far, expected) < TOLERANCE);
}

#[test]
fn offset_has_the_expected_value() {
    let cone = Cone { phi: degrees(60.0), generatrix: 20.0 };
    let beta = degrees(20.0);
    assert!((theta_offset(&cone, beta, 5.0).unwrap() - 0.14371384418209449).abs() < TOLERANCE);
    assert!((theta_offset(&cone, beta, 12.25).unwrap() - 0.8456655115073813).abs() < TOLERANCE);
}

#[test]
fn helicoid_point_has_the_expected_coordinates() {
    let cone = Cone { phi: degrees(60.0), generatrix: 20.0 };
    let point = helicoid_point(&cone, degrees(20.0), 5.0, 0.3).unwrap();
    let expected = [12.992951245887632, 1.9093005016850229, -7.248295628370324];
    assert!(distance(point, expected) < TOLERANCE);
}

#[test]
fn base_cone_point_has_the_expected_coordinates() {
    let cone = Cone { phi: degrees(60.0), generatrix: 20.0 };
    let points = sample_base_cone(&cone, 10, 50);
    let grid = SampleGrid::with_divisions(10, 50).unwrap();
    let place = grid.index(Cell { sweep: 10, roll: 13 }).unwrap();
    assert_eq!(place, 523);
    assert!(distance(points[place], [-1.0875637005841663, 17.28633000949512, -10.0]) < TOLERANCE);
}
