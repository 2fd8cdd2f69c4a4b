use bloch::operators::{self, identity, pauli_x, pauli_y, pauli_z, Entry, Operator};
use bloch::state::{expectation, BlochError, BlochVector};
use nalgebra::{Complex, Matrix2};

type Matrix = Matrix2<Complex<f64>>;

const HBAR: f64 = f64::from_bits(operators::HBAR);

fn entry(e: Entry) -> Complex<f64> {
    Complex::new(f64::from(e.re), f64::from(e.im))
}

fn matrix(op: Operator) -> Matrix {
    Matrix2::new(entry(op.m11), entry(op.m12), entry(op.m21), entry(op.m22))
}

fn vector(theta: f64, phi: f64, r: f64) -> BlochVector {
    BlochVector::new(theta.to_bits(), phi.to_bits(), r.to_bits()).expect("inside the sphere")
}

fn coordinates(v: &BlochVector) -> (f64, f64, f64) {
    let theta = f64::from_bits(v.theta());
    let phi = f64::from_bits(v.phi());
    let r = f64::from_bits(v.r());
    (phi.sin() * theta.cos() * r, phi.sin() * theta.sin() * r, phi.cos() * r)
}

fn spin(x: f64, y: f64, z: f64) -> Matrix {
    matrix(pauli_x()) * Complex::from(x)
        + matrix(pauli_y()) * Complex::from(y)
        + matrix(pauli_z()) * Complex::from(z)
}

fn density(v: &BlochVector) -> Matrix {
    let (x, y, z) = coordinates(v);
    (matrix(identity()) + spin(x, y, z)) * Complex::from(0.5)
}

fn hamiltonian(theta: f64, phi: f64) -> Matrix {
    spin(theta.cos() * phi.sin(), theta.sin() * phi.sin(), phi.cos()) * Complex::from(0.5 * HBAR)
}

fn evolution(h: &Matrix, t: f64) -> Matrix {
    (h * (Complex::new(0.0, -1.0) * Complex::from(t))).exp()
}

fn evolve(rho: &Matrix, h: &Matrix, t: f64) -> Matrix {
    let u = evolution(h, t);
    u * rho * u.adjoint()
}

fn measure(rho: &Matrix, a: &Matrix) -> Result<f64, BlochError> {
    let trace = (rho * a).trace();
    expectation(trace.re.to_bits(), trace.im.to_bits()).map(f64::from_bits)
}

fn close(a: &Matrix, b: &Matrix, tolerance: f64) -> bool {
    (a - b).iter().all(|d| d.norm() <= tolerance)
}

fn diagonal(a: f64, d: f64) -> Matrix {
    Matrix2::new(Complex::from(a), Complex::from(0.0), Complex::from(0.0), Complex::from(d))
}

#[test]
fn coordinates_take_phi_as_the_polar_angle() {
    let quarter = std::f64::consts::FRAC_PI_2;
    let (x, y, z) = coordinates(&vector(0.0, quarter, 1.0));
    assert_eq!(x, 1.0);
    assert_eq!(y, 0.0);
    assert!(z.abs() < 1e-15);
    let (x, y, z) = coordinates(&vector(quarter, quarter, 0.5));
    assert!(x.abs() < 1e-15);
    assert_eq!(y, 0.5);
    assert!(z.abs() < 1e-15);
    let (x, y, z) = coordinates(&vector(1.0, 0.0, 0.25));
    assert_eq!((x, y, z), (0.0, 0.0, 0.25));
}

#[test]
fn coordinates_have_the_length_of_the_magnitude() {
    for (theta, phi, r) in [(0.3, 1.1, 1.0), (2.0, 0.4, 0.5), (-1.0, 4.0, 0.0), (6.0, 3.0, 0.75)] {
        let v = vector(theta, phi, r);
        let (x, y, z) = coordinates(&v);
        assert!((x * x + y * y + z * z - r * r).abs() < 1e-12);
        assert_eq!(coordinates(&v), (x, y, z));
    }
}

#[test]
fn the_fully_mixed_state_is_half_of_the_identity() {
    for (theta, phi) in [(0.0, 0.0), (1.0, 2.0), (-3.0, 0.5), (100.0, -7.0)] {
        let rho = density(&vector(theta, phi, 0.0));
        assert_eq!(rho, diagonal(0.5, 0.5));
    }
}

#[test]
fn the_pure_state_at_the_pole_is_the_upper_left_projector() {
    let rho = density(&vector(0.0, 0.0, 1.0));
    assert_eq!(rho, diagonal(1.0, 0.0));
}

#[test]
fn the_hamiltonian_is_hermitian() {
    for (theta, phi) in [(0.0, 0.0), (0.7, 1.3), (2.5, -0.4)] {
        let h = hamiltonian(theta, phi);
        assert_eq!(h, h.adjoint());
    }
    assert_eq!(hamiltonian(0.0, 0.0), diagonal(0.5 * HBAR, -0.5 * HBAR));
}

#[test]
fn evolution_is_unitary() {
    for (theta, phi) in [(0.0, 0.0), (0.7, 1.3), (2.5, -0.4)] {
        for t in [0.0, 1.0, -3.0 / HBAR, 0.5 / HBAR, 7.0 / HBAR] {
            let u = evolution(&hamiltonian(theta, phi), t);
            assert!(close(&(u * u.adjoint()), &matrix(identity()), 1e-9));
        }
    }
}

#[test]
fn evolution_for_no_time_changes_nothing() {
    let h = hamiltonian(0.7, 1.3);
    assert_eq!(evolution(&h, 0.0), matrix(identity()));
    let rho = density(&vector(0.3, 1.1, 0.8));
    assert_eq!(evolve(&rho, &h, 0.0), rho);
}

#[test]
fn evolution_under_the_zero_hamiltonian_changes_nothing() {
    let zero = diagonal(0.0, 0.0);
    let rho = density(&vector(0.3, 1.1, 0.8));
    assert_eq!(evolve(&rho, &zero, 5.0), rho);
}

#[test]
fn evolutions_under_one_hamiltonian_add_their_times() {
    let h = hamiltonian(0.7, 1.3);
    let rho = density(&vector(0.3, 1.1, 0.8));
    let (t1, t2) = (0.4 / HBAR, 1.1 / HBAR);
    let stepwise = evolve(&evolve(&rho, &h, t1), &h, t2);
    let at_once = evolve(&rho, &h, t1 + t2);
    assert!(close(&stepwise, &at_once, 1e-9));
    assert!(!close(&stepwise, &rho, 1e-3));
}

#[test]
fn evolutions_under_two_hamiltonians_do_not_add_their_times() {
    let h1 = hamiltonian(0.0, 0.0);
    let h2 = hamiltonian(0.0, std::f64::consts::FRAC_PI_2);
    let rho = density(&vector(0.3, 1.1, 0.8));
    let t = 1.0 / HBAR;
    let one_then_two = evolve(&evolve(&rho, &h1, t), &h2, t);
    let two_then_one = evolve(&evolve(&rho, &h2, t), &h1, t);
    assert!(!close(&one_then_two, &two_then_one, 1e-3));
}

#[test]
fn evolution_keeps_the_trace_at_one() {
    let h = hamiltonian(2.5, -0.4);
    let mut rho = density(&vector(0.3, 1.1, 0.8));
    assert!((rho.trace() - Complex::from(1.0)).norm() < 1e-12);
    for t in [0.3 / HBAR, -2.0 / HBAR, 9.0 / HBAR] {
        rho = evolve(&rho, &h, t);
        assert!((rho.trace() - Complex::from(1.0)).norm() < 1e-9);
    }
}

#[test]
fn measuring_along_z_at_the_pole_gives_one() {
    let rho = density(&vector(0.0, 0.0, 1.0));
    assert_eq!(measure(&rho, &matrix(pauli_z())), Ok(1.0));
    assert_eq!(measure(&rho, &matrix(pauli_x())), Ok(0.0));
    assert_eq!(measure(&rho, &matrix(identity())), Ok(1.0));
}

#[test]
fn measuring_an_operator_that_is_not_hermitian_fails() {
    let rho = density(&vector(0.0, 0.0, 1.0));
    let a = Matrix2::new(
        Complex::new(0.0, 1.0),
        Complex::from(0.0),
        Complex::from(0.0),
        Complex::from(0.0),
    );
    assert_eq!(measure(&rho, &a), Err(BlochError::InvalidMeasurementOperator));
}

#[test]
fn measuring_does_not_change_the_state() {
    let rho = density(&vector(0.3, 1.1, 0.8));
    let before = rho;
    let first = measure(&rho, &matrix(pauli_z()));
    let second = measure(&rho, &matrix(pauli_z()));
    assert_eq!(first, second);
    assert_eq!(rho, before);
}

#[test]
fn the_pole_is_a_fixed_point_of_precession_about_z() {
    let v = vector(0.0, 0.0, 1.0);
    let h = hamiltonian(0.0, 0.0);
    let mut rho = density(&v);
    for t in [std::f64::consts::PI / (0.5 * HBAR), 1.0 / HBAR, -0.3 / HBAR] {
        rho = evolve(&rho, &h, t);
        let value = measure(&rho, &matrix(pauli_z())).expect("a real expectation value");
        assert!((value - 1.0).abs() < 1e-9);
    }
}
