use bloch::operators::{identity, pauli_x, pauli_y, pauli_z, Entry, Operator, HBAR};

fn times(a: Entry, b: Entry) -> Entry {
    Entry { re: a.re * b.re - a.im * b.im, im: a.re * b.im + a.im * b.re }
}

fn plus(a: Entry, b: Entry) -> Entry {
    Entry { re: a.re + b.re, im: a.im + b.im }
}

fn product(a: Operator, b: Operator) -> Operator {
    Operator {
        m11: plus(times(a.m11, b.m11), times(a.m12, b.m21)),
        m12: plus(times(a.m11, b.m12), times(a.m12, b.m22)),
        m21: plus(times(a.m21, b.m11), times(a.m22, b.m21)),
        m22: plus(times(a.m21, b.m12), times(a.m22, b.m22)),
    }
}

fn scaled_by_i(a: Operator) -> Operator {
    let i = Entry { re: 0, im: 1 };
    Operator { m11: times(i, a.m11), m12: times(i, a.m12), m21: times(i, a.m21), m22: times(i, a.m22) }
}

#[test]
fn identity_has_ones_on_the_diagonal() {
    let m = identity();
    assert_eq!(m.m11, Entry { re: 1, im: 0 });
    assert_eq!(m.m12, Entry { re: 0, im: 0 });
    assert_eq!(m.m21, Entry { re: 0, im: 0 });
    assert_eq!(m.m22, Entry { re: 1, im: 0 });
}

#[test]
fn pauli_x_has_real_ones_off_the_diagonal() {
    let m = pauli_x();
    assert_eq!(m.m11, Entry { re: 0, im: 0 });
    assert_eq!(m.m12, Entry { re: 1, im: 0 });
    assert_eq!(m.m21, Entry { re: 1, im: 0 });
    assert_eq!(m.m22, Entry { re: 0, im: 0 });
}

#[test]
fn pauli_y_has_imaginary_units_off_the_diagonal() {
    let m = pauli_y();
    assert_eq!(m.m11, Entry { re: 0, im: 0 });
    assert_eq!(m.m12, Entry { re: 0, im: -1 });
    assert_eq!(m.m21, Entry { re: 0, im: 1 });
    assert_eq!(m.m22, Entry { re: 0, im: 0 });
}

#[test]
fn pauli_z_has_one_and_minus_one_on_the_diagonal() {
    let m = pauli_z();
    assert_eq!(m.m11, Entry { re: 1, im: 0 });
    assert_eq!(m.m12, Entry { re: 0, im: 0 });
    assert_eq!(m.m21, Entry { re: 0, im: 0 });
    assert_eq!(m.m22, Entry { re: -1, im: 0 });
}

#[test]
fn pauli_operators_square_to_the_identity() {
    for m in [pauli_x(), pauli_y(), pauli_z()] {
        assert_eq!(product(m, m), identity());
    }
}

#[test]
fn pauli_operators_multiply_in_a_cycle() {
    assert_eq!(product(pauli_x(), pauli_y()), scaled_by_i(pauli_z()));
    assert_eq!(product(pauli_y(), pauli_z()), scaled_by_i(pauli_x()));
    assert_eq!(product(pauli_z(), pauli_x()), scaled_by_i(pauli_y()));
}

#[test]
fn hbar_is_the_reduced_planck_constant() {
    assert_eq!(f64::from_bits(HBAR), 1.0545718e-34);
    assert_eq!(HBAR, 1.0545718e-34f64.to_bits());
}
