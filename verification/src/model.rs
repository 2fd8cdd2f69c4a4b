//! The exact model of the qubit: what the coordinates, the density matrix
//! and the spin operator are over the real numbers, and what holds of them.

use crate::binary64::{greater_than_one, is_finite, lemma_magnitude_not_negative, negative, value};
use crate::complex::{
    i, lemma_common_factor, lemma_difference_of_squares, lemma_half, lemma_product_of_halves,
    lemma_real_units, lemma_square_above_one, lemma_square_of_product, one, zero, Complex,
};
use crate::matrix::{identity_matrix, lemma_conjugate_keeps_trace, Matrix};
use crate::operators::{sigma_x, sigma_y, sigma_z};
use vstd::prelude::*;

verus! {

/// The Cartesian coordinates of the vector of magnitude `r` whose azimuthal
/// angle theta and polar angle phi have the given sines and cosines.
pub open spec fn cartesian(
    r: real,
    sin_theta: real,
    cos_theta: real,
    sin_phi: real,
    cos_phi: real,
) -> (real, real, real) {
    (r * sin_phi * cos_theta, r * sin_phi * sin_theta, r * cos_phi)
}

/// The operator `x sigma_x + y sigma_y + z sigma_z`.
pub open spec fn spin(x: real, y: real, z: real) -> Matrix {
    sigma_x().scaled(Complex::of_real(x)).plus(sigma_y().scaled(Complex::of_real(y))).plus(
        sigma_z().scaled(Complex::of_real(z)),
    )
}

/// The density matrix of the state with the Cartesian coordinates
/// `(x, y, z)`: half of the identity plus `spin(x, y, z)`.
pub open spec fn density(x: real, y: real, z: real) -> Matrix {
    identity_matrix().plus(spin(x, y, z)).scaled(Complex::of_real(1real / 2real))
}

/// The Hamiltonian of the direction `(x, y, z)`: `spin(x, y, z)` times half
/// of the constant `hbar`.
pub open spec fn hamiltonian(hbar: real, x: real, y: real, z: real) -> Matrix {
    spin(x, y, z).scaled(Complex::of_real(hbar / 2real))
}

/// Where the sines and cosines are those of angles, the coordinates have
/// the length `r`.
pub proof fn lemma_cartesian_norm(
    r: real,
    sin_theta: real,
    cos_theta: real,
    sin_phi: real,
    cos_phi: real,
)
    requires
        sin_theta * sin_theta + cos_theta * cos_theta == 1real,
        sin_phi * sin_phi + cos_phi * cos_phi == 1real,
    ensures
        ({
            let (x, y, z) = cartesian(r, sin_theta, cos_theta, sin_phi, cos_phi);
            x * x + y * y + z * z == r * r
        }),
{
    let a = r * sin_phi;
    lemma_square_of_product(a, cos_theta);
    lemma_square_of_product(a, sin_theta);
    lemma_common_factor(a * a, cos_theta * cos_theta, sin_theta * sin_theta);
    lemma_square_of_product(r, sin_phi);
    lemma_square_of_product(r, cos_phi);
    lemma_common_factor(r * r, sin_phi * sin_phi, cos_phi * cos_phi);
}

/// At magnitude zero the coordinates are zero, whatever the angles.
pub proof fn lemma_cartesian_at_centre(
    sin_theta: real,
    cos_theta: real,
    sin_phi: real,
    cos_phi: real,
)
    ensures
        cartesian(0real, sin_theta, cos_theta, sin_phi, cos_phi) == (0real, 0real, 0real),
{
    lemma_real_units(sin_phi);
    lemma_real_units(cos_phi);
    lemma_real_units(sin_theta);
    lemma_real_units(cos_theta);
}

/// The entries of `x sigma_x + y sigma_y + z sigma_z`.
pub proof fn lemma_spin_entries(x: real, y: real, z: real)
    ensures
        spin(x, y, z) == (Matrix {
            m11: Complex { re: z, im: 0real },
            m12: Complex { re: x, im: -y },
            m21: Complex { re: x, im: y },
            m22: Complex { re: -z, im: 0real },
        }),
{
    Complex::of_real(x).lemma_units();
    Complex::of_real(y).lemma_units();
    Complex::of_real(z).lemma_units();
    Complex::lemma_real_times(y, Complex { re: 0real, im: 1real });
    Complex::lemma_real_times(y, Complex { re: 0real, im: -1real });
    Complex::lemma_real_times(y, Complex::of_real(-1real));
    Complex::lemma_real_times(z, Complex::of_real(-1real));
}

/// A real combination of the Pauli matrices is Hermitian and has trace zero.
pub proof fn lemma_spin_hermitian(x: real, y: real, z: real)
    ensures
        spin(x, y, z).is_hermitian(),
        spin(x, y, z).trace() == zero(),
{
    lemma_spin_entries(x, y, z);
}

/// The Hamiltonian of any direction is Hermitian.
pub proof fn lemma_hamiltonian_hermitian(hbar: real, x: real, y: real, z: real)
    ensures
        hamiltonian(hbar, x, y, z).is_hermitian(),
{
    lemma_spin_entries(x, y, z);
    let m = spin(x, y, z);
    Complex::lemma_real_times(hbar / 2real, m.m11);
    Complex::lemma_real_times(hbar / 2real, m.m12);
    Complex::lemma_real_times(hbar / 2real, m.m21);
    Complex::lemma_real_times(hbar / 2real, m.m22);
    Complex::of_real(hbar / 2real).times(m.m12).lemma_conj_of_product(zero());
    Complex::of_real(hbar / 2real).lemma_conj_of_product(m.m12);
    Complex::of_real(hbar / 2real).lemma_conj_of_product(m.m21);
}

/// The entries of the density matrix of the state at `(x, y, z)`.
pub proof fn lemma_density_entries(x: real, y: real, z: real)
    ensures
        density(x, y, z) == (Matrix {
            m11: Complex { re: (1real + z) / 2real, im: 0real },
            m12: Complex { re: x / 2real, im: -y / 2real },
            m21: Complex { re: x / 2real, im: y / 2real },
            m22: Complex { re: (1real - z) / 2real, im: 0real },
        }),
{
    lemma_spin_entries(x, y, z);
    let h = 1real / 2real;
    let m = identity_matrix().plus(spin(x, y, z));
    Complex::lemma_real_times(h, m.m11);
    Complex::lemma_real_times(h, m.m12);
    Complex::lemma_real_times(h, m.m21);
    Complex::lemma_real_times(h, m.m22);
    lemma_half(1real + z);
    lemma_half(1real - z);
    lemma_half(x);
    lemma_half(y);
    lemma_half(-y);
    lemma_half(0real);
}

/// A density matrix is Hermitian and has trace one.
pub proof fn lemma_density(x: real, y: real, z: real)
    ensures
        density(x, y, z).is_hermitian(),
        density(x, y, z).trace() == one(),
{
    lemma_density_entries(x, y, z);
}

/// The determinant of a density matrix is a quarter of what the squared
/// length of the vector lacks to one: it is negative where the vector is
/// longer than one, and nowhere else.
pub proof fn lemma_density_determinant(x: real, y: real, z: real)
    ensures
        density(x, y, z).determinant() == Complex::of_real(
            (1real - (x * x + y * y + z * z)) / 4real,
        ),
        density(x, y, z).determinant().re < 0real <==> x * x + y * y + z * z > 1real,
{
    lemma_density_entries(x, y, z);
    lemma_product_of_halves(1real + z, 1real - z);
    lemma_difference_of_squares(1real, z);
    lemma_product_of_halves(x, x);
    lemma_product_of_halves(y, y);
    lemma_product_of_halves(x, y);
    lemma_product_of_halves(y, x);
    lemma_real_units((1real + z) / 2real);
    lemma_real_units((1real - z) / 2real);
    lemma_real_units(1real);
}

/// Of the magnitudes that are numbers and not negative, those greater than
/// one, which no Bloch vector may have, are those whose density matrix
/// would have a negative determinant, whatever the angles.
pub proof fn lemma_refused_magnitudes(
    r: u64,
    sin_theta: real,
    cos_theta: real,
    sin_phi: real,
    cos_phi: real,
)
    requires
        is_finite(r),
        !negative(r),
        sin_theta * sin_theta + cos_theta * cos_theta == 1real,
        sin_phi * sin_phi + cos_phi * cos_phi == 1real,
    ensures
        ({
            let (x, y, z) = cartesian(value(r), sin_theta, cos_theta, sin_phi, cos_phi);
            greater_than_one(r) <==> density(x, y, z).determinant().re < 0real
        }),
{
    let (x, y, z) = cartesian(value(r), sin_theta, cos_theta, sin_phi, cos_phi);
    lemma_cartesian_norm(value(r), sin_theta, cos_theta, sin_phi, cos_phi);
    lemma_density_determinant(x, y, z);
    lemma_magnitude_not_negative(r);
    lemma_square_above_one(value(r));
}

/// At the centre of the sphere the density matrix is half of the identity.
pub proof fn lemma_density_at_centre()
    ensures
        density(0real, 0real, 0real) == identity_matrix().scaled(Complex::of_real(1real / 2real)),
        density(0real, 0real, 0real) == (Matrix {
            m11: Complex::of_real(1real / 2real),
            m12: zero(),
            m21: zero(),
            m22: Complex::of_real(1real / 2real),
        }),
{
    lemma_density_entries(0real, 0real, 0real);
    let h = 1real / 2real;
    Complex::lemma_real_times(h, one());
    Complex::lemma_real_times(h, zero());
    lemma_half(1real);
    lemma_half(0real);
}

/// At the pole `(0, 0, 1)` the density matrix has a one at the upper left
/// and zeros elsewhere.
pub proof fn lemma_density_at_pole()
    ensures
        density(0real, 0real, 1real) == (Matrix {
            m11: one(),
            m12: zero(),
            m21: zero(),
            m22: zero(),
        }),
{
    lemma_density_entries(0real, 0real, 1real);
}

/// The expectation values of the three Pauli matrices in the state at
/// `(x, y, z)` are `x`, `y` and `z`, and that of the identity is one.
pub proof fn lemma_expectations(x: real, y: real, z: real)
    ensures
        density(x, y, z).times(sigma_x()).trace() == Complex::of_real(x),
        density(x, y, z).times(sigma_y()).trace() == Complex::of_real(y),
        density(x, y, z).times(sigma_z()).trace() == Complex::of_real(z),
        density(x, y, z).times(identity_matrix()).trace() == one(),
{
    lemma_density_entries(x, y, z);
    let rho = density(x, y, z);
    rho.m11.lemma_units();
    rho.m12.lemma_units();
    rho.m21.lemma_units();
    rho.m22.lemma_units();
    rho.m12.lemma_times_commutes(i());
    rho.m21.lemma_times_commutes(i().conj());
    lemma_i_times(rho.m12);
    lemma_i_times(rho.m21);
    lemma_half(x);
    lemma_half(y);
    lemma_half(z);
}

/// A number times the imaginary unit and times its conjugate.
proof fn lemma_i_times(c: Complex)
    ensures
        i().times(c) == (Complex { re: -c.im, im: c.re }),
        i().conj().times(c) == (Complex { re: c.im, im: -c.re }),
{
    lemma_real_units(c.re);
    lemma_real_units(c.im);
}

/// A unitary matrix carries a density matrix to a matrix of trace one.
pub proof fn lemma_evolved_trace(u: Matrix, x: real, y: real, z: real)
    requires
        u.is_unitary(),
    ensures
        u.conjugate(density(x, y, z)).trace() == one(),
{
    lemma_density(x, y, z);
    lemma_conjugate_keeps_trace(u, density(x, y, z));
}

/// A unitary matrix that is diagonal leaves the state at the pole
/// `(0, 0, 1)` as it is.
pub proof fn lemma_pole_is_fixed(u: Matrix)
    requires
        u.is_unitary(),
        u.m12 == zero(),
        u.m21 == zero(),
    ensures
        u.conjugate(density(0real, 0real, 1real)) == density(0real, 0real, 1real),
{
    lemma_density_at_pole();
    u.m11.lemma_units();
    u.m22.lemma_units();
    u.m11.conj().lemma_units();
    u.m22.conj().lemma_units();
    zero().lemma_units();
    u.m11.lemma_times_commutes(u.m11.conj());
}

} // verus!
