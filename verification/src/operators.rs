//! The constants of the model: the identity and the Pauli operators, with
//! exact entries, and the reduced Planck constant.

use crate::binary64::{is_finite, lemma_is_zero, negative, value};
use crate::complex::{i, one, zero, Complex};
use crate::matrix::{identity_matrix, Matrix};
use vstd::prelude::*;

verus! {

/// The reduced Planck constant, 1.0545718e-34 joule seconds, as the pattern
/// of a binary64 number.
pub const HBAR: u64 = 0x38E1_85A7_0091_2378;

/// The reduced Planck constant is a positive number.
pub proof fn lemma_hbar_positive()
    ensures
        is_finite(HBAR),
        value(HBAR) > 0real,
{
    lemma_is_zero(HBAR);
    assert(!negative(HBAR));
    assert(is_finite(HBAR));
    crate::binary64::lemma_magnitude_not_negative(HBAR);
}

/// The Pauli matrix with real ones off the diagonal.
pub open spec fn sigma_x() -> Matrix {
    Matrix { m11: zero(), m12: one(), m21: one(), m22: zero() }
}

/// The Pauli matrix with `-i` above and `i` below the diagonal.
pub open spec fn sigma_y() -> Matrix {
    Matrix { m11: zero(), m12: i().conj(), m21: i(), m22: zero() }
}

/// The Pauli matrix with one and minus one on the diagonal.
pub open spec fn sigma_z() -> Matrix {
    Matrix { m11: one(), m12: zero(), m21: zero(), m22: Complex { re: -1real, im: 0real } }
}

/// A complex number whose two parts are whole numbers.
#[derive(Clone, Copy, Debug, PartialEq, Eq, Structural)]
pub struct Entry {
    pub re: i8,
    pub im: i8,
}

impl View for Entry {
    type V = Complex;

    open spec fn view(&self) -> Complex {
        Complex { re: self.re as real, im: self.im as real }
    }
}

/// A matrix of two rows and two columns whose entries have whole parts;
/// `m12` stands in the first row and the second column.
#[derive(Clone, Copy, Debug, PartialEq, Eq, Structural)]
pub struct Operator {
    pub m11: Entry,
    pub m12: Entry,
    pub m21: Entry,
    pub m22: Entry,
}

impl View for Operator {
    type V = Matrix;

    open spec fn view(&self) -> Matrix {
        Matrix { m11: self.m11@, m12: self.m12@, m21: self.m21@, m22: self.m22@ }
    }
}

/// The identity operator.
pub fn identity() -> (m: Operator)
    ensures
        m@ == identity_matrix(),
{
    Operator {
        m11: Entry { re: 1, im: 0 },
        m12: Entry { re: 0, im: 0 },
        m21: Entry { re: 0, im: 0 },
        m22: Entry { re: 1, im: 0 },
    }
}

/// The Pauli operator along x.
pub fn pauli_x() -> (m: Operator)
    ensures
        m@ == sigma_x(),
{
    Operator {
        m11: Entry { re: 0, im: 0 },
        m12: Entry { re: 1, im: 0 },
        m21: Entry { re: 1, im: 0 },
        m22: Entry { re: 0, im: 0 },
    }
}

/// The Pauli operator along y.
pub fn pauli_y() -> (m: Operator)
    ensures
        m@ == sigma_y(),
{
    Operator {
        m11: Entry { re: 0, im: 0 },
        m12: Entry { re: 0, im: -1 },
        m21: Entry { re: 0, im: 1 },
        m22: Entry { re: 0, im: 0 },
    }
}

/// The Pauli operator along z.
pub fn pauli_z() -> (m: Operator)
    ensures
        m@ == sigma_z(),
{
    Operator {
        m11: Entry { re: 1, im: 0 },
        m12: Entry { re: 0, im: 0 },
        m21: Entry { re: 0, im: 0 },
        m22: Entry { re: -1, im: 0 },
    }
}

/// The identity and the three Pauli matrices are Hermitian.
pub proof fn lemma_pauli_hermitian()
    ensures
        identity_matrix().is_hermitian(),
        sigma_x().is_hermitian(),
        sigma_y().is_hermitian(),
        sigma_z().is_hermitian(),
{
}

/// Each Pauli matrix is its own inverse, and so is unitary.
pub proof fn lemma_pauli_squares()
    ensures
        sigma_x().times(sigma_x()) == identity_matrix(),
        sigma_y().times(sigma_y()) == identity_matrix(),
        sigma_z().times(sigma_z()) == identity_matrix(),
        sigma_x().is_unitary(),
        sigma_y().is_unitary(),
        sigma_z().is_unitary(),
{
    Complex::of_real(-1real).lemma_units();
    i().lemma_units();
    i().conj().lemma_units();
}

/// The product of two Pauli matrices, taken in the order x, y, z, x, is `i`
/// times the third; taken in the other order it is `-i` times the third.
pub proof fn lemma_pauli_products()
    ensures
        sigma_x().times(sigma_y()) == sigma_z().scaled(i()),
        sigma_y().times(sigma_z()) == sigma_x().scaled(i()),
        sigma_z().times(sigma_x()) == sigma_y().scaled(i()),
        sigma_y().times(sigma_x()) == sigma_z().scaled(i().conj()),
        sigma_z().times(sigma_y()) == sigma_x().scaled(i().conj()),
        sigma_x().times(sigma_z()) == sigma_y().scaled(i().conj()),
{
}

/// The Pauli matrices have trace zero.
pub proof fn lemma_pauli_traceless()
    ensures
        sigma_x().trace() == zero(),
        sigma_y().trace() == zero(),
        sigma_z().trace() == zero(),
{
}

} // verus!
