//! Complex matrices of two rows and two columns, as the contracts speak of
//! them, and the laws of their algebra that the model of the qubit rests on.

use crate::complex::{one, zero, Complex};
use vstd::prelude::*;

verus! {

/// A complex matrix of two rows and two columns; `m12` stands in the first
/// row and the second column.
pub struct Matrix {
    pub m11: Complex,
    pub m12: Complex,
    pub m21: Complex,
    pub m22: Complex,
}

/// The matrix with ones on the diagonal and zeros elsewhere.
pub open spec fn identity_matrix() -> Matrix {
    Matrix { m11: one(), m12: zero(), m21: zero(), m22: one() }
}

impl Matrix {
    /// The sum, entry by entry.
    pub open spec fn plus(self, other: Matrix) -> Matrix {
        Matrix {
            m11: self.m11.plus(other.m11),
            m12: self.m12.plus(other.m12),
            m21: self.m21.plus(other.m21),
            m22: self.m22.plus(other.m22),
        }
    }

    /// Every entry multiplied by `k`.
    pub open spec fn scaled(self, k: Complex) -> Matrix {
        Matrix {
            m11: k.times(self.m11),
            m12: k.times(self.m12),
            m21: k.times(self.m21),
            m22: k.times(self.m22),
        }
    }

    /// The matrix product, `self` on the left.
    pub open spec fn times(self, other: Matrix) -> Matrix {
        Matrix {
            m11: self.m11.times(other.m11).plus(self.m12.times(other.m21)),
            m12: self.m11.times(other.m12).plus(self.m12.times(other.m22)),
            m21: self.m21.times(other.m11).plus(self.m22.times(other.m21)),
            m22: self.m21.times(other.m12).plus(self.m22.times(other.m22)),
        }
    }

    /// The conjugate transpose.
    pub open spec fn dagger(self) -> Matrix {
        Matrix {
            m11: self.m11.conj(),
            m12: self.m21.conj(),
            m21: self.m12.conj(),
            m22: self.m22.conj(),
        }
    }

    /// The sum of the two entries on the diagonal.
    pub open spec fn trace(self) -> Complex {
        self.m11.plus(self.m22)
    }

    /// The determinant.
    pub open spec fn determinant(self) -> Complex {
        self.m11.times(self.m22).minus(self.m12.times(self.m21))
    }

    /// The matrix is its own conjugate transpose.
    pub open spec fn is_hermitian(self) -> bool {
        self.dagger() == self
    }

    /// The conjugate transpose is the inverse, on both sides.
    pub open spec fn is_unitary(self) -> bool {
        &&& self.times(self.dagger()) == identity_matrix()
        &&& self.dagger().times(self) == identity_matrix()
    }

    /// The state `rho` carried along by `self`: `self * rho * self.dagger()`.
    pub open spec fn conjugate(self, rho: Matrix) -> Matrix {
        self.times(rho).times(self.dagger())
    }

    /// The identity changes no matrix that it multiplies, and is its own
    /// conjugate transpose.
    pub proof fn lemma_identity_is_neutral(self)
        ensures
            identity_matrix().times(self) == self,
            self.times(identity_matrix()) == self,
            identity_matrix().dagger() == identity_matrix(),
    {
        self.m11.lemma_units();
        self.m12.lemma_units();
        self.m21.lemma_units();
        self.m22.lemma_units();
    }

    /// The trace of a product does not depend on the order of its factors.
    pub proof fn lemma_trace_of_product(self, other: Matrix)
        ensures
            self.times(other).trace() == other.times(self).trace(),
    {
        self.m11.lemma_times_commutes(other.m11);
        self.m12.lemma_times_commutes(other.m21);
        self.m21.lemma_times_commutes(other.m12);
        self.m22.lemma_times_commutes(other.m22);
    }

    /// The conjugate transpose of a product is the product of the conjugate
    /// transposes in the other order; taken twice it gives the matrix back.
    pub proof fn lemma_dagger_of_product(self, other: Matrix)
        ensures
            self.times(other).dagger() == other.dagger().times(self.dagger()),
            self.dagger().dagger() == self,
    {
        let a = self;
        let b = other;
        lemma_conj_of_cell(a.m11, b.m11, a.m12, b.m21);
        lemma_conj_of_cell(a.m11, b.m12, a.m12, b.m22);
        lemma_conj_of_cell(a.m21, b.m11, a.m22, b.m21);
        lemma_conj_of_cell(a.m21, b.m12, a.m22, b.m22);
        a.m11.lemma_conj_of_product(a.m11);
        a.m12.lemma_conj_of_product(a.m12);
        a.m21.lemma_conj_of_product(a.m21);
        a.m22.lemma_conj_of_product(a.m22);
    }

    /// The product of three matrices does not depend on how it is bracketed.
    pub proof fn lemma_times_associates(self, b: Matrix, c: Matrix)
        ensures
            self.times(b).times(c) == self.times(b.times(c)),
    {
        let a = self;
        lemma_cell_associates(a.m11, a.m12, b, c.m11, c.m21);
        lemma_cell_associates(a.m11, a.m12, b, c.m12, c.m22);
        lemma_cell_associates(a.m21, a.m22, b, c.m11, c.m21);
        lemma_cell_associates(a.m21, a.m22, b, c.m12, c.m22);
    }
}

/// Carrying a state along by the identity leaves it as it is.
pub proof fn lemma_conjugate_by_identity(rho: Matrix)
    ensures
        identity_matrix().conjugate(rho) == rho,
{
    rho.lemma_identity_is_neutral();
}

/// Carrying a state along by a unitary matrix keeps its trace.
pub proof fn lemma_conjugate_keeps_trace(u: Matrix, rho: Matrix)
    requires
        u.is_unitary(),
    ensures
        u.conjugate(rho).trace() == rho.trace(),
{
    u.times(rho).lemma_trace_of_product(u.dagger());
    u.dagger().lemma_times_associates(u, rho);
    rho.lemma_identity_is_neutral();
}

/// Carrying a Hermitian state along by any matrix gives a Hermitian state.
pub proof fn lemma_conjugate_keeps_hermitian(u: Matrix, rho: Matrix)
    requires
        rho.is_hermitian(),
    ensures
        u.conjugate(rho).is_hermitian(),
{
    u.times(rho).lemma_dagger_of_product(u.dagger());
    u.lemma_dagger_of_product(rho);
    u.lemma_times_associates(rho, u.dagger());
}

/// Carrying a state along by `first` and then by `second` is carrying it
/// along by the product `second * first`.
pub proof fn lemma_conjugate_twice(first: Matrix, second: Matrix, rho: Matrix)
    ensures
        second.conjugate(first.conjugate(rho)) == second.times(first).conjugate(rho),
{
    let fd = first.dagger();
    let sd = second.dagger();
    second.lemma_dagger_of_product(first);
    second.lemma_times_associates(first.times(rho), fd);
    second.lemma_times_associates(first, rho);
    second.times(first).times(rho).lemma_times_associates(fd, sd);
}

/// The product of two unitary matrices is unitary.
pub proof fn lemma_product_of_unitaries(first: Matrix, second: Matrix)
    requires
        first.is_unitary(),
        second.is_unitary(),
    ensures
        second.times(first).is_unitary(),
{
    let fd = first.dagger();
    let sd = second.dagger();
    second.lemma_dagger_of_product(first);
    fd.lemma_times_associates(sd, second.times(first));
    sd.lemma_times_associates(second, first);
    first.lemma_identity_is_neutral();
    second.times(first).lemma_times_associates(fd, sd);
    second.lemma_times_associates(first, fd);
    second.lemma_identity_is_neutral();
}

/// The trace of the product of two Hermitian matrices is real.
pub proof fn lemma_hermitian_expectation_is_real(rho: Matrix, a: Matrix)
    requires
        rho.is_hermitian(),
        a.is_hermitian(),
    ensures
        rho.times(a).trace().im == 0real,
{
    rho.m12.lemma_times_commutes(a.m21);
    rho.m21.lemma_times_commutes(a.m12);
    rho.m12.lemma_conj_of_product(a.m21);
    rho.m11.lemma_times_commutes(a.m11);
    rho.m22.lemma_times_commutes(a.m22);
    rho.m11.lemma_conj_of_product(a.m11);
    rho.m22.lemma_conj_of_product(a.m22);
}

/// The conjugate of one cell of a product: `(p q + r s)* = q* p* + s* r*`.
proof fn lemma_conj_of_cell(p: Complex, q: Complex, r: Complex, s: Complex)
    ensures
        p.times(q).plus(r.times(s)).conj() == q.conj().times(p.conj()).plus(
            s.conj().times(r.conj()),
        ),
{
    p.times(q).lemma_conj_of_product(r.times(s));
    p.lemma_conj_of_product(q);
    r.lemma_conj_of_product(s);
    p.conj().lemma_times_commutes(q.conj());
    r.conj().lemma_times_commutes(s.conj());
}

/// One cell of a product of three matrices, bracketed in both ways: the row
/// `(a1, a2)`, the matrix `b` and the column `(c1, c2)`.
proof fn lemma_cell_associates(a1: Complex, a2: Complex, b: Matrix, c1: Complex, c2: Complex)
    ensures
        a1.times(b.m11).plus(a2.times(b.m21)).times(c1).plus(
            a1.times(b.m12).plus(a2.times(b.m22)).times(c2),
        ) == a1.times(b.m11.times(c1).plus(b.m12.times(c2))).plus(
            a2.times(b.m21.times(c1).plus(b.m22.times(c2))),
        ),
{
    c1.lemma_times_distributes(a1.times(b.m11), a2.times(b.m21));
    c2.lemma_times_distributes(a1.times(b.m12), a2.times(b.m22));
    a1.lemma_times_distributes(b.m11.times(c1), b.m12.times(c2));
    a2.lemma_times_distributes(b.m21.times(c1), b.m22.times(c2));
    a1.lemma_times_associates(b.m11, c1);
    a2.lemma_times_associates(b.m21, c1);
    a1.lemma_times_associates(b.m12, c2);
    a2.lemma_times_associates(b.m22, c2);
}

} // verus!
