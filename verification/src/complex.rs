//! Complex numbers over the reals, as the contracts speak of them, and the
//! laws of their arithmetic.

use vstd::prelude::*;

verus! {

/// A complex number.
pub struct Complex {
    pub re: real,
    pub im: real,
}

/// The complex number zero.
pub open spec fn zero() -> Complex {
    Complex { re: 0real, im: 0real }
}

/// The complex number one.
pub open spec fn one() -> Complex {
    Complex { re: 1real, im: 0real }
}

/// The imaginary unit.
pub open spec fn i() -> Complex {
    Complex { re: 0real, im: 1real }
}

impl Complex {
    /// The real number `x` as a complex number.
    pub open spec fn of_real(x: real) -> Complex {
        Complex { re: x, im: 0real }
    }

    /// The sum.
    pub open spec fn plus(self, other: Complex) -> Complex {
        Complex { re: self.re + other.re, im: self.im + other.im }
    }

    /// The difference.
    pub open spec fn minus(self, other: Complex) -> Complex {
        Complex { re: self.re - other.re, im: self.im - other.im }
    }

    /// The product.
    pub open spec fn times(self, other: Complex) -> Complex {
        Complex {
            re: self.re * other.re - self.im * other.im,
            im: self.re * other.im + self.im * other.re,
        }
    }

    /// The complex conjugate.
    pub open spec fn conj(self) -> Complex {
        Complex { re: self.re, im: -self.im }
    }
}

proof fn lemma_real_distributes(x: real, y: real, z: real)
    by (nonlinear_arith)
    ensures
        x * (y + z) == x * y + x * z,
        x * (y - z) == x * y - x * z,
        (y + z) * x == y * x + z * x,
        (y - z) * x == y * x - z * x,
{
}

proof fn lemma_real_associates(x: real, y: real, z: real)
    by (nonlinear_arith)
    ensures
        (x * y) * z == x * (y * z),
{
}

proof fn lemma_real_commutes(x: real, y: real)
    by (nonlinear_arith)
    ensures
        x * y == y * x,
        x * (-y) == -(x * y),
        (-x) * y == -(x * y),
{
}

/// Products of a real number with zero, one and minus one.
pub proof fn lemma_real_units(x: real)
    by (nonlinear_arith)
    ensures
        x * 0real == 0real,
        0real * x == 0real,
        x * 1real == x,
        1real * x == x,
        x * (-1real) == -x,
        (-1real) * x == -x,
{
}

/// Half of a number, written as a product and as a quotient.
pub proof fn lemma_half(x: real)
    by (nonlinear_arith)
    ensures
        (1real / 2real) * x == x / 2real,
        x / 2real + x / 2real == x,
{
}

/// The product of two halves is a quarter of the product.
pub proof fn lemma_product_of_halves(a: real, b: real)
    by (nonlinear_arith)
    ensures
        (a / 2real) * (b / 2real) == (a * b) / 4real,
        (-a / 2real) * (b / 2real) == -((a * b) / 4real),
        (a / 2real) * (-b / 2real) == -((a * b) / 4real),
{
}

/// The product of a sum and a difference is the difference of the squares.
pub proof fn lemma_difference_of_squares(a: real, b: real)
    by (nonlinear_arith)
    ensures
        (a + b) * (a - b) == a * a - b * b,
{
}

/// A number that is not negative is greater than one where its square is.
pub proof fn lemma_square_above_one(a: real)
    by (nonlinear_arith)
    requires
        a >= 0real,
    ensures
        a * a > 1real <==> a > 1real,
{
}

/// The square of a product is the product of the squares.
pub proof fn lemma_square_of_product(a: real, b: real)
    ensures
        (a * b) * (a * b) == (a * a) * (b * b),
{
    lemma_real_associates(a * b, a, b);
    lemma_real_associates(a, b, a);
    lemma_real_commutes(b, a);
    lemma_real_associates(a, a, b);
    lemma_real_associates(a * a, b, b);
}

/// A factor that two products share may be taken out of their sum.
pub proof fn lemma_common_factor(a: real, b: real, c: real)
    ensures
        a * b + a * c == a * (b + c),
        a * 1real == a,
{
    lemma_real_distributes(a, b, c);
    lemma_real_units(a);
}

impl Complex {
    /// The product does not depend on the order of its factors.
    pub proof fn lemma_times_commutes(self, other: Complex)
        ensures
            self.times(other) == other.times(self),
    {
        lemma_real_commutes(self.re, other.re);
        lemma_real_commutes(self.im, other.im);
        lemma_real_commutes(self.re, other.im);
        lemma_real_commutes(self.im, other.re);
    }

    /// The product of a number and a sum is the sum of the products.
    pub proof fn lemma_times_distributes(self, b: Complex, c: Complex)
        ensures
            self.times(b.plus(c)) == self.times(b).plus(self.times(c)),
            b.plus(c).times(self) == b.times(self).plus(c.times(self)),
    {
        lemma_real_distributes(self.re, b.re, c.re);
        lemma_real_distributes(self.im, b.im, c.im);
        lemma_real_distributes(self.re, b.im, c.im);
        lemma_real_distributes(self.im, b.re, c.re);
    }

    /// The product of three numbers does not depend on how it is bracketed.
    pub proof fn lemma_times_associates(self, b: Complex, c: Complex)
        ensures
            self.times(b).times(c) == self.times(b.times(c)),
    {
        let a = self;
        lemma_real_distributes(c.re, a.re * b.re, a.im * b.im);
        lemma_real_distributes(c.im, a.re * b.im, a.im * b.re);
        lemma_real_distributes(c.im, a.re * b.re, a.im * b.im);
        lemma_real_distributes(c.re, a.re * b.im, a.im * b.re);
        lemma_real_distributes(a.re, b.re * c.re, b.im * c.im);
        lemma_real_distributes(a.im, b.re * c.im, b.im * c.re);
        lemma_real_distributes(a.re, b.re * c.im, b.im * c.re);
        lemma_real_distributes(a.im, b.re * c.re, b.im * c.im);
        lemma_real_associates(a.re, b.re, c.re);
        lemma_real_associates(a.im, b.im, c.re);
        lemma_real_associates(a.re, b.im, c.im);
        lemma_real_associates(a.im, b.re, c.im);
        lemma_real_associates(a.re, b.re, c.im);
        lemma_real_associates(a.im, b.im, c.im);
        lemma_real_associates(a.re, b.im, c.re);
        lemma_real_associates(a.im, b.re, c.re);
    }

    /// The conjugate of a product, of a sum and of a conjugate.
    pub proof fn lemma_conj_of_product(self, other: Complex)
        ensures
            self.times(other).conj() == self.conj().times(other.conj()),
            self.plus(other).conj() == self.conj().plus(other.conj()),
            self.conj().conj() == self,
    {
        lemma_real_commutes(self.re, other.im);
        lemma_real_commutes(self.im, other.re);
        lemma_real_commutes(self.im, other.im);
        lemma_real_commutes(other.im, self.im);
        lemma_real_commutes(-self.im, other.im);
    }

    /// A real number times a complex number multiplies both parts.
    pub proof fn lemma_real_times(x: real, c: Complex)
        ensures
            Complex::of_real(x).times(c) == (Complex { re: x * c.re, im: x * c.im }),
    {
        lemma_real_units(c.re);
        lemma_real_units(c.im);
    }

    /// Products and sums with zero, one, minus one and the imaginary unit.
    pub proof fn lemma_units(self)
        ensures
            one().times(self) == self,
            self.times(one()) == self,
            zero().times(self) == zero(),
            self.times(zero()) == zero(),
            self.plus(zero()) == self,
            zero().plus(self) == self,
            Complex::of_real(-1real).times(self) == (Complex { re: -self.re, im: -self.im }),
            self.times(Complex::of_real(-1real)) == (Complex { re: -self.re, im: -self.im }),
            i().times(i()) == Complex::of_real(-1real),
    {
        lemma_real_units(self.re);
        lemma_real_units(self.im);
        lemma_real_units(0real);
        lemma_real_units(1real);
    }
}

} // verus!
