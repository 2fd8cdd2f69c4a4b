//! The rules that decide whether a qubit state and a measurement are valid.
//!
//! Angles, magnitudes and traces are binary64 numbers, handed over as their
//! bit patterns: the rules here read those patterns and never compute with
//! the numbers. The caller does the trigonometry and the matrix arithmetic.

use crate::binary64::{
    equals_zero, exceeds_one, greater_than_one, in_unit_interval, is_finite, is_zero, value,
};
use vstd::prelude::*;

verus! {

/// Why a state or a measurement was refused.
#[derive(Clone, Copy, Debug, PartialEq, Eq, Structural)]
pub enum BlochError {
    /// The magnitude of a Bloch vector is greater than one.
    InvalidState,
    /// The expectation value of an observable has an imaginary part.
    InvalidMeasurementOperator,
}

impl BlochError {
    /// The words that describe the error.
    pub fn message(&self) -> (s: String)
        ensures
            *self == BlochError::InvalidState ==> s@
                == "Not a valid state! Magnitude must be less than or equal to one"@,
            *self == BlochError::InvalidMeasurementOperator ==> s@
                == "Invalid measurement operator!"@,
    {
        match self {
            BlochError::InvalidState => String::from_str(
                "Not a valid state! Magnitude must be less than or equal to one",
            ),
            BlochError::InvalidMeasurementOperator => String::from_str(
                "Invalid measurement operator!",
            ),
        }
    }
}

/// A state in spherical coordinates on or inside the Bloch sphere: two
/// angles in radians and a magnitude that is not greater than one. It is not
/// changed once it is made.
#[derive(Clone, Copy, Debug, PartialEq, Eq, Structural)]
pub struct BlochVector {
    theta: u64,
    phi: u64,
    r: u64,
}

impl BlochVector {
    /// The pattern of the angle `theta`, in radians.
    pub closed spec fn theta_bits(&self) -> u64 {
        self.theta
    }

    /// The pattern of the angle `phi`, in radians.
    pub closed spec fn phi_bits(&self) -> u64 {
        self.phi
    }

    /// The pattern of the magnitude.
    pub closed spec fn r_bits(&self) -> u64 {
        self.r
    }

    #[verifier::type_invariant]
    spec fn magnitude_within_sphere(self) -> bool {
        !greater_than_one(self.r)
    }

    /// The vector with the three coordinates as given, unless the magnitude
    /// is greater than one.
    pub fn new(theta: u64, phi: u64, r: u64) -> (res: Result<BlochVector, BlochError>)
        ensures
            res is Err <==> greater_than_one(r),
            res matches Ok(v) ==> v.theta_bits() == theta && v.phi_bits() == phi && v.r_bits()
                == r,
            res matches Err(e) ==> e == BlochError::InvalidState,
    {
        if exceeds_one(r) {
            Err(BlochError::InvalidState)
        } else {
            Ok(BlochVector { theta, phi, r })
        }
    }

    /// The angle `theta`, as it was given.
    pub fn theta(&self) -> (bits: u64)
        ensures
            bits == self.theta_bits(),
    {
        self.theta
    }

    /// The angle `phi`, as it was given.
    pub fn phi(&self) -> (bits: u64)
        ensures
            bits == self.phi_bits(),
    {
        self.phi
    }

    /// The magnitude, which is never greater than one.
    pub fn r(&self) -> (bits: u64)
        ensures
            bits == self.r_bits(),
            !greater_than_one(bits),
    {
        proof {
            use_type_invariant(self);
        }
        self.r
    }
}

/// A magnitude from zero to one is never refused, whatever the angles, and a
/// magnitude above one always is.
pub proof fn lemma_unit_magnitude_accepted(r: u64)
    ensures
        in_unit_interval(r) ==> !greater_than_one(r),
        is_finite(r) && value(r) > 1real ==> greater_than_one(r),
{
}

/// The expectation value that the trace `re + i im` stands for: `re`, unless
/// `im` differs from zero.
pub fn expectation(re: u64, im: u64) -> (res: Result<u64, BlochError>)
    ensures
        res is Ok <==> is_zero(im),
        res matches Ok(v) ==> v == re,
        res matches Err(e) ==> e == BlochError::InvalidMeasurementOperator,
{
    if equals_zero(im) {
        Ok(re)
    } else {
        Err(BlochError::InvalidMeasurementOperator)
    }
}

} // verus!
