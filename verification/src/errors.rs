//! The error taxonomy shared between proof verification and the (external)
//! proving subsystem.
//!
//! Verification itself only ever produces [`SynthesisError::IoError`]
//! (malformed or truncated byte input), [`SynthesisError::UnexpectedIdentity`]
//! (a decoded or encoded point equal to the group identity), and
//! [`SynthesisError::MalformedVerifyingKey`] (a verifying key whose length
//! does not match the public input vector).  The remaining categories belong
//! to circuit synthesis and proving, which share the taxonomy.

use vstd::prelude::*;

verus! {

/// An error that can occur during circuit synthesis or verification.
#[derive(Clone, Copy, Debug, PartialEq, Eq, Structural)]
pub enum SynthesisError {
    /// During synthesis, an assignment for a variable could not be computed.
    AssignmentMissing,
    /// During synthesis, a division by zero occurred.
    DivisionByZero,
    /// During synthesis, the constraint system was unsatisfiable.
    Unsatisfiable,
    /// During synthesis, a polynomial ended up with too high a degree.
    PolynomialDegreeTooLarge,
    /// An identity element was encountered where the format forbids one.
    UnexpectedIdentity,
    /// Malformed or truncated byte input was encountered.
    IoError,
    /// The verifying key was malformed: its input-coefficient sequence does
    /// not match the number of public inputs.
    MalformedVerifyingKey,
    /// During setup, an auxiliary variable was unconstrained.
    UnconstrainedVariable,
}

impl SynthesisError {
    /// The human-readable description of each category.
    pub open spec fn spec_description(self) -> Seq<char> {
        match self {
            SynthesisError::AssignmentMissing => "an assignment for a variable could not be computed"@,
            SynthesisError::DivisionByZero => "division by zero"@,
            SynthesisError::Unsatisfiable => "unsatisfiable constraint system"@,
            SynthesisError::PolynomialDegreeTooLarge => "polynomial degree is too large"@,
            SynthesisError::UnexpectedIdentity => "encountered an identity element in the CRS"@,
            SynthesisError::IoError => "encountered an I/O error"@,
            SynthesisError::MalformedVerifyingKey => "malformed verifying key"@,
            SynthesisError::UnconstrainedVariable => "auxillary variable was unconstrained"@,
        }
    }

    /// Returns the description of this error category.
    pub fn description_str(&self) -> (r: &'static str)
        ensures
            r@ == self.spec_description(),
    {
        match self {
            SynthesisError::AssignmentMissing => "an assignment for a variable could not be computed",
            SynthesisError::DivisionByZero => "division by zero",
            SynthesisError::Unsatisfiable => "unsatisfiable constraint system",
            SynthesisError::PolynomialDegreeTooLarge => "polynomial degree is too large",
            SynthesisError::UnexpectedIdentity => "encountered an identity element in the CRS",
            SynthesisError::IoError => "encountered an I/O error",
            SynthesisError::MalformedVerifyingKey => "malformed verifying key",
            SynthesisError::UnconstrainedVariable => "auxillary variable was unconstrained",
        }
    }
}

} // verus!
