//! Radio-frequency coil sensitivity data: plain holders of per-coil
//! (real, imaginary) pairs, carried alongside trajectories but never read by
//! the core computations.

use crate::fixed::Fix;
use vstd::prelude::*;

verus! {

/// The sensitivity of one coil: an ordered list of (real, imaginary) pairs.
#[derive(Debug)]
pub struct RFSensitivity {
    /// The stored pairs.
    pub sens: Vec<(Fix, Fix)>,
}

impl RFSensitivity {
    /// Wrap a list of pairs.
    pub fn new(sens: Vec<(Fix, Fix)>) -> (r: RFSensitivity)
        ensures
            r.sens@ == sens@,
    {
        RFSensitivity { sens }
    }
}

/// An ordered collection of coil sensitivities.
#[derive(Debug)]
pub struct RFSensitivityArray {
    /// The stored coils, in order.
    pub array: Vec<RFSensitivity>,
}

impl RFSensitivityArray {
    /// An empty collection.
    pub fn new() -> (r: RFSensitivityArray)
        ensures
            r.array@.len() == 0,
    {
        RFSensitivityArray { array: Vec::new() }
    }

    /// Append one coil's sensitivity.
    pub fn push(&mut self, rf: RFSensitivity)
        ensures
            final(self).array@ == old(self).array@.push(rf),
    {
        self.array.push(rf);
    }
}

} // verus!
