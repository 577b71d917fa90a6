//! One reading of a sensor.

use vstd::prelude::*;

verus! {

/// An in-phase/quadrature pair as the sensor delivered it, with the key of the
/// measuring point it belongs to. As a complex number it is `i + q*j`.
#[derive(Clone, Copy, Debug, PartialEq, Eq, Structural)]
pub struct Sample {
    /// Identifies the measuring point; carried through unchanged.
    pub key: u32,
    /// In-phase part, the real part of the complex sample.
    pub i: u16,
    /// Quadrature part, the imaginary part of the complex sample.
    pub q: u16,
}

} // verus!
