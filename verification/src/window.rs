//! The coefficients of the windows.
//!
//! Every window here is a sum of at most four cosines. At index `n` of a
//! block of `len` samples its weight is
//!
//! `(a0 - a1*cos(2*pi*n/(len-1)) + a2*cos(4*pi*n/(len-1)) - a3*cos(6*pi*n/(len-1))) / den`.
//!
//! The coefficients are fractions; they are kept exactly, over one common
//! denominator for each window. Taking the cosines is left to the caller.

use crate::config::{Config, WindowKind};
use vstd::prelude::*;

verus! {

/// The coefficients of one window, all over the denominator `den`.
#[derive(Clone, Copy, Debug, PartialEq, Eq, Structural)]
pub struct Coefficients {
    /// The common denominator; never zero.
    pub den: u32,
    /// Numerator of the constant term.
    pub a0: u32,
    /// Numerator of the first cosine, which is subtracted.
    pub a1: u32,
    /// Numerator of the second cosine, which is added.
    pub a2: u32,
    /// Numerator of the third cosine, which is subtracted.
    pub a3: u32,
}

impl WindowKind {
    /// The coefficients of the window.
    pub open spec fn spec_coefficients(self) -> Coefficients {
        match self {
            WindowKind::Rectangular => Coefficients { den: 1, a0: 1, a1: 0, a2: 0, a3: 0 },
            WindowKind::Hamming => Coefficients { den: 46, a0: 25, a1: 21, a2: 0, a3: 0 },
            WindowKind::Blackman => Coefficients { den: 50, a0: 21, a1: 25, a2: 4, a3: 0 },
            WindowKind::BlackmanHarris => Coefficients {
                den: 100000,
                a0: 35875,
                a1: 48829,
                a2: 14128,
                a3: 1168,
            },
        }
    }

    /// The coefficients of the window.
    pub fn coefficients(self) -> (c: Coefficients)
        ensures
            c == self.spec_coefficients(),
    {
        match self {
            WindowKind::Rectangular => dirichlet(),
            WindowKind::Hamming => hamming(),
            WindowKind::Blackman => blackman(),
            WindowKind::BlackmanHarris => blackman_harris(),
        }
    }
}

/// The rectangular, or Dirichlet, window: the constant one.
pub fn dirichlet() -> (c: Coefficients)
    ensures
        c == (Coefficients { den: 1, a0: 1, a1: 0, a2: 0, a3: 0 }),
{
    Coefficients { den: 1, a0: 1, a1: 0, a2: 0, a3: 0 }
}

/// The four-term Blackman-Harris window: `0.35875`, `0.48829`, `0.14128` and
/// `0.01168`.
pub fn blackman_harris() -> (c: Coefficients)
    ensures
        c == (Coefficients { den: 100000, a0: 35875, a1: 48829, a2: 14128, a3: 1168 }),
{
    Coefficients { den: 100000, a0: 35875, a1: 48829, a2: 14128, a3: 1168 }
}

/// The Hamming window: `a0 = alpha` and `a1 = 1 - alpha`, with
/// `alpha = 25/46`.
pub fn hamming() -> (c: Coefficients)
    ensures
        c == (Coefficients { den: 46, a0: 25, a1: 21, a2: 0, a3: 0 }),
{
    let num: u32 = 25;
    let den: u32 = 46;
    Coefficients { den, a0: num, a1: den - num, a2: 0, a3: 0 }
}

/// The Blackman window: `a0 = (1 - alpha)/2`, `a1 = 1/2` and `a2 = alpha/2`,
/// with `alpha = 0.16 = 4/25`.
pub fn blackman() -> (c: Coefficients)
    ensures
        c == (Coefficients { den: 50, a0: 21, a1: 25, a2: 4, a3: 0 }),
{
    let num: u32 = 4;
    let den: u32 = 25;
    Coefficients { den: 2 * den, a0: den - num, a1: den, a2: num, a3: 0 }
}

impl Config {
    /// The coefficients that blocks of this length are weighed with.
    pub open spec fn spec_coefficients(self) -> Coefficients {
        if self.spec_block_len() == 1 {
            WindowKind::Rectangular.spec_coefficients()
        } else {
            self.spec_window().spec_coefficients()
        }
    }

    /// The coefficients that blocks of this length are weighed with: those of
    /// the configured window.
    ///
    /// A block of one sample is the exception. Its sample stands half way
    /// through the block, where every window weighs one, and the cosines of
    /// the other indices have nothing to be taken of: it is weighed with the
    /// rectangular window.
    pub fn coefficients(&self) -> (c: Coefficients)
        ensures
            c == self.spec_coefficients(),
    {
        if self.block_len() == 1 {
            dirichlet()
        } else {
            self.window().coefficients()
        }
    }
}

impl Coefficients {
    /// The weight of the window where its three cosines are `c1 / unit`,
    /// `c2 / unit` and `c3 / unit`, times `den * unit`.
    pub open spec fn scaled_weight(self, unit: int, c1: int, c2: int, c3: int) -> int {
        self.a0 * unit - self.a1 * c1 + self.a2 * c2 - self.a3 * c3
    }
}

/// The rectangular window has no cosine in it and the constant term one:
/// whatever the cosines are, its weight is one. So it is one at every index
/// of a block of any length.
pub proof fn rectangular_weighs_one(unit: int, c1: int, c2: int, c3: int)
    ensures
        WindowKind::Rectangular.spec_coefficients().scaled_weight(unit, c1, c2, c3)
            == WindowKind::Rectangular.spec_coefficients().den * unit,
{
    let c = WindowKind::Rectangular.spec_coefficients();
    assert(c.a0 * unit - c.a1 * c1 + c.a2 * c2 - c.a3 * c3 == c.den * unit) by (nonlinear_arith)
        requires
            c.a0 == 1,
            c.den == 1,
            c.a1 == 0,
            c.a2 == 0,
            c.a3 == 0,
    ;
}

/// Half way through a block the cosines are `-1`, `1` and `-1`, and the
/// weight of every window is one there: the coefficients add up to the
/// denominator.
pub proof fn weight_in_the_middle_is_one(kind: WindowKind)
    ensures
        kind.spec_coefficients().den > 0,
        kind.spec_coefficients().scaled_weight(1, -1, 1, -1) == kind.spec_coefficients().den,
        kind.spec_coefficients().a0 + kind.spec_coefficients().a1 + kind.spec_coefficients().a2
            + kind.spec_coefficients().a3 == kind.spec_coefficients().den,
{
}

/// At both ends of a block the cosines are one. A window that tapers weighs
/// less than a tenth there, and never less than nothing.
pub proof fn weight_at_the_ends_is_low(kind: WindowKind)
    requires
        kind != WindowKind::Rectangular,
    ensures
        0 <= kind.spec_coefficients().scaled_weight(1, 1, 1, 1),
        10 * kind.spec_coefficients().scaled_weight(1, 1, 1, 1) < kind.spec_coefficients().den,
{
}

} // verus!
