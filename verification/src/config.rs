//! What a run is configured with: the block length and the window.

use vstd::prelude::*;

verus! {

/// The taper that is laid over each block before it is transformed.
#[derive(Clone, Copy, Debug, PartialEq, Eq, Structural)]
pub enum WindowKind {
    /// No taper: every sample keeps its weight.
    Rectangular,
    /// Hamming window, with `alpha = 25/46`.
    Hamming,
    /// Blackman window, with `alpha = 0.16`.
    Blackman,
    /// Four-term Blackman-Harris window.
    BlackmanHarris,
}

/// Why a configuration is refused before anything is computed.
#[derive(Clone, Copy, Debug, PartialEq, Eq, Structural)]
pub enum ConfigError {
    /// A block must hold at least one sample.
    ZeroBlockLength,
    /// More than one window was asked for.
    ConflictingWindows,
}

/// How many of three switches are on.
pub open spec fn switches_on(a: bool, b: bool, c: bool) -> nat {
    (if a { 1nat } else { 0nat }) + (if b { 1nat } else { 0nat }) + (if c { 1nat } else { 0nat })
}

/// The window that three switches ask for where at most one of them is on.
pub open spec fn window_of(hamming: bool, blackman: bool, blackman_harris: bool) -> WindowKind {
    if hamming {
        WindowKind::Hamming
    } else if blackman {
        WindowKind::Blackman
    } else if blackman_harris {
        WindowKind::BlackmanHarris
    } else {
        WindowKind::Rectangular
    }
}

/// Picks the window from the three switches of the command line.
///
/// No switch gives the rectangular window, one switch its own window, and two
/// or three are a conflict.
pub fn select_window(hamming: bool, blackman: bool, blackman_harris: bool) -> (r: Result<
    WindowKind,
    ConfigError,
>)
    ensures
        switches_on(hamming, blackman, blackman_harris) <= 1 ==> r == Ok::<WindowKind, ConfigError>(
            window_of(hamming, blackman, blackman_harris),
        ),
        switches_on(hamming, blackman, blackman_harris) > 1 ==> r == Err::<WindowKind, ConfigError>(
            ConfigError::ConflictingWindows,
        ),
{
    if (hamming && blackman) || (hamming && blackman_harris) || (blackman && blackman_harris) {
        Err(ConfigError::ConflictingWindows)
    } else if hamming {
        Ok(WindowKind::Hamming)
    } else if blackman {
        Ok(WindowKind::Blackman)
    } else if blackman_harris {
        Ok(WindowKind::BlackmanHarris)
    } else {
        Ok(WindowKind::Rectangular)
    }
}

/// A checked configuration: a block length of at least one, and a window.
#[derive(Clone, Copy, Debug)]
pub struct Config {
    block_len: usize,
    window: WindowKind,
}

impl Config {
    #[verifier::type_invariant]
    spec fn positive(self) -> bool {
        self.block_len > 0
    }

    /// The number of samples in a block.
    pub closed spec fn spec_block_len(self) -> usize {
        self.block_len
    }

    /// The window laid over each block.
    pub closed spec fn spec_window(self) -> WindowKind {
        self.window
    }

    /// Checks a block length and keeps it with the window.
    pub fn new(block_len: usize, window: WindowKind) -> (r: Result<Config, ConfigError>)
        ensures
            block_len == 0 ==> r == Err::<Config, ConfigError>(ConfigError::ZeroBlockLength),
            block_len > 0 ==> r is Ok && r->Ok_0.spec_block_len() == block_len
                && r->Ok_0.spec_window() == window,
    {
        if block_len == 0 {
            Err(ConfigError::ZeroBlockLength)
        } else {
            Ok(Config { block_len, window })
        }
    }

    /// The number of samples in a block; never zero.
    pub fn block_len(&self) -> (n: usize)
        ensures
            n == self.spec_block_len(),
            n > 0,
    {
        proof {
            use_type_invariant(self);
        }
        self.block_len
    }

    /// The window laid over each block.
    pub fn window(&self) -> (w: WindowKind)
        ensures
            w == self.spec_window(),
    {
        self.window
    }
}

} // verus!
