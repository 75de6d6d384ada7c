//! What a generator answers when its parameters make no texture.

use vstd::prelude::*;

verus! {

/// Why a request for a noise texture was turned down.
#[derive(Debug, Clone, Copy, PartialEq, Eq, Structural)]
pub enum NoiseError {
    /// The width or the height is zero.
    InvalidDimensions,
    /// A blur radius is not greater than zero.
    InvalidSigma,
}

impl NoiseError {
    /// A sentence for the person who asked.
    pub fn message(&self) -> (text: String)
        ensures
            text@ == match *self {
                NoiseError::InvalidDimensions => "width and height must both be greater than zero"@,
                NoiseError::InvalidSigma => "sigma must be greater than zero"@,
            },
    {
        match self {
            NoiseError::InvalidDimensions => "width and height must both be greater than zero".to_owned(),
            NoiseError::InvalidSigma => "sigma must be greater than zero".to_owned(),
        }
    }
}

} // verus!
