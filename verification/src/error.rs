//! What can go wrong: only the codec can fail.

use vstd::prelude::*;

verus! {

/// A failure of the codec, with the codec's own account of it.
#[derive(Debug)]
pub enum GlitchError {
    /// The bytes are no picture that the codec can read.
    Decode(String),
    /// The picture cannot be written in the format asked for.
    Encode(String),
}

impl GlitchError {
    /// The codec's account of the failure.
    pub fn message(&self) -> (text: String)
        ensures
            text@ == (match *self {
                GlitchError::Decode(m) => m@,
                GlitchError::Encode(m) => m@,
            }),
    {
        match self {
            GlitchError::Decode(m) => m.clone(),
            GlitchError::Encode(m) => m.clone(),
        }
    }
}

} // verus!
