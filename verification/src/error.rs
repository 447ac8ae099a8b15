//! Why a preview could not be produced.
//!
//! A persistence failure never appears here: writing a finished preview
//! into the cache is best effort, and a failure to persist is swallowed
//! after the in-memory result has already been produced.

use vstd::prelude::*;

verus! {

/// The generation pipeline's failure cases.
#[derive(Debug, PartialEq, Eq)]
pub enum GenError {
    /// The source file vanished before generation.
    NotFound,
    /// The obtained bytes are not a decodable image; carries the
    /// decoder's words.
    Decode(String),
    /// Re-encoding to the canonical format failed; carries the encoder's
    /// words.
    Encode(String),
    /// The external tool was absent, failed, or produced no usable
    /// output; carries a cause.
    ExternalTool(String),
}

impl GenError {
    /// A human-readable account of the failure.
    pub fn message(&self) -> String {
        match self {
            GenError::NotFound => String::from_str("file not found"),
            GenError::Decode(s) => {
                let mut m = String::from_str("could not decode image: ");
                m.append(s.as_str());
                m
            }
            GenError::Encode(s) => {
                let mut m = String::from_str("could not encode preview: ");
                m.append(s.as_str());
                m
            }
            GenError::ExternalTool(s) => {
                let mut m = String::from_str("external renderer: ");
                m.append(s.as_str());
                m
            }
        }
    }
}

} // verus!
