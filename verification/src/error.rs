//! The one way in which an operation of this library can fail.

use vstd::prelude::*;

verus! {

/// Why an operation on a byte buffer failed.
#[derive(Clone, Copy, Debug, PartialEq, Eq, Structural)]
pub enum StringOpsError {
    /// The bytes are not well-formed UTF-8.
    InvalidUtf8,
}

impl StringOpsError {
    /// The text that describes the error to a reader.
    pub fn message(&self) -> (text: String)
        ensures
            text@ == "Invalid UTF-8 sequence"@,
    {
        match self {
            StringOpsError::InvalidUtf8 => "Invalid UTF-8 sequence".to_owned(),
        }
    }
}

} // verus!
