//! The UTF-8 operations as methods of read-only text values.

use vstd::prelude::*;
use vstd::string::StringSliceAdditionalSpecFns;
use crate::error::StringOpsError;
use crate::scan::{utf8_char_count, utf8_validate};
use crate::standard::lemma_text_is_utf8;
use crate::utf8::{is_utf8, scalar_count};

verus! {

/// Validation and character counting on a value that holds bytes of text.
pub trait StringOpsExt {
    /// The bytes that the value holds.
    spec fn text_bytes(&self) -> Seq<u8>;

    /// Checks that the bytes are well-formed UTF-8.
    fn validate_utf8(&self) -> (checked: Result<(), StringOpsError>)
        ensures
            checked == if is_utf8(self.text_bytes()) {
                Ok::<(), StringOpsError>(())
            } else {
                Err::<(), StringOpsError>(StringOpsError::InvalidUtf8)
            },
    ;

    /// Counts the well-formed sequences at the front of the bytes.
    fn char_count_utf8(&self) -> (count: usize)
        ensures
            count == scalar_count(self.text_bytes()),
    ;
}

impl StringOpsExt for [u8] {
    open spec fn text_bytes(&self) -> Seq<u8> {
        self@
    }

    fn validate_utf8(&self) -> (checked: Result<(), StringOpsError>) {
        utf8_validate(self)
    }

    fn char_count_utf8(&self) -> (count: usize) {
        utf8_char_count(self)
    }
}

impl StringOpsExt for str {
    open spec fn text_bytes(&self) -> Seq<u8> {
        self.spec_bytes()
    }

    /// A string slice always passes.
    fn validate_utf8(&self) -> (checked: Result<(), StringOpsError>)
        ensures
            checked is Ok,
    {
        proof {
            lemma_text_is_utf8(self@);
        }
        utf8_validate(self.as_bytes())
    }

    /// The count of a string slice is its length in characters.
    fn char_count_utf8(&self) -> (count: usize)
        ensures
            count == self@.len(),
    {
        proof {
            lemma_text_is_utf8(self@);
        }
        utf8_char_count(self.as_bytes())
    }
}

} // verus!
