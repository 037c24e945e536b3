//! Portable text primitives on byte buffers: ASCII case conversion in place,
//! strict UTF-8 validation, and counting of UTF-8 characters.
//!
//! Every operation can run byte by byte or lane by lane. The contracts are
//! stated over the bytes alone, so a caller never sees which path ran.

pub mod case;
pub mod dispatch;
pub mod error;
pub mod ext;
pub mod lane;
pub mod laws;
pub mod scan;
pub mod standard;
pub mod utf8;

pub use crate::dispatch::{to_lower_inplace, to_upper_inplace};
pub use crate::error::StringOpsError;
pub use crate::ext::StringOpsExt;
pub use crate::scan::{utf8_char_count, utf8_validate};
