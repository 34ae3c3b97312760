//! Turkish citizenship ID numbers: validation, parsing, rendering and
//! generation from a sequence number.
//!
//! [`is_valid`] and [`validate`] decide whether a string is a valid number.
//! [`TurkishId`] holds a number that is valid: it is parsed from a string
//! or generated from a nine-digit sequence number, and renders back as the
//! eleven digits.

pub mod checksum;
pub mod error;
pub mod id;
pub mod sequence;
pub mod validate;

pub use error::Error;
pub use error::ErrorKind;
pub use error::FromSeqError;
pub use id::TurkishId;
pub use validate::is_valid;
pub use validate::validate;
pub use validate::LENGTH;
