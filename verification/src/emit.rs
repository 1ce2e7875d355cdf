//! The text of the generated code, piece by piece.

pub mod enumerator;
pub mod field;
pub mod file;
pub mod message;
pub mod number;
pub mod oneof;
pub mod owned;
pub mod value;
