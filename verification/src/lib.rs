//! Typed flake references: parsing a free-form reference string into one of a
//! closed set of location descriptors, and rendering a descriptor back into
//! its canonical spelling.
//!
//! Every function is specified against a mathematical model over sequences of
//! characters and proved against it.

pub mod command;
pub mod flake_ref;
pub mod text;
