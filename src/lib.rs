//! Scripture corpus loading and verse lookup by reference.
pub mod corpus;
pub mod laws;
pub mod lookup;
pub mod number;
pub mod pretty_print;
pub mod text;
