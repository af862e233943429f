//! Checks on names and declarations.
pub mod class;
pub mod method;
pub mod prefixes;
pub mod variable;
