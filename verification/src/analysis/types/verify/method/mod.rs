//! Checking the bodies of methods and constructors.
pub mod declaration;
pub mod model;
pub mod statement;
