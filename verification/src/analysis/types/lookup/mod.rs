//! Finding classes, fields and methods by name.
pub mod array;
pub mod class;
pub mod field;
pub mod method;
