//! Resolving the type of an expression.
pub mod arrayaccess;
pub mod arraycreationexpression;
pub mod assignment;
pub mod castexpression;
pub mod classinstancecreationexpression;
pub mod comparison;
pub mod expression;
pub mod fieldaccess;
pub mod math;
pub mod methodinvocation;
pub mod model;
pub mod name;
pub mod primitive;
pub mod wellformed;
