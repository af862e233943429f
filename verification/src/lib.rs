use vstd::prelude::*;

pub mod tokens;
pub mod ast;
pub mod analysis;
pub mod text;
pub mod numbers;
pub mod parse;
pub mod error;

verus! {
}
