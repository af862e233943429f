//! The analysis stage: the environment builder and the type checker.
pub mod environment;
pub mod types;

use vstd::prelude::*;

use crate::analysis::environment::classorinterface::ClassModel;
use crate::analysis::environment::wellformed::{lemma_environment_wf, trees_wf};
use crate::analysis::environment::{environment, Environment};
use crate::analysis::types::{verify, verify_model};
use crate::ast::{ASTModel, AST};

verus! {

/// What analyzing a program gives: the environment built from its
/// compilation units and then type checked, or an error from either stage.
pub open spec fn analyze_model(trees: Seq<ASTModel>) -> Option<Result<Seq<ClassModel>, ()>> {
    match environment(trees) {
        Err(_) => Some(Err(())),
        Ok(ks) => match verify_model(ks) {
            None => None,
            Some((Err(_), _)) => Some(Err(())),
            Some((Ok(_), checked)) => Some(Ok(checked)),
        },
    }
}

/// Runs a program's compilation units through the analysis: the
/// environment is built (`Environment::new`) and type checked (`verify`).
pub fn analyze(trees: &Vec<AST>) -> (r: Result<Environment, String>)
    requires
        trees_wf(trees.deep_view()),
        analyze_model(trees.deep_view()) is Some,
    ensures
        match r {
            Ok(env) => analyze_model(trees.deep_view()) == Some(Ok::<Seq<ClassModel>, ()>(env.deep_view())),
            Err(_) => analyze_model(trees.deep_view()) == Some(Err::<Seq<ClassModel>, ()>(())),
        },
{
    proof {
        lemma_environment_wf(trees.deep_view());
    }
    let mut env = match Environment::new(trees) {
        Ok(e) => e,
        Err(e) => return Err(e),
    };
    match verify(&mut env) {
        Ok(_) => Ok(env),
        Err(e) => Err(e),
    }
}

} // verus!
