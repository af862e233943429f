//! Arithmetic operations.
use vstd::prelude::*;

use crate::analysis::environment::classorinterface::ClassOrInterfaceEnvironment;
use crate::analysis::environment::variable::VariableEnvironment;
use crate::analysis::types::lookup::class::{vars_ok, world_ok};
use crate::analysis::types::obj::Type;
use crate::analysis::types::resolve::expression::operands;
use crate::analysis::types::resolve::model::{
    only_initializes,math_res_model, outcome, outcome_ok};
use crate::analysis::types::resolve::wellformed::lemma_math_ok;
use crate::ast::{lemma_type_ok_arr_ok, type_ok, ASTNode};

verus! {

/// The type of `a op b` for an arithmetic operator: both operands are
/// resolved, then the operation is applied to their types.
pub fn go(
    node: &mut ASTNode,
    modifiers: &Vec<ASTNode>,
    current: &ClassOrInterfaceEnvironment,
    kinds: &Vec<ClassOrInterfaceEnvironment>,
    globals: &mut Vec<VariableEnvironment>,
    depth: u32,
) -> (r: Result<Type, String>)
    requires
        type_ok(old(node).model()),
        world_ok(current.deep_view(), kinds.deep_view()),
        vars_ok(old(globals).deep_view()),
        math_res_model(
            old(node).model(),
            modifiers.deep_view(),
            current.deep_view(),
            kinds.deep_view(),
            old(globals).deep_view(),
            depth as nat,
        ) is Some,
    ensures
        math_res_model(
            old(node).model(),
            modifiers.deep_view(),
            current.deep_view(),
            kinds.deep_view(),
            old(globals).deep_view(),
            depth as nat,
        ) == outcome(r, final(node).model(), final(globals).deep_view()),
        outcome_ok(r, final(node).model(), final(globals).deep_view()),
        only_initializes(old(globals).deep_view(), final(globals).deep_view()),
    decreases depth, 2int,
{
    let op = node.token.kind;
    match operands(node, 1, modifiers, current, kinds, globals, depth) {
        Err(e) => Err(e),
        Ok((lhs, rhs)) => {
            proof {
                lemma_type_ok_arr_ok(lhs.deep_view().name);
                lemma_type_ok_arr_ok(rhs.deep_view().name);
                lemma_math_ok(lhs.deep_view(), op, rhs.deep_view());
            }
            lhs.apply_math(&op, &rhs)
        },
    }
}

} // verus!
