//! Casts.
use vstd::prelude::*;

use crate::analysis::environment::classorinterface::ClassOrInterfaceEnvironment;
use crate::analysis::environment::variable::VariableEnvironment;
use crate::analysis::types::lookup::class::{deep_ok, lemma_world_env, vars_ok, world_ok};
use crate::analysis::types::obj::{type_result, Type};
use crate::analysis::types::resolve::arraycreationexpression::array_type;
use crate::analysis::types::resolve::expression::go as resolve;
use crate::analysis::types::resolve::model::{
    only_initializes,cast_expression_model, done};
use crate::analysis::types::resolve::wellformed::{lemma_array_of_ok, lemma_cast_ok};
use crate::ast::{lemma_model_children, lemma_types_ok, type_ok, ASTNode};

verus! {

/// `(T) e`: `e` is resolved first, then `T` (an array of `T` where the cast
/// has a dimension), and the cast must be allowed. Both are resolved on
/// copies; the variables carry over.
pub fn go(
    node: &ASTNode,
    modifiers: &Vec<ASTNode>,
    current: &ClassOrInterfaceEnvironment,
    kinds: &Vec<ClassOrInterfaceEnvironment>,
    globals: &mut Vec<VariableEnvironment>,
    depth: u32,
) -> (r: Result<Type, String>)
    requires
        type_ok(node.model()),
        world_ok(current.deep_view(), kinds.deep_view()),
        vars_ok(old(globals).deep_view()),
        cast_expression_model(
            node.model(),
            modifiers.deep_view(),
            current.deep_view(),
            kinds.deep_view(),
            old(globals).deep_view(),
            depth as nat,
        ) is Some,
    ensures
        cast_expression_model(
            node.model(),
            modifiers.deep_view(),
            current.deep_view(),
            kinds.deep_view(),
            old(globals).deep_view(),
            depth as nat,
        ) == done(type_result(r), node.model(), final(globals).deep_view()),
        vars_ok(final(globals).deep_view()),
        only_initializes(old(globals).deep_view(), final(globals).deep_view()),
        r matches Ok(t) ==> deep_ok(t.deep_view()),
    decreases depth, 2int,
{
    proof {
        lemma_model_children(*node);
        lemma_types_ok(node.model().children);
    }
    let last = node.children.len() - 1;
    let mut expr = node.children[last].clone();
    let rhs = match resolve(&mut expr, modifiers, current, kinds, globals, depth - 1) {
        Ok(t) => t,
        Err(e) => return Err(e),
    };
    let mut target = node.children[1].clone();
    let lhs = match resolve(&mut target, modifiers, current, kinds, globals, depth - 1) {
        Ok(t) => {
            if node.children.len() == 5 {
                proof {
                    lemma_array_of_ok(t.deep_view().name);
                }
                Type::new(array_type(&t.kind.name))
            } else {
                t
            }
        },
        Err(e) => return Err(e),
    };
    proof {
        lemma_world_env(current.deep_view(), kinds.deep_view());
        lemma_cast_ok(lhs.deep_view(), rhs.deep_view(), current.deep_view(), kinds.deep_view());
    }
    lhs.apply_cast(&rhs, current, kinds)
}

} // verus!
