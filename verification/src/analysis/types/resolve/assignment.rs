//! Assignments.
use vstd::prelude::*;

use crate::analysis::environment::classorinterface::ClassOrInterfaceEnvironment;
use crate::analysis::environment::variable::VariableEnvironment;
use crate::analysis::types::lookup::class::{lemma_world_env, vars_ok, world_ok};
use crate::analysis::types::obj::Type;
use crate::analysis::types::resolve::expression::operands;
use crate::analysis::types::resolve::model::{
    only_initializes,assignment_model, mark_initialized, outcome, outcome_ok};
use crate::analysis::types::resolve::wellformed::{lemma_assign_ok, lemma_mark_initialized_ok};
use crate::analysis::types::verify::variable::initialized;
use crate::ast::{lemma_model_children, type_ok, ASTNode};

verus! {

/// Marks the first variable named `name` as initialized.
fn mark(globals: &mut Vec<VariableEnvironment>, name: &ASTNode)
    ensures
        final(globals).deep_view() == mark_initialized(old(globals).deep_view(), name.model(), 0),
        only_initializes(old(globals).deep_view(), final(globals).deep_view()),
{
    let ghost g0 = globals.deep_view();
    let mut i: usize = 0;
    while i < globals.len()
        invariant
            i <= globals@.len(),
            globals.deep_view() == g0,
            g0 == old(globals).deep_view(),
            mark_initialized(g0, name.model(), 0) == mark_initialized(g0, name.model(), i as int),
        decreases globals@.len() - i,
    {
        proof {
            assert(g0[i as int] == globals@[i as int].deep_view());
        }
        if globals[i].name.equals(name) {
            proof {
                assert(g0[i as int].name == name.model());
                assert(mark_initialized(g0, name.model(), i as int) == g0.update(
                    i as int,
                    crate::analysis::environment::variable::VarModel { initialized: true, ..g0[i as int] },
                ));
            }
            let mut v = globals[i].clone();
            v.initialized = true;
            globals.set(i, v);
            proof {
                assert(globals.deep_view() =~= g0.update(
                    i as int,
                    crate::analysis::environment::variable::VarModel { initialized: true, ..g0[i as int] },
                ));
            }
            return;
        }
        i = i + 1;
    }
}

/// `a = b`: both sides are resolved, `b` must not read a variable that is
/// not initialized, the variable that `a` names becomes initialized, and
/// `b` must be assignable to `a`.
pub fn go(
    node: &mut ASTNode,
    modifiers: &Vec<ASTNode>,
    current: &ClassOrInterfaceEnvironment,
    kinds: &Vec<ClassOrInterfaceEnvironment>,
    globals: &mut Vec<VariableEnvironment>,
    depth: u32,
) -> (r: Result<Type, String>)
    requires
        type_ok(old(node).model()),
        world_ok(current.deep_view(), kinds.deep_view()),
        vars_ok(old(globals).deep_view()),
        assignment_model(
            old(node).model(),
            modifiers.deep_view(),
            current.deep_view(),
            kinds.deep_view(),
            old(globals).deep_view(),
            depth as nat,
        ) is Some,
    ensures
        assignment_model(
            old(node).model(),
            modifiers.deep_view(),
            current.deep_view(),
            kinds.deep_view(),
            old(globals).deep_view(),
            depth as nat,
        ) == outcome(r, final(node).model(), final(globals).deep_view()),
        outcome_ok(r, final(node).model(), final(globals).deep_view()),
        only_initializes(old(globals).deep_view(), final(globals).deep_view()),
    decreases depth, 2int,
{
    match operands(node, 2, modifiers, current, kinds, globals, depth) {
        Err(e) => Err(e),
        Ok((lhs, rhs)) => {
            proof {
                lemma_model_children(*node);
            }
            match initialized(&node.children[2], current, globals) {
                Err(e) => return Err(e),
                Ok(_) => {},
            }
            let ghost g2 = globals.deep_view();
            mark(globals, &node.children[0]);
            proof {
                lemma_mark_initialized_ok(g2, node.model().children[0], 0);
                lemma_world_env(current.deep_view(), kinds.deep_view());
                lemma_assign_ok(lhs.deep_view(), rhs.deep_view(), current.deep_view(), kinds.deep_view());
            }
            lhs.assign(&rhs, current, kinds)
        },
    }
}

} // verus!
