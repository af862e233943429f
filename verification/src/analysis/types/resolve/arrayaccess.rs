//! Array accesses.
use vstd::prelude::*;

use crate::analysis::environment::classorinterface::ClassOrInterfaceEnvironment;
use crate::analysis::environment::variable::VariableEnvironment;
use crate::analysis::types::lookup::class::{vars_ok, world_ok};
use crate::analysis::types::obj::Type;
use crate::analysis::types::resolve::expression::{go as resolve, go_child};
use crate::analysis::types::resolve::model::{
    only_initializes,array_access_model, outcome, outcome_ok};
use crate::analysis::types::verify::variable::initialized;
use crate::ast::{lemma_model_children, lemma_type_ok_arr_ok, lemma_types_ok, type_ok, ASTNode};
use crate::text::note;
use crate::tokens::lexeme_is;

verus! {

/// `a[i]`: `a` must be an array, initialized, and `i` of a type that widens
/// to `int`; the type is the array's element type, resolved.
pub fn go(
    node: &mut ASTNode,
    modifiers: &Vec<ASTNode>,
    current: &ClassOrInterfaceEnvironment,
    kinds: &Vec<ClassOrInterfaceEnvironment>,
    globals: &mut Vec<VariableEnvironment>,
    depth: u32,
) -> (r: Result<Type, String>)
    requires
        type_ok(old(node).model()),
        world_ok(current.deep_view(), kinds.deep_view()),
        vars_ok(old(globals).deep_view()),
        array_access_model(
            old(node).model(),
            modifiers.deep_view(),
            current.deep_view(),
            kinds.deep_view(),
            old(globals).deep_view(),
            depth as nat,
        ) is Some,
    ensures
        array_access_model(
            old(node).model(),
            modifiers.deep_view(),
            current.deep_view(),
            kinds.deep_view(),
            old(globals).deep_view(),
            depth as nat,
        ) == outcome(r, final(node).model(), final(globals).deep_view()),
        outcome_ok(r, final(node).model(), final(globals).deep_view()),
        only_initializes(old(globals).deep_view(), final(globals).deep_view()),
    decreases depth, 2int,
{
    proof {
        lemma_model_children(*node);
    }
    let array = match go_child(node, 0, modifiers, current, kinds, globals, depth - 1) {
        Err(e) => return Err(e),
        Ok(a) => a,
    };
    if !lexeme_is(&array.kind.name.token.lexeme, "ArrayType") {
        return Err(note("got invalid array type"));
    }
    proof {
        lemma_model_children(*node);
    }
    match initialized(&node.children[0], current, globals) {
        Err(e) => return Err(e),
        Ok(_) => {},
    }
    match go_child(node, 2, modifiers, current, kinds, globals, depth - 1) {
        Err(e) => return Err(e),
        Ok(idx) => {
            proof {
                lemma_type_ok_arr_ok(idx.deep_view().name);
            }
            if !idx.is_coercible_to_int() {
                return Err(note("got invalid index type"));
            }
        },
    }
    proof {
        lemma_model_children(array.kind.name);
        lemma_types_ok(array.kind.name.model().children);
    }
    let mut element = array.kind.name.children[0].clone();
    resolve(&mut element, modifiers, current, kinds, globals, depth - 1)
}

} // verus!
