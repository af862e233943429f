//! Names: variables, fields and types.
use vstd::prelude::*;

use crate::analysis::environment::classorinterface::ClassOrInterfaceEnvironment;
use crate::analysis::environment::variable::VariableEnvironment;
use crate::analysis::types::lookup::class::{
    deep_ok, in_env, in_variables as class_in_variables, lemma_in_env_deep_ok, vars_ok, world_ok,
};
use crate::analysis::types::lookup::field;
use crate::analysis::types::obj::{type_result, Type};
use crate::analysis::types::resolve::model::{is_static, name_model};
use crate::ast::{
    contains_node, flatten, lemma_model_children, lemma_type_ok_flatten, models, type_ok, ASTNode, NodeModel,
};
use crate::text::note;
use crate::tokens::TokenKind;

verus! {

/// The empty `Name`.
pub(crate) fn empty_name() -> (r: ASTNode)
    ensures
        r.model() == crate::analysis::types::resolve::model::empty_name(),
{
    let v: Vec<ASTNode> = Vec::new();
    proof {
        assert(models(v@) =~= Seq::<NodeModel>::empty());
    }
    ASTNode::rule("Name", v)
}

/// The type of a name, tried in turn as a field of a variable, a variable,
/// a qualified field, a field of `this` (outside static code), and a type.
pub fn go(
    node: &ASTNode,
    modifiers: &Vec<ASTNode>,
    current: &ClassOrInterfaceEnvironment,
    kinds: &Vec<ClassOrInterfaceEnvironment>,
    globals: &Vec<VariableEnvironment>,
) -> (r: Result<Type, String>)
    requires
        type_ok(node.model()),
        world_ok(current.deep_view(), kinds.deep_view()),
        vars_ok(globals.deep_view()),
        name_model(node.model(), modifiers.deep_view(), current.deep_view(), kinds.deep_view(), globals.deep_view())
            is Some,
    ensures
        name_model(node.model(), modifiers.deep_view(), current.deep_view(), kinds.deep_view(), globals.deep_view())
            == Some(type_result(r)),
        r matches Ok(t) ==> deep_ok(t.deep_view()),
        is_static(modifiers.deep_view()) && flatten(node.model()).children.len() > 0 && flatten(node.model()).children[0].token.kind
            == TokenKind::This ==> (r matches Err(e) && e@ == "can not use 'this' in static method"@),
{
    let n = node.flattened();
    proof {
        lemma_model_children(n);
        lemma_type_ok_flatten(node.model());
    }
    let is_static = contains_node(modifiers, &ASTNode::leaf(TokenKind::Static));
    if is_static && n.children[0].token.kind == TokenKind::This {
        return Err(note("can not use 'this' in static method"));
    }
    let name = empty_name();
    match field::in_variables(&n, &name, current, kinds, globals) {
        Ok(t) => return Ok(t),
        Err(_) => {},
    }
    match class_in_variables(&n, current, kinds, globals) {
        Ok(c) => return Ok(Type::new(c)),
        Err(_) => {},
    }
    match field::in_env(&n, &name, current, kinds) {
        Ok(t) => return Ok(t),
        Err(_) => {},
    }
    if !is_static {
        match field::in_env(&current.name, &n, current, kinds) {
            Ok(t) => return Ok(t),
            Err(_) => {},
        }
    }
    proof {
        lemma_in_env_deep_ok(n.model(), current.deep_view(), kinds.deep_view());
    }
    match in_env(&n, current, kinds) {
        Ok(c) => Ok(Type::new(c)),
        Err(e) => Err(e),
    }
}

} // verus!
