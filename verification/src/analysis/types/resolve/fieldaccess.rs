//! Field accesses.
use vstd::prelude::*;

use crate::analysis::environment::classorinterface::ClassOrInterfaceEnvironment;
use crate::analysis::environment::variable::VariableEnvironment;
use crate::analysis::types::lookup::class::{deep_ok, in_env, lemma_in_env_deep_ok, vars_ok, world_ok};
use crate::analysis::types::obj::{type_result, Type};
use crate::analysis::types::resolve::expression::go_child;
use crate::analysis::types::resolve::model::{only_initializes, is_static, field_access_model, first_field_type, outcome, outcome_ok};
use crate::ast::{contains_node, lemma_model_children, lemma_type_ok_flatten, type_ok, ASTNode};
use crate::text::note;
use crate::tokens::TokenKind;

verus! {

/// The type of the first field of `cls` named by the third child of `node`
/// whose type resolves.
fn field_of(cls: &ClassOrInterfaceEnvironment, node: &ASTNode, kinds: &Vec<ClassOrInterfaceEnvironment>) -> (r:
    Result<Type, String>)
    requires
        world_ok(cls.deep_view(), kinds.deep_view()),
        cls.deep_view().fields.len() > 0 ==> node.model().children.len() >= 3,
    ensures
        type_result(r) == first_field_type(cls.deep_view(), node.model(), kinds.deep_view(), 0),
        r matches Ok(t) ==> deep_ok(t.deep_view()),
{
    proof {
        lemma_model_children(*node);
    }
    let ghost c = cls.deep_view();
    let ghost n = node.model();
    let mut i: usize = 0;
    while i < cls.fields.len()
        invariant
            c == cls.deep_view(),
            n == node.model(),
            world_ok(c, kinds.deep_view()),
            c.fields.len() > 0 ==> n.children.len() >= 3,
            n.children == crate::ast::models(node.children@),
            i <= cls.fields@.len(),
            first_field_type(c, n, kinds.deep_view(), 0) == first_field_type(c, n, kinds.deep_view(), i as int),
        decreases cls.fields@.len() - i,
    {
        let field = &cls.fields[i];
        proof {
            assert(c.fields[i as int] == field.deep_view());
            assert(type_ok(c.fields[i as int].kind));
        }
        if field.name.equals(&node.children[2]) {
            match in_env(&field.kind, cls, kinds) {
                Ok(k) => {
                    proof {
                        lemma_in_env_deep_ok(field.kind.model(), c, kinds.deep_view());
                    }
                    return Ok(Type::new(k));
                },
                Err(_) => {},
            }
        }
        i = i + 1;
    }
    Err(note("could not find the field in the class"))
}

/// `a.f`: the field `f` of `this` (not in static code) or of the class of
/// `a`'s type; the first field of that name whose type resolves.
pub fn go(
    node: &mut ASTNode,
    modifiers: &Vec<ASTNode>,
    current: &ClassOrInterfaceEnvironment,
    kinds: &Vec<ClassOrInterfaceEnvironment>,
    globals: &mut Vec<VariableEnvironment>,
    depth: u32,
) -> (r: Result<Type, String>)
    requires
        type_ok(old(node).model()),
        world_ok(current.deep_view(), kinds.deep_view()),
        vars_ok(old(globals).deep_view()),
        field_access_model(
            old(node).model(),
            modifiers.deep_view(),
            current.deep_view(),
            kinds.deep_view(),
            old(globals).deep_view(),
            depth as nat,
        ) is Some,
    ensures
        field_access_model(
            old(node).model(),
            modifiers.deep_view(),
            current.deep_view(),
            kinds.deep_view(),
            old(globals).deep_view(),
            depth as nat,
        ) == outcome(r, final(node).model(), final(globals).deep_view()),
        outcome_ok(r, final(node).model(), final(globals).deep_view()),
        only_initializes(old(globals).deep_view(), final(globals).deep_view()),
        is_static(modifiers.deep_view()) && old(node).model().children.len() > 0 && old(node).model().children[0].token.kind
            == TokenKind::This ==> (r matches Err(e) && e@ == "can not use 'this' in static method"@),
    decreases depth, 2int,
{
    proof {
        lemma_model_children(*node);
    }
    if node.children[0].token.kind == TokenKind::This {
        if contains_node(modifiers, &ASTNode::leaf(TokenKind::Static)) {
            return Err(note("can not use 'this' in static method"));
        }
        return field_of(current, &*node, kinds);
    }
    let lhs = match go_child(node, 0, modifiers, current, kinds, globals, depth - 1) {
        Err(e) => return Err(e),
        Ok(t) => t,
    };
    proof {
        lemma_model_children(*node);
    }
    let lhs_kind = lhs.kind.name.flattened();
    if lhs_kind.equals(&current.name) {
        return field_of(current, &*node, kinds);
    }
    proof {
        lemma_type_ok_flatten(lhs.deep_view().name);
        lemma_in_env_deep_ok(lhs_kind.model(), current.deep_view(), kinds.deep_view());
    }
    match in_env(&lhs_kind, current, kinds) {
        Err(e) => Err(e),
        Ok(cls) => field_of(&cls, &*node, kinds),
    }
}

} // verus!
