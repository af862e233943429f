//! Comparisons, boolean operators and `instanceof`.
use vstd::prelude::*;

use crate::analysis::environment::classorinterface::{ClassOrInterface, ClassOrInterfaceEnvironment};
use crate::analysis::environment::variable::VariableEnvironment;
use crate::analysis::types::lookup::class::{lemma_world_env, vars_ok, world_ok};
use crate::analysis::types::obj::{prim, prim_type, with_lexeme, Type};
use crate::analysis::types::resolve::expression::{go_child, operands};
use crate::analysis::types::resolve::model::{
    only_initializes, bitwise_kind, operands_resolve,
    bool_lexeme, bool_token, bool_value, boolean1_model, boolean2_model, comparison2_model,
    instanceof_model, is_primitive_type, outcome, outcome_ok, set_token,
};
use crate::analysis::types::resolve::wellformed::{lemma_bool_ok, lemma_comparison_ok, lemma_set_token_ok};
use crate::ast::{lemma_model_children, lemma_type_ok_arr_ok, type_ok, ASTNode};
use crate::text::note;
use crate::tokens::{lexeme_is, Token, TokenKind};

verus! {

/// The `boolean` type, its name carrying the constant `v`.
fn bool_type(v: bool) -> (r: Type)
    ensures
        r.deep_view() == with_lexeme(prim(TokenKind::Boolean), Some(bool_lexeme(v))),
{
    let text = if v {
        "true"
    } else {
        "false"
    };
    let n = ASTNode { token: Token::new(TokenKind::Boolean, Some(text)), children: Vec::new() };
    proof {
        lemma_model_children(n);
        assert(n.model().children =~= Seq::<crate::ast::NodeModel>::empty());
    }
    Type::new(ClassOrInterfaceEnvironment::new(n, ClassOrInterface::CLASS))
}

/// The constant that the name of a `boolean` type carries, if any.
fn bool_value_of(t: &Type) -> (r: Option<bool>)
    ensures
        r == bool_value(t.deep_view()),
{
    if lexeme_is(&t.kind.name.token.lexeme, "false") {
        Some(false)
    } else if lexeme_is(&t.kind.name.token.lexeme, "true") {
        Some(true)
    } else {
        None
    }
}

/// Whether `t` is one of the primitive types that `instanceof` refuses.
fn primitive_type(t: &Type) -> (r: bool)
    requires
        crate::ast::arr_ok(t.deep_view().name),
    ensures
        r == is_primitive_type(t.deep_view()),
{
    t.eq(&prim_type(TokenKind::Boolean)) || t.eq(&prim_type(TokenKind::Byte)) || t.eq(
        &prim_type(TokenKind::Char),
    ) || t.eq(&prim_type(TokenKind::Int)) || t.eq(&prim_type(TokenKind::Short))
}

/// Replaces the token of `node` by the constant `v`.
fn fold(node: &mut ASTNode, v: bool)
    ensures
        final(node).model() == set_token(old(node).model(), bool_token(v)),
{
    proof {
        lemma_model_children(*node);
    }
    let ghost before = node.model();
    node.token = Token::new(if v { TokenKind::True } else { TokenKind::False }, None);
    proof {
        lemma_model_children(*node);
        assert(node.model().children =~= before.children);
    }
}

/// `!a`: the operand must be a `boolean`; a constant is negated.
pub fn onearg_boolean(
    node: &mut ASTNode,
    modifiers: &Vec<ASTNode>,
    current: &ClassOrInterfaceEnvironment,
    kinds: &Vec<ClassOrInterfaceEnvironment>,
    globals: &mut Vec<VariableEnvironment>,
    depth: u32,
) -> (r: Result<Type, String>)
    requires
        type_ok(old(node).model()),
        world_ok(current.deep_view(), kinds.deep_view()),
        vars_ok(old(globals).deep_view()),
        boolean1_model(
            old(node).model(),
            modifiers.deep_view(),
            current.deep_view(),
            kinds.deep_view(),
            old(globals).deep_view(),
            depth as nat,
        ) is Some,
    ensures
        boolean1_model(
            old(node).model(),
            modifiers.deep_view(),
            current.deep_view(),
            kinds.deep_view(),
            old(globals).deep_view(),
            depth as nat,
        ) == outcome(r, final(node).model(), final(globals).deep_view()),
        outcome_ok(r, final(node).model(), final(globals).deep_view()),
        only_initializes(old(globals).deep_view(), final(globals).deep_view()),
    decreases depth, 2int,
{
    proof {
        lemma_model_children(*node);
    }
    match go_child(node, 0, modifiers, current, kinds, globals, depth - 1) {
        Err(e) => Err(e),
        Ok(arg) => {
            proof {
                lemma_type_ok_arr_ok(arg.deep_view().name);
                lemma_bool_ok(true);
                lemma_bool_ok(false);
            }
            if arg.eq(&prim_type(TokenKind::Boolean)) {
                match bool_value_of(&arg) {
                    Some(v) => Ok(bool_type(!v)),
                    None => Ok(prim_type(TokenKind::Boolean)),
                }
            } else {
                Err(note("could not apply ! to a value that is not a boolean"))
            }
        },
    }
}

/// `a op b` for a comparison: both operands are resolved, then compared.
pub fn twoarg(
    node: &mut ASTNode,
    modifiers: &Vec<ASTNode>,
    current: &ClassOrInterfaceEnvironment,
    kinds: &Vec<ClassOrInterfaceEnvironment>,
    globals: &mut Vec<VariableEnvironment>,
    depth: u32,
) -> (r: Result<Type, String>)
    requires
        type_ok(old(node).model()),
        world_ok(current.deep_view(), kinds.deep_view()),
        vars_ok(old(globals).deep_view()),
        comparison2_model(
            old(node).model(),
            modifiers.deep_view(),
            current.deep_view(),
            kinds.deep_view(),
            old(globals).deep_view(),
            depth as nat,
        ) is Some,
    ensures
        comparison2_model(
            old(node).model(),
            modifiers.deep_view(),
            current.deep_view(),
            kinds.deep_view(),
            old(globals).deep_view(),
            depth as nat,
        ) == outcome(r, final(node).model(), final(globals).deep_view()),
        outcome_ok(r, final(node).model(), final(globals).deep_view()),
        only_initializes(old(globals).deep_view(), final(globals).deep_view()),
    decreases depth, 2int,
{
    let op = node.token.kind;
    match operands(node, 1, modifiers, current, kinds, globals, depth) {
        Err(e) => Err(e),
        Ok((lhs, rhs)) => {
            proof {
                lemma_world_env(current.deep_view(), kinds.deep_view());
                lemma_comparison_ok(lhs.deep_view(), op, rhs.deep_view(), current.deep_view(), kinds.deep_view());
            }
            lhs.apply_comparison(&op, &rhs, current, kinds)
        },
    }
}

/// `a op b` for a boolean operator: both must be `boolean`s; two constants
/// are folded, and a folded eager operator (`&`, `|`, `^`) becomes the
/// constant itself. Bitwise operators on other types are refused.
pub fn twoarg_boolean(
    node: &mut ASTNode,
    modifiers: &Vec<ASTNode>,
    current: &ClassOrInterfaceEnvironment,
    kinds: &Vec<ClassOrInterfaceEnvironment>,
    globals: &mut Vec<VariableEnvironment>,
    depth: u32,
) -> (r: Result<Type, String>)
    requires
        type_ok(old(node).model()),
        world_ok(current.deep_view(), kinds.deep_view()),
        vars_ok(old(globals).deep_view()),
        boolean2_model(
            old(node).model(),
            modifiers.deep_view(),
            current.deep_view(),
            kinds.deep_view(),
            old(globals).deep_view(),
            depth as nat,
        ) is Some,
    ensures
        boolean2_model(
            old(node).model(),
            modifiers.deep_view(),
            current.deep_view(),
            kinds.deep_view(),
            old(globals).deep_view(),
            depth as nat,
        ) == outcome(r, final(node).model(), final(globals).deep_view()),
        outcome_ok(r, final(node).model(), final(globals).deep_view()),
        only_initializes(old(globals).deep_view(), final(globals).deep_view()),
        bitwise_kind(old(node).model().token.kind) && operands_resolve(
            old(node).model(),
            modifiers.deep_view(),
            current.deep_view(),
            kinds.deep_view(),
            old(globals).deep_view(),
            depth as nat,
        ) ==> (r is Ok || (r matches Err(e) && e@ == "bitwise operations are not allowed"@)),
    decreases depth, 2int,
{
    let op = node.token.kind;
    match operands(node, 1, modifiers, current, kinds, globals, depth) {
        Err(e) => Err(e),
        Ok((lhs, rhs)) => {
            proof {
                lemma_type_ok_arr_ok(lhs.deep_view().name);
                lemma_type_ok_arr_ok(rhs.deep_view().name);
                lemma_bool_ok(true);
                lemma_bool_ok(false);
                lemma_model_children(*node);
            }
            let boolean = prim_type(TokenKind::Boolean);
            if lhs.eq(&boolean) && rhs.eq(&boolean) {
                match (bool_value_of(&lhs), bool_value_of(&rhs)) {
                    (Some(a), Some(b)) => {
                        let v = match op {
                            TokenKind::And => a && b,
                            TokenKind::BitAnd | TokenKind::Or | TokenKind::BitOr => a || b,
                            TokenKind::BitXor => a != b,
                            _ => false,
                        };
                        match op {
                            TokenKind::BitAnd | TokenKind::BitOr | TokenKind::BitXor => {
                                proof {
                                    lemma_set_token_ok(node.model(), bool_token(v));
                                }
                                fold(node, v);
                            },
                            _ => {},
                        }
                        Ok(bool_type(v))
                    },
                    _ => Ok(boolean),
                }
            } else {
                match op {
                    TokenKind::BitAnd | TokenKind::BitOr | TokenKind::BitXor => Err(
                        note("bitwise operations are not allowed"),
                    ),
                    _ => Err(note("could not apply a boolean operator to a value that is not a boolean")),
                }
            }
        },
    }
}

/// `a instanceof T`: refused for primitive types; otherwise `true` exactly
/// when a `T` can be assigned to `a`'s type, and the node becomes that
/// constant.
pub fn twoarg_instanceof(
    node: &mut ASTNode,
    modifiers: &Vec<ASTNode>,
    current: &ClassOrInterfaceEnvironment,
    kinds: &Vec<ClassOrInterfaceEnvironment>,
    globals: &mut Vec<VariableEnvironment>,
    depth: u32,
) -> (r: Result<Type, String>)
    requires
        type_ok(old(node).model()),
        world_ok(current.deep_view(), kinds.deep_view()),
        vars_ok(old(globals).deep_view()),
        instanceof_model(
            old(node).model(),
            modifiers.deep_view(),
            current.deep_view(),
            kinds.deep_view(),
            old(globals).deep_view(),
            depth as nat,
        ) is Some,
    ensures
        instanceof_model(
            old(node).model(),
            modifiers.deep_view(),
            current.deep_view(),
            kinds.deep_view(),
            old(globals).deep_view(),
            depth as nat,
        ) == outcome(r, final(node).model(), final(globals).deep_view()),
        outcome_ok(r, final(node).model(), final(globals).deep_view()),
        only_initializes(old(globals).deep_view(), final(globals).deep_view()),
        operands_resolve(
            old(node).model(),
            modifiers.deep_view(),
            current.deep_view(),
            kinds.deep_view(),
            old(globals).deep_view(),
            depth as nat,
        ) ==> (r is Ok || (r matches Err(e) && e@ == "can not apply instanceof to primitive types"@)),
    decreases depth, 2int,
{
    match operands(node, 1, modifiers, current, kinds, globals, depth) {
        Err(e) => Err(e),
        Ok((lhs, rhs)) => {
            proof {
                lemma_type_ok_arr_ok(lhs.deep_view().name);
                lemma_type_ok_arr_ok(rhs.deep_view().name);
                lemma_world_env(current.deep_view(), kinds.deep_view());
                lemma_bool_ok(true);
                lemma_bool_ok(false);
                lemma_model_children(*node);
            }
            if primitive_type(&lhs) || primitive_type(&rhs) {
                return Err(note("can not apply instanceof to primitive types"));
            }
            let v = lhs.assign(&rhs, current, kinds).is_ok();
            proof {
                lemma_set_token_ok(node.model(), bool_token(v));
            }
            fold(node, v);
            Ok(bool_type(v))
        },
    }
}

} // verus!
