//! Resolving an expression: dispatch on the rule of its node, or else on
//! its token.
use vstd::prelude::*;

use crate::analysis::environment::classorinterface::{ClassOrInterface, ClassOrInterfaceEnvironment};
use crate::analysis::environment::variable::VariableEnvironment;
use crate::analysis::types::lookup::class::{deep_ok, vars_ok, world_ok};
use crate::analysis::types::obj::{prim_type, Type};
use crate::analysis::types::resolve::model::{
    only_initializes, bitwise_kind, is_static, operands_resolve, static_this_call,
    expr_model, outcome, outcome_ok, pair_types, set_child, two_operands,
};
use crate::analysis::types::resolve::wellformed::{lemma_const_ok, lemma_set_child_ok};
use crate::analysis::types::resolve::{
    arrayaccess, arraycreationexpression, assignment, castexpression,
    classinstancecreationexpression, comparison, fieldaccess, math, methodinvocation, name,
    primitive,
};
use crate::ast::{flatten, lemma_model_children, type_ok, ASTNode};
use crate::text::note;
use crate::tokens::{lexeme_is, TokenKind};

verus! {

/// The rules dispatched on before a field access, a method invocation or a
/// name are other rules.
proof fn lemma_rules_before_invocation()
    ensures
        "Argument"@ != "FieldAccess"@,
        "ArrayAccess"@ != "FieldAccess"@,
        "ArrayCreationExpression"@ != "FieldAccess"@,
        "ArrayType"@ != "FieldAccess"@,
        "Assignment"@ != "FieldAccess"@,
        "CastExpression"@ != "FieldAccess"@,
        "ClassInstanceCreationExpression"@ != "FieldAccess"@,
        "Argument"@ != "MethodInvocation"@,
        "ArrayAccess"@ != "MethodInvocation"@,
        "ArrayCreationExpression"@ != "MethodInvocation"@,
        "ArrayType"@ != "MethodInvocation"@,
        "Assignment"@ != "MethodInvocation"@,
        "CastExpression"@ != "MethodInvocation"@,
        "ClassInstanceCreationExpression"@ != "MethodInvocation"@,
        "FieldAccess"@ != "MethodInvocation"@,
        "Argument"@ != "Name"@,
        "ArrayAccess"@ != "Name"@,
        "ArrayCreationExpression"@ != "Name"@,
        "ArrayType"@ != "Name"@,
        "Assignment"@ != "Name"@,
        "CastExpression"@ != "Name"@,
        "ClassInstanceCreationExpression"@ != "Name"@,
        "FieldAccess"@ != "Name"@,
        "MethodInvocation"@ != "Name"@,
{
    reveal_strlit("Argument");
    reveal_strlit("ArrayAccess");
    reveal_strlit("ArrayCreationExpression");
    reveal_strlit("ArrayType");
    reveal_strlit("Assignment");
    reveal_strlit("CastExpression");
    reveal_strlit("ClassInstanceCreationExpression");
    reveal_strlit("FieldAccess");
    reveal_strlit("MethodInvocation");
    reveal_strlit("Name");
    assert("Argument"@[0] != "FieldAccess"@[0]);
    assert("ArrayAccess"@[0] != "FieldAccess"@[0]);
    assert("ArrayCreationExpression"@[0] != "FieldAccess"@[0]);
    assert("ArrayType"@[0] != "FieldAccess"@[0]);
    assert("Assignment"@[0] != "FieldAccess"@[0]);
    assert("CastExpression"@[0] != "FieldAccess"@[0]);
    assert("ClassInstanceCreationExpression"@[0] != "FieldAccess"@[0]);
    assert("Argument"@[0] != "MethodInvocation"@[0]);
    assert("ArrayAccess"@[0] != "MethodInvocation"@[0]);
    assert("ArrayCreationExpression"@[0] != "MethodInvocation"@[0]);
    assert("ArrayType"@[0] != "MethodInvocation"@[0]);
    assert("Assignment"@[0] != "MethodInvocation"@[0]);
    assert("CastExpression"@[0] != "MethodInvocation"@[0]);
    assert("ClassInstanceCreationExpression"@[0] != "MethodInvocation"@[0]);
    assert("FieldAccess"@[0] != "MethodInvocation"@[0]);
    assert("Argument"@[0] != "Name"@[0]);
    assert("ArrayAccess"@[0] != "Name"@[0]);
    assert("ArrayCreationExpression"@[0] != "Name"@[0]);
    assert("ArrayType"@[0] != "Name"@[0]);
    assert("Assignment"@[0] != "Name"@[0]);
    assert("CastExpression"@[0] != "Name"@[0]);
    assert("ClassInstanceCreationExpression"@[0] != "Name"@[0]);
    assert("FieldAccess"@[0] != "Name"@[0]);
    assert("MethodInvocation"@[0] != "Name"@[0]);
}

/// Resolves the type of the expression `node`, seen from `current` among
/// `kinds`, with the local variables `globals`, nesting at most `depth`
/// deep. Resolving rewrites parts of the expression (method names become
/// fully qualified, arguments carry their types, constant conditions are
/// folded) and marks assigned variables as initialized.
pub fn go(
    node: &mut ASTNode,
    modifiers: &Vec<ASTNode>,
    current: &ClassOrInterfaceEnvironment,
    kinds: &Vec<ClassOrInterfaceEnvironment>,
    globals: &mut Vec<VariableEnvironment>,
    depth: u32,
) -> (r: Result<Type, String>)
    requires
        type_ok(old(node).model()),
        world_ok(current.deep_view(), kinds.deep_view()),
        vars_ok(old(globals).deep_view()),
        expr_model(
            old(node).model(),
            modifiers.deep_view(),
            current.deep_view(),
            kinds.deep_view(),
            old(globals).deep_view(),
            depth as nat,
        ) is Some,
    ensures
        expr_model(
            old(node).model(),
            modifiers.deep_view(),
            current.deep_view(),
            kinds.deep_view(),
            old(globals).deep_view(),
            depth as nat,
        ) == outcome(r, final(node).model(), final(globals).deep_view()),
        outcome_ok(r, final(node).model(), final(globals).deep_view()),
        only_initializes(old(globals).deep_view(), final(globals).deep_view()),
        old(node).model().token.lexeme is None && bitwise_kind(old(node).model().token.kind) && depth > 0
            && operands_resolve(
            old(node).model(),
            modifiers.deep_view(),
            current.deep_view(),
            kinds.deep_view(),
            old(globals).deep_view(),
            (depth - 1) as nat,
        ) ==> (r is Ok || (r matches Err(e) && e@ == "bitwise operations are not allowed"@)),
        old(node).model().token.lexeme is None && old(node).model().token.kind == TokenKind::Instanceof && depth > 0
            && operands_resolve(
            old(node).model(),
            modifiers.deep_view(),
            current.deep_view(),
            kinds.deep_view(),
            old(globals).deep_view(),
            (depth - 1) as nat,
        ) ==> (r is Ok || (r matches Err(e) && e@ == "can not apply instanceof to primitive types"@)),
        old(node).model().token.lexeme == Some("MethodInvocation"@) && depth > 0 && static_this_call(
            old(node).model(),
            modifiers.deep_view(),
            current.deep_view(),
            kinds.deep_view(),
            old(globals).deep_view(),
            (depth - 1) as nat,
        ) ==> (r matches Err(e) && e@ == "can not use 'this' in static method"@),
        old(node).model().token.lexeme == Some("FieldAccess"@) && depth > 0 && is_static(modifiers.deep_view())
            && old(node).model().children.len() > 0 && old(node).model().children[0].token.kind == TokenKind::This
            ==> (r matches Err(e) && e@ == "can not use 'this' in static method"@),
        old(node).model().token.lexeme == Some("Name"@) && depth > 0 && is_static(modifiers.deep_view())
            && flatten(old(node).model()).children.len() > 0 && flatten(old(node).model()).children[0].token.kind
            == TokenKind::This ==> (r matches Err(e) && e@ == "can not use 'this' in static method"@),
    decreases depth, 0int,
{
    proof {
        lemma_model_children(*node);
        lemma_rules_before_invocation();
    }
    if depth == 0 {
        return Err(note("the expression is nested too deeply"));
    }
    let d = depth - 1;
    if lexeme_is(&node.token.lexeme, "Argument") {
        return go_child(node, 1, modifiers, current, kinds, globals, d);
    }
    if lexeme_is(&node.token.lexeme, "ArrayAccess") {
        return arrayaccess::go(node, modifiers, current, kinds, globals, d);
    }
    if lexeme_is(&node.token.lexeme, "ArrayCreationExpression") {
        return arraycreationexpression::go(&*node, modifiers, current, kinds, &*globals, d);
    }
    if lexeme_is(&node.token.lexeme, "ArrayType") {
        let c = ClassOrInterfaceEnvironment::new(node.clone(), ClassOrInterface::CLASS);
        proof {
            assert(deep_ok(c.deep_view()));
        }
        return Ok(Type::new(c));
    }
    if lexeme_is(&node.token.lexeme, "Assignment") {
        return assignment::go(node, modifiers, current, kinds, globals, d);
    }
    if lexeme_is(&node.token.lexeme, "CastExpression") {
        return castexpression::go(&*node, modifiers, current, kinds, globals, d);
    }
    if lexeme_is(&node.token.lexeme, "ClassInstanceCreationExpression") {
        return classinstancecreationexpression::go(node, modifiers, current, kinds, globals, d);
    }
    if lexeme_is(&node.token.lexeme, "FieldAccess") {
        return fieldaccess::go(node, modifiers, current, kinds, globals, d);
    }
    if lexeme_is(&node.token.lexeme, "MethodInvocation") {
        return methodinvocation::go(node, modifiers, current, kinds, globals, d);
    }
    if lexeme_is(&node.token.lexeme, "Name") {
        return name::go(&*node, modifiers, current, kinds, &*globals);
    }
    match node.token.kind {
        TokenKind::And | TokenKind::BitAnd | TokenKind::Or | TokenKind::BitOr | TokenKind::BitXor => {
            comparison::twoarg_boolean(node, modifiers, current, kinds, globals, d)
        },
        TokenKind::Not => comparison::onearg_boolean(node, modifiers, current, kinds, globals, d),
        TokenKind::Equality | TokenKind::NotEqual | TokenKind::LessThan | TokenKind::LessThanOrEqual
        | TokenKind::GreaterThan | TokenKind::GreaterThanOrEqual => {
            comparison::twoarg(node, modifiers, current, kinds, globals, d)
        },
        TokenKind::Instanceof => comparison::twoarg_instanceof(node, modifiers, current, kinds, globals, d),
        TokenKind::FSlash | TokenKind::Minus | TokenKind::Percent | TokenKind::Plus | TokenKind::Star => {
            math::go(node, modifiers, current, kinds, globals, d)
        },
        TokenKind::Boolean | TokenKind::Byte | TokenKind::Char | TokenKind::CharValue | TokenKind::False
        | TokenKind::Int | TokenKind::Null | TokenKind::NumValue | TokenKind::Short | TokenKind::StrValue
        | TokenKind::True => primitive::go(&*node),
        TokenKind::This => {
            let c = current.clone();
            Ok(Type::new(c))
        },
        TokenKind::Return | TokenKind::Semicolon => {
            proof {
                lemma_const_ok(TokenKind::Null, None);
            }
            Ok(prim_type(TokenKind::Null))
        },
        _ => Err(note("could not resolve expression")),
    }
}

/// Resolves the `i`th child of `node` in place.
pub(crate) fn go_child(
    node: &mut ASTNode,
    i: usize,
    modifiers: &Vec<ASTNode>,
    current: &ClassOrInterfaceEnvironment,
    kinds: &Vec<ClassOrInterfaceEnvironment>,
    globals: &mut Vec<VariableEnvironment>,
    depth: u32,
) -> (r: Result<Type, String>)
    requires
        i < old(node).model().children.len(),
        type_ok(old(node).model()),
        world_ok(current.deep_view(), kinds.deep_view()),
        vars_ok(old(globals).deep_view()),
        expr_model(
            old(node).model().children[i as int],
            modifiers.deep_view(),
            current.deep_view(),
            kinds.deep_view(),
            old(globals).deep_view(),
            depth as nat,
        ) is Some,
    ensures
        expr_model(
            old(node).model().children[i as int],
            modifiers.deep_view(),
            current.deep_view(),
            kinds.deep_view(),
            old(globals).deep_view(),
            depth as nat,
        ) matches Some(x) && x.result == crate::analysis::types::obj::type_result(r) && final(node).model()
            == set_child(old(node).model(), i as int, x.node) && final(globals).deep_view() == x.globals,
        outcome_ok(r, final(node).model(), final(globals).deep_view()),
        only_initializes(old(globals).deep_view(), final(globals).deep_view()),
    decreases depth, 1int,
{
    proof {
        lemma_model_children(*node);
        crate::ast::lemma_types_ok(node.model().children);
        assert(type_ok(node.model().children[i as int]));
    }
    let mut c = node.children[i].clone();
    let r = go(&mut c, modifiers, current, kinds, globals, depth);
    let ghost before = node.model();
    node.children.set(i, c);
    proof {
        lemma_model_children(*node);
        assert(node.model().children =~= before.children.update(i as int, c.model()));
        lemma_set_child_ok(before, i as int, c.model());
    }
    r
}

/// Resolves the operands at children 0 and `j` of `node` in turn, in
/// place; the second only when the first resolves.
pub(crate) fn operands(
    node: &mut ASTNode,
    j: usize,
    modifiers: &Vec<ASTNode>,
    current: &ClassOrInterfaceEnvironment,
    kinds: &Vec<ClassOrInterfaceEnvironment>,
    globals: &mut Vec<VariableEnvironment>,
    depth: u32,
) -> (r: Result<(Type, Type), String>)
    requires
        type_ok(old(node).model()),
        world_ok(current.deep_view(), kinds.deep_view()),
        vars_ok(old(globals).deep_view()),
        two_operands(
            old(node).model(),
            j as int,
            modifiers.deep_view(),
            current.deep_view(),
            kinds.deep_view(),
            old(globals).deep_view(),
            depth as nat,
        ) is Some,
    ensures
        two_operands(
            old(node).model(),
            j as int,
            modifiers.deep_view(),
            current.deep_view(),
            kinds.deep_view(),
            old(globals).deep_view(),
            depth as nat,
        ) == Some((pair_types(r), final(node).model(), final(globals).deep_view())),
        type_ok(final(node).model()),
        vars_ok(final(globals).deep_view()),
        only_initializes(old(globals).deep_view(), final(globals).deep_view()),
        r matches Ok((a, b)) ==> deep_ok(a.deep_view()) && deep_ok(b.deep_view()),
    decreases depth, 1int,
{
    proof {
        lemma_model_children(*node);
    }
    let a = go_child(node, 0, modifiers, current, kinds, globals, depth - 1);
    match a {
        Err(e) => Err(e),
        Ok(x) => {
            proof {
                lemma_model_children(*node);
            }
            let b = go_child(node, j, modifiers, current, kinds, globals, depth - 1);
            match b {
                Err(e) => Err(e),
                Ok(y) => Ok((x, y)),
            }
        },
    }
}

} // verus!
