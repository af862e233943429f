//! What resolving an expression gives: its type, the expression as it is
//! rewritten along the way, and the variables as they are afterwards.
use vstd::prelude::*;

use crate::analysis::environment::classorinterface::{class_new, ClassModel, ClassOrInterface};
use crate::analysis::environment::method::MethodModel;
use crate::analysis::environment::variable::VarModel;
use crate::analysis::types::lookup::array::array_class;
use crate::analysis::types::lookup::class::{class_in_variables, in_env_model};
use crate::analysis::types::lookup::field::{field_in_env, field_in_variables, LOOKUP_LIMIT};
use crate::analysis::types::lookup::method::{method_in_env, method_in_variables, select_model};
use crate::analysis::types::lookup::class::{deep_ok, vars_ok};
use crate::analysis::types::obj::{type_result, Type, assign_model, cast_model, coercible, comparison_model, is_kind, math_model, math_ok, prim, string_canonical, with_lexeme};
use crate::analysis::types::verify::variable::initialized_model;
use crate::ast::{flatten, kind_ok, leaf_model, rule_model, rule_token, type_ok, NodeModel};
use crate::tokens::{TokenKind, TokenModel};

verus! {

/// The outcome of resolving an expression: its type (or an error), the
/// expression as rewritten, and the variables afterwards.
pub struct Resolved {
    pub result: Result<ClassModel, ()>,
    pub node: NodeModel,
    pub globals: Seq<VarModel>,
}

/// The outcome of resolving the arguments of a call.
pub struct ArgsResolved {
    pub result: Result<Seq<ClassModel>, ()>,
    pub node: NodeModel,
    pub globals: Seq<VarModel>,
}

pub open spec fn done(result: Result<ClassModel, ()>, node: NodeModel, globals: Seq<VarModel>) -> Option<Resolved> {
    Some(Resolved { result, node, globals })
}

/// What a resolver hands back, by its model.
pub open spec fn outcome(r: Result<Type, String>, node: NodeModel, globals: Seq<VarModel>) -> Option<Resolved> {
    done(type_result(r), node, globals)
}

/// What a resolver hands back is well-formed: the rewritten expression, the
/// variables and the type.
pub open spec fn outcome_ok(r: Result<Type, String>, node: NodeModel, globals: Seq<VarModel>) -> bool {
    &&& type_ok(node)
    &&& vars_ok(globals)
    &&& r matches Ok(t) ==> deep_ok(t.deep_view())
}

/// `after` is `before` with possibly more variables marked initialized:
/// the same variables, in the same order, with the same names and types,
/// and none that was initialized is not any more.
pub open spec fn only_initializes(before: Seq<VarModel>, after: Seq<VarModel>) -> bool {
    &&& after.len() == before.len()
    &&& forall|i: int|
        0 <= i < before.len() ==> (#[trigger] after[i]).kind == before[i].kind && after[i].name == before[i].name
            && after[i].dim == before[i].dim && (before[i].initialized ==> after[i].initialized)
}

/// Two resolved operands, by their models.
pub open spec fn pair_types(r: Result<(Type, Type), String>) -> Option<(ClassModel, ClassModel)> {
    match r {
        Ok((a, b)) => Some((a.deep_view(), b.deep_view())),
        Err(_) => None,
    }
}

/// Resolved arguments, by their models.
pub open spec fn types_result(r: Result<Vec<Type>, String>) -> Result<Seq<ClassModel>, ()> {
    match r {
        Ok(v) => Ok(v.deep_view()),
        Err(_) => Err(()),
    }
}

/// `n` with its `i`th child replaced by `x`.
pub open spec fn set_child(n: NodeModel, i: int, x: NodeModel) -> NodeModel {
    NodeModel { children: n.children.update(i, x), ..n }
}

/// `n` with its token replaced by `t`.
pub open spec fn set_token(n: NodeModel, t: TokenModel) -> NodeModel {
    NodeModel { token: t, ..n }
}

/// The modifiers include `static`.
pub open spec fn is_static(modifiers: Seq<NodeModel>) -> bool {
    modifiers.contains(leaf_model(TokenKind::Static))
}

/// The empty `Name`.
pub open spec fn empty_name() -> NodeModel {
    rule_model("Name"@, Seq::empty())
}

/// The type of a literal or of a primitive type's keyword.
pub open spec fn primitive_model(n: NodeModel) -> Result<ClassModel, ()> {
    let k = n.token.kind;
    if k == TokenKind::Boolean || k == TokenKind::True || k == TokenKind::False {
        Ok(prim(TokenKind::Boolean))
    } else if k == TokenKind::Byte {
        Ok(prim(TokenKind::Byte))
    } else if k == TokenKind::Char || k == TokenKind::CharValue {
        Ok(prim(TokenKind::Char))
    } else if k == TokenKind::Int || k == TokenKind::NumValue {
        Ok(prim(TokenKind::Int))
    } else if k == TokenKind::Null {
        Ok(prim(TokenKind::Null))
    } else if k == TokenKind::Short {
        Ok(prim(TokenKind::Short))
    } else if k == TokenKind::StrValue {
        Ok(string_canonical())
    } else {
        Err(())
    }
}

/// The type of a name: a variable's field, a variable, a field, a field of
/// `this` (outside static code), or a type.
pub open spec fn name_model(
    n: NodeModel,
    modifiers: Seq<NodeModel>,
    current: ClassModel,
    kinds: Seq<ClassModel>,
    vars: Seq<VarModel>,
) -> Option<Result<ClassModel, ()>> {
    let nf = flatten(n);
    if is_static(modifiers) && nf.children.len() == 0 {
        None
    } else if is_static(modifiers) && nf.children[0].token.kind == TokenKind::This {
        Some(Err(()))
    } else if field_in_variables(nf, empty_name(), current, kinds, vars) is Ok {
        Some(field_in_variables(nf, empty_name(), current, kinds, vars))
    } else if class_in_variables(nf, current, kinds, vars) is Ok {
        Some(class_in_variables(nf, current, kinds, vars))
    } else if field_in_env(nf, empty_name(), current, kinds, LOOKUP_LIMIT as nat) is Ok {
        Some(field_in_env(nf, empty_name(), current, kinds, LOOKUP_LIMIT as nat))
    } else if !is_static(modifiers) && field_in_env(current.name, nf, current, kinds, LOOKUP_LIMIT as nat) is Ok {
        Some(field_in_env(current.name, nf, current, kinds, LOOKUP_LIMIT as nat))
    } else if !kind_ok(nf) {
        None
    } else {
        Some(in_env_model(nf, current, kinds))
    }
}

/// The variables with the first one named `n` marked as initialized.
pub open spec fn mark_initialized(vars: Seq<VarModel>, n: NodeModel, i: int) -> Seq<VarModel>
    decreases vars.len() - i,
{
    if i < 0 || i >= vars.len() {
        vars
    } else if vars[i].name == n {
        vars.update(i, VarModel { initialized: true, ..vars[i] })
    } else {
        mark_initialized(vars, n, i + 1)
    }
}

/// The class of the array type whose element type is named `n`.
pub open spec fn array_of(n: NodeModel) -> ClassModel {
    array_class(rule_model("ArrayType"@, seq![n]))
}

/// The `Argument` token that marks a resolved argument.
pub open spec fn argument_token() -> TokenModel {
    rule_token("Argument"@)
}

/// The token `true` or `false`.
pub open spec fn bool_token(b: bool) -> TokenModel {
    TokenModel { kind: if b { TokenKind::True } else { TokenKind::False }, lexeme: None }
}

/// The text `true` or `false`.
pub open spec fn bool_lexeme(b: bool) -> Seq<char> {
    if b {
        "true"@
    } else {
        "false"@
    }
}

/// The value of a folded `boolean` constant.
pub open spec fn bool_value(t: ClassModel) -> Option<bool> {
    if t.name.token.lexeme == Some("false"@) {
        Some(false)
    } else if t.name.token.lexeme == Some("true"@) {
        Some(true)
    } else {
        None
    }
}

/// The primitive types that `instanceof` refuses.
pub open spec fn is_primitive_type(t: ClassModel) -> bool {
    is_kind(t, TokenKind::Boolean) || is_kind(t, TokenKind::Byte) || is_kind(t, TokenKind::Char) || is_kind(
        t,
        TokenKind::Int,
    ) || is_kind(t, TokenKind::Short)
}

/// The fully qualified name of a member: the class's name, flattened, then
/// `.` and the member's name.
pub open spec fn qualified_member(cls: NodeModel, member: NodeModel) -> NodeModel {
    let f = flatten(cls);
    NodeModel { children: f.children.push(leaf_model(TokenKind::Dot)).push(member), ..f }
}

/// A name without its last two nodes (its last part and the dot before it).
pub open spec fn pop_two(n: NodeModel) -> NodeModel {
    NodeModel {
        children: if n.children.len() >= 2 {
            n.children.take(n.children.len() - 2)
        } else if n.children.len() == 1 {
            Seq::empty()
        } else {
            n.children
        },
        ..n
    }
}

/// The package part of a type's name: its name without the last node.
pub open spec fn drop_last_child(n: NodeModel) -> NodeModel {
    NodeModel { children: if n.children.len() > 0 { n.children.drop_last() } else { n.children }, ..n }
}

/// An expression resolved in the depth `f`: dispatched on the rule of the
/// node, or else on its token.
pub open spec fn expr_model(
    n: NodeModel,
    m: Seq<NodeModel>,
    c: ClassModel,
    k: Seq<ClassModel>,
    g: Seq<VarModel>,
    f: nat,
) -> Option<Resolved>
    decreases f, 0int,
{
    if f == 0 {
        done(Err(()), n, g)
    } else {
        let l = n.token.lexeme;
        let kind = n.token.kind;
        if l == Some("Argument"@) {
            if n.children.len() < 2 {
                None
            } else {
                match expr_model(n.children[1], m, c, k, g, (f - 1) as nat) {
                    None => None,
                    Some(r) => done(r.result, set_child(n, 1, r.node), r.globals),
                }
            }
        } else if l == Some("ArrayAccess"@) {
            array_access_model(n, m, c, k, g, (f - 1) as nat)
        } else if l == Some("ArrayCreationExpression"@) {
            array_creation_model(n, m, c, k, g, (f - 1) as nat)
        } else if l == Some("ArrayType"@) {
            done(Ok(class_new(n, ClassOrInterface::CLASS)), n, g)
        } else if l == Some("Assignment"@) {
            assignment_model(n, m, c, k, g, (f - 1) as nat)
        } else if l == Some("CastExpression"@) {
            cast_expression_model(n, m, c, k, g, (f - 1) as nat)
        } else if l == Some("ClassInstanceCreationExpression"@) {
            instance_creation_model(n, m, c, k, g, (f - 1) as nat)
        } else if l == Some("FieldAccess"@) {
            field_access_model(n, m, c, k, g, (f - 1) as nat)
        } else if l == Some("MethodInvocation"@) {
            invocation_model(n, m, c, k, g, (f - 1) as nat)
        } else if l == Some("Name"@) {
            match name_model(n, m, c, k, g) {
                None => None,
                Some(r) => done(r, n, g),
            }
        } else if kind == TokenKind::And || kind == TokenKind::BitAnd || kind == TokenKind::Or || kind
            == TokenKind::BitOr || kind == TokenKind::BitXor {
            boolean2_model(n, m, c, k, g, (f - 1) as nat)
        } else if kind == TokenKind::Not {
            boolean1_model(n, m, c, k, g, (f - 1) as nat)
        } else if kind == TokenKind::Equality || kind == TokenKind::NotEqual || kind == TokenKind::LessThan
            || kind == TokenKind::LessThanOrEqual || kind == TokenKind::GreaterThan || kind
            == TokenKind::GreaterThanOrEqual {
            comparison2_model(n, m, c, k, g, (f - 1) as nat)
        } else if kind == TokenKind::Instanceof {
            instanceof_model(n, m, c, k, g, (f - 1) as nat)
        } else if kind == TokenKind::FSlash || kind == TokenKind::Minus || kind == TokenKind::Percent || kind
            == TokenKind::Plus || kind == TokenKind::Star {
            math_res_model(n, m, c, k, g, (f - 1) as nat)
        } else if kind == TokenKind::Boolean || kind == TokenKind::Byte || kind == TokenKind::Char || kind
            == TokenKind::CharValue || kind == TokenKind::False || kind == TokenKind::Int || kind
            == TokenKind::Null || kind == TokenKind::NumValue || kind == TokenKind::Short || kind
            == TokenKind::StrValue || kind == TokenKind::True {
            done(primitive_model(n), n, g)
        } else if kind == TokenKind::This {
            done(Ok(c), n, g)
        } else if kind == TokenKind::Return || kind == TokenKind::Semicolon {
            done(Ok(prim(TokenKind::Null)), n, g)
        } else {
            done(Err(()), n, g)
        }
    }
}

/// Two operands, at children 0 and `j`, resolved in turn; the second only
/// when the first resolves.
pub open spec fn two_operands(
    n: NodeModel,
    j: int,
    m: Seq<NodeModel>,
    c: ClassModel,
    k: Seq<ClassModel>,
    g: Seq<VarModel>,
    f: nat,
) -> Option<(Option<(ClassModel, ClassModel)>, NodeModel, Seq<VarModel>)>
    decreases f, 1int,
{
    if n.children.len() < 1 || f == 0 {
        None
    } else {
        match expr_model(n.children[0], m, c, k, g, (f - 1) as nat) {
            None => None,
            Some(a) => {
                let n1 = set_child(n, 0, a.node);
                match a.result {
                    Err(_) => Some((None, n1, a.globals)),
                    Ok(x) => if n1.children.len() <= j {
                        None
                    } else {
                        match expr_model(n1.children[j], m, c, k, a.globals, (f - 1) as nat) {
                            None => None,
                            Some(b) => {
                                let n2 = set_child(n1, j, b.node);
                                match b.result {
                                    Err(_) => Some((None, n2, b.globals)),
                                    Ok(y) => Some((Some((x, y)), n2, b.globals)),
                                }
                            },
                        }
                    },
                }
            },
        }
    }
}

/// `a op b` for an arithmetic operator.
pub open spec fn math_res_model(
    n: NodeModel,
    m: Seq<NodeModel>,
    c: ClassModel,
    k: Seq<ClassModel>,
    g: Seq<VarModel>,
    f: nat,
) -> Option<Resolved>
    decreases f, 2int,
{
    match two_operands(n, 1, m, c, k, g, f) {
        None => None,
        Some((None, n2, g2)) => done(Err(()), n2, g2),
        Some((Some((x, y)), n2, g2)) => if !math_ok(x, n.token.kind, y) {
            None
        } else {
            done(math_model(x, n.token.kind, y), n2, g2)
        },
    }
}

/// `a op b` for a comparison.
pub open spec fn comparison2_model(
    n: NodeModel,
    m: Seq<NodeModel>,
    c: ClassModel,
    k: Seq<ClassModel>,
    g: Seq<VarModel>,
    f: nat,
) -> Option<Resolved>
    decreases f, 2int,
{
    match two_operands(n, 1, m, c, k, g, f) {
        None => None,
        Some((None, n2, g2)) => done(Err(()), n2, g2),
        Some((Some((x, y)), n2, g2)) => done(comparison_model(x, n.token.kind, y, c, k), n2, g2),
    }
}

/// The bitwise operators, which Joos refuses on anything but booleans.
pub open spec fn bitwise_kind(k: TokenKind) -> bool {
    k == TokenKind::BitAnd || k == TokenKind::BitOr || k == TokenKind::BitXor
}

/// Both operands of a binary node resolve.
pub open spec fn operands_resolve(
    n: NodeModel,
    m: Seq<NodeModel>,
    c: ClassModel,
    k: Seq<ClassModel>,
    g: Seq<VarModel>,
    f: nat,
) -> bool {
    two_operands(n, 1, m, c, k, g, f) matches Some((Some(_), _, _))
}

/// `a op b` for a boolean operator: two `boolean` constants are folded (and
/// a folded eager operator becomes a `true` or `false` token); bitwise
/// operators are otherwise refused.
pub open spec fn boolean2_model(
    n: NodeModel,
    m: Seq<NodeModel>,
    c: ClassModel,
    k: Seq<ClassModel>,
    g: Seq<VarModel>,
    f: nat,
) -> Option<Resolved>
    decreases f, 2int,
{
    match two_operands(n, 1, m, c, k, g, f) {
        None => None,
        Some((None, n2, g2)) => done(Err(()), n2, g2),
        Some((Some((x, y)), n2, g2)) => if is_kind(x, TokenKind::Boolean) && is_kind(y, TokenKind::Boolean) {
            match (bool_value(x), bool_value(y)) {
                (Some(a), Some(b)) => {
                    let op = n.token.kind;
                    let v = if op == TokenKind::And {
                        a && b
                    } else if op == TokenKind::BitAnd || op == TokenKind::Or || op == TokenKind::BitOr {
                        a || b
                    } else if op == TokenKind::BitXor {
                        a != b
                    } else {
                        false
                    };
                    let result = with_lexeme(prim(TokenKind::Boolean), Some(bool_lexeme(v)));
                    let eager = op == TokenKind::BitAnd || op == TokenKind::BitOr || op == TokenKind::BitXor;
                    done(Ok(result), if eager { set_token(n2, bool_token(v)) } else { n2 }, g2)
                },
                _ => done(Ok(prim(TokenKind::Boolean)), n2, g2),
            }
        } else {
            done(Err(()), n2, g2)
        },
    }
}

/// `!a`: `boolean` only, folded for a constant.
pub open spec fn boolean1_model(
    n: NodeModel,
    m: Seq<NodeModel>,
    c: ClassModel,
    k: Seq<ClassModel>,
    g: Seq<VarModel>,
    f: nat,
) -> Option<Resolved>
    decreases f, 2int,
{
    if n.children.len() < 1 || f == 0 {
        None
    } else {
        match expr_model(n.children[0], m, c, k, g, (f - 1) as nat) {
            None => None,
            Some(a) => {
                let n1 = set_child(n, 0, a.node);
                match a.result {
                    Err(_) => done(Err(()), n1, a.globals),
                    Ok(x) => if is_kind(x, TokenKind::Boolean) {
                        match bool_value(x) {
                            Some(v) => done(Ok(with_lexeme(prim(TokenKind::Boolean), Some(bool_lexeme(!v)))), n1, a.globals),
                            None => done(Ok(prim(TokenKind::Boolean)), n1, a.globals),
                        }
                    } else {
                        done(Err(()), n1, a.globals)
                    },
                }
            },
        }
    }
}

/// `a instanceof T`: refused for primitive types; folded to whether `T`'s
/// value can be assigned to `a`'s type, and the node becomes that constant.
pub open spec fn instanceof_model(
    n: NodeModel,
    m: Seq<NodeModel>,
    c: ClassModel,
    k: Seq<ClassModel>,
    g: Seq<VarModel>,
    f: nat,
) -> Option<Resolved>
    decreases f, 2int,
{
    match two_operands(n, 1, m, c, k, g, f) {
        None => None,
        Some((None, n2, g2)) => done(Err(()), n2, g2),
        Some((Some((x, y)), n2, g2)) => if is_primitive_type(x) || is_primitive_type(y) {
            done(Err(()), n2, g2)
        } else {
            let v = assign_model(x, y, c, k) is Ok;
            done(Ok(with_lexeme(prim(TokenKind::Boolean), Some(bool_lexeme(v)))), set_token(n2, bool_token(v)), g2)
        },
    }
}

/// `a = b`: both sides resolved, `b` must not read an uninitialized
/// variable, the variable named by `a` becomes initialized, and `b` must be
/// assignable to `a`.
pub open spec fn assignment_model(
    n: NodeModel,
    m: Seq<NodeModel>,
    c: ClassModel,
    k: Seq<ClassModel>,
    g: Seq<VarModel>,
    f: nat,
) -> Option<Resolved>
    decreases f, 2int,
{
    match two_operands(n, 2, m, c, k, g, f) {
        None => None,
        Some((None, n2, g2)) => done(Err(()), n2, g2),
        Some((Some((x, y)), n2, g2)) => if !initialized_model(n2.children[2], g2) {
            done(Err(()), n2, g2)
        } else {
            let g3 = mark_initialized(g2, n2.children[0], 0);
            done(assign_model(x, y, c, k), n2, g3)
        },
    }
}

/// `a[i]`: `a` must be an array that is initialized, `i` an `int`-like
/// index; the type is that of the element type.
pub open spec fn array_access_model(
    n: NodeModel,
    m: Seq<NodeModel>,
    c: ClassModel,
    k: Seq<ClassModel>,
    g: Seq<VarModel>,
    f: nat,
) -> Option<Resolved>
    decreases f, 2int,
{
    if n.children.len() < 1 || f == 0 {
        None
    } else {
        match expr_model(n.children[0], m, c, k, g, (f - 1) as nat) {
            None => None,
            Some(a) => {
                let n1 = set_child(n, 0, a.node);
                match a.result {
                    Err(_) => done(Err(()), n1, a.globals),
                    Ok(arr) => if arr.name.token.lexeme != Some("ArrayType"@) {
                        done(Err(()), n1, a.globals)
                    } else if !initialized_model(n1.children[0], a.globals) {
                        done(Err(()), n1, a.globals)
                    } else if n1.children.len() < 3 {
                        None
                    } else {
                        match expr_model(n1.children[2], m, c, k, a.globals, (f - 1) as nat) {
                            None => None,
                            Some(i) => {
                                let n2 = set_child(n1, 2, i.node);
                                match i.result {
                                    Err(_) => done(Err(()), n2, i.globals),
                                    Ok(it) => if !coercible(it) {
                                        done(Err(()), n2, i.globals)
                                    } else if arr.name.children.len() == 0 {
                                        None
                                    } else {
                                        match expr_model(arr.name.children[0], m, c, k, i.globals, (f - 1) as nat) {
                                            None => None,
                                            Some(e) => done(e.result, n2, e.globals),
                                        }
                                    },
                                }
                            },
                        }
                    },
                }
            },
        }
    }
}

/// `new T[i]`: the index (if any) must be `int`-like; the type is the array
/// of `T`. The operands are resolved on copies.
pub open spec fn array_creation_model(
    n: NodeModel,
    m: Seq<NodeModel>,
    c: ClassModel,
    k: Seq<ClassModel>,
    g: Seq<VarModel>,
    f: nat,
) -> Option<Resolved>
    decreases f, 2int,
{
    if n.children.len() < 2 || f == 0 {
        None
    } else {
        let dim = n.children[1];
        let index_ok = if dim.token.lexeme is None {
            None
        } else if dim.token.lexeme == Some("DimExpr"@) {
            if dim.children.len() < 2 {
                None
            } else {
                match expr_model(dim.children[1], m, c, k, g, (f - 1) as nat) {
                    None => None,
                    Some(i) => match i.result {
                        Ok(it) => Some(coercible(it)),
                        Err(_) => Some(false),
                    },
                }
            }
        } else {
            Some(true)
        };
        match index_ok {
            None => None,
            Some(false) => done(Err(()), n, g),
            Some(true) => match expr_model(n.children[0], m, c, k, g, (f - 1) as nat) {
                None => None,
                Some(e) => match e.result {
                    Ok(x) => done(Ok(array_of(x.name)), n, g),
                    Err(_) => done(Err(()), n, g),
                },
            },
        }
    }
}

/// `(T) e`: `e` is resolved first, then `T` (an array of `T` where the cast
/// has a dimension); the cast must be allowed. `T` and `e` are resolved on
/// copies.
pub open spec fn cast_expression_model(
    n: NodeModel,
    m: Seq<NodeModel>,
    c: ClassModel,
    k: Seq<ClassModel>,
    g: Seq<VarModel>,
    f: nat,
) -> Option<Resolved>
    decreases f, 2int,
{
    if n.children.len() < 1 || f == 0 {
        None
    } else {
        match expr_model(n.children.last(), m, c, k, g, (f - 1) as nat) {
            None => None,
            Some(r) => match r.result {
                Err(_) => done(Err(()), n, r.globals),
                Ok(rhs) => if n.children.len() < 2 {
                    None
                } else {
                    match expr_model(n.children[1], m, c, k, r.globals, (f - 1) as nat) {
                    None => None,
                    Some(l) => match l.result {
                        Err(_) => done(Err(()), n, l.globals),
                        Ok(t) => {
                            let lhs = if n.children.len() == 5 {
                                array_of(t.name)
                            } else {
                                t
                            };
                            done(cast_model(lhs, rhs, c, k), n, l.globals)
                        },
                    },
                    }
                },
            },
        }
    }
}

/// `a.f`: the field `f` of `this` (not in static code) or of the class of
/// `a`; the first field of that name whose type resolves.
pub open spec fn field_access_model(
    n: NodeModel,
    m: Seq<NodeModel>,
    c: ClassModel,
    k: Seq<ClassModel>,
    g: Seq<VarModel>,
    f: nat,
) -> Option<Resolved>
    decreases f, 2int,
{
    if n.children.len() < 1 || f == 0 {
        None
    } else if n.children[0].token.kind == TokenKind::This {
        if is_static(m) {
            done(Err(()), n, g)
        } else {
            field_of(c, n, k, g)
        }
    } else {
        match expr_model(n.children[0], m, c, k, g, (f - 1) as nat) {
            None => None,
            Some(a) => {
                let n1 = set_child(n, 0, a.node);
                match a.result {
                    Err(_) => done(Err(()), n1, a.globals),
                    Ok(lhs) => {
                        let lk = flatten(lhs.name);
                        if lk == c.name {
                            field_of(c, n1, k, a.globals)
                        } else if !kind_ok(lk) {
                            None
                        } else {
                            match in_env_model(lk, c, k) {
                                Err(_) => done(Err(()), n1, a.globals),
                                Ok(cls) => field_of(cls, n1, k, a.globals),
                            }
                        }
                    },
                }
            },
        }
    }
}

/// The type of the first field of `cls` named by the third child of `n`
/// whose type resolves.
pub open spec fn field_of(cls: ClassModel, n: NodeModel, k: Seq<ClassModel>, g: Seq<VarModel>) -> Option<Resolved> {
    if cls.fields.len() > 0 && n.children.len() < 3 {
        None
    } else {
        done(first_field_type(cls, n, k, 0), n, g)
    }
}

/// The type of the first field of `cls`, from the `i`th on, named by the
/// third child of `n` whose type resolves.
pub open spec fn first_field_type(cls: ClassModel, n: NodeModel, k: Seq<ClassModel>, i: int) -> Result<ClassModel, ()>
    decreases cls.fields.len() - i,
{
    if i < 0 || i >= cls.fields.len() {
        Err(())
    } else if cls.fields[i].name == n.children[2] && in_env_model(cls.fields[i].kind, cls, k) is Ok {
        in_env_model(cls.fields[i].kind, cls, k)
    } else {
        first_field_type(cls, n, k, i + 1)
    }
}

/// The arguments of a call, the list at child `idx` (none when `idx` is 0):
/// flattened, commas skipped, each resolved in turn and wrapped as an
/// `Argument` with its type (an `Argument` already has its type).
pub open spec fn args_model(
    n: NodeModel,
    idx: int,
    m: Seq<NodeModel>,
    c: ClassModel,
    k: Seq<ClassModel>,
    g: Seq<VarModel>,
    f: nat,
) -> Option<ArgsResolved>
    decreases f, 2int,
{
    if idx == 0 {
        Some(ArgsResolved { result: Ok(Seq::empty()), node: n, globals: g })
    } else if idx < 0 || idx >= n.children.len() || f == 0 {
        None
    } else {
        let list = flatten(n.children[idx]);
        match args_from(list, 0, Seq::empty(), m, c, k, g, (f - 1) as nat) {
            None => None,
            Some(r) => Some(ArgsResolved { result: r.result, node: set_child(n, idx, r.node), globals: r.globals }),
        }
    }
}

/// The arguments of `list` from the `i`th on, with the types `acc` so far.
pub open spec fn args_from(
    list: NodeModel,
    i: int,
    acc: Seq<ClassModel>,
    m: Seq<NodeModel>,
    c: ClassModel,
    k: Seq<ClassModel>,
    g: Seq<VarModel>,
    f: nat,
) -> Option<ArgsResolved>
    decreases f, 3 + list.children.len() - i,
{
    if i < 0 || i >= list.children.len() {
        Some(ArgsResolved { result: Ok(acc), node: list, globals: g })
    } else {
        let arg = list.children[i];
        if arg.token.kind == TokenKind::Comma {
            args_from(list, i + 1, acc, m, c, k, g, f)
        } else if arg.token.lexeme == Some("Argument"@) {
            if arg.children.len() < 2 || f == 0 {
                None
            } else {
                match expr_model(arg.children[1], m, c, k, g, (f - 1) as nat) {
                    None => None,
                    Some(r) => match r.result {
                        Err(_) => Some(ArgsResolved { result: Err(()), node: list, globals: r.globals }),
                        Ok(t) => args_from(list, i + 1, acc.push(t), m, c, k, r.globals, f),
                    },
                }
            }
        } else if f == 0 {
            None
        } else {
            match expr_model(arg, m, c, k, g, (f - 1) as nat) {
                None => None,
                Some(r) => match r.result {
                    Err(_) => Some(ArgsResolved { result: Err(()), node: set_child(list, i, r.node), globals: r.globals }),
                    Ok(t) => {
                        let wrapped = NodeModel { token: argument_token(), children: seq![t.name, r.node] };
                        args_from(set_child(list, i, wrapped), i + 1, acc.push(t), m, c, k, r.globals, f)
                    },
                }
            }
        }
    }
}

/// A method found, with its class.
pub struct MethodFound {
    pub result: Result<(ClassModel, MethodModel), ()>,
    pub node: NodeModel,
    pub globals: Seq<VarModel>,
}

/// An invocation, in static code, of a method through `this` (`this.m(..)`
/// or `this.x.m(..)`), whose arguments resolve.
pub open spec fn static_this_call(
    n: NodeModel,
    m: Seq<NodeModel>,
    c: ClassModel,
    k: Seq<ClassModel>,
    g: Seq<VarModel>,
    f: nat,
) -> bool {
    let len = n.children.len();
    let idx = if len == 6 {
        4
    } else if len == 4 {
        2
    } else {
        0
    };
    f > 0 && is_static(m) && match args_model(n, idx, m, c, k, g, (f - 1) as nat) {
        None => false,
        Some(a) => {
            let first = if len == 3 || len == 4 {
                flatten(a.node.children[0])
            } else {
                flatten(rule_model("Name"@, seq![a.node.children[0]]))
            };
            &&& a.result is Ok
            &&& 3 <= len <= 6
            &&& first.children.len() > 0
            &&& first.children[0].token.kind == TokenKind::This
        },
    }
}

/// The class and method that a method invocation calls: `name(args)` looks
/// the name up on variables, types and `this` (not in static code);
/// `primary.name(args)` on the type of `primary`.
pub open spec fn get_method_model(
    n: NodeModel,
    m: Seq<NodeModel>,
    c: ClassModel,
    k: Seq<ClassModel>,
    g: Seq<VarModel>,
    f: nat,
) -> Option<MethodFound>
    decreases f, 3int,
{
    let len = n.children.len();
    let idx = if len == 6 {
        4
    } else if len == 4 {
        2
    } else {
        0
    };
    if f == 0 {
        None
    } else {
        match args_model(n, idx, m, c, k, g, (f - 1) as nat) {
            None => None,
            Some(a) => {
                let n1 = a.node;
                match a.result {
                    Err(_) => Some(MethodFound { result: Err(()), node: n1, globals: a.globals }),
                    Ok(args) => if len == 3 || len == 4 {
                        let canonical = flatten(n1.children[0]);
                        if is_static(m) && canonical.children.len() == 0 {
                            None
                        } else if is_static(m) && canonical.children[0].token.kind == TokenKind::This {
                            Some(MethodFound { result: Err(()), node: n1, globals: a.globals })
                        } else {
                            match method_in_variables(canonical, empty_name(), args, c, k, a.globals) {
                                None => None,
                                Some(Ok(r)) => Some(MethodFound { result: Ok(r), node: n1, globals: a.globals }),
                                Some(Err(_)) => match method_in_env(canonical, empty_name(), args, c, k, LOOKUP_LIMIT as nat) {
                                    None => None,
                                    Some(Ok(r)) => Some(MethodFound { result: Ok(r), node: n1, globals: a.globals }),
                                    Some(Err(_)) => if is_static(m) {
                                        Some(MethodFound { result: Err(()), node: n1, globals: a.globals })
                                    } else {
                                        match method_in_env(c.name, canonical, args, c, k, LOOKUP_LIMIT as nat) {
                                            None => None,
                                            Some(r) => Some(MethodFound { result: r, node: n1, globals: a.globals }),
                                        }
                                    },
                                },
                            }
                        }
                    } else if len == 5 || len == 6 {
                        let primary = flatten(rule_model("Name"@, seq![n1.children[0]]));
                        if is_static(m) && primary.children.len() == 0 {
                            None
                        } else if is_static(m) && primary.children[0].token.kind == TokenKind::This {
                            Some(MethodFound { result: Err(()), node: n1, globals: a.globals })
                        } else {
                            match expr_model(n1.children[0], m, c, k, a.globals, (f - 1) as nat) {
                                None => None,
                                Some(p) => {
                                    let n2 = set_child(n1, 0, p.node);
                                    match p.result {
                                        Err(_) => Some(MethodFound { result: Err(()), node: n2, globals: p.globals }),
                                        Ok(lhs) => {
                                            let name = flatten(rule_model("Name"@, seq![n2.children[2]]));
                                            match method_in_env(lhs.name, name, args, c, k, LOOKUP_LIMIT as nat) {
                                                None => None,
                                                Some(r) => Some(MethodFound { result: r, node: n2, globals: p.globals }),
                                            }
                                        },
                                    }
                                },
                            }
                        }
                    } else {
                        Some(MethodFound { result: Err(()), node: n1, globals: a.globals })
                    },
                }
            },
        }
    }
}

/// The invocation `n` with its name replaced by the fully qualified name
/// `fq`; `primary . name` becomes the single qualified name.
pub open spec fn renamed(n: NodeModel, fq: NodeModel) -> NodeModel {
    let len = n.children.len();
    if len == 3 || len == 4 {
        set_child(n, 0, fq)
    } else if len == 5 || len == 6 {
        let x = set_child(n, 0, fq);
        NodeModel { children: x.children.remove(2).remove(1), ..x }
    } else {
        n
    }
}

/// A protected class or method of another package, which the current
/// class cannot be assigned to, cannot be called from it.
pub open spec fn access_refused(cls: ClassModel, method: MethodModel, c: ClassModel, k: Seq<ClassModel>) -> bool {
    let protected = cls.modifiers.contains(leaf_model(TokenKind::Protected)) || method.modifiers.contains(
        leaf_model(TokenKind::Protected),
    );
    protected && drop_last_child(cls.name) != drop_last_child(c.name) && assign_model(cls, c, c, k) is Err
}

/// A method invocation: the method is found, the invocation's name becomes
/// the method's fully qualified name, a protected method or class of
/// another package needs the current class to be assignable to its class,
/// and the type is the method's return type.
pub open spec fn invocation_model(
    n: NodeModel,
    m: Seq<NodeModel>,
    c: ClassModel,
    k: Seq<ClassModel>,
    g: Seq<VarModel>,
    f: nat,
) -> Option<Resolved>
    decreases f, 4int,
{
    match get_method_model(n, m, c, k, g, f) {
        None => None,
        Some(r) => match r.result {
            Err(_) => done(Err(()), r.node, r.globals),
            Ok((cls, method)) => {
                let n2 = renamed(r.node, qualified_member(cls.name, method.name));
                if access_refused(cls, method, c, k) {
                    done(Err(()), n2, r.globals)
                } else {
                    done(in_env_model(method.return_type, cls, k), n2, r.globals)
                }
            },
        },
    }
}

/// `new T(args)`: the constructor of `T` that fits the arguments best is
/// found and the name becomes its fully qualified name; where `T` does not
/// resolve, it is tried again without its last part.
pub open spec fn instance_creation_model(
    n: NodeModel,
    m: Seq<NodeModel>,
    c: ClassModel,
    k: Seq<ClassModel>,
    g: Seq<VarModel>,
    f: nat,
) -> Option<Resolved>
    decreases f, 3int,
{
    let idx = if n.children.len() == 2 {
        1
    } else {
        0
    };
    if f == 0 || n.children.len() < 1 {
        None
    } else {
        match args_model(n, idx, m, c, k, g, (f - 1) as nat) {
            None => None,
            Some(a) => {
                let n1 = a.node;
                match a.result {
                    Err(_) => done(Err(()), n1, a.globals),
                    Ok(args) => if !kind_ok(n1.children[0]) {
                        None
                    } else {
                        match in_env_model(n1.children[0], c, k) {
                            Ok(cls) => match select_model(cls.constructors, args, cls, k) {
                                None => None,
                                Some(Err(_)) => done(Err(()), n1, a.globals),
                                Some(Ok(ctor)) => done(Ok(cls), set_child(n1, 0, qualified_member(cls.name, ctor.name)), a.globals),
                            },
                            Err(_) => {
                                let copy = set_child(n1, 0, pop_two(flatten(n1.children[0])));
                                if !type_ok(copy) {
                                    None
                                } else {
                                match instance_creation_model(copy, m, c, k, a.globals, (f - 1) as nat) {
                                    None => None,
                                    Some(r) => done(r.result, n1, r.globals),
                                }
                                }
                            },
                        }
                    },
                }
            },
        }
    }
}

} // verus!
