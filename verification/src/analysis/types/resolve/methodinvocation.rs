//! Method invocations, and the arguments of calls.
use vstd::prelude::*;

use crate::analysis::environment::classorinterface::ClassOrInterfaceEnvironment;
use crate::analysis::environment::method::MethodEnvironment;
use crate::analysis::environment::variable::VariableEnvironment;
use crate::analysis::types::lookup::class::{
    deep_ok, in_env, lemma_in_env_deep_ok, lemma_world_env, method_ok, vars_ok, world_ok,
};
use crate::analysis::types::lookup::method::{self, pair_result, types_args_ok};
use crate::analysis::types::obj::Type;
use crate::analysis::types::resolve::expression::{go as resolve, go_child};
use crate::analysis::types::resolve::model::{
    only_initializes, static_this_call,
    args_from, args_model, argument_token, get_method_model, invocation_model, outcome, outcome_ok,
    access_refused, drop_last_child, qualified_member, renamed, set_child, types_result, ArgsResolved,
    MethodFound,
};
use crate::analysis::types::resolve::name::empty_name;
use crate::analysis::types::resolve::wellformed::{
    lemma_qualified_member_ok, lemma_remove_ok, lemma_set_child_ok, lemma_type_ok_of_children,
};
use crate::ast::{
    contains_node, lemma_model_children, lemma_type_ok_flatten, lemma_types_ok, models, type_ok,
    ASTNode, NodeModel,
};
use crate::text::note;
use crate::tokens::{lexeme_is, Token, TokenKind};

verus! {

/// The fully qualified name of a member: the class's name, flattened, then
/// `.` and the member's name.
pub(crate) fn qualified(cls: &ASTNode, member: &ASTNode) -> (r: ASTNode)
    ensures
        r.model() == qualified_member(cls.model(), member.model()),
{
    let mut f = cls.flattened();
    proof {
        lemma_model_children(f);
    }
    let ghost before = f.model();
    f.children.push(ASTNode::leaf(TokenKind::Dot));
    f.children.push(member.clone());
    proof {
        lemma_model_children(f);
        assert(f.model().children =~= before.children.push(crate::ast::leaf_model(TokenKind::Dot)).push(
            member.model(),
        ));
    }
    f
}

/// Every resolved argument type is well-formed.
pub open spec fn all_deep(v: Seq<crate::analysis::environment::classorinterface::ClassModel>) -> bool {
    forall|i: int| 0 <= i < v.len() ==> deep_ok(#[trigger] v[i])
}

/// One step of resolving the arguments in `list`: the `i`th node is
/// skipped (a comma), resolved on a copy (an `Argument`), or resolved and
/// wrapped as an `Argument`; its type is added to `resolved`.
fn next_arg(
    list: &mut ASTNode,
    i: usize,
    resolved: &mut Vec<Type>,
    modifiers: &Vec<ASTNode>,
    current: &ClassOrInterfaceEnvironment,
    kinds: &Vec<ClassOrInterfaceEnvironment>,
    globals: &mut Vec<VariableEnvironment>,
    depth: u32,
) -> (r: Result<(), String>)
    requires
        i < old(list).model().children.len(),
        type_ok(old(list).model()),
        world_ok(current.deep_view(), kinds.deep_view()),
        vars_ok(old(globals).deep_view()),
        all_deep(old(resolved).deep_view()),
        args_from(
            old(list).model(),
            i as int,
            old(resolved).deep_view(),
            modifiers.deep_view(),
            current.deep_view(),
            kinds.deep_view(),
            old(globals).deep_view(),
            depth as nat,
        ) is Some,
    ensures
        args_from(
            old(list).model(),
            i as int,
            old(resolved).deep_view(),
            modifiers.deep_view(),
            current.deep_view(),
            kinds.deep_view(),
            old(globals).deep_view(),
            depth as nat,
        ) == match r {
            Ok(_) => args_from(
                final(list).model(),
                i + 1,
                final(resolved).deep_view(),
                modifiers.deep_view(),
                current.deep_view(),
                kinds.deep_view(),
                final(globals).deep_view(),
                depth as nat,
            ),
            Err(_) => Some(
                ArgsResolved { result: Err(()), node: final(list).model(), globals: final(globals).deep_view() },
            ),
        },
        final(list).model().children.len() == old(list).model().children.len(),
        type_ok(final(list).model()),
        vars_ok(final(globals).deep_view()),
        only_initializes(old(globals).deep_view(), final(globals).deep_view()),
        all_deep(final(resolved).deep_view()),
    decreases depth, 1int,
{
    proof {
        lemma_model_children(*list);
        lemma_types_ok(list.model().children);
    }
    let ghost before = list.model();
    let ghost acc = resolved.deep_view();
    let is_comma = list.children[i].token.kind == TokenKind::Comma;
    let is_argument = lexeme_is(&list.children[i].token.lexeme, "Argument");
    if is_comma {
        return Ok(());
    }
    if is_argument {
        proof {
            lemma_model_children(list.children@[i as int]);
            assert(type_ok(list.model().children[i as int]));
            lemma_types_ok(list.children@[i as int].model().children);
        }
        let mut inner = list.children[i].children[1].clone();
        match resolve(&mut inner, modifiers, current, kinds, globals, depth - 1) {
            Err(e) => Err(e),
            Ok(t) => {
                resolved.push(t);
                proof {
                    assert(resolved.deep_view() =~= acc.push(t.deep_view()));
                }
                Ok(())
            },
        }
    } else {
        let mut a = list.children[i].clone();
        proof {
            assert(type_ok(list.model().children[i as int]));
        }
        match resolve(&mut a, modifiers, current, kinds, globals, depth - 1) {
            Err(e) => {
                proof {
                    lemma_set_child_ok(before, i as int, a.model());
                }
                list.children.set(i, a);
                proof {
                    lemma_model_children(*list);
                    assert(list.model().children =~= before.children.update(i as int, a.model()));
                }
                Err(e)
            },
            Ok(t) => {
                let mut pair: Vec<ASTNode> = Vec::new();
                pair.push(t.kind.name.clone());
                pair.push(a);
                let wrapped = ASTNode { token: Token::new(TokenKind::NonTerminal, Some("Argument")), children: pair };
                proof {
                    lemma_model_children(wrapped);
                    assert(wrapped.model().children =~= seq![t.deep_view().name, a.model()]);
                    assert(wrapped.model().token == argument_token());
                    lemma_types_ok(wrapped.model().children);
                    lemma_type_ok_of_children(wrapped.model());
                    lemma_set_child_ok(before, i as int, wrapped.model());
                }
                let ghost w = wrapped.model();
                list.children.set(i, wrapped);
                proof {
                    lemma_model_children(*list);
                    assert(list.model().children =~= before.children.update(i as int, w));
                }
                resolved.push(t);
                proof {
                    assert(resolved.deep_view() =~= acc.push(t.deep_view()));
                }
                Ok(())
            },
        }
    }
}

/// Resolves the arguments of a call, the list at child `idx` of `node`
/// (none when `idx` is 0): the list is flattened, commas are skipped, and
/// each argument is resolved and becomes an `Argument` node that carries
/// its type; an `Argument` already carries it and is resolved on a copy.
pub fn get_args(
    node: &mut ASTNode,
    idx: usize,
    modifiers: &Vec<ASTNode>,
    current: &ClassOrInterfaceEnvironment,
    kinds: &Vec<ClassOrInterfaceEnvironment>,
    globals: &mut Vec<VariableEnvironment>,
    depth: u32,
) -> (r: Result<Vec<Type>, String>)
    requires
        type_ok(old(node).model()),
        world_ok(current.deep_view(), kinds.deep_view()),
        vars_ok(old(globals).deep_view()),
        args_model(
            old(node).model(),
            idx as int,
            modifiers.deep_view(),
            current.deep_view(),
            kinds.deep_view(),
            old(globals).deep_view(),
            depth as nat,
        ) is Some,
    ensures
        args_model(
            old(node).model(),
            idx as int,
            modifiers.deep_view(),
            current.deep_view(),
            kinds.deep_view(),
            old(globals).deep_view(),
            depth as nat,
        ) == Some(
            ArgsResolved { result: types_result(r), node: final(node).model(), globals: final(globals).deep_view() },
        ),
        type_ok(final(node).model()),
        vars_ok(final(globals).deep_view()),
        only_initializes(old(globals).deep_view(), final(globals).deep_view()),
        r matches Ok(v) ==> all_deep(v.deep_view()) && types_args_ok(v.deep_view()),
    decreases depth, 2int,
{
    if idx == 0 {
        let v: Vec<Type> = Vec::new();
        proof {
            assert(v.deep_view() =~= Seq::<crate::analysis::environment::classorinterface::ClassModel>::empty());
        }
        return Ok(v);
    }
    proof {
        lemma_model_children(*node);
        lemma_types_ok(node.model().children);
        assert(type_ok(node.model().children[idx as int]));
        lemma_type_ok_flatten(node.model().children[idx as int]);
    }
    let ghost n0 = node.model();
    let ghost m = modifiers.deep_view();
    let ghost c = current.deep_view();
    let ghost k = kinds.deep_view();
    let d = depth - 1;
    let mut list = node.children[idx].flattened();
    let ghost list0 = list.model();
    let ghost g0 = globals.deep_view();
    let ghost whole = args_from(list0, 0, Seq::empty(), m, c, k, g0, d as nat);
    let mut resolved: Vec<Type> = Vec::new();
    proof {
        assert(resolved.deep_view() =~= Seq::<crate::analysis::environment::classorinterface::ClassModel>::empty());
    }
    proof {
        assert(args_model(n0, idx as int, m, c, k, g0, depth as nat) == match whole {
            Some(x) => Some(ArgsResolved { result: x.result, node: set_child(n0, idx as int, x.node), globals: x.globals }),
            None => None,
        });
    }
    let mut i: usize = 0;
    let mut failure: Option<String> = None;
    while i < list.children.len() && failure.is_none()
        invariant
            d + 1 == depth,
            g0 == old(globals).deep_view(),
            only_initializes(g0, globals.deep_view()),
            m == modifiers.deep_view(),
            c == current.deep_view(),
            k == kinds.deep_view(),
            world_ok(c, k),
            type_ok(list.model()),
            vars_ok(globals.deep_view()),
            all_deep(resolved.deep_view()),
            i <= list.model().children.len(),
            whole is Some,
            failure is None ==> whole == args_from(
                list.model(),
                i as int,
                resolved.deep_view(),
                m,
                c,
                k,
                globals.deep_view(),
                d as nat,
            ),
            failure is Some ==> whole == Some(
                ArgsResolved { result: Err(()), node: list.model(), globals: globals.deep_view() },
            ),
        decreases list.model().children.len() - i,
    {
        proof {
            lemma_model_children(list);
        }
        match next_arg(&mut list, i, &mut resolved, modifiers, current, kinds, globals, d) {
            Ok(()) => {},
            Err(e) => {
                failure = Some(e);
            },
        }
        proof {
            lemma_model_children(list);
        }
        i = i + 1;
    }
    proof {
        lemma_model_children(list);
        lemma_set_child_ok(n0, idx as int, list.model());
    }
    let ghost last = list.model();
    node.children.set(idx, list);
    proof {
        lemma_model_children(*node);
        assert(node.model().children =~= n0.children.update(idx as int, last));
    }
    if let Some(e) = failure {
        return Err(e);
    }
    proof {
        assert forall|j: int| 0 <= j < resolved.deep_view().len() implies type_ok(
            #[trigger] resolved.deep_view()[j].name,
        ) by {
            assert(deep_ok(resolved.deep_view()[j]));
        }
    }
    Ok(resolved)
}

/// The class and method that an invocation calls: `name(args)` is looked
/// up on the variables, then as a qualified name, then on `this` (not in
/// static code); `primary.name(args)` on the type of `primary`.
fn get_method(
    node: &mut ASTNode,
    modifiers: &Vec<ASTNode>,
    current: &ClassOrInterfaceEnvironment,
    kinds: &Vec<ClassOrInterfaceEnvironment>,
    globals: &mut Vec<VariableEnvironment>,
    depth: u32,
) -> (r: Result<(ClassOrInterfaceEnvironment, MethodEnvironment), String>)
    requires
        type_ok(old(node).model()),
        world_ok(current.deep_view(), kinds.deep_view()),
        vars_ok(old(globals).deep_view()),
        get_method_model(
            old(node).model(),
            modifiers.deep_view(),
            current.deep_view(),
            kinds.deep_view(),
            old(globals).deep_view(),
            depth as nat,
        ) is Some,
    ensures
        get_method_model(
            old(node).model(),
            modifiers.deep_view(),
            current.deep_view(),
            kinds.deep_view(),
            old(globals).deep_view(),
            depth as nat,
        ) == Some(MethodFound { result: pair_result(r), node: final(node).model(), globals: final(globals).deep_view() }),
        type_ok(final(node).model()),
        vars_ok(final(globals).deep_view()),
        only_initializes(old(globals).deep_view(), final(globals).deep_view()),
        r matches Ok((cls, m)) ==> deep_ok(cls.deep_view()) && method_ok(m.deep_view()),
        static_this_call(
            old(node).model(),
            modifiers.deep_view(),
            current.deep_view(),
            kinds.deep_view(),
            old(globals).deep_view(),
            depth as nat,
        ) ==> (r matches Err(e) && e@ == "can not use 'this' in static method"@),
    decreases depth, 3int,
{
    proof {
        lemma_model_children(*node);
    }
    let len = node.children.len();
    let idx: usize = if len == 6 {
        4
    } else if len == 4 {
        2
    } else {
        0
    };
    let args = match get_args(node, idx, modifiers, current, kinds, globals, depth - 1) {
        Err(e) => return Err(e),
        Ok(a) => a,
    };
    proof {
        lemma_model_children(*node);
        lemma_types_ok(node.model().children);
    }
    let is_static = contains_node(modifiers, &ASTNode::leaf(TokenKind::Static));
    if len == 3 || len == 4 {
        let canonical = node.children[0].flattened();
        proof {
            lemma_model_children(canonical);
            assert(type_ok(node.model().children[0]));
            lemma_type_ok_flatten(node.model().children[0]);
        }
        if is_static && canonical.children[0].token.kind == TokenKind::This {
            return Err(note("can not use 'this' in static method"));
        }
        let name = empty_name();
        match method::in_variables(&canonical, &name, &args, current, kinds, globals) {
            Ok(p) => return Ok(p),
            Err(_) => {},
        }
        match method::in_env(&canonical, &name, &args, current, kinds) {
            Ok(p) => return Ok(p),
            Err(_) => {},
        }
        if is_static {
            return Err(note("implicit 'this' can not be used in static methods"));
        }
        method::in_env(&current.name, &canonical, &args, current, kinds)
    } else if len == 5 || len == 6 {
        let mut wrap: Vec<ASTNode> = Vec::new();
        wrap.push(node.children[0].clone());
        proof {
            assert(models(wrap@) =~= seq![node.model().children[0]]);
        }
        let primary = ASTNode::rule("Name", wrap).flattened();
        proof {
            lemma_model_children(primary);
        }
        if is_static && primary.children[0].token.kind == TokenKind::This {
            return Err(note("can not use 'this' in static method"));
        }
        let lhs = match go_child(node, 0, modifiers, current, kinds, globals, depth - 1) {
            Err(e) => return Err(e),
            Ok(t) => t,
        };
        proof {
            lemma_model_children(*node);
        }
        let mut wrap2: Vec<ASTNode> = Vec::new();
        wrap2.push(node.children[2].clone());
        proof {
            assert(models(wrap2@) =~= seq![node.model().children[2]]);
        }
        let name = ASTNode::rule("Name", wrap2).flattened();
        method::in_env(&lhs.kind.name, &name, &args, current, kinds)
    } else {
        Err(note("malformed method invocation"))
    }
}

/// A method invocation: the method is found, the invocation's name becomes
/// the method's fully qualified name (and `primary.name` is folded into
/// it), a protected class or method of another package needs the current
/// class to be assignable to its class, and the type is the method's
/// return type.
pub fn go(
    node: &mut ASTNode,
    modifiers: &Vec<ASTNode>,
    current: &ClassOrInterfaceEnvironment,
    kinds: &Vec<ClassOrInterfaceEnvironment>,
    globals: &mut Vec<VariableEnvironment>,
    depth: u32,
) -> (r: Result<Type, String>)
    requires
        type_ok(old(node).model()),
        world_ok(current.deep_view(), kinds.deep_view()),
        vars_ok(old(globals).deep_view()),
        invocation_model(
            old(node).model(),
            modifiers.deep_view(),
            current.deep_view(),
            kinds.deep_view(),
            old(globals).deep_view(),
            depth as nat,
        ) is Some,
    ensures
        invocation_model(
            old(node).model(),
            modifiers.deep_view(),
            current.deep_view(),
            kinds.deep_view(),
            old(globals).deep_view(),
            depth as nat,
        ) == outcome(r, final(node).model(), final(globals).deep_view()),
        outcome_ok(r, final(node).model(), final(globals).deep_view()),
        only_initializes(old(globals).deep_view(), final(globals).deep_view()),
        static_this_call(
            old(node).model(),
            modifiers.deep_view(),
            current.deep_view(),
            kinds.deep_view(),
            old(globals).deep_view(),
            depth as nat,
        ) ==> (r matches Err(e) && e@ == "can not use 'this' in static method"@),
    decreases depth, 4int,
{
    let (cls, method) = match get_method(node, modifiers, current, kinds, globals, depth) {
        Err(e) => return Err(e),
        Ok(p) => p,
    };
    proof {
        lemma_qualified_member_ok(cls.deep_view().name, method.deep_view().name);
    }
    let fq = qualified(&cls.name, &method.name);
    rename(node, fq);
    if refused(&cls, &method, current, kinds) {
        return Err(note("could not access a protected method from this class"));
    }
    proof {
        lemma_in_env_deep_ok(method.deep_view().return_type, cls.deep_view(), kinds.deep_view());
    }
    match in_env(&method.return_type, &cls, kinds) {
        Ok(c) => Ok(Type::new(c)),
        Err(e) => Err(e),
    }
}

/// Replaces the name of the invocation `node` by the fully qualified name
/// `fq`.
fn rename(node: &mut ASTNode, fq: ASTNode)
    requires
        type_ok(old(node).model()),
        type_ok(fq.model()),
    ensures
        final(node).model() == renamed(old(node).model(), fq.model()),
        type_ok(final(node).model()),
{
    proof {
        lemma_model_children(*node);
    }
    let ghost n1 = node.model();
    let ghost q = fq.model();
    let len = node.children.len();
    if len == 3 || len == 4 {
        proof {
            lemma_set_child_ok(n1, 0, q);
        }
        node.children.set(0, fq);
        proof {
            lemma_model_children(*node);
            assert(node.model().children =~= n1.children.update(0, q));
        }
    } else if len == 5 || len == 6 {
        proof {
            lemma_set_child_ok(n1, 0, q);
        }
        node.children.set(0, fq);
        let ghost x = set_child(n1, 0, q);
        proof {
            lemma_model_children(*node);
            assert(node.model().children =~= x.children);
            lemma_remove_ok(x, 2);
            lemma_remove_ok(NodeModel { children: x.children.remove(2), ..x }, 1);
        }
        node.children.remove(2);
        node.children.remove(1);
        proof {
            lemma_model_children(*node);
            assert(node.model().children =~= x.children.remove(2).remove(1));
        }
    }
}

/// A node without its last child (an empty node stays as it is).
fn without_last(n: &ASTNode) -> (r: ASTNode)
    ensures
        r.model() == drop_last_child(n.model()),
{
    let mut p = n.clone();
    proof {
        lemma_model_children(*n);
        lemma_model_children(p);
    }
    let ghost before = p.model();
    p.children.pop();
    proof {
        lemma_model_children(p);
        if before.children.len() > 0 {
            assert(p.model().children =~= before.children.drop_last());
        } else {
            assert(p.model().children =~= before.children);
        }
    }
    p
}

/// Whether the call of `method` on `cls` from `current` is refused: the
/// class or the method is protected, it lies in another package, and the
/// current class cannot be assigned to it.
fn refused(
    cls: &ClassOrInterfaceEnvironment,
    method: &MethodEnvironment,
    current: &ClassOrInterfaceEnvironment,
    kinds: &Vec<ClassOrInterfaceEnvironment>,
) -> (r: bool)
    requires
        deep_ok(cls.deep_view()),
        world_ok(current.deep_view(), kinds.deep_view()),
    ensures
        r == access_refused(cls.deep_view(), method.deep_view(), current.deep_view(), kinds.deep_view()),
{
    let protected = ASTNode::leaf(TokenKind::Protected);
    if contains_node(&cls.modifiers, &protected) || contains_node(&method.modifiers, &protected) {
        let cls_package = without_last(&cls.name);
        let current_package = without_last(&current.name);
        if !cls_package.equals(&current_package) {
            let tcls = Type::new(cls.clone());
            let tcurrent = Type::new(current.clone());
            proof {
                lemma_world_env(current.deep_view(), kinds.deep_view());
            }
            return tcls.assign(&tcurrent, current, kinds).is_err();
        }
    }
    false
}

} // verus!
