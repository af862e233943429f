//! Checking statements and blocks.
use vstd::prelude::*;

use crate::analysis::environment::classorinterface::{ClassModel, ClassOrInterface, ClassOrInterfaceEnvironment};
use crate::analysis::environment::variable::{clone_vars, VariableEnvironment};
use crate::analysis::types::lookup::class::{deep_ok, in_env, lemma_in_env_deep_ok, vars_ok, world_ok};
use crate::analysis::types::obj::{prim_type, type_result, Type};
use crate::analysis::types::resolve::expression::go as resolve;
use crate::analysis::types::resolve::methodinvocation::all_deep;
use crate::analysis::types::resolve::model::types_result;
use crate::analysis::types::resolve::wellformed::{lemma_const_ok, lemma_set_child_ok};
use crate::analysis::types::verify::method::declaration;
use crate::analysis::types::verify::method::model::{as_returns, assignment_model, block_from, block_model, branch_model, checked, creation_model, expression_model, for_model, inner_block_model, instance_model, instantiable, invocation_model, keeps_locals, lemma_joined_ok, local_model, nonblock_model, pairs_result, primary_model, return_model, returned, typed};
use crate::ast::{contains_node, lemma_model_children, lemma_type_ok_arr_ok, lemma_types_ok, models, type_ok, types_ok, ASTNode};
use crate::text::note;
use crate::tokens::{lexeme_is, TokenKind};

verus! {

/// Every yielded type is well-formed.
pub open spec fn yields_ok(ts: Seq<(ClassModel, bool)>) -> bool {
    forall|i: int| 0 <= i < ts.len() ==> deep_ok(#[trigger] ts[i].0)
}

/// The result of a check that yields nothing, by its model.
pub open spec fn unit_result(r: Result<(), String>) -> Result<Seq<(ClassModel, bool)>, ()> {
    match r {
        Ok(_) => Ok(Seq::empty()),
        Err(_) => Err(()),
    }
}

/// The variables of the enclosing scopes followed by the locals.
pub(crate) fn joined(globals: &Vec<VariableEnvironment>, locals: &Vec<VariableEnvironment>) -> (r: Vec<
    VariableEnvironment,
>)
    requires
        vars_ok(globals.deep_view()),
        vars_ok(locals.deep_view()),
    ensures
        r.deep_view() == globals.deep_view() + locals.deep_view(),
        vars_ok(r.deep_view()),
{
    let mut r = clone_vars(globals);
    let mut i: usize = 0;
    while i < locals.len()
        invariant
            i <= locals@.len(),
            r.deep_view() == globals.deep_view() + locals.deep_view().take(i as int),
        decreases locals@.len() - i,
    {
        let ghost before = r.deep_view();
        let v = locals[i].clone();
        r.push(v);
        proof {
            assert(r.deep_view() =~= before.push(locals@[i as int].deep_view()));
            assert(locals.deep_view().take(i + 1) =~= locals.deep_view().take(i as int).push(
                locals@[i as int].deep_view(),
            ));
        }
        i = i + 1;
    }
    proof {
        assert(locals.deep_view().take(locals@.len() as int) =~= locals.deep_view());
        lemma_joined_ok(globals.deep_view(), locals.deep_view());
    }
    r
}

/// The type of an expression, resolved on copies of it and of the
/// variables.
pub(crate) fn typed_copy(
    node: &ASTNode,
    modifiers: &Vec<ASTNode>,
    current: &ClassOrInterfaceEnvironment,
    kinds: &Vec<ClassOrInterfaceEnvironment>,
    vars: &Vec<VariableEnvironment>,
    depth: u32,
) -> (r: Result<Type, String>)
    requires
        type_ok(node.model()),
        world_ok(current.deep_view(), kinds.deep_view()),
        vars_ok(vars.deep_view()),
        typed(node.model(), modifiers.deep_view(), current.deep_view(), kinds.deep_view(), vars.deep_view(), depth as nat)
            is Some,
    ensures
        typed(node.model(), modifiers.deep_view(), current.deep_view(), kinds.deep_view(), vars.deep_view(), depth as nat)
            == Some(type_result(r)),
        r matches Ok(t) ==> deep_ok(t.deep_view()),
{
    let mut copy = node.clone();
    let mut scratch = clone_vars(vars);
    resolve(&mut copy, modifiers, current, kinds, &mut scratch, depth)
}

/// The class named by `kind`, which must be neither abstract nor an
/// interface.
fn instantiable_class(
    kind: &ASTNode,
    current: &ClassOrInterfaceEnvironment,
    kinds: &Vec<ClassOrInterfaceEnvironment>,
) -> (r: Result<Vec<(Type, bool)>, String>)
    requires
        type_ok(kind.model()),
        world_ok(current.deep_view(), kinds.deep_view()),
    ensures
        instantiable(kind.model(), current.deep_view(), kinds.deep_view()) == Some(pairs_result(r)),
        r matches Ok(v) ==> yields_ok(v.deep_view()),
{
    let kf = kind.flattened();
    proof {
        crate::ast::lemma_type_ok_flatten(kind.model());
        lemma_in_env_deep_ok(kf.model(), current.deep_view(), kinds.deep_view());
    }
    match in_env(&kf, current, kinds) {
        Err(e) => Err(e),
        Ok(cls) => {
            if contains_node(&cls.modifiers, &ASTNode::leaf(TokenKind::Abstract)) {
                return Err(note("instantiated abstract class"));
            }
            match cls.kind {
                ClassOrInterface::INTERFACE => Err(note("instantiated interface")),
                ClassOrInterface::CLASS => {
                    let t = Type::new(cls);
                    let v = vec![(t, false)];
                    proof {
                        assert(v.deep_view() =~= seq![(t.deep_view(), false)]);
                    }
                    Ok(v)
                },
            }
        },
    }
}

/// Adds the returned types of `ts` to `acc`.
fn add_returned(ts: &Vec<(Type, bool)>, acc: &mut Vec<Type>)
    requires
        yields_ok(ts.deep_view()),
        all_deep(old(acc).deep_view()),
    ensures
        final(acc).deep_view() == old(acc).deep_view() + returned(ts.deep_view()),
        all_deep(final(acc).deep_view()),
{
    let ghost a0 = acc.deep_view();
    let mut i: usize = 0;
    while i < ts.len()
        invariant
            i <= ts@.len(),
            yields_ok(ts.deep_view()),
            acc.deep_view() == a0 + returned(ts.deep_view().take(i as int)),
            all_deep(acc.deep_view()),
        decreases ts@.len() - i,
    {
        let ghost before = acc.deep_view();
        proof {
            assert(ts.deep_view().take(i + 1).drop_last() =~= ts.deep_view().take(i as int));
            assert(ts.deep_view()[i as int] == ts@[i as int].deep_view());
            assert(deep_ok(ts.deep_view()[i as int].0));
        }
        if ts[i].1 {
            let t = ts[i].0.clone();
            acc.push(t);
            proof {
                assert(acc.deep_view() =~= before.push(ts.deep_view()[i as int].0));
                assert(a0 + returned(ts.deep_view().take(i + 1)) =~= before.push(ts.deep_view()[i as int].0));
            }
        }
        i = i + 1;
    }
    proof {
        assert(ts.deep_view().take(ts@.len() as int) =~= ts.deep_view());
    }
}

/// Every type, marked as returned.
fn all_returned(ts: Vec<Type>) -> (r: Vec<(Type, bool)>)
    requires
        all_deep(ts.deep_view()),
    ensures
        r.deep_view() == as_returns(ts.deep_view()),
        yields_ok(r.deep_view()),
{
    let mut r: Vec<(Type, bool)> = Vec::new();
    let mut i: usize = 0;
    while i < ts.len()
        invariant
            i <= ts@.len(),
            r.deep_view() == as_returns(ts.deep_view().take(i as int)),
            all_deep(ts.deep_view()),
        decreases ts@.len() - i,
    {
        let ghost before = r.deep_view();
        r.push((ts[i].clone(), true));
        proof {
            assert(r.deep_view() =~= before.push((ts.deep_view()[i as int], true)));
            assert(as_returns(ts.deep_view().take(i + 1)) =~= as_returns(ts.deep_view().take(i as int)).push(
                (ts.deep_view()[i as int], true),
            ));
        }
        i = i + 1;
    }
    proof {
        assert(ts.deep_view().take(ts@.len() as int) =~= ts.deep_view());
        assert forall|j: int| 0 <= j < r.deep_view().len() implies deep_ok(#[trigger] r.deep_view()[j].0) by {
            assert(r.deep_view()[j].0 == ts.deep_view()[j]);
        }
    }
    r
}

/// Checks a list of statements in turn, each on a copy, in a scope of its
/// own: the types returned, or `null` when none is.
fn statements(
    cs: &Vec<ASTNode>,
    modifiers: &Vec<ASTNode>,
    current: &ClassOrInterfaceEnvironment,
    kinds: &Vec<ClassOrInterfaceEnvironment>,
    globals: &Vec<VariableEnvironment>,
    depth: u32,
) -> (r: Result<Vec<Type>, String>)
    requires
        types_ok(models(cs@)),
        world_ok(current.deep_view(), kinds.deep_view()),
        vars_ok(globals.deep_view()),
        block_from(
            models(cs@),
            0,
            modifiers.deep_view(),
            current.deep_view(),
            kinds.deep_view(),
            globals.deep_view(),
            Seq::empty(),
            Seq::empty(),
            depth as nat,
        ) is Some,
    ensures
        block_from(
            models(cs@),
            0,
            modifiers.deep_view(),
            current.deep_view(),
            kinds.deep_view(),
            globals.deep_view(),
            Seq::empty(),
            Seq::empty(),
            depth as nat,
        ) == Some(types_result(r)),
        r matches Ok(v) ==> all_deep(v.deep_view()),
    decreases depth, 3int,
{
    let ghost ms = models(cs@);
    let ghost whole = block_from(
        ms,
        0,
        modifiers.deep_view(),
        current.deep_view(),
        kinds.deep_view(),
        globals.deep_view(),
        Seq::empty(),
        Seq::empty(),
        depth as nat,
    );
    let mut locals: Vec<VariableEnvironment> = Vec::new();
    let mut acc: Vec<Type> = Vec::new();
    proof {
        assert(locals.deep_view() =~= Seq::<crate::analysis::environment::variable::VarModel>::empty());
        assert(acc.deep_view() =~= Seq::<ClassModel>::empty());
        lemma_types_ok(ms);
    }
    let mut i: usize = 0;
    while i < cs.len()
        invariant
            i <= cs@.len(),
            ms == models(cs@),
            types_ok(ms),
            world_ok(current.deep_view(), kinds.deep_view()),
            vars_ok(globals.deep_view()),
            vars_ok(locals.deep_view()),
            all_deep(acc.deep_view()),
            whole is Some,
            whole == block_from(
                ms,
                0,
                modifiers.deep_view(),
                current.deep_view(),
                kinds.deep_view(),
                globals.deep_view(),
                Seq::empty(),
                Seq::empty(),
                depth as nat,
            ),
            whole == block_from(
                ms,
                i as int,
                modifiers.deep_view(),
                current.deep_view(),
                kinds.deep_view(),
                globals.deep_view(),
                locals.deep_view(),
                acc.deep_view(),
                depth as nat,
            ),
        decreases cs@.len() - i,
    {
        proof {
            lemma_types_ok(ms);
            assert(type_ok(ms[i as int]));
            assert(ms[i as int] == cs@[i as int].model());
        }
        let ghost l0 = locals.deep_view();
        let mut s = cs[i].clone();
        match nonblock(&mut s, modifiers, current, kinds, globals, &mut locals, depth) {
            Err(e) => return Err(e),
            Ok(ts) => add_returned(&ts, &mut acc),
        }
        i = i + 1;
    }
    if acc.len() == 0 {
        proof {
            lemma_const_ok(TokenKind::Null, None);
        }
        let v = vec![prim_type(TokenKind::Null)];
        proof {
            assert(v.deep_view() =~= seq![crate::analysis::types::obj::prim(TokenKind::Null)]);
        }
        Ok(v)
    } else {
        Ok(acc)
    }
}

/// Checks a block: the types it returns. A list of statements is
/// flattened (in place) and checked in a scope of its own, yielding `null`
/// when nothing is returned; a `Block` is checked as a statement on a copy;
/// any other statement as a list of one.
pub fn block(
    node: &mut ASTNode,
    modifiers: &Vec<ASTNode>,
    current: &ClassOrInterfaceEnvironment,
    kinds: &Vec<ClassOrInterfaceEnvironment>,
    globals: &Vec<VariableEnvironment>,
    depth: u32,
) -> (r: Result<Vec<Type>, String>)
    requires
        type_ok(old(node).model()),
        world_ok(current.deep_view(), kinds.deep_view()),
        vars_ok(globals.deep_view()),
        block_model(
            old(node).model(),
            modifiers.deep_view(),
            current.deep_view(),
            kinds.deep_view(),
            globals.deep_view(),
            depth as nat,
        ) is Some,
    ensures
        block_model(
            old(node).model(),
            modifiers.deep_view(),
            current.deep_view(),
            kinds.deep_view(),
            globals.deep_view(),
            depth as nat,
        ) == Some((types_result(r), final(node).model())),
        type_ok(final(node).model()),
        r matches Ok(v) ==> all_deep(v.deep_view()),
    decreases depth, 0int,
{
    if lexeme_is(&node.token.lexeme, "BlockStatements") {
        proof {
            crate::ast::lemma_type_ok_flatten(node.model());
        }
        node.flatten();
        proof {
            lemma_model_children(*node);
        }
        statements(&node.children, modifiers, current, kinds, globals, depth - 1)
    } else if lexeme_is(&node.token.lexeme, "Block") {
        let mut copy = node.clone();
        let mut locals: Vec<VariableEnvironment> = Vec::new();
        proof {
            assert(locals.deep_view() =~= Seq::<crate::analysis::environment::variable::VarModel>::empty());
        }
        match nonblock(&mut copy, modifiers, current, kinds, globals, &mut locals, depth - 1) {
            Err(e) => Err(e),
            Ok(ts) => {
                let mut acc: Vec<Type> = Vec::new();
                proof {
                    assert(acc.deep_view() =~= Seq::<ClassModel>::empty());
                }
                add_returned(&ts, &mut acc);
                proof {
                    assert(acc.deep_view() =~= returned(ts.deep_view()));
                }
                Ok(acc)
            },
        }
    } else {
        let cs = vec![node.clone()];
        proof {
            assert(models(cs@) =~= seq![node.model()]);
            lemma_types_ok(models(cs@));
        }
        statements(&cs, modifiers, current, kinds, globals, depth - 1)
    }
}

/// A `for` statement, with the variables `bg` of the enclosing block: the
/// initializer, the condition (a `boolean` that is not the constant
/// `false`), the update and the body are checked on copies, in a scope of
/// their own.
fn for_statement(
    node: &ASTNode,
    modifiers: &Vec<ASTNode>,
    current: &ClassOrInterfaceEnvironment,
    kinds: &Vec<ClassOrInterfaceEnvironment>,
    bg: &Vec<VariableEnvironment>,
    locals: &Vec<VariableEnvironment>,
    depth: u32,
) -> (r: Result<(), String>)
    requires
        type_ok(node.model()),
        world_ok(current.deep_view(), kinds.deep_view()),
        vars_ok(bg.deep_view()),
        for_model(
            node.model(),
            modifiers.deep_view(),
            current.deep_view(),
            kinds.deep_view(),
            bg.deep_view(),
            locals.deep_view(),
            depth as nat,
        ) is Some,
    ensures
        for_model(
            node.model(),
            modifiers.deep_view(),
            current.deep_view(),
            kinds.deep_view(),
            bg.deep_view(),
            locals.deep_view(),
            depth as nat,
        ) == checked(unit_result(r), node.model(), locals.deep_view()),
    decreases depth, 0int,
{
    proof {
        lemma_model_children(*node);
        lemma_types_ok(node.model().children);
    }
    let d = depth - 1;
    let mut scope: Vec<VariableEnvironment> = Vec::new();
    proof {
        assert(scope.deep_view() =~= Seq::<crate::analysis::environment::variable::VarModel>::empty());
    }
    let mut init = node.children[2].clone();
    match nonblock(&mut init, modifiers, current, kinds, bg, &mut scope, d) {
        Err(e) => return Err(e),
        Ok(_) => {},
    }
    let ci: usize = if node.children[2].token.kind != TokenKind::Semicolon {
        4
    } else {
        3
    };
    let mut cond = node.children[ci].clone();
    let ts = match nonblock(&mut cond, modifiers, current, kinds, bg, &mut scope, d) {
        Err(e) => return Err(e),
        Ok(ts) => ts,
    };
    proof {
        if ts@.len() == 1 {
            assert(ts.deep_view()[0] == ts@[0].deep_view());
        }
    }
    if ts.len() != 1 {
        return Err(note("for condition has multiple types"));
    }
    if ts[0].0.kind.name.token.kind != TokenKind::Boolean {
        return Err(note("for condition is not a boolean"));
    }
    if lexeme_is(&ts[0].0.kind.name.token.lexeme, "false") {
        return Err(note("for statement condition is false"));
    }
    let u = node.children.len() - 3;
    let mut update = node.children[u].clone();
    if update.token.kind != TokenKind::Semicolon {
        match nonblock(&mut update, modifiers, current, kinds, bg, &mut scope, d) {
            Err(e) => return Err(e),
            Ok(_) => {},
        }
    }
    let b = node.children.len() - 1;
    let mut body = node.children[b].clone();
    match nonblock(&mut body, modifiers, current, kinds, bg, &mut scope, d) {
        Err(e) => Err(e),
        Ok(_) => Ok(()),
    }
}

/// `if`, `while` and `if`-`else`, with the variables `bg` of the enclosing
/// block: the condition must be a `boolean` (for `while`, not the constant
/// `false`); the branches are checked in place, in scopes of their own.
fn branch(
    node: &mut ASTNode,
    modifiers: &Vec<ASTNode>,
    current: &ClassOrInterfaceEnvironment,
    kinds: &Vec<ClassOrInterfaceEnvironment>,
    bg: &Vec<VariableEnvironment>,
    locals: &Vec<VariableEnvironment>,
    depth: u32,
) -> (r: Result<(), String>)
    requires
        type_ok(old(node).model()),
        world_ok(current.deep_view(), kinds.deep_view()),
        vars_ok(bg.deep_view()),
        branch_model(
            old(node).model(),
            modifiers.deep_view(),
            current.deep_view(),
            kinds.deep_view(),
            bg.deep_view(),
            locals.deep_view(),
            depth as nat,
        ) is Some,
    ensures
        branch_model(
            old(node).model(),
            modifiers.deep_view(),
            current.deep_view(),
            kinds.deep_view(),
            bg.deep_view(),
            locals.deep_view(),
            depth as nat,
        ) == checked(unit_result(r), final(node).model(), locals.deep_view()),
        type_ok(final(node).model()),
    decreases depth, 0int,
{
    proof {
        lemma_model_children(*node);
        lemma_types_ok(node.model().children);
    }
    let is_while = lexeme_is(&node.token.lexeme, "WhileStatement") || lexeme_is(
        &node.token.lexeme,
        "WhileStatementNoShortIf",
    );
    let is_else = lexeme_is(&node.token.lexeme, "IfElseStatement") || lexeme_is(
        &node.token.lexeme,
        "IfElseStatementNoShortIf",
    );
    let t = match typed_copy(&node.children[2], modifiers, current, kinds, bg, depth) {
        Err(e) => return Err(e),
        Ok(t) => t,
    };
    proof {
        lemma_type_ok_arr_ok(t.deep_view().name);
    }
    if !t.eq(&prim_type(TokenKind::Boolean)) {
        return Err(note("the condition is not a boolean"));
    }
    if is_while && lexeme_is(&t.kind.name.token.lexeme, "false") {
        return Err(note("while statement condition is false"));
    }
    let ghost n0 = node.model();
    let mut a = node.children[4].clone();
    let mut scope: Vec<VariableEnvironment> = Vec::new();
    proof {
        assert(scope.deep_view() =~= Seq::<crate::analysis::environment::variable::VarModel>::empty());
        assert(type_ok(n0.children[4]));
    }
    let ra = nonblock(&mut a, modifiers, current, kinds, bg, &mut scope, depth - 1);
    proof {
        lemma_set_child_ok(n0, 4, a.model());
    }
    let ghost am = a.model();
    node.children.set(4, a);
    proof {
        lemma_model_children(*node);
        assert(node.model().children =~= n0.children.update(4, am));
    }
    match ra {
        Err(e) => return Err(e),
        Ok(_) => {},
    }
    if !is_else {
        return Ok(());
    }
    let ghost n1 = node.model();
    let mut b = node.children[6].clone();
    let mut scope2: Vec<VariableEnvironment> = Vec::new();
    proof {
        assert(scope2.deep_view() =~= Seq::<crate::analysis::environment::variable::VarModel>::empty());
        lemma_types_ok(n1.children);
        assert(type_ok(n1.children[6]));
    }
    let rb = nonblock(&mut b, modifiers, current, kinds, bg, &mut scope2, depth - 1);
    proof {
        lemma_set_child_ok(n1, 6, b.model());
    }
    let ghost bm = b.model();
    node.children.set(6, b);
    proof {
        lemma_model_children(*node);
        assert(node.model().children =~= n1.children.update(6, bm));
    }
    match rb {
        Err(e) => Err(e),
        Ok(_) => Ok(()),
    }
}

/// `new T[..]` as a statement: `T` must be instantiable.
fn creation(
    node: &ASTNode,
    current: &ClassOrInterfaceEnvironment,
    kinds: &Vec<ClassOrInterfaceEnvironment>,
    locals: &Vec<VariableEnvironment>,
) -> (r: Result<Vec<(Type, bool)>, String>)
    requires
        type_ok(node.model()),
        world_ok(current.deep_view(), kinds.deep_view()),
        creation_model(node.model(), current.deep_view(), kinds.deep_view(), locals.deep_view()) is Some,
    ensures
        creation_model(node.model(), current.deep_view(), kinds.deep_view(), locals.deep_view()) == checked(
            pairs_result(r),
            node.model(),
            locals.deep_view(),
        ),
        r matches Ok(v) ==> yields_ok(v.deep_view()),
{
    proof {
        lemma_model_children(*node);
        lemma_types_ok(node.model().children);
    }
    instantiable_class(&node.children[0], current, kinds)
}

/// `new T(args)` as a statement: it must resolve, and `T` must be
/// instantiable.
fn instance(
    node: &ASTNode,
    modifiers: &Vec<ASTNode>,
    current: &ClassOrInterfaceEnvironment,
    kinds: &Vec<ClassOrInterfaceEnvironment>,
    globals: &Vec<VariableEnvironment>,
    locals: &Vec<VariableEnvironment>,
    depth: u32,
) -> (r: Result<Vec<(Type, bool)>, String>)
    requires
        type_ok(node.model()),
        world_ok(current.deep_view(), kinds.deep_view()),
        vars_ok(globals.deep_view()),
        vars_ok(locals.deep_view()),
        instance_model(
            node.model(),
            modifiers.deep_view(),
            current.deep_view(),
            kinds.deep_view(),
            globals.deep_view(),
            locals.deep_view(),
            depth as nat,
        ) is Some,
    ensures
        instance_model(
            node.model(),
            modifiers.deep_view(),
            current.deep_view(),
            kinds.deep_view(),
            globals.deep_view(),
            locals.deep_view(),
            depth as nat,
        ) == checked(pairs_result(r), node.model(), locals.deep_view()),
        r matches Ok(v) ==> yields_ok(v.deep_view()),
{
    let bg = joined(globals, locals);
    match typed_copy(node, modifiers, current, kinds, &bg, depth) {
        Err(e) => return Err(e),
        Ok(_) => {},
    }
    creation(node, current, kinds, locals)
}

/// An assignment as a statement: it must resolve; it yields nothing.
fn assignment(
    node: &ASTNode,
    modifiers: &Vec<ASTNode>,
    current: &ClassOrInterfaceEnvironment,
    kinds: &Vec<ClassOrInterfaceEnvironment>,
    globals: &Vec<VariableEnvironment>,
    locals: &Vec<VariableEnvironment>,
    depth: u32,
) -> (r: Result<Vec<(Type, bool)>, String>)
    requires
        type_ok(node.model()),
        world_ok(current.deep_view(), kinds.deep_view()),
        vars_ok(globals.deep_view()),
        vars_ok(locals.deep_view()),
        assignment_model(
            node.model(),
            modifiers.deep_view(),
            current.deep_view(),
            kinds.deep_view(),
            globals.deep_view(),
            locals.deep_view(),
            depth as nat,
        ) is Some,
    ensures
        assignment_model(
            node.model(),
            modifiers.deep_view(),
            current.deep_view(),
            kinds.deep_view(),
            globals.deep_view(),
            locals.deep_view(),
            depth as nat,
        ) == checked(pairs_result(r), node.model(), locals.deep_view()),
        r matches Ok(v) ==> yields_ok(v.deep_view()),
{
    let bg = joined(globals, locals);
    match typed_copy(node, modifiers, current, kinds, &bg, depth) {
        Err(e) => Err(e),
        Ok(_) => {
            let v: Vec<(Type, bool)> = Vec::new();
            proof {
                assert(v.deep_view() =~= Seq::<(ClassModel, bool)>::empty());
            }
            Ok(v)
        },
    }
}

/// `{ statements }`: the statements are checked in place, in a scope of
/// their own; what they return is returned.
fn inner_block(
    node: &mut ASTNode,
    modifiers: &Vec<ASTNode>,
    current: &ClassOrInterfaceEnvironment,
    kinds: &Vec<ClassOrInterfaceEnvironment>,
    globals: &Vec<VariableEnvironment>,
    locals: &Vec<VariableEnvironment>,
    depth: u32,
) -> (r: Result<Vec<(Type, bool)>, String>)
    requires
        type_ok(old(node).model()),
        world_ok(current.deep_view(), kinds.deep_view()),
        vars_ok(globals.deep_view()),
        vars_ok(locals.deep_view()),
        inner_block_model(
            old(node).model(),
            modifiers.deep_view(),
            current.deep_view(),
            kinds.deep_view(),
            globals.deep_view(),
            locals.deep_view(),
            depth as nat,
        ) is Some,
    ensures
        inner_block_model(
            old(node).model(),
            modifiers.deep_view(),
            current.deep_view(),
            kinds.deep_view(),
            globals.deep_view(),
            locals.deep_view(),
            depth as nat,
        ) == checked(pairs_result(r), final(node).model(), locals.deep_view()),
        type_ok(final(node).model()),
        r matches Ok(v) ==> yields_ok(v.deep_view()),
    decreases depth, 0int,
{
    proof {
        lemma_model_children(*node);
        lemma_types_ok(node.model().children);
    }
    let bg = joined(globals, locals);
    let ghost n0 = node.model();
    let mut inner = node.children[1].clone();
    let r = block(&mut inner, modifiers, current, kinds, &bg, depth - 1);
    proof {
        lemma_set_child_ok(n0, 1, inner.model());
    }
    let ghost im = inner.model();
    node.children.set(1, inner);
    proof {
        lemma_model_children(*node);
        assert(node.model().children =~= n0.children.update(1, im));
    }
    match r {
        Ok(ts) => Ok(all_returned(ts)),
        Err(e) => Err(e),
    }
}

/// A local variable declaration as a statement: it yields nothing.
fn local(
    node: &ASTNode,
    modifiers: &Vec<ASTNode>,
    current: &ClassOrInterfaceEnvironment,
    kinds: &Vec<ClassOrInterfaceEnvironment>,
    globals: &Vec<VariableEnvironment>,
    locals: &mut Vec<VariableEnvironment>,
    depth: u32,
) -> (r: Result<Vec<(Type, bool)>, String>)
    requires
        type_ok(node.model()),
        world_ok(current.deep_view(), kinds.deep_view()),
        vars_ok(globals.deep_view()),
        vars_ok(old(locals).deep_view()),
        local_model(
            node.model(),
            modifiers.deep_view(),
            current.deep_view(),
            kinds.deep_view(),
            globals.deep_view(),
            old(locals).deep_view(),
            depth as nat,
        ) is Some,
    ensures
        local_model(
            node.model(),
            modifiers.deep_view(),
            current.deep_view(),
            kinds.deep_view(),
            globals.deep_view(),
            old(locals).deep_view(),
            depth as nat,
        ) == checked(pairs_result(r), node.model(), final(locals).deep_view()),
        vars_ok(final(locals).deep_view()),
        keeps_locals(old(locals).deep_view(), final(locals).deep_view()),
        r matches Ok(v) ==> yields_ok(v.deep_view()),
    decreases depth, 1int,
{
    match declaration::go(node, modifiers, kinds, current, globals, locals, depth) {
        Ok(()) => {
            let v: Vec<(Type, bool)> = Vec::new();
            proof {
                assert(v.deep_view() =~= Seq::<(ClassModel, bool)>::empty());
            }
            Ok(v)
        },
        Err(e) => Err(e),
    }
}

/// A method invocation as a statement: its type, resolved on a copy; for
/// `primary.name(args)` the primary is checked too.
fn invocation(
    node: &ASTNode,
    modifiers: &Vec<ASTNode>,
    current: &ClassOrInterfaceEnvironment,
    kinds: &Vec<ClassOrInterfaceEnvironment>,
    globals: &Vec<VariableEnvironment>,
    locals: &Vec<VariableEnvironment>,
    depth: u32,
) -> (r: Result<Vec<(Type, bool)>, String>)
    requires
        type_ok(node.model()),
        world_ok(current.deep_view(), kinds.deep_view()),
        vars_ok(globals.deep_view()),
        vars_ok(locals.deep_view()),
        invocation_model(
            node.model(),
            modifiers.deep_view(),
            current.deep_view(),
            kinds.deep_view(),
            globals.deep_view(),
            locals.deep_view(),
            depth as nat,
        ) is Some,
    ensures
        invocation_model(
            node.model(),
            modifiers.deep_view(),
            current.deep_view(),
            kinds.deep_view(),
            globals.deep_view(),
            locals.deep_view(),
            depth as nat,
        ) == checked(pairs_result(r), node.model(), locals.deep_view()),
        r matches Ok(v) ==> yields_ok(v.deep_view()),
    decreases depth, 0int,
{
    proof {
        lemma_model_children(*node);
        lemma_types_ok(node.model().children);
    }
    let bg = joined(globals, locals);
    let t = match typed_copy(node, modifiers, current, kinds, &bg, depth) {
        Err(e) => return Err(e),
        Ok(t) => t,
    };
    if node.children.len() >= 5 {
        let mut primary = node.children[0].clone();
        let mut scratch = clone_vars(locals);
        match nonblock(&mut primary, modifiers, current, kinds, globals, &mut scratch, depth - 1) {
            Err(e) => return Err(e),
            Ok(_) => {},
        }
    }
    let v = vec![(t, false)];
    proof {
        assert(v.deep_view() =~= seq![(t.deep_view(), false)]);
    }
    Ok(v)
}

/// `( expression )`: the expression is checked on a copy.
fn primary(
    node: &ASTNode,
    modifiers: &Vec<ASTNode>,
    current: &ClassOrInterfaceEnvironment,
    kinds: &Vec<ClassOrInterfaceEnvironment>,
    globals: &Vec<VariableEnvironment>,
    locals: &Vec<VariableEnvironment>,
    depth: u32,
) -> (r: Result<Vec<(Type, bool)>, String>)
    requires
        type_ok(node.model()),
        world_ok(current.deep_view(), kinds.deep_view()),
        vars_ok(globals.deep_view()),
        vars_ok(locals.deep_view()),
        primary_model(
            node.model(),
            modifiers.deep_view(),
            current.deep_view(),
            kinds.deep_view(),
            globals.deep_view(),
            locals.deep_view(),
            depth as nat,
        ) is Some,
    ensures
        primary_model(
            node.model(),
            modifiers.deep_view(),
            current.deep_view(),
            kinds.deep_view(),
            globals.deep_view(),
            locals.deep_view(),
            depth as nat,
        ) == checked(pairs_result(r), node.model(), locals.deep_view()),
        r matches Ok(v) ==> yields_ok(v.deep_view()),
    decreases depth, 0int,
{
    proof {
        lemma_model_children(*node);
        lemma_types_ok(node.model().children);
    }
    let mut e = node.children[1].clone();
    let mut scratch = clone_vars(locals);
    nonblock(&mut e, modifiers, current, kinds, globals, &mut scratch, depth - 1)
}

/// `return e;`: `e` is checked on a copy, and its type is returned.
fn return_statement(
    node: &ASTNode,
    modifiers: &Vec<ASTNode>,
    current: &ClassOrInterfaceEnvironment,
    kinds: &Vec<ClassOrInterfaceEnvironment>,
    globals: &Vec<VariableEnvironment>,
    locals: &Vec<VariableEnvironment>,
    depth: u32,
) -> (r: Result<Vec<(Type, bool)>, String>)
    requires
        type_ok(node.model()),
        world_ok(current.deep_view(), kinds.deep_view()),
        vars_ok(globals.deep_view()),
        vars_ok(locals.deep_view()),
        return_model(
            node.model(),
            modifiers.deep_view(),
            current.deep_view(),
            kinds.deep_view(),
            globals.deep_view(),
            locals.deep_view(),
            depth as nat,
        ) is Some,
    ensures
        return_model(
            node.model(),
            modifiers.deep_view(),
            current.deep_view(),
            kinds.deep_view(),
            globals.deep_view(),
            locals.deep_view(),
            depth as nat,
        ) == checked(pairs_result(r), node.model(), locals.deep_view()),
        r matches Ok(v) ==> yields_ok(v.deep_view()),
    decreases depth, 0int,
{
    proof {
        lemma_model_children(*node);
        lemma_types_ok(node.model().children);
    }
    let mut e = node.children[1].clone();
    let mut scratch = clone_vars(locals);
    match nonblock(&mut e, modifiers, current, kinds, globals, &mut scratch, depth - 1) {
        Err(e) => return Err(e),
        Ok(_) => {},
    }
    let bg = joined(globals, locals);
    match typed_copy(&e, modifiers, current, kinds, &bg, depth) {
        Err(e) => Err(e),
        Ok(t) => {
            let v = vec![(t, true)];
            proof {
                assert(v.deep_view() =~= seq![(t.deep_view(), true)]);
            }
            Ok(v)
        },
    }
}

/// Any other statement: an expression, resolved in place.
fn expression(
    node: &mut ASTNode,
    modifiers: &Vec<ASTNode>,
    current: &ClassOrInterfaceEnvironment,
    kinds: &Vec<ClassOrInterfaceEnvironment>,
    globals: &Vec<VariableEnvironment>,
    locals: &Vec<VariableEnvironment>,
    depth: u32,
) -> (r: Result<Vec<(Type, bool)>, String>)
    requires
        type_ok(old(node).model()),
        world_ok(current.deep_view(), kinds.deep_view()),
        vars_ok(globals.deep_view()),
        vars_ok(locals.deep_view()),
        expression_model(
            old(node).model(),
            modifiers.deep_view(),
            current.deep_view(),
            kinds.deep_view(),
            globals.deep_view(),
            locals.deep_view(),
            depth as nat,
        ) is Some,
    ensures
        expression_model(
            old(node).model(),
            modifiers.deep_view(),
            current.deep_view(),
            kinds.deep_view(),
            globals.deep_view(),
            locals.deep_view(),
            depth as nat,
        ) == checked(pairs_result(r), final(node).model(), locals.deep_view()),
        type_ok(final(node).model()),
        r matches Ok(v) ==> yields_ok(v.deep_view()),
{
    let mut scratch = joined(globals, locals);
    match resolve(node, modifiers, current, kinds, &mut scratch, depth) {
        Err(e) => Err(e),
        Ok(t) => {
            let v = vec![(t, false)];
            proof {
                assert(v.deep_view() =~= seq![(t.deep_view(), false)]);
            }
            Ok(v)
        },
    }
}

/// Checks the statement `node`, with the variables `globals` of the
/// enclosing scopes and the `locals` of its own: the types it yields, each
/// with whether it is returned. A declaration adds to `locals`; nested
/// blocks are checked in scopes of their own.
pub fn nonblock(
    node: &mut ASTNode,
    modifiers: &Vec<ASTNode>,
    current: &ClassOrInterfaceEnvironment,
    kinds: &Vec<ClassOrInterfaceEnvironment>,
    globals: &Vec<VariableEnvironment>,
    locals: &mut Vec<VariableEnvironment>,
    depth: u32,
) -> (r: Result<Vec<(Type, bool)>, String>)
    requires
        type_ok(old(node).model()),
        world_ok(current.deep_view(), kinds.deep_view()),
        vars_ok(globals.deep_view()),
        vars_ok(old(locals).deep_view()),
        nonblock_model(
            old(node).model(),
            modifiers.deep_view(),
            current.deep_view(),
            kinds.deep_view(),
            globals.deep_view(),
            old(locals).deep_view(),
            depth as nat,
        ) is Some,
    ensures
        nonblock_model(
            old(node).model(),
            modifiers.deep_view(),
            current.deep_view(),
            kinds.deep_view(),
            globals.deep_view(),
            old(locals).deep_view(),
            depth as nat,
        ) == checked(pairs_result(r), final(node).model(), final(locals).deep_view()),
        type_ok(final(node).model()),
        vars_ok(final(locals).deep_view()),
        keeps_locals(old(locals).deep_view(), final(locals).deep_view()),
        r matches Ok(v) ==> yields_ok(v.deep_view()),
    decreases depth, 2int,
{
    if depth == 0 {
        return Err(note("the statement is nested too deeply"));
    }
    if lexeme_is(&node.token.lexeme, "ArrayCreationExpression") {
        return creation(&*node, current, kinds, &*locals);
    }
    if lexeme_is(&node.token.lexeme, "ClassInstanceCreationExpression") {
        return instance(&*node, modifiers, current, kinds, globals, &*locals, depth);
    }
    if lexeme_is(&node.token.lexeme, "Assignment") {
        return assignment(&*node, modifiers, current, kinds, globals, &*locals, depth);
    }
    if lexeme_is(&node.token.lexeme, "Block") && node.children.len() == 3 {
        return inner_block(node, modifiers, current, kinds, globals, &*locals, depth);
    }
    if lexeme_is(&node.token.lexeme, "Block") {
        let v: Vec<(Type, bool)> = Vec::new();
        proof {
            assert(v.deep_view() =~= Seq::<(ClassModel, bool)>::empty());
        }
        return Ok(v);
    }
    if lexeme_is(&node.token.lexeme, "ForStatement") || lexeme_is(&node.token.lexeme, "ForStatementNoShortIf") {
        let bg = joined(globals, locals);
        return match for_statement(&*node, modifiers, current, kinds, &bg, &*locals, depth) {
            Ok(()) => {
                let v: Vec<(Type, bool)> = Vec::new();
                proof {
                    assert(v.deep_view() =~= Seq::<(ClassModel, bool)>::empty());
                }
                Ok(v)
            },
            Err(e) => Err(e),
        };
    }
    if lexeme_is(&node.token.lexeme, "IfStatement") || lexeme_is(&node.token.lexeme, "WhileStatement")
        || lexeme_is(&node.token.lexeme, "WhileStatementNoShortIf") || lexeme_is(
        &node.token.lexeme,
        "IfElseStatement",
    ) || lexeme_is(&node.token.lexeme, "IfElseStatementNoShortIf") {
        let bg = joined(globals, locals);
        return match branch(node, modifiers, current, kinds, &bg, &*locals, depth) {
            Ok(()) => {
                let v: Vec<(Type, bool)> = Vec::new();
                proof {
                    assert(v.deep_view() =~= Seq::<(ClassModel, bool)>::empty());
                }
                Ok(v)
            },
            Err(e) => Err(e),
        };
    }
    if lexeme_is(&node.token.lexeme, "LocalVariableDeclaration") {
        return local(&*node, modifiers, current, kinds, globals, locals, depth);
    }
    if lexeme_is(&node.token.lexeme, "MethodInvocation") {
        return invocation(&*node, modifiers, current, kinds, globals, &*locals, depth);
    }
    if lexeme_is(&node.token.lexeme, "PrimaryNoNewArray") {
        return primary(&*node, modifiers, current, kinds, globals, &*locals, depth);
    }
    if lexeme_is(&node.token.lexeme, "ReturnStatement") {
        return return_statement(&*node, modifiers, current, kinds, globals, &*locals, depth);
    }
    expression(node, modifiers, current, kinds, globals, &*locals, depth)
}

} // verus!
