//! What checking a statement gives: the types it yields (and whether each
//! is returned), the statement as rewritten, and the local variables
//! afterwards.
use vstd::prelude::*;

use crate::analysis::environment::classorinterface::{ClassModel, ClassOrInterface};
use crate::analysis::environment::variable::{declared, var_new, var_node_ok, VarModel};
use crate::analysis::types::lookup::class::{in_env_model, vars_ok};
use crate::analysis::types::lookup::field::first_named_var;
use crate::analysis::types::obj::{assign_model, is_kind, prim, Type};
use crate::analysis::types::resolve::model::{expr_model, set_child};
use crate::analysis::types::verify::class::resolveable_model;
use crate::analysis::types::resolve::wellformed::lemma_type_ok_of_children;
use crate::ast::{
    flatten, kind_ok, leaf_model, lemma_type_ok_flatten, lemma_types_ok, normal_kind, rule_model, type_ok,
    NodeModel,
};
use crate::tokens::TokenKind;

verus! {

/// The outcome of checking a statement: the types it yields, each with
/// whether it is returned (or an error), the statement as rewritten, and
/// the local variables afterwards.
pub struct Checked {
    pub result: Result<Seq<(ClassModel, bool)>, ()>,
    pub node: NodeModel,
    pub locals: Seq<VarModel>,
}

pub open spec fn checked(result: Result<Seq<(ClassModel, bool)>, ()>, node: NodeModel, locals: Seq<VarModel>) -> Option<
    Checked,
> {
    Some(Checked { result, node, locals })
}

/// `after` keeps the variables of `before`, in order, and may add more
/// after them.
pub open spec fn keeps_locals(before: Seq<VarModel>, after: Seq<VarModel>) -> bool {
    &&& before.len() <= after.len()
    &&& forall|i: int| 0 <= i < before.len() ==> #[trigger] after[i] == before[i]
}

/// An error, with the statement and the locals as they are.
pub open spec fn failed(node: NodeModel, locals: Seq<VarModel>) -> Option<Checked> {
    checked(Err(()), node, locals)
}

/// The yielded types, by their models.
pub open spec fn pairs_result(r: Result<Vec<(Type, bool)>, String>) -> Result<Seq<(ClassModel, bool)>, ()> {
    match r {
        Ok(v) => Ok(v.deep_view()),
        Err(_) => Err(()),
    }
}

/// The types that are returned, in order.
pub open spec fn returned(ts: Seq<(ClassModel, bool)>) -> Seq<ClassModel>
    decreases ts.len(),
{
    if ts.len() == 0 {
        Seq::empty()
    } else if ts.last().1 {
        returned(ts.drop_last()).push(ts.last().0)
    } else {
        returned(ts.drop_last())
    }
}

/// Every type, marked as returned.
pub open spec fn as_returns(ts: Seq<ClassModel>) -> Seq<(ClassModel, bool)> {
    ts.map_values(|t: ClassModel| (t, true))
}

/// The type of an expression resolved on copies of it and of the
/// variables.
pub open spec fn typed(
    n: NodeModel,
    m: Seq<NodeModel>,
    c: ClassModel,
    k: Seq<ClassModel>,
    g: Seq<VarModel>,
    f: nat,
) -> Option<Result<ClassModel, ()>> {
    match expr_model(n, m, c, k, g, f) {
        None => None,
        Some(r) => Some(r.result),
    }
}

/// The class named by `kind` (flattened), which must be neither abstract
/// nor an interface, yielded as a value that is not returned.
pub open spec fn instantiable(kind: NodeModel, c: ClassModel, k: Seq<ClassModel>) -> Option<
    Result<Seq<(ClassModel, bool)>, ()>,
> {
    let kf = flatten(kind);
    if !kind_ok(kf) {
        None
    } else {
        match in_env_model(kf, c, k) {
            Err(_) => Some(Err(())),
            Ok(cls) => if cls.modifiers.contains(leaf_model(TokenKind::Abstract)) {
                Some(Err(()))
            } else if cls.kind == ClassOrInterface::INTERFACE {
                Some(Err(()))
            } else {
                Some(Ok(seq![(cls, false)]))
            },
        }
    }
}

/// A condition: its type must be `boolean`.
pub open spec fn condition_ok(t: ClassModel) -> bool {
    is_kind(t, TokenKind::Boolean)
}

/// A type whose name carries the constant `false`.
pub open spec fn is_false(t: ClassModel) -> bool {
    t.name.token.lexeme == Some("false"@)
}

/// Checking a statement, `f` deep: dispatched on its rule.
pub open spec fn nonblock_model(
    n: NodeModel,
    m: Seq<NodeModel>,
    c: ClassModel,
    k: Seq<ClassModel>,
    g: Seq<VarModel>,
    l: Seq<VarModel>,
    f: nat,
) -> Option<Checked>
    decreases f, 2int,
{
    let lex = n.token.lexeme;
    if f == 0 {
        failed(n, l)
    } else if lex == Some("ArrayCreationExpression"@) {
        creation_model(n, c, k, l)
    } else if lex == Some("ClassInstanceCreationExpression"@) {
        instance_model(n, m, c, k, g, l, f)
    } else if lex == Some("Assignment"@) {
        assignment_model(n, m, c, k, g, l, f)
    } else if lex == Some("Block"@) && n.children.len() == 3 {
        inner_block_model(n, m, c, k, g, l, f)
    } else if lex == Some("Block"@) {
        checked(Ok(Seq::empty()), n, l)
    } else if lex == Some("ForStatement"@) || lex == Some("ForStatementNoShortIf"@) {
        for_model(n, m, c, k, g + l, l, f)
    } else if lex == Some("IfStatement"@) || lex == Some("WhileStatement"@) || lex == Some(
        "WhileStatementNoShortIf"@,
    ) || lex == Some("IfElseStatement"@) || lex == Some("IfElseStatementNoShortIf"@) {
        branch_model(n, m, c, k, g + l, l, f)
    } else if lex == Some("LocalVariableDeclaration"@) {
        local_model(n, m, c, k, g, l, f)
    } else if lex == Some("MethodInvocation"@) {
        invocation_model(n, m, c, k, g, l, f)
    } else if lex == Some("PrimaryNoNewArray"@) {
        primary_model(n, m, c, k, g, l, f)
    } else if lex == Some("ReturnStatement"@) {
        return_model(n, m, c, k, g, l, f)
    } else {
        expression_model(n, m, c, k, g, l, f)
    }
}

/// `new T[..]` as a statement: `T` must be instantiable.
pub open spec fn creation_model(n: NodeModel, c: ClassModel, k: Seq<ClassModel>, l: Seq<VarModel>) -> Option<Checked> {
    if n.children.len() < 1 {
        None
    } else {
        match instantiable(n.children[0], c, k) {
            None => None,
            Some(r) => checked(r, n, l),
        }
    }
}

/// `new T(args)` as a statement: it must resolve, and `T` must be
/// instantiable.
pub open spec fn instance_model(
    n: NodeModel,
    m: Seq<NodeModel>,
    c: ClassModel,
    k: Seq<ClassModel>,
    g: Seq<VarModel>,
    l: Seq<VarModel>,
    f: nat,
) -> Option<Checked> {
    match typed(n, m, c, k, g + l, f) {
        None => None,
        Some(Err(_)) => failed(n, l),
        Some(Ok(_)) => creation_model(n, c, k, l),
    }
}

/// An assignment as a statement: it must resolve; it yields nothing.
pub open spec fn assignment_model(
    n: NodeModel,
    m: Seq<NodeModel>,
    c: ClassModel,
    k: Seq<ClassModel>,
    g: Seq<VarModel>,
    l: Seq<VarModel>,
    f: nat,
) -> Option<Checked> {
    match typed(n, m, c, k, g + l, f) {
        None => None,
        Some(Err(_)) => failed(n, l),
        Some(Ok(_)) => checked(Ok(Seq::empty()), n, l),
    }
}

/// `{ statements }`: the statements are checked in place, in a scope of
/// their own; what they return is returned.
pub open spec fn inner_block_model(
    n: NodeModel,
    m: Seq<NodeModel>,
    c: ClassModel,
    k: Seq<ClassModel>,
    g: Seq<VarModel>,
    l: Seq<VarModel>,
    f: nat,
) -> Option<Checked>
    decreases f, 0int,
{
    if f == 0 || n.children.len() < 2 {
        None
    } else {
        match block_model(n.children[1], m, c, k, g + l, (f - 1) as nat) {
            None => None,
            Some((r, b)) => checked(
                match r {
                    Ok(ts) => Ok(as_returns(ts)),
                    Err(_) => Err(()),
                },
                set_child(n, 1, b),
                l,
            ),
        }
    }
}

/// A local variable declaration as a statement: it yields nothing.
pub open spec fn local_model(
    n: NodeModel,
    m: Seq<NodeModel>,
    c: ClassModel,
    k: Seq<ClassModel>,
    g: Seq<VarModel>,
    l: Seq<VarModel>,
    f: nat,
) -> Option<Checked>
    decreases f, 1int,
{
    match declaration_model(n, m, c, k, g, l, f) {
        None => None,
        Some((r, l2)) => checked(
            match r {
                Ok(_) => Ok(Seq::empty()),
                Err(_) => Err(()),
            },
            n,
            l2,
        ),
    }
}

/// A method invocation as a statement: its type, resolved on a copy; for
/// `primary.name(args)` the primary is checked too.
pub open spec fn invocation_model(
    n: NodeModel,
    m: Seq<NodeModel>,
    c: ClassModel,
    k: Seq<ClassModel>,
    g: Seq<VarModel>,
    l: Seq<VarModel>,
    f: nat,
) -> Option<Checked>
    decreases f, 0int,
{
    if f == 0 {
        None
    } else {
        match typed(n, m, c, k, g + l, f) {
            None => None,
            Some(Err(_)) => failed(n, l),
            Some(Ok(t)) => if n.children.len() >= 5 {
                match nonblock_model(n.children[0], m, c, k, g, l, (f - 1) as nat) {
                    None => None,
                    Some(p) => match p.result {
                        Err(_) => failed(n, l),
                        Ok(_) => checked(Ok(seq![(t, false)]), n, l),
                    },
                }
            } else {
                checked(Ok(seq![(t, false)]), n, l)
            },
        }
    }
}

/// `( expression )`: the expression is checked on a copy.
pub open spec fn primary_model(
    n: NodeModel,
    m: Seq<NodeModel>,
    c: ClassModel,
    k: Seq<ClassModel>,
    g: Seq<VarModel>,
    l: Seq<VarModel>,
    f: nat,
) -> Option<Checked>
    decreases f, 0int,
{
    if f == 0 || n.children.len() < 2 {
        None
    } else {
        match nonblock_model(n.children[1], m, c, k, g, l, (f - 1) as nat) {
            None => None,
            Some(x) => checked(x.result, n, l),
        }
    }
}

/// `return e;`: `e` is checked on a copy, and its type is returned.
pub open spec fn return_model(
    n: NodeModel,
    m: Seq<NodeModel>,
    c: ClassModel,
    k: Seq<ClassModel>,
    g: Seq<VarModel>,
    l: Seq<VarModel>,
    f: nat,
) -> Option<Checked>
    decreases f, 0int,
{
    if f == 0 || n.children.len() < 2 {
        None
    } else {
        match nonblock_model(n.children[1], m, c, k, g, l, (f - 1) as nat) {
            None => None,
            Some(x) => match x.result {
                Err(_) => failed(n, l),
                Ok(_) => match typed(x.node, m, c, k, g + l, f) {
                    None => None,
                    Some(Err(_)) => failed(n, l),
                    Some(Ok(t)) => checked(Ok(seq![(t, true)]), n, l),
                },
            },
        }
    }
}

/// Any other statement: an expression, resolved in place.
pub open spec fn expression_model(
    n: NodeModel,
    m: Seq<NodeModel>,
    c: ClassModel,
    k: Seq<ClassModel>,
    g: Seq<VarModel>,
    l: Seq<VarModel>,
    f: nat,
) -> Option<Checked> {
    match expr_model(n, m, c, k, g + l, f) {
        None => None,
        Some(r) => checked(
            match r.result {
                Ok(t) => Ok(seq![(t, false)]),
                Err(_) => Err(()),
            },
            r.node,
            l,
        ),
    }
}

/// A `for` statement, with the variables `bg` of the enclosing block: the
/// initializer, the condition (a `boolean` that is not the constant
/// `false`), the update and the body are checked on copies, in a scope of
/// their own.
pub open spec fn for_model(
    n: NodeModel,
    m: Seq<NodeModel>,
    c: ClassModel,
    k: Seq<ClassModel>,
    bg: Seq<VarModel>,
    l: Seq<VarModel>,
    f: nat,
) -> Option<Checked>
    decreases f, 0int,
{
    if n.children.len() < 3 || f == 0 {
        None
    } else {
        match nonblock_model(n.children[2], m, c, k, bg, Seq::empty(), (f - 1) as nat) {
            None => None,
            Some(init) => match init.result {
                Err(_) => failed(n, l),
                Ok(_) => {
                    let ci = if n.children[2].token.kind != TokenKind::Semicolon {
                        4int
                    } else {
                        3int
                    };
                    if n.children.len() <= ci {
                        None
                    } else {
                        match nonblock_model(n.children[ci], m, c, k, bg, init.locals, (f - 1) as nat) {
                            None => None,
                            Some(cond) => match cond.result {
                                Err(_) => failed(n, l),
                                Ok(ts) => if ts.len() != 1 || ts[0].0.name.token.kind != TokenKind::Boolean
                                    || is_false(ts[0].0) {
                                    failed(n, l)
                                } else {
                                    let update = n.children[n.children.len() - 3];
                                    let after_update = if update.token.kind != TokenKind::Semicolon {
                                        match nonblock_model(update, m, c, k, bg, cond.locals, (f - 1) as nat) {
                                            None => None,
                                            Some(u) => match u.result {
                                                Err(_) => Some(None),
                                                Ok(_) => Some(Some(u.locals)),
                                            },
                                        }
                                    } else {
                                        Some(Some(cond.locals))
                                    };
                                    match after_update {
                                        None => None,
                                        Some(None) => failed(n, l),
                                        Some(Some(l3)) => match nonblock_model(
                                            n.children.last(),
                                            m,
                                            c,
                                            k,
                                            bg,
                                            l3,
                                            (f - 1) as nat,
                                        ) {
                                            None => None,
                                            Some(body) => match body.result {
                                                Err(_) => failed(n, l),
                                                Ok(_) => checked(Ok(Seq::empty()), n, l),
                                            },
                                        },
                                    }
                                },
                            },
                        }
                    }
                },
            },
        }
    }
}

/// `if`, `while` and `if`-`else`, with the variables `bg` of the enclosing
/// block: the condition must be a `boolean` (for `while`, not the constant
/// `false`); the branches are checked in place, in scopes of their own.
pub open spec fn branch_model(
    n: NodeModel,
    m: Seq<NodeModel>,
    c: ClassModel,
    k: Seq<ClassModel>,
    bg: Seq<VarModel>,
    l: Seq<VarModel>,
    f: nat,
) -> Option<Checked>
    decreases f, 0int,
{
    let lex = n.token.lexeme;
    let is_while = lex == Some("WhileStatement"@) || lex == Some("WhileStatementNoShortIf"@);
    let is_else = lex == Some("IfElseStatement"@) || lex == Some("IfElseStatementNoShortIf"@);
    if n.children.len() < 3 || f == 0 {
        None
    } else {
        match typed(n.children[2], m, c, k, bg, f) {
            None => None,
            Some(Err(_)) => failed(n, l),
            Some(Ok(t)) => if !condition_ok(t) || (is_while && is_false(t)) {
                failed(n, l)
            } else if n.children.len() < 5 {
                None
            } else {
                match nonblock_model(n.children[4], m, c, k, bg, Seq::empty(), (f - 1) as nat) {
                    None => None,
                    Some(a) => {
                        let n1 = set_child(n, 4, a.node);
                        match a.result {
                            Err(_) => failed(n1, l),
                            Ok(_) => if !is_else {
                                checked(Ok(Seq::empty()), n1, l)
                            } else if n1.children.len() < 7 {
                                None
                            } else {
                                match nonblock_model(n1.children[6], m, c, k, bg, Seq::empty(), (f - 1) as nat) {
                                    None => None,
                                    Some(b) => {
                                        let n2 = set_child(n1, 6, b.node);
                                        match b.result {
                                            Err(_) => failed(n2, l),
                                            Ok(_) => checked(Ok(Seq::empty()), n2, l),
                                        }
                                    },
                                }
                            },
                        }
                    },
                }
            },
        }
    }
}

/// A local variable declaration: the name must not be taken by a variable
/// of an enclosing or of this scope; an initializer is checked and must be
/// assignable to the declared type; the variable is added, and its type
/// must resolve.
pub open spec fn declaration_model(
    n: NodeModel,
    m: Seq<NodeModel>,
    c: ClassModel,
    k: Seq<ClassModel>,
    g: Seq<VarModel>,
    l: Seq<VarModel>,
    f: nat,
) -> Option<(Result<(), ()>, Seq<VarModel>)>
    decreases f, 0int,
{
    if !var_node_ok(n) || f == 0 {
        None
    } else {
        let new = var_new(n);
        if first_named_var(g, new.name, 0) is Some || first_named_var(l, new.name, 0) is Some {
            Some((Err(()), l))
        } else if n.children[1].token.kind == TokenKind::Assignment {
            if n.children[1].children.len() < 2 {
                None
            } else {
                match nonblock_model(n.children[1].children[1], m, c, k, g, l, (f - 1) as nat) {
                    None => None,
                    Some(x) => match x.result {
                        Err(_) => Some((Err(()), x.locals)),
                        Ok(_) => if !kind_ok(new.kind) {
                            None
                        } else {
                            match in_env_model(new.kind, c, k) {
                                Err(_) => Some((Err(()), x.locals)),
                                Ok(lt) => match typed(x.node, m, c, k, g + x.locals, f) {
                                    None => None,
                                    Some(Err(_)) => Some((Err(()), x.locals)),
                                    Some(Ok(rt)) => if assign_model(lt, rt, c, k) is Err {
                                        Some((Err(()), x.locals))
                                    } else {
                                        add_local(new, x.locals, c, k)
                                    },
                                },
                            }
                        },
                    },
                }
            }
        } else {
            add_local(new, l, c, k)
        }
    }
}

/// The variable added to the locals, and whether its type resolves.
pub open spec fn add_local(new: VarModel, l: Seq<VarModel>, c: ClassModel, k: Seq<ClassModel>) -> Option<
    (Result<(), ()>, Seq<VarModel>),
> {
    Some(
        (
            if resolveable_model(new.kind, c, k) {
                Ok(())
            } else {
                Err(())
            },
            l.push(new),
        ),
    )
}

/// Checking a block, `f` deep: the types it returns and the block as
/// rewritten. A list of statements is flattened and checked in turn in a
/// scope of its own (yielding `null` when nothing is returned); a `Block`
/// is checked as a statement; any other statement as a list of one.
pub open spec fn block_model(
    n: NodeModel,
    m: Seq<NodeModel>,
    c: ClassModel,
    k: Seq<ClassModel>,
    g: Seq<VarModel>,
    f: nat,
) -> Option<(Result<Seq<ClassModel>, ()>, NodeModel)>
    decreases f, 0int,
{
    if f == 0 {
        None
    } else if n.token.lexeme == Some("BlockStatements"@) {
        let nf = flatten(n);
        match block_from(nf.children, 0, m, c, k, g, Seq::empty(), Seq::empty(), (f - 1) as nat) {
            None => None,
            Some(r) => Some((r, nf)),
        }
    } else if n.token.lexeme == Some("Block"@) {
        match nonblock_model(n, m, c, k, g, Seq::empty(), (f - 1) as nat) {
            None => None,
            Some(x) => Some(
                (
                    match x.result {
                        Ok(ts) => Ok(returned(ts)),
                        Err(_) => Err(()),
                    },
                    n,
                ),
            ),
        }
    } else {
        match block_from(seq![n], 0, m, c, k, g, Seq::empty(), Seq::empty(), (f - 1) as nat) {
            None => None,
            Some(r) => Some((r, n)),
        }
    }
}

/// The statements `cs` from the `i`th on, each checked on a copy with the
/// locals `l` so far, after the returned types `acc`.
pub open spec fn block_from(
    cs: Seq<NodeModel>,
    i: int,
    m: Seq<NodeModel>,
    c: ClassModel,
    k: Seq<ClassModel>,
    g: Seq<VarModel>,
    l: Seq<VarModel>,
    acc: Seq<ClassModel>,
    f: nat,
) -> Option<Result<Seq<ClassModel>, ()>>
    decreases f, 3 + cs.len() - i,
{
    if i < 0 || i >= cs.len() {
        Some(
            Ok(
                if acc.len() == 0 {
                    seq![prim(TokenKind::Null)]
                } else {
                    acc
                },
            ),
        )
    } else {
        match nonblock_model(cs[i], m, c, k, g, l, f) {
            None => None,
            Some(x) => match x.result {
                Err(_) => Some(Err(())),
                Ok(ts) => block_from(cs, i + 1, m, c, k, g, x.locals, acc + returned(ts), f),
            },
        }
    }
}


/// The variables of two scopes together are well-formed.
pub proof fn lemma_joined_ok(g: Seq<VarModel>, l: Seq<VarModel>)
    requires
        vars_ok(g),
        vars_ok(l),
    ensures
        vars_ok(g + l),
{
    assert forall|i: int| 0 <= i < (g + l).len() implies type_ok(#[trigger] (g + l)[i].kind) && type_ok(
        (g + l)[i].name,
    ) by {
        if i < g.len() {
            assert((g + l)[i] == g[i]);
        } else {
            assert((g + l)[i] == l[i - g.len()]);
        }
    }
}

/// A variable read from a well-formed declaration has well-formed names.
pub proof fn lemma_var_new_ok(n: NodeModel)
    requires
        type_ok(n),
        var_node_ok(n),
    ensures
        type_ok(var_new(n).kind),
        type_ok(var_new(n).name),
{
    lemma_types_ok(n.children);
    let x = n.children[0];
    assert(type_ok(x));
    lemma_type_ok_flatten(x);
    let kf = flatten(x);
    if kf.token.lexeme == Some("ArrayType"@) {
        lemma_types_ok(kf.children);
        assert(type_ok(kf.children[0]));
        lemma_type_ok_flatten(kf.children[0]);
        let a = NodeModel { token: kf.token, children: seq![flatten(kf.children[0])] };
        lemma_types_ok(a.children);
        lemma_type_ok_of_children(a);
        assert(normal_kind(x) == a);
    }
    let y = n.children[1];
    assert(type_ok(y));
    let d = declared(y);
    if y.token.kind == TokenKind::Assignment {
        lemma_types_ok(y.children);
        assert(type_ok(y.children[0]));
    }
    assert(type_ok(d));
    if !(d.token.lexeme == Some("ArrayType"@) || d.token.lexeme == Some("Name"@)) {
        let w = rule_model("Name"@, seq![d]);
        lemma_types_ok(w.children);
        lemma_type_ok_of_children(w);
    }
}

} // verus!
