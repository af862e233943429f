//! Laws of the type checker: what loops, comparisons, overload selection,
//! type lookup and assignment promise, stated over their inputs.
use vstd::prelude::*;

use crate::analysis::environment::classorinterface::{ClassModel, ClassOrInterface};
use crate::analysis::environment::method::MethodModel;
use crate::analysis::environment::variable::VarModel;
use crate::analysis::types::lookup::class::{
    imports_clash, lookup_model, scan_named, single_import_of, step0_from, step2_from,
};
use crate::analysis::types::lookup::method::{params_distance, select_from, select_model};
use crate::analysis::types::obj::{assign_model, comparison_model, edit_model, is_kind, lexeme_value};
use crate::analysis::types::lookup::class::in_env_model;
use crate::analysis::types::verify::method::model::{branch_model, for_model, nonblock_model, typed};
use crate::analysis::types::resolve::model::set_child;
use crate::ast::{leaf_model, NodeModel};
use crate::tokens::TokenKind;

verus! {

// ----- loops -----

/// A `for` statement whose body is refused, in whatever scope of local
/// variables it is checked, is refused: the statement check never accepts
/// a loop without checking its body.
pub proof fn for_refuses_refused_body(
    n: NodeModel,
    m: Seq<NodeModel>,
    c: ClassModel,
    k: Seq<ClassModel>,
    bg: Seq<VarModel>,
    l: Seq<VarModel>,
    f: nat,
)
    requires
        forall|s: Seq<VarModel>|
            !(#[trigger] nonblock_model(n.children.last(), m, c, k, bg, s, (f - 1) as nat) matches Some(x)
                && x.result is Ok),
    ensures
        !(for_model(n, m, c, k, bg, l, f) matches Some(x) && x.result is Ok),
{
    if n.children.len() >= 3 && f > 0 {
        match nonblock_model(n.children[2], m, c, k, bg, Seq::empty(), (f - 1) as nat) {
            Some(init) => if init.result is Ok {
                let ci = if n.children[2].token.kind != TokenKind::Semicolon {
                    4int
                } else {
                    3int
                };
                if n.children.len() > ci {
                    match nonblock_model(n.children[ci], m, c, k, bg, init.locals, (f - 1) as nat) {
                        Some(cond) => if cond.result is Ok {
                            let update = n.children[n.children.len() - 3];
                            if update.token.kind != TokenKind::Semicolon {
                                match nonblock_model(update, m, c, k, bg, cond.locals, (f - 1) as nat) {
                                    Some(u) => if u.result is Ok {
                                        let body = nonblock_model(n.children.last(), m, c, k, bg, u.locals, (f - 1) as nat);
                                        assert(!(body matches Some(x) && x.result is Ok));
                                    },
                                    None => {},
                                }
                            } else {
                                let body = nonblock_model(n.children.last(), m, c, k, bg, cond.locals, (f - 1) as nat);
                                assert(!(body matches Some(x) && x.result is Ok));
                            }
                        },
                        None => {},
                    }
                }
            },
            None => {},
        }
    }
}

/// A `for` statement whose initializer is refused is refused.
pub proof fn for_refuses_refused_initializer(
    n: NodeModel,
    m: Seq<NodeModel>,
    c: ClassModel,
    k: Seq<ClassModel>,
    bg: Seq<VarModel>,
    l: Seq<VarModel>,
    f: nat,
)
    requires
        nonblock_model(n.children[2], m, c, k, bg, Seq::empty(), (f - 1) as nat) matches Some(x) && x.result is Err,
    ensures
        !(for_model(n, m, c, k, bg, l, f) matches Some(x) && x.result is Ok),
{
}

/// An `if`, `if`-`else` or `while` whose condition is not a `boolean`, or
/// whose first branch (or loop body) is refused, is refused; so is an
/// `if`-`else` whose `else` branch is refused.
pub proof fn branch_refuses_refused_parts(
    n: NodeModel,
    m: Seq<NodeModel>,
    c: ClassModel,
    k: Seq<ClassModel>,
    bg: Seq<VarModel>,
    l: Seq<VarModel>,
    f: nat,
)
    ensures
        typed(n.children[2], m, c, k, bg, f) matches Some(Ok(t)) && !is_kind(t, TokenKind::Boolean) ==> !(branch_model(
            n,
            m,
            c,
            k,
            bg,
            l,
            f,
        ) matches Some(x) && x.result is Ok),
        nonblock_model(n.children[4], m, c, k, bg, Seq::empty(), (f - 1) as nat) matches Some(x) && x.result is Err
            ==> !(branch_model(n, m, c, k, bg, l, f) matches Some(x) && x.result is Ok),
        (n.token.lexeme == Some("IfElseStatement"@) || n.token.lexeme == Some("IfElseStatementNoShortIf"@))
            && n.children.len() >= 7 && (nonblock_model(n.children[6], m, c, k, bg, Seq::empty(), (f - 1) as nat) matches Some(
            x,
        ) && x.result is Err) ==> !(branch_model(n, m, c, k, bg, l, f) matches Some(x) && x.result is Ok),
{
    if n.children.len() >= 7 {
        assert forall|x: NodeModel| #[trigger] set_child(n, 4, x).children[6] == n.children[6] by {}
    }
}

// ----- comparisons -----

/// The comparison of two `int` constants is a `boolean` constant, `true`
/// exactly when the integers are in the relation the operator names.
pub proof fn comparison_folds_by_order(
    a: ClassModel,
    op: TokenKind,
    b: ClassModel,
    current: ClassModel,
    kinds: Seq<ClassModel>,
    x: i32,
    y: i32,
)
    requires
        is_kind(a, TokenKind::Int),
        is_kind(b, TokenKind::Int),
        lexeme_value(a.name) == Some(x),
        lexeme_value(b.name) == Some(y),
        op == TokenKind::Equality || op == TokenKind::NotEqual || op == TokenKind::LessThan || op
            == TokenKind::LessThanOrEqual || op == TokenKind::GreaterThan || op == TokenKind::GreaterThanOrEqual,
    ensures
        comparison_model(a, op, b, current, kinds) matches Ok(t) && t.name.token.kind == TokenKind::Boolean && (
        t.name.token.lexeme == Some("true"@) || t.name.token.lexeme == Some("false"@)),
        op == TokenKind::Equality ==> (comparison_model(a, op, b, current, kinds)->Ok_0.name.token.lexeme == Some(
            "true"@,
        ) <==> x == y),
        op == TokenKind::NotEqual ==> (comparison_model(a, op, b, current, kinds)->Ok_0.name.token.lexeme == Some(
            "true"@,
        ) <==> x != y),
        op == TokenKind::LessThan ==> (comparison_model(a, op, b, current, kinds)->Ok_0.name.token.lexeme == Some(
            "true"@,
        ) <==> x < y),
        op == TokenKind::LessThanOrEqual ==> (comparison_model(a, op, b, current, kinds)->Ok_0.name.token.lexeme
            == Some("true"@) <==> x <= y),
        op == TokenKind::GreaterThan ==> (comparison_model(a, op, b, current, kinds)->Ok_0.name.token.lexeme == Some(
            "true"@,
        ) <==> x > y),
        op == TokenKind::GreaterThanOrEqual ==> (comparison_model(a, op, b, current, kinds)->Ok_0.name.token.lexeme
            == Some("true"@) <==> x >= y),
{
    reveal_strlit("true");
    reveal_strlit("false");
    assert("true"@ != "false"@) by {
        assert("true"@.len() != "false"@.len());
    }
}

// ----- overload selection -----

/// Each argument fits its parameter: every parameter type resolves, and
/// the argument can be passed to it (its edit distance is not `u32::MAX`).
pub open spec fn applicable(m: MethodModel, args: Seq<ClassModel>, cls: ClassModel, kinds: Seq<ClassModel>) -> bool {
    &&& m.parameters.len() == args.len()
    &&& forall|i: int|
        0 <= i < args.len() ==> (in_env_model(#[trigger] m.parameters[i].kind, cls, kinds) matches Ok(p) && (
        edit_model(p, args[i], cls, kinds) matches Ok(ed) && ed < u32::MAX))
}

/// A total distance below `u32::MAX` from the `j`th parameter on means that
/// each of those parameters fits its argument.
proof fn lemma_distance_fits(
    params: Seq<VarModel>,
    args: Seq<ClassModel>,
    cls: ClassModel,
    kinds: Seq<ClassModel>,
    j: int,
    acc: nat,
)
    requires
        0 <= j,
        acc <= u32::MAX,
    ensures
        params_distance(params, args, cls, kinds, j, acc) matches Some(Ok(d)) ==> d >= acc && (d < u32::MAX
            ==> forall|i: int|
            j <= i < params.len() ==> (in_env_model(#[trigger] params[i].kind, cls, kinds) matches Ok(p) && (
            edit_model(p, args[i], cls, kinds) matches Ok(ed) && ed < u32::MAX))),
    decreases params.len() - j,
{
    if j < params.len() {
        match in_env_model(params[j].kind, cls, kinds) {
            Err(_) => {},
            Ok(p) => match edit_model(p, args[j], cls, kinds) {
                Err(_) => {},
                Ok(ed) => if ed == u32::MAX {
                    lemma_distance_fits(params, args, cls, kinds, j + 1, ed);
                } else if acc + ed > u32::MAX {
                } else {
                    lemma_distance_fits(params, args, cls, kinds, j + 1, acc + ed);
                },
            },
        }
    }
}

/// The scan keeps as its best choice only methods that fit the arguments.
proof fn lemma_select_from_applicable(
    methods: Seq<MethodModel>,
    args: Seq<ClassModel>,
    cls: ClassModel,
    kinds: Seq<ClassModel>,
    i: int,
    best: Option<MethodModel>,
    distance: nat,
)
    requires
        0 <= i,
        best is Some && distance < u32::MAX ==> applicable(best->Some_0, args, cls, kinds) && methods.contains(
            best->Some_0,
        ),
    ensures
        select_from(methods, args, cls, kinds, i, best, distance) matches Some(Ok((b, d))) ==> d <= distance && (b
            is Some && d < u32::MAX ==> applicable(b->Some_0, args, cls, kinds) && methods.contains(b->Some_0)),
    decreases methods.len() - i,
{
    if i < methods.len() {
        let m = methods[i];
        assert(methods.contains(m));
        if m.parameters.len() != args.len() {
            lemma_select_from_applicable(methods, args, cls, kinds, i + 1, best, distance);
        } else if m.parameters.len() == 0 {
            if distance == 0 {
                lemma_select_from_applicable(methods, args, cls, kinds, i + 1, None, 0);
            } else {
                lemma_select_from_applicable(methods, args, cls, kinds, i + 1, Some(m), 0);
            }
        } else {
            match params_distance(m.parameters, args, cls, kinds, 0, 0) {
                Some(Ok(md)) => {
                    lemma_distance_fits(m.parameters, args, cls, kinds, 0, 0);
                    if md == u32::MAX {
                        lemma_select_from_applicable(methods, args, cls, kinds, i + 1, best, distance);
                    } else if md == distance {
                        lemma_select_from_applicable(methods, args, cls, kinds, i + 1, None, distance);
                    } else if md < distance {
                        lemma_select_from_applicable(methods, args, cls, kinds, i + 1, Some(m), md);
                    } else {
                        lemma_select_from_applicable(methods, args, cls, kinds, i + 1, best, distance);
                    }
                },
                _ => {},
            }
        }
    }
}

/// The method selected for a call is one of the candidates and fits the
/// call: as many parameters as arguments, and each argument can be passed
/// to its parameter. A method with a parameter its argument cannot be
/// passed to is never selected.
pub proof fn selected_method_fits(
    methods: Seq<MethodModel>,
    args: Seq<ClassModel>,
    cls: ClassModel,
    kinds: Seq<ClassModel>,
)
    ensures
        select_model(methods, args, cls, kinds) matches Some(Ok(m)) ==> methods.contains(m) && applicable(
            m,
            args,
            cls,
            kinds,
        ),
{
    lemma_select_from_applicable(methods, args, cls, kinds, 0, None, u32::MAX as nat);
}

// ----- type lookup -----

/// No type has the name `n`: step 0 does not apply.
proof fn lemma_step0_none(n: NodeModel, current: ClassModel, kinds: Seq<ClassModel>, i: int)
    requires
        0 <= i,
        forall|j: int| 0 <= j < kinds.len() ==> (#[trigger] kinds[j]).name != n,
    ensures
        step0_from(n, current, kinds, i) is None,
    decreases kinds.len() - i,
{
    if i < kinds.len() {
        lemma_step0_none(n, current, kinds, i + 1);
    }
}

/// The scan for a name that exactly one type has finds that type.
proof fn lemma_scan_unique(kinds: Seq<ClassModel>, name: NodeModel, i: int, found: Option<ClassModel>, idx: int)
    requires
        0 <= i,
        0 <= idx < kinds.len(),
        kinds[idx].name == name,
        forall|x: int| 0 <= x < kinds.len() && (#[trigger] kinds[x]).name == name ==> x == idx,
        i <= idx ==> found is None,
        i > idx ==> found == Some(kinds[idx]),
    ensures
        scan_named(kinds, name, i, found) == Ok::<Option<ClassModel>, ()>(Some(kinds[idx])),
    decreases kinds.len() - i,
{
    if i < kinds.len() {
        if kinds[i].name == name {
            lemma_scan_unique(kinds, name, i + 1, Some(kinds[i]), idx);
        } else {
            lemma_scan_unique(kinds, name, i + 1, found, idx);
        }
    }
}

/// Step 2 from the `t`th import on finds what the single-type import at
/// `j` imports, where every single-type import of the name is that one.
proof fn lemma_step2_finds(n: NodeModel, current: ClassModel, kinds: Seq<ClassModel>, t: int, j: int)
    requires
        0 <= t <= j < current.imports.len(),
        single_import_of(current.imports[j], n),
        forall|i: int|
            0 <= i < current.imports.len() && single_import_of(#[trigger] current.imports[i], n)
                ==> current.imports[i] == current.imports[j],
    ensures
        step2_from(n, current, kinds, t) == match scan_named(kinds, current.imports[j], 0, None) {
            Ok(Some(k)) => Some(Ok::<ClassModel, ()>(k)),
            _ => Some(Err(())),
        },
    decreases j - t,
{
    if !single_import_of(current.imports[t], n) {
        lemma_step2_finds(n, current, kinds, t + 1, j);
    }
}

/// A simple name that a single-type import of the current type names (with
/// no other single-type import of that name to clash with it), and that is
/// neither a canonical type name nor the current type's own simple name,
/// resolves to the one type the import names, whatever types of that simple
/// name the current package or on-demand imports hold.
pub proof fn single_import_decides(
    n: NodeModel,
    current: ClassModel,
    kinds: Seq<ClassModel>,
    j: int,
    idx: int,
)
    requires
        forall|x: int| 0 <= x < kinds.len() ==> (#[trigger] kinds[x]).name != n,
        !(current.name.children.len() > 0 && current.name.children.last() == n),
        0 <= j < current.imports.len(),
        single_import_of(current.imports[j], n),
        !imports_clash(n, current),
        0 <= idx < kinds.len(),
        kinds[idx].name == current.imports[j],
        forall|x: int| 0 <= x < kinds.len() && (#[trigger] kinds[x]).name == current.imports[j] ==> x == idx,
    ensures
        lookup_model(n, current, kinds) == Ok::<ClassModel, ()>(kinds[idx]),
{
    lemma_step0_none(n, current, kinds, 0);
    assert forall|i: int|
        0 <= i < current.imports.len() && single_import_of(#[trigger] current.imports[i], n) implies current.imports[i]
        == current.imports[j] by {
        if current.imports[i] != current.imports[j] {
            if i < j {
                assert(single_import_of(current.imports[i], n) && single_import_of(current.imports[j], n)
                    && current.imports[i] != current.imports[j]);
            } else {
                assert(single_import_of(current.imports[j], n) && single_import_of(current.imports[i], n)
                    && current.imports[j] != current.imports[i]);
            }
        }
    }
    lemma_step2_finds(n, current, kinds, 0, j);
    lemma_scan_unique(kinds, current.imports[j], 0, None, idx);
}

/// A simple name that is no canonical type name but is the current type's
/// own simple name resolves to the current type, whatever imports or types
/// of the package say.
pub proof fn own_name_decides(n: NodeModel, current: ClassModel, kinds: Seq<ClassModel>)
    requires
        forall|x: int| 0 <= x < kinds.len() ==> (#[trigger] kinds[x]).name != n,
        current.name.children.len() > 0,
        current.name.children.last() == n,
    ensures
        lookup_model(n, current, kinds) == Ok::<ClassModel, ()>(current),
{
    lemma_step0_none(n, current, kinds, 0);
}

// ----- assignment -----

/// Between the primitive value types, assignment only widens: a `byte`
/// takes a `byte`, a `short` a `byte` or a `short`, a `char` a `char`, an
/// `int` any numeric type, and a `boolean` a `boolean`; nothing else is
/// assignable (an `int` is never assignable to a `byte`, nor a number to a
/// `boolean`).
pub proof fn numeric_assignment_only_widens(
    ka: TokenKind,
    kb: TokenKind,
    a: ClassModel,
    b: ClassModel,
    current: ClassModel,
    kinds: Seq<ClassModel>,
)
    requires
        a.name == leaf_model(ka),
        b.name == leaf_model(kb),
        ka == TokenKind::Byte || ka == TokenKind::Short || ka == TokenKind::Char || ka == TokenKind::Int || ka
            == TokenKind::Boolean,
        kb == TokenKind::Byte || kb == TokenKind::Short || kb == TokenKind::Char || kb == TokenKind::Int || kb
            == TokenKind::Boolean,
    ensures
        assign_model(a, b, current, kinds) is Ok <==> (ka == kb || (ka == TokenKind::Short && kb == TokenKind::Byte)
            || (ka == TokenKind::Int && kb != TokenKind::Boolean)),
{
    let l = in_env_model(a.name, current, kinds);
    let r = in_env_model(b.name, current, kinds);
    assert(l == Ok::<ClassModel, ()>(crate::analysis::environment::classorinterface::class_new(
        leaf_model(ka),
        ClassOrInterface::CLASS,
    )));
    assert(r == Ok::<ClassModel, ()>(crate::analysis::environment::classorinterface::class_new(
        leaf_model(kb),
        ClassOrInterface::CLASS,
    )));
    let lc = l->Ok_0;
    let rc = r->Ok_0;
    assert(rc.extends + rc.implements =~= Seq::<NodeModel>::empty());
    assert(crate::analysis::types::obj::push_lookups(
        Seq::<ClassModel>::empty(),
        rc.extends + rc.implements,
        rc,
        kinds,
    ) == Ok::<Seq<ClassModel>, ()>(Seq::<ClassModel>::empty()));
    assert(crate::analysis::types::obj::parent_walk(
        lc.name,
        Seq::<ClassModel>::empty(),
        kinds,
        (crate::analysis::types::obj::WALK_LIMIT - 1) as nat,
    ) is None);
    assert(seq![rc].drop_last() =~= Seq::<ClassModel>::empty());
}

} // verus!
