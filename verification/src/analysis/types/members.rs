//! Checking the members of every type: constructors, fields and methods,
//! their parameters and their bodies.
use vstd::prelude::*;

use crate::analysis::environment::classorinterface::{ClassModel, ClassOrInterfaceEnvironment};
use crate::analysis::environment::field::FieldModel;
use crate::analysis::environment::method::{MethodEnvironment, MethodModel};
use crate::analysis::environment::variable::{VarModel, VariableEnvironment};
use crate::analysis::types::lookup::class::{canonical_check, deep_ok, in_env, in_env_model, lemma_in_env_deep_ok, lemma_world_env, method_ok, vars_ok, world_ok};
use crate::analysis::types::obj::{assign_model, is_kind, prim_type, Type};
use crate::analysis::types::resolve::expression::go as resolve;
use crate::analysis::types::resolve::methodinvocation::all_deep;
use crate::analysis::types::resolve::model::expr_model;
use crate::analysis::types::verify::method::model::block_model;
use crate::analysis::types::verify::method::statement::block;
use crate::analysis::types::verify::prefixes::canonical;
use crate::ast::{contains_node, ident_model, kind_ok, leaf_model, lemma_model_children, lemma_type_ok_arr_ok, rule_model, type_ok, ASTNode, NodeModel};
use crate::text::note;
use crate::tokens::TokenKind;

verus! {

/// How deep expressions and statements of a body are followed.
pub const BODY_DEPTH: u32 = 4294967295;

/// The bodies and initial values that a class carries are well-formed.
pub open spec fn bodies_ok(c: ClassModel) -> bool {
    &&& forall|i: int|
        0 <= i < c.constructors.len() ==> ((#[trigger] c.constructors[i]).body matches Some(b) ==> type_ok(b))
    &&& forall|i: int| 0 <= i < c.methods.len() ==> ((#[trigger] c.methods[i]).body matches Some(b) ==> type_ok(b))
    &&& forall|i: int| 0 <= i < c.fields.len() ==> ((#[trigger] c.fields[i]).value matches Some(v) ==> type_ok(v))
}

/// A class is well-formed, its members and bodies included.
pub open spec fn class_wf(c: ClassModel) -> bool {
    deep_ok(c) && bodies_ok(c)
}

/// Every type of a program is well-formed, members and bodies included.
pub open spec fn program_wf(ks: Seq<ClassModel>) -> bool {
    forall|i: int| 0 <= i < ks.len() ==> class_wf(#[trigger] ks[i])
}

/// The `j`th parameter has the name of an earlier one.
pub open spec fn dup_before(ps: Seq<VarModel>, j: int) -> bool {
    exists|k: int| 0 <= k < j && ps[k].name == ps[j].name
}

/// The parameters from the `j`th on: none is named like an earlier one,
/// and no strict prefix of a parameter's type names a type.
pub open spec fn params_ok(ps: Seq<VarModel>, j: int, cur: ClassModel, kinds: Seq<ClassModel>) -> bool
    decreases ps.len() - j,
{
    if j < 0 || j >= ps.len() {
        true
    } else if dup_before(ps, j) || canonical_check(ps[j].kind, cur, kinds) is Err {
        false
    } else {
        params_ok(ps, j + 1, cur, kinds)
    }
}

/// Each returned type can be assigned to `target`.
pub open spec fn all_assignable(target: ClassModel, rts: Seq<ClassModel>, c: ClassModel, k: Seq<ClassModel>) -> bool {
    forall|i: int| 0 <= i < rts.len() ==> assign_model(target, #[trigger] rts[i], c, k) is Ok
}

/// A constructor of `cur`: its parameters are checked, its name is the last
/// part of the class's name, and what its body returns can be assigned to
/// the class.
pub open spec fn ctor_model(ctor: MethodModel, cur: ClassModel, kinds: Seq<ClassModel>, f: nat) -> Option<
    Result<(), ()>,
> {
    if !params_ok(ctor.parameters, 0, cur, kinds) {
        Some(Err(()))
    } else if cur.name.children.len() == 0 {
        None
    } else if ctor.name != cur.name.children.last() {
        Some(Err(()))
    } else {
        match ctor.body {
            None => None,
            Some(b) => match block_model(b, ctor.modifiers, cur, kinds, ctor.parameters, f) {
                None => None,
                Some((Err(_), _)) => Some(Err(())),
                Some((Ok(rts), _)) => Some(
                    if all_assignable(cur, rts, cur, kinds) {
                        Ok(())
                    } else {
                        Err(())
                    },
                ),
            },
        }
    }
}

/// The constructors of `cur` from the `i`th on, checked in turn.
pub open spec fn ctors_from(cs: Seq<MethodModel>, i: int, cur: ClassModel, kinds: Seq<ClassModel>, f: nat) -> Option<
    Result<(), ()>,
>
    decreases cs.len() - i,
{
    if i < 0 || i >= cs.len() {
        Some(Ok(()))
    } else {
        match ctor_model(cs[i], cur, kinds, f) {
            None => None,
            Some(Err(_)) => Some(Err(())),
            Some(Ok(_)) => ctors_from(cs, i + 1, cur, kinds, f),
        }
    }
}

/// The types of the program other than the one named `name`, in order.
pub open spec fn others(kinds: Seq<ClassModel>, name: NodeModel) -> Seq<ClassModel>
    decreases kinds.len(),
{
    if kinds.len() == 0 {
        Seq::empty()
    } else if kinds.last().name != name {
        others(kinds.drop_last(), name).push(kinds.last())
    } else {
        others(kinds.drop_last(), name)
    }
}

/// The fields `fs` from the `i`th on, each checked seen from `builder` (the
/// class with the fields checked so far) among `eb` and `builder`: no
/// strict prefix of its type names a type, and an initial value is
/// resolved (in place) and must be assignable to the field's type. The
/// fields as they are afterwards.
pub open spec fn fields_from(
    fs: Seq<FieldModel>,
    i: int,
    builder: ClassModel,
    eb: Seq<ClassModel>,
    f: nat,
) -> Option<(Result<(), ()>, Seq<FieldModel>)>
    decreases fs.len() - i,
{
    if i < 0 || i >= fs.len() {
        Some((Ok(()), fs))
    } else {
        let fld = fs[i];
        let eb1 = eb.push(builder);
        if canonical_check(fld.kind, builder, eb1) is Err {
            Some((Err(()), fs))
        } else {
            match fld.value {
                None => fields_from(fs, i + 1, builder, eb1, f),
                Some(v) => match expr_model(v, fld.modifiers, builder, eb1, Seq::empty(), f) {
                    None => None,
                    Some(r) => match r.result {
                        Err(_) => Some((Err(()), fs)),
                        Ok(t) => {
                            let fs2 = fs.update(i, FieldModel { value: Some(r.node), ..fld });
                            if !kind_ok(fld.kind) {
                                None
                            } else {
                                match in_env_model(fld.kind, builder, eb1) {
                                    Err(_) => Some((Err(()), fs2)),
                                    Ok(lt) => if assign_model(lt, t, builder, eb1) is Err {
                                        Some((Err(()), fs2))
                                    } else {
                                        fields_from(
                                            fs2,
                                            i + 1,
                                            ClassModel { fields: builder.fields.push(fs2[i]), ..builder },
                                            eb,
                                            f,
                                        )
                                    },
                                }
                            }
                        },
                    },
                },
            }
        }
    }
}

/// The parameters `ps` from the `j`th on: none is named like an earlier
/// one, and each type is resolved and replaced by the name of the class it
/// resolves to. The parameters as they are afterwards.
pub open spec fn method_params(
    ps: Seq<VarModel>,
    j: int,
    mods: Seq<NodeModel>,
    cur: ClassModel,
    kinds: Seq<ClassModel>,
    f: nat,
) -> Option<(Result<(), ()>, Seq<VarModel>)>
    decreases ps.len() - j,
{
    if j < 0 || j >= ps.len() {
        Some((Ok(()), ps))
    } else if dup_before(ps, j) {
        Some((Err(()), ps))
    } else {
        match expr_model(ps[j].kind, mods, cur, kinds, Seq::empty(), f) {
            None => None,
            Some(r) => match r.result {
                Err(_) => Some((Err(()), ps.update(j, VarModel { kind: r.node, ..ps[j] }))),
                Ok(t) => method_params(ps.update(j, VarModel { kind: t.name, ..ps[j] }), j + 1, mods, cur, kinds, f),
            },
        }
    }
}

/// The method has the modifier `k`.
pub open spec fn has_modifier(m: MethodModel, k: TokenKind) -> bool {
    m.modifiers.contains(leaf_model(k))
}

/// The name `getClass`.
pub open spec fn getclass_model() -> NodeModel {
    rule_model("Name"@, seq![ident_model("getClass"@)])
}

/// A method of `cur`: it has a body unless it is abstract or native; its
/// parameters are checked and resolved; no strict prefix of its return type
/// names a type; an abstract method is neither final (but `getClass`) nor
/// static; what its body returns can be assigned to the return type, and a
/// body that returns nothing belongs to a `void` method. The method as it
/// is afterwards.
pub open spec fn method_model(mt: MethodModel, cur: ClassModel, kinds: Seq<ClassModel>, f: nat) -> Option<
    (Result<(), ()>, MethodModel),
> {
    if mt.body is None && !has_modifier(mt, TokenKind::Abstract) && !has_modifier(mt, TokenKind::Native) {
        Some((Err(()), mt))
    } else {
        match method_params(mt.parameters, 0, mt.modifiers, cur, kinds, f) {
            None => None,
            Some((Err(_), ps)) => Some((Err(()), MethodModel { parameters: ps, ..mt })),
            Some((Ok(_), ps)) => {
                let m1 = MethodModel { parameters: ps, ..mt };
                if canonical_check(mt.return_type, cur, kinds) is Err {
                    Some((Err(()), m1))
                } else if has_modifier(mt, TokenKind::Abstract) && ((has_modifier(mt, TokenKind::Final) && mt.name != getclass_model())
                    || has_modifier(mt, TokenKind::Static)) {
                    Some((Err(()), m1))
                } else {
                    match mt.body {
                        None => Some((Ok(()), m1)),
                        Some(b) => match block_model(b, mt.modifiers, cur, kinds, mt.parameters, f) {
                            None => None,
                            Some((Err(_), _)) => Some((Err(()), m1)),
                            Some((Ok(rts), b2)) => {
                                let m2 = MethodModel { body: Some(b2), ..m1 };
                                if !kind_ok(mt.return_type) {
                                    None
                                } else {
                                    match in_env_model(mt.return_type, cur, kinds) {
                                        Err(_) => Some((Err(()), m2)),
                                        Ok(rt) => if !all_assignable(rt, rts, cur, kinds) || (rts.len() == 0
                                            && !is_kind(rt, TokenKind::Void)) {
                                            Some((Err(()), m2))
                                        } else {
                                            Some((Ok(()), m2))
                                        },
                                    }
                                }
                            },
                        },
                    }
                }
            },
        }
    }
}

/// The methods `ms` from the `i`th on, checked in turn; the methods as
/// they are afterwards.
pub open spec fn methods_from(ms: Seq<MethodModel>, i: int, cur: ClassModel, kinds: Seq<ClassModel>, f: nat) -> Option<
    (Result<(), ()>, Seq<MethodModel>),
>
    decreases ms.len() - i,
{
    if i < 0 || i >= ms.len() {
        Some((Ok(()), ms))
    } else {
        match method_model(ms[i], cur, kinds, f) {
            None => None,
            Some((Err(_), m)) => Some((Err(()), ms.update(i, m))),
            Some((Ok(_), m)) => methods_from(ms.update(i, m), i + 1, cur, kinds, f),
        }
    }
}

/// A type of the program: its constructors, then its fields, then its
/// methods (seen from the type with its fields checked). The type as it is
/// afterwards.
pub open spec fn class_model(cur: ClassModel, kinds: Seq<ClassModel>, f: nat) -> Option<(Result<(), ()>, ClassModel)> {
    match ctors_from(cur.constructors, 0, cur, kinds, f) {
        None => None,
        Some(Err(_)) => Some((Err(()), cur)),
        Some(Ok(_)) => {
            let builder = ClassModel { fields: Seq::empty(), ..cur };
            match fields_from(cur.fields, 0, builder, others(kinds, cur.name), f) {
                None => None,
                Some((Err(_), fs)) => Some((Err(()), ClassModel { fields: fs, ..cur })),
                Some((Ok(_), fs)) => {
                    let c1 = ClassModel { fields: fs, ..cur };
                    match methods_from(c1.methods, 0, c1, kinds, f) {
                        None => None,
                        Some((r, ms)) => Some((r, ClassModel { methods: ms, ..c1 })),
                    }
                },
            }
        },
    }
}

/// The types of the program from the `i`th on, each checked against the
/// program `orig`; the program as it is afterwards.
pub open spec fn env_from(orig: Seq<ClassModel>, i: int, state: Seq<ClassModel>) -> Option<
    (Result<(), ()>, Seq<ClassModel>),
>
    decreases state.len() - i,
{
    if i < 0 || i >= state.len() {
        Some((Ok(()), state))
    } else {
        match class_model(state[i], orig, BODY_DEPTH as nat) {
            None => None,
            Some((Err(_), c)) => Some((Err(()), state.update(i, c))),
            Some((Ok(_), c)) => env_from(orig, i + 1, state.update(i, c)),
        }
    }
}

/// Checking the members of every type of a program.
pub open spec fn members_model(kinds: Seq<ClassModel>) -> Option<(Result<(), ()>, Seq<ClassModel>)> {
    env_from(kinds, 0, kinds)
}

/// The result of a check, by its model.
pub open spec fn outcome_of(r: Result<(), String>) -> Result<(), ()> {
    match r {
        Ok(_) => Ok(()),
        Err(_) => Err(()),
    }
}

/// Whether the `j`th parameter has the name of an earlier one.
fn dup_param(ps: &Vec<VariableEnvironment>, j: usize) -> (r: bool)
    requires
        j < ps@.len(),
    ensures
        r == dup_before(ps.deep_view(), j as int),
{
    let mut k: usize = 0;
    while k < j
        invariant
            k <= j,
            j < ps@.len(),
            forall|x: int| 0 <= x < k ==> ps.deep_view()[x].name != ps.deep_view()[j as int].name,
        decreases j - k,
    {
        proof {
            assert(ps.deep_view()[k as int] == ps@[k as int].deep_view());
            assert(ps.deep_view()[j as int] == ps@[j as int].deep_view());
        }
        if ps[k].name.equals(&ps[j].name) {
            proof {
                assert(ps.deep_view()[k as int].name == ps.deep_view()[j as int].name);
            }
            return true;
        }
        k = k + 1;
    }
    false
}

/// Checks the parameters of a constructor (see `params_ok`).
fn check_params(
    ps: &Vec<VariableEnvironment>,
    cur: &ClassOrInterfaceEnvironment,
    kinds: &Vec<ClassOrInterfaceEnvironment>,
) -> (r: Result<(), String>)
    ensures
        r is Ok <==> params_ok(ps.deep_view(), 0, cur.deep_view(), kinds.deep_view()),
{
    let mut j: usize = 0;
    while j < ps.len()
        invariant
            j <= ps@.len(),
            params_ok(ps.deep_view(), 0, cur.deep_view(), kinds.deep_view()) == params_ok(
                ps.deep_view(),
                j as int,
                cur.deep_view(),
                kinds.deep_view(),
            ),
        decreases ps@.len() - j,
    {
        proof {
            assert(ps.deep_view()[j as int] == ps@[j as int].deep_view());
        }
        if dup_param(ps, j) {
            return Err(note("a constructor has several parameters of the same name"));
        }
        let r = canonical(&ps[j].kind, cur, kinds);
        if r.is_err() {
            return r;
        }
        j = j + 1;
    }
    Ok(())
}

/// Checks that each returned type can be assigned to `target`.
fn assignable_all(
    target: &Type,
    rts: &Vec<Type>,
    cur: &ClassOrInterfaceEnvironment,
    kinds: &Vec<ClassOrInterfaceEnvironment>,
) -> (r: Result<(), String>)
    requires
        type_ok(target.deep_view().name),
        all_deep(rts.deep_view()),
        world_ok(cur.deep_view(), kinds.deep_view()),
    ensures
        r is Ok <==> all_assignable(target.deep_view(), rts.deep_view(), cur.deep_view(), kinds.deep_view()),
{
    proof {
        lemma_world_env(cur.deep_view(), kinds.deep_view());
    }
    let mut i: usize = 0;
    while i < rts.len()
        invariant
            i <= rts@.len(),
            type_ok(target.deep_view().name),
            all_deep(rts.deep_view()),
            crate::analysis::types::lookup::class::env_ok(cur.deep_view(), kinds.deep_view()),
            forall|j: int|
                0 <= j < i ==> assign_model(
                    target.deep_view(),
                    #[trigger] rts.deep_view()[j],
                    cur.deep_view(),
                    kinds.deep_view(),
                ) is Ok,
        decreases rts@.len() - i,
    {
        proof {
            assert(rts.deep_view()[i as int] == rts@[i as int].deep_view());
            assert(deep_ok(rts.deep_view()[i as int]));
        }
        let r = target.assign(&rts[i], cur, kinds);
        if r.is_err() {
            return Err(note("a returned type can not be assigned to the return type"));
        }
        i = i + 1;
    }
    Ok(())
}

/// Checks a constructor of `cur` (see `ctor_model`).
fn check_constructor(
    ctor: &MethodEnvironment,
    cur: &ClassOrInterfaceEnvironment,
    kinds: &Vec<ClassOrInterfaceEnvironment>,
) -> (r: Result<(), String>)
    requires
        world_ok(cur.deep_view(), kinds.deep_view()),
        method_ok(ctor.deep_view()),
        ctor.deep_view().body matches Some(b) ==> type_ok(b),
        ctor_model(ctor.deep_view(), cur.deep_view(), kinds.deep_view(), BODY_DEPTH as nat) is Some,
    ensures
        ctor_model(ctor.deep_view(), cur.deep_view(), kinds.deep_view(), BODY_DEPTH as nat) == Some(outcome_of(r)),
{
    match check_params(&ctor.parameters, cur, kinds) {
        Err(e) => return Err(e),
        Ok(_) => {},
    }
    proof {
        lemma_model_children(cur.name);
    }
    let last = cur.name.children.len() - 1;
    if !ctor.name.equals(&cur.name.children[last]) {
        return Err(note("a constructor does not share the name of its class"));
    }
    let b = match &ctor.body {
        Some(b) => b,
        None => return Err(note("a constructor has no body")),
    };
    let mut body = b.clone();
    let rts = match block(&mut body, &ctor.modifiers, cur, kinds, &ctor.parameters, BODY_DEPTH) {
        Err(e) => return Err(e),
        Ok(rts) => rts,
    };
    let target = Type::new(cur.clone());
    assignable_all(&target, &rts, cur, kinds)
}

/// Checks the constructors of `cur` in turn.
fn check_constructors(cur: &ClassOrInterfaceEnvironment, kinds: &Vec<ClassOrInterfaceEnvironment>) -> (r: Result<
    (),
    String,
>)
    requires
        world_ok(cur.deep_view(), kinds.deep_view()),
        class_wf(cur.deep_view()),
        ctors_from(cur.deep_view().constructors, 0, cur.deep_view(), kinds.deep_view(), BODY_DEPTH as nat) is Some,
    ensures
        ctors_from(cur.deep_view().constructors, 0, cur.deep_view(), kinds.deep_view(), BODY_DEPTH as nat) == Some(
            outcome_of(r),
        ),
{
    let ghost cs = cur.deep_view().constructors;
    let mut i: usize = 0;
    while i < cur.constructors.len()
        invariant
            i <= cur.constructors@.len(),
            cs == cur.deep_view().constructors,
            world_ok(cur.deep_view(), kinds.deep_view()),
            class_wf(cur.deep_view()),
            ctors_from(cs, 0, cur.deep_view(), kinds.deep_view(), BODY_DEPTH as nat) is Some,
            ctors_from(cs, 0, cur.deep_view(), kinds.deep_view(), BODY_DEPTH as nat) == ctors_from(
                cs,
                i as int,
                cur.deep_view(),
                kinds.deep_view(),
                BODY_DEPTH as nat,
            ),
        decreases cur.constructors@.len() - i,
    {
        proof {
            assert(cs[i as int] == cur.constructors@[i as int].deep_view());
            assert(method_ok(cs[i as int]));
        }
        match check_constructor(&cur.constructors[i], cur, kinds) {
            Err(e) => return Err(e),
            Ok(_) => {},
        }
        i = i + 1;
    }
    Ok(())
}

/// The types of `kinds` other than the one named `name`, in order.
fn other_classes(kinds: &Vec<ClassOrInterfaceEnvironment>, name: &ASTNode) -> (r: Vec<ClassOrInterfaceEnvironment>)
    ensures
        r.deep_view() == others(kinds.deep_view(), name.model()),
{
    let mut r: Vec<ClassOrInterfaceEnvironment> = Vec::new();
    proof {
        assert(r.deep_view() =~= others(kinds.deep_view().take(0), name.model()));
    }
    let mut j: usize = 0;
    while j < kinds.len()
        invariant
            j <= kinds@.len(),
            r.deep_view() == others(kinds.deep_view().take(j as int), name.model()),
        decreases kinds@.len() - j,
    {
        let ghost before = r.deep_view();
        proof {
            assert(kinds.deep_view().take(j + 1).drop_last() =~= kinds.deep_view().take(j as int));
            assert(kinds.deep_view().take(j + 1).last() == kinds@[j as int].deep_view());
        }
        if !kinds[j].name.equals(name) {
            r.push(kinds[j].clone());
            proof {
                assert(r.deep_view() =~= before.push(kinds@[j as int].deep_view()));
            }
        }
        j = j + 1;
    }
    proof {
        assert(kinds.deep_view().take(kinds@.len() as int) =~= kinds.deep_view());
    }
    r
}

/// Every type of `s` is well-formed, members included.
pub open spec fn all_classes_ok(s: Seq<ClassModel>) -> bool {
    forall|i: int| 0 <= i < s.len() ==> deep_ok(#[trigger] s[i])
}

/// The types other than one are well-formed when all are.
proof fn lemma_others_ok(kinds: Seq<ClassModel>, name: NodeModel)
    requires
        all_classes_ok(kinds),
    ensures
        all_classes_ok(others(kinds, name)),
    decreases kinds.len(),
{
    if kinds.len() > 0 {
        assert(all_classes_ok(kinds.drop_last())) by {
            assert forall|i: int| 0 <= i < kinds.drop_last().len() implies deep_ok(#[trigger] kinds.drop_last()[i]) by {
                assert(deep_ok(kinds[i]));
            }
        }
        lemma_others_ok(kinds.drop_last(), name);
        assert(deep_ok(kinds[kinds.len() - 1]));
    }
}

/// The fields of a class, each with well-formed names and value.
pub open spec fn fields_wf(fs: Seq<FieldModel>) -> bool {
    forall|i: int|
        0 <= i < fs.len() ==> type_ok((#[trigger] fs[i]).kind) && type_ok(fs[i].name) && (fs[i].value matches Some(
            v,
        ) ==> type_ok(v))
}

/// Checks the fields of `current` in turn (see `fields_from`), replacing
/// each initial value by its resolved form.
fn check_fields(current: &mut ClassOrInterfaceEnvironment, kinds: &Vec<ClassOrInterfaceEnvironment>) -> (r: Result<
    (),
    String,
>)
    requires
        class_wf(old(current).deep_view()),
        all_classes_ok(kinds.deep_view()),
        fields_from(
            old(current).deep_view().fields,
            0,
            ClassModel { fields: Seq::empty(), ..old(current).deep_view() },
            others(kinds.deep_view(), old(current).deep_view().name),
            BODY_DEPTH as nat,
        ) is Some,
    ensures
        fields_from(
            old(current).deep_view().fields,
            0,
            ClassModel { fields: Seq::empty(), ..old(current).deep_view() },
            others(kinds.deep_view(), old(current).deep_view().name),
            BODY_DEPTH as nat,
        ) == Some((outcome_of(r), final(current).deep_view().fields)),
        final(current).deep_view() == (ClassModel { fields: final(current).deep_view().fields, ..old(current).deep_view() }),
        fields_wf(final(current).deep_view().fields),
{
    let ghost c0 = current.deep_view();
    let mut builder = current.clone();
    builder.fields = Vec::new();
    let mut eb = other_classes(kinds, &current.name);
    proof {
        assert(builder.fields.deep_view() =~= Seq::<FieldModel>::empty());
        assert(builder.deep_view() =~= ClassModel { fields: Seq::empty(), ..c0 });
        lemma_others_ok(kinds.deep_view(), c0.name);
        assert forall|i: int| 0 <= i < c0.fields.len() implies type_ok((#[trigger] c0.fields[i]).kind) && type_ok(
            c0.fields[i].name,
        ) && (c0.fields[i].value matches Some(v) ==> type_ok(v)) by {
            assert(deep_ok(c0));
            assert(bodies_ok(c0));
        }
    }
    let ghost whole = fields_from(
        c0.fields,
        0,
        ClassModel { fields: Seq::empty(), ..c0 },
        others(kinds.deep_view(), c0.name),
        BODY_DEPTH as nat,
    );
    let mut i: usize = 0;
    while i < current.fields.len()
        invariant
            i <= current.fields@.len(),
            current.deep_view() == (ClassModel { fields: current.deep_view().fields, ..c0 }),
            c0 == old(current).deep_view(),
            current.deep_view().fields.len() == c0.fields.len(),
            fields_wf(current.deep_view().fields),
            class_wf(c0),
            builder.deep_view() == (ClassModel { fields: builder.deep_view().fields, ..c0 }),
            fields_wf(builder.deep_view().fields),
            all_classes_ok(eb.deep_view()),
            whole is Some,
            whole == fields_from(
                c0.fields,
                0,
                ClassModel { fields: Seq::empty(), ..c0 },
                others(kinds.deep_view(), c0.name),
                BODY_DEPTH as nat,
            ),
            whole == fields_from(
                current.deep_view().fields,
                i as int,
                builder.deep_view(),
                eb.deep_view(),
                BODY_DEPTH as nat,
            ),
        decreases current.fields@.len() - i,
    {
        let ghost fs = current.deep_view().fields;
        let ghost bd = builder.deep_view();
        let ghost eb0 = eb.deep_view();
        proof {
            assert(fs[i as int] == current.fields@[i as int].deep_view());
            assert(deep_ok(c0));
            assert(deep_ok(bd)) by {
                assert forall|j: int| 0 <= j < bd.fields.len() implies type_ok(#[trigger] bd.fields[j].kind)
                    && type_ok(bd.fields[j].name) by {
                    assert(type_ok(bd.fields[j].kind));
                }
            }
        }
        eb.push(builder.clone());
        proof {
            assert(eb.deep_view() =~= eb0.push(bd));
            assert(all_classes_ok(eb.deep_view())) by {
                assert forall|j: int| 0 <= j < eb.deep_view().len() implies deep_ok(#[trigger] eb.deep_view()[j]) by {
                    if j < eb0.len() {
                        assert(eb.deep_view()[j] == eb0[j]);
                    }
                }
            }
            assert(world_ok(bd, eb.deep_view()));
        }
        let rc = canonical(&current.fields[i].kind, &builder, &eb);
        if rc.is_err() {
            return rc;
        }
        if current.fields[i].value.is_some() {
            let mut rexpr = match &current.fields[i].value {
                Some(v) => v.clone(),
                None => ASTNode::leaf(TokenKind::Null),
            };
            let mut scratch: Vec<VariableEnvironment> = Vec::new();
            proof {
                assert(scratch.deep_view() =~= Seq::<VarModel>::empty());
                assert(type_ok(fs[i as int].value->Some_0));
            }
            let t = match resolve(
                &mut rexpr,
                &current.fields[i].modifiers,
                &builder,
                &eb,
                &mut scratch,
                BODY_DEPTH,
            ) {
                Err(e) => return Err(e),
                Ok(t) => t,
            };
            let mut nf = current.fields[i].clone();
            nf.value = Some(rexpr);
            let ghost nfd = nf.deep_view();
            current.fields.set(i, nf);
            proof {
                assert(current.deep_view().fields =~= fs.update(i as int, nfd));
                assert(current.deep_view() =~= ClassModel { fields: current.deep_view().fields, ..c0 });
                assert(fields_wf(current.deep_view().fields)) by {
                    assert forall|j: int| 0 <= j < current.deep_view().fields.len() implies type_ok(
                        (#[trigger] current.deep_view().fields[j]).kind,
                    ) && type_ok(current.deep_view().fields[j].name) && (current.deep_view().fields[j].value matches Some(
                        v,
                    ) ==> type_ok(v)) by {
                        if j != i {
                            assert(current.deep_view().fields[j] == fs[j]);
                        }
                    }
                }
                lemma_in_env_deep_ok(fs[i as int].kind, bd, eb.deep_view());
            }
            let lvalue = match in_env(&current.fields[i].kind, &builder, &eb) {
                Err(e) => return Err(e),
                Ok(c) => Type::new(c),
            };
            proof {
                lemma_world_env(bd, eb.deep_view());
            }
            match lvalue.assign(&t, &builder, &eb) {
                Err(e) => return Err(e),
                Ok(_) => {},
            }
            let ghost bf = builder.deep_view().fields;
            builder.fields.push(current.fields[i].clone());
            eb.pop();
            proof {
                assert(builder.deep_view().fields =~= bf.push(current.deep_view().fields[i as int]));
                assert(builder.deep_view() =~= ClassModel { fields: builder.deep_view().fields, ..c0 });
                assert(eb.deep_view() =~= eb0);
                assert(fields_wf(builder.deep_view().fields)) by {
                    assert forall|j: int| 0 <= j < builder.deep_view().fields.len() implies type_ok(
                        (#[trigger] builder.deep_view().fields[j]).kind,
                    ) && type_ok(builder.deep_view().fields[j].name) && (builder.deep_view().fields[j].value matches Some(
                        v,
                    ) ==> type_ok(v)) by {
                        if j < bf.len() {
                            assert(builder.deep_view().fields[j] == bf[j]);
                        }
                    }
                }
            }
        }
        i = i + 1;
    }
    Ok(())
}

/// Checks and resolves the parameters of `m` in turn (see
/// `method_params`): each type is replaced by the name of the class it
/// resolves to.
fn resolve_params(
    m: &mut MethodEnvironment,
    cur: &ClassOrInterfaceEnvironment,
    kinds: &Vec<ClassOrInterfaceEnvironment>,
) -> (r: Result<(), String>)
    requires
        world_ok(cur.deep_view(), kinds.deep_view()),
        vars_ok(old(m).deep_view().parameters),
        method_params(
            old(m).deep_view().parameters,
            0,
            old(m).deep_view().modifiers,
            cur.deep_view(),
            kinds.deep_view(),
            BODY_DEPTH as nat,
        ) is Some,
    ensures
        method_params(
            old(m).deep_view().parameters,
            0,
            old(m).deep_view().modifiers,
            cur.deep_view(),
            kinds.deep_view(),
            BODY_DEPTH as nat,
        ) == Some((outcome_of(r), final(m).deep_view().parameters)),
        final(m).deep_view() == (MethodModel { parameters: final(m).deep_view().parameters, ..old(m).deep_view() }),
        vars_ok(final(m).deep_view().parameters),
{
    let ghost m0 = m.deep_view();
    let ghost whole = method_params(m0.parameters, 0, m0.modifiers, cur.deep_view(), kinds.deep_view(), BODY_DEPTH as nat);
    let mut j: usize = 0;
    while j < m.parameters.len()
        invariant
            j <= m.parameters@.len(),
            m0 == old(m).deep_view(),
            m.deep_view() == (MethodModel { parameters: m.deep_view().parameters, ..m0 }),
            vars_ok(m.deep_view().parameters),
            world_ok(cur.deep_view(), kinds.deep_view()),
            whole is Some,
            whole == method_params(m0.parameters, 0, m0.modifiers, cur.deep_view(), kinds.deep_view(), BODY_DEPTH as nat),
            whole == method_params(
                m.deep_view().parameters,
                j as int,
                m0.modifiers,
                cur.deep_view(),
                kinds.deep_view(),
                BODY_DEPTH as nat,
            ),
        decreases m.parameters@.len() - j,
    {
        let ghost ps = m.deep_view().parameters;
        proof {
            assert(ps[j as int] == m.parameters@[j as int].deep_view());
            assert(type_ok(ps[j as int].kind));
        }
        if dup_param(&m.parameters, j) {
            return Err(note("a method has several parameters of the same name"));
        }
        let mut kind = m.parameters[j].kind.clone();
        let mut scratch: Vec<VariableEnvironment> = Vec::new();
        proof {
            assert(scratch.deep_view() =~= Seq::<VarModel>::empty());
        }
        let r = resolve(&mut kind, &m.modifiers, cur, kinds, &mut scratch, BODY_DEPTH);
        let mut p = m.parameters[j].clone();
        let failed = r.is_err();
        match r {
            Err(_) => {
                p.kind = kind;
            },
            Ok(t) => {
                p.kind = t.kind.name;
            },
        }
        let ghost pd = p.deep_view();
        m.parameters.set(j, p);
        proof {
            assert(m.deep_view().parameters =~= ps.update(j as int, pd));
            assert(m.deep_view() =~= MethodModel { parameters: m.deep_view().parameters, ..m0 });
            assert(vars_ok(m.deep_view().parameters)) by {
                assert forall|x: int| 0 <= x < m.deep_view().parameters.len() implies type_ok(
                    #[trigger] m.deep_view().parameters[x].kind,
                ) && type_ok(m.deep_view().parameters[x].name) by {
                    if x != j {
                        assert(m.deep_view().parameters[x] == ps[x]);
                    }
                }
            }
        }
        if failed {
            return Err(note("a parameter's type does not resolve"));
        }
        j = j + 1;
    }
    Ok(())
}

/// The name `getClass`.
fn getclass() -> (r: ASTNode)
    ensures
        r.model() == getclass_model(),
{
    let v = vec![ASTNode::ident("getClass")];
    proof {
        assert(crate::ast::models(v@) =~= seq![ident_model("getClass"@)]);
    }
    ASTNode::rule("Name", v)
}

/// Checks a method of `cur` (see `method_model`): its parameters' types
/// are resolved in place, and its body is kept as checked.
fn check_method(
    m: &mut MethodEnvironment,
    cur: &ClassOrInterfaceEnvironment,
    kinds: &Vec<ClassOrInterfaceEnvironment>,
) -> (r: Result<(), String>)
    requires
        world_ok(cur.deep_view(), kinds.deep_view()),
        method_ok(old(m).deep_view()),
        old(m).deep_view().body matches Some(b) ==> type_ok(b),
        method_model(old(m).deep_view(), cur.deep_view(), kinds.deep_view(), BODY_DEPTH as nat) is Some,
    ensures
        method_model(old(m).deep_view(), cur.deep_view(), kinds.deep_view(), BODY_DEPTH as nat) == Some(
            (outcome_of(r), final(m).deep_view()),
        ),
{
    let ghost m0 = m.deep_view();
    let is_abstract = contains_node(&m.modifiers, &ASTNode::leaf(TokenKind::Abstract));
    if m.body.is_none() && !is_abstract && !contains_node(&m.modifiers, &ASTNode::leaf(TokenKind::Native)) {
        return Err(note("a concrete method has no body"));
    }
    let globals = crate::analysis::environment::variable::clone_vars(&m.parameters);
    match resolve_params(m, cur, kinds) {
        Err(e) => return Err(e),
        Ok(_) => {},
    }
    let rc = canonical(&m.return_type, cur, kinds);
    if rc.is_err() {
        return rc;
    }
    if is_abstract {
        if contains_node(&m.modifiers, &ASTNode::leaf(TokenKind::Final)) && !m.name.equals(&getclass()) {
            return Err(note("a final method is abstract"));
        }
        if contains_node(&m.modifiers, &ASTNode::leaf(TokenKind::Static)) {
            return Err(note("a static method is abstract"));
        }
    }
    if m.body.is_none() {
        return Ok(());
    }
    let mut body = match &m.body {
        Some(b) => b.clone(),
        None => ASTNode::leaf(TokenKind::Semicolon),
    };
    let rts = match block(&mut body, &m.modifiers, cur, kinds, &globals, BODY_DEPTH) {
        Err(e) => return Err(e),
        Ok(rts) => rts,
    };
    m.body = Some(body);
    proof {
        lemma_in_env_deep_ok(m0.return_type, cur.deep_view(), kinds.deep_view());
    }
    let rt = match in_env(&m.return_type, cur, kinds) {
        Err(e) => return Err(e),
        Ok(c) => Type::new(c),
    };
    match assignable_all(&rt, &rts, cur, kinds) {
        Err(e) => return Err(e),
        Ok(_) => {},
    }
    proof {
        lemma_type_ok_arr_ok(rt.deep_view().name);
    }
    if rts.len() == 0 && !rt.eq(&prim_type(TokenKind::Void)) {
        return Err(note("a method that is not void returns nothing"));
    }
    Ok(())
}

/// Checks the methods of `current` in turn, seen from `current` itself
/// (see `methods_from`).
fn check_methods(current: &mut ClassOrInterfaceEnvironment, kinds: &Vec<ClassOrInterfaceEnvironment>) -> (r: Result<
    (),
    String,
>)
    requires
        deep_ok(old(current).deep_view()),
        bodies_ok(old(current).deep_view()),
        all_classes_ok(kinds.deep_view()),
        methods_from(
            old(current).deep_view().methods,
            0,
            old(current).deep_view(),
            kinds.deep_view(),
            BODY_DEPTH as nat,
        ) is Some,
    ensures
        methods_from(
            old(current).deep_view().methods,
            0,
            old(current).deep_view(),
            kinds.deep_view(),
            BODY_DEPTH as nat,
        ) == Some((outcome_of(r), final(current).deep_view().methods)),
        final(current).deep_view() == (ClassModel {
            methods: final(current).deep_view().methods,
            ..old(current).deep_view()
        }),
{
    let curr = current.clone();
    let ghost c0 = curr.deep_view();
    let ghost whole = methods_from(c0.methods, 0, c0, kinds.deep_view(), BODY_DEPTH as nat);
    proof {
        assert(world_ok(c0, kinds.deep_view()));
    }
    let mut i: usize = 0;
    while i < current.methods.len()
        invariant
            i <= current.methods@.len(),
            c0 == old(current).deep_view(),
            c0 == curr.deep_view(),
            deep_ok(c0),
            bodies_ok(c0),
            world_ok(c0, kinds.deep_view()),
            current.deep_view() == (ClassModel { methods: current.deep_view().methods, ..c0 }),
            current.deep_view().methods.len() == c0.methods.len(),
            forall|j: int| i <= j < c0.methods.len() ==> #[trigger] current.deep_view().methods[j] == c0.methods[j],
            whole is Some,
            whole == methods_from(c0.methods, 0, c0, kinds.deep_view(), BODY_DEPTH as nat),
            whole == methods_from(current.deep_view().methods, i as int, c0, kinds.deep_view(), BODY_DEPTH as nat),
        decreases current.methods@.len() - i,
    {
        let ghost ms = current.deep_view().methods;
        proof {
            assert(ms[i as int] == current.methods@[i as int].deep_view());
            assert(ms[i as int] == c0.methods[i as int]);
            assert(method_ok(c0.methods[i as int]));
        }
        let mut m = current.methods[i].clone();
        let r = check_method(&mut m, &curr, kinds);
        let ghost md = m.deep_view();
        current.methods.set(i, m);
        proof {
            assert(current.deep_view().methods =~= ms.update(i as int, md));
            assert(current.deep_view() =~= ClassModel { methods: current.deep_view().methods, ..c0 });
        }
        if r.is_err() {
            return r;
        }
        i = i + 1;
    }
    Ok(())
}

/// Checks a type of the program (see `class_model`): its constructors,
/// its fields and its methods.
pub fn check_class(current: &mut ClassOrInterfaceEnvironment, kinds: &Vec<ClassOrInterfaceEnvironment>) -> (r: Result<
    (),
    String,
>)
    requires
        class_wf(old(current).deep_view()),
        program_wf(kinds.deep_view()),
        class_model(old(current).deep_view(), kinds.deep_view(), BODY_DEPTH as nat) is Some,
    ensures
        class_model(old(current).deep_view(), kinds.deep_view(), BODY_DEPTH as nat) == Some(
            (outcome_of(r), final(current).deep_view()),
        ),
{
    let ghost c0 = current.deep_view();
    proof {
        assert(all_classes_ok(kinds.deep_view())) by {
            assert forall|i: int| 0 <= i < kinds.deep_view().len() implies deep_ok(#[trigger] kinds.deep_view()[i]) by {
                assert(class_wf(kinds.deep_view()[i]));
            }
        }
    }
    match check_constructors(&*current, kinds) {
        Err(e) => return Err(e),
        Ok(_) => {},
    }
    match check_fields(current, kinds) {
        Err(e) => return Err(e),
        Ok(_) => {},
    }
    proof {
        let c1 = current.deep_view();
        assert(deep_ok(c1)) by {
            assert forall|j: int| 0 <= j < c1.fields.len() implies type_ok(#[trigger] c1.fields[j].kind) && type_ok(
                c1.fields[j].name,
            ) by {
                assert(type_ok(c1.fields[j].kind));
            }
        }
        assert(bodies_ok(c1)) by {
            assert forall|j: int| 0 <= j < c1.fields.len() implies ((#[trigger] c1.fields[j]).value matches Some(v)
                ==> type_ok(v)) by {
                assert(type_ok(c1.fields[j].kind));
            }
        }
    }
    check_methods(current, kinds)
}


/// `b` is the field `a` with, at most, another initial value.
pub open spec fn field_shape(a: FieldModel, b: FieldModel) -> bool {
    b == FieldModel { value: b.value, ..a }
}

/// `b` is the parameter `a` with, at most, another type.
pub open spec fn param_shape(a: VarModel, b: VarModel) -> bool {
    b == VarModel { kind: b.kind, ..a }
}

/// `b` is the list of parameters `a`, each with at most another type.
pub open spec fn params_shape(a: Seq<VarModel>, b: Seq<VarModel>) -> bool {
    a.len() == b.len() && forall|j: int| 0 <= j < a.len() ==> param_shape(a[j], #[trigger] b[j])
}

/// `b` is the method `a` with, at most, other parameter types and another
/// body.
pub open spec fn method_shape(a: MethodModel, b: MethodModel) -> bool {
    b == MethodModel { parameters: b.parameters, body: b.body, ..a } && params_shape(a.parameters, b.parameters)
}

/// `b` is the type `a` with, at most, other initial values of its fields
/// and other parameter types and bodies of its methods.
pub open spec fn class_shape(a: ClassModel, b: ClassModel) -> bool {
    &&& b == ClassModel { fields: b.fields, methods: b.methods, ..a }
    &&& a.fields.len() == b.fields.len()
    &&& forall|j: int| 0 <= j < a.fields.len() ==> field_shape(a.fields[j], #[trigger] b.fields[j])
    &&& a.methods.len() == b.methods.len()
    &&& forall|j: int| 0 <= j < a.methods.len() ==> method_shape(a.methods[j], #[trigger] b.methods[j])
}

/// `b` is the program `a`, each type with at most the changes of
/// `class_shape`.
pub open spec fn program_shape(a: Seq<ClassModel>, b: Seq<ClassModel>) -> bool {
    a.len() == b.len() && forall|i: int| 0 <= i < a.len() ==> class_shape(a[i], #[trigger] b[i])
}

proof fn lemma_method_params_shape(
    ps0: Seq<VarModel>,
    ps: Seq<VarModel>,
    j: int,
    mods: Seq<NodeModel>,
    cur: ClassModel,
    kinds: Seq<ClassModel>,
    f: nat,
)
    requires
        params_shape(ps0, ps),
    ensures
        method_params(ps, j, mods, cur, kinds, f) matches Some((_, r)) ==> params_shape(ps0, r),
    decreases ps.len() - j,
{
    if 0 <= j < ps.len() && !dup_before(ps, j) {
        if let Some(r) = expr_model(ps[j].kind, mods, cur, kinds, Seq::empty(), f) {
            let x = match r.result {
                Err(_) => r.node,
                Ok(t) => t.name,
            };
            let ps2 = ps.update(j, VarModel { kind: x, ..ps[j] });
            assert(params_shape(ps0, ps2)) by {
                assert forall|k: int| 0 <= k < ps0.len() implies param_shape(ps0[k], #[trigger] ps2[k]) by {
                    assert(param_shape(ps0[k], ps[k]));
                }
            }
            if r.result is Ok {
                lemma_method_params_shape(ps0, ps2, j + 1, mods, cur, kinds, f);
            }
        }
    }
}

proof fn lemma_method_shape(mt: MethodModel, cur: ClassModel, kinds: Seq<ClassModel>, f: nat)
    ensures
        method_model(mt, cur, kinds, f) matches Some((_, m2)) ==> method_shape(mt, m2),
{
    assert(params_shape(mt.parameters, mt.parameters)) by {
        assert forall|k: int| 0 <= k < mt.parameters.len() implies param_shape(
            mt.parameters[k],
            #[trigger] mt.parameters[k],
        ) by {}
    }
    lemma_method_params_shape(mt.parameters, mt.parameters, 0, mt.modifiers, cur, kinds, f);
}

proof fn lemma_methods_shape(ms0: Seq<MethodModel>, ms: Seq<MethodModel>, i: int, cur: ClassModel, kinds: Seq<ClassModel>, f: nat)
    requires
        ms0.len() == ms.len(),
        forall|j: int| 0 <= j < ms0.len() ==> method_shape(ms0[j], #[trigger] ms[j]),
    ensures
        methods_from(ms, i, cur, kinds, f) matches Some((_, r)) ==> (ms0.len() == r.len() && forall|j: int|
            0 <= j < ms0.len() ==> method_shape(ms0[j], #[trigger] r[j])),
    decreases ms.len() - i,
{
    if 0 <= i < ms.len() {
        lemma_method_shape(ms[i], cur, kinds, f);
        if let Some((_, m)) = method_model(ms[i], cur, kinds, f) {
            let ms2 = ms.update(i, m);
            assert forall|j: int| 0 <= j < ms0.len() implies method_shape(ms0[j], #[trigger] ms2[j]) by {
                assert(method_shape(ms0[j], ms[j]));
                if j == i {
                    let a = ms0[j];
                    let b = ms[j];
                    assert forall|k: int| 0 <= k < a.parameters.len() implies param_shape(
                        a.parameters[k],
                        #[trigger] m.parameters[k],
                    ) by {
                        assert(param_shape(a.parameters[k], b.parameters[k]));
                        assert(param_shape(b.parameters[k], m.parameters[k]));
                    }
                }
            }
            lemma_methods_shape(ms0, ms2, i + 1, cur, kinds, f);
        }
    }
}

proof fn lemma_fields_shape(fs0: Seq<FieldModel>, fs: Seq<FieldModel>, i: int, builder: ClassModel, eb: Seq<ClassModel>, f: nat)
    requires
        fs0.len() == fs.len(),
        forall|j: int| 0 <= j < fs0.len() ==> field_shape(fs0[j], #[trigger] fs[j]),
    ensures
        fields_from(fs, i, builder, eb, f) matches Some((_, r)) ==> (fs0.len() == r.len() && forall|j: int|
            0 <= j < fs0.len() ==> field_shape(fs0[j], #[trigger] r[j])),
    decreases fs.len() - i,
{
    if 0 <= i < fs.len() {
        let fld = fs[i];
        let eb1 = eb.push(builder);
        if canonical_check(fld.kind, builder, eb1) is Ok {
            match fld.value {
                None => lemma_fields_shape(fs0, fs, i + 1, builder, eb1, f),
                Some(v) => if let Some(r) = expr_model(v, fld.modifiers, builder, eb1, Seq::empty(), f) {
                    if r.result is Ok {
                        let fs2 = fs.update(i, FieldModel { value: Some(r.node), ..fld });
                        assert forall|j: int| 0 <= j < fs0.len() implies field_shape(fs0[j], #[trigger] fs2[j]) by {
                            assert(field_shape(fs0[j], fs[j]));
                        }
                        lemma_fields_shape(
                            fs0,
                            fs2,
                            i + 1,
                            ClassModel { fields: builder.fields.push(fs2[i]), ..builder },
                            eb,
                            f,
                        );
                    }
                },
            }
        }
    }
}

proof fn lemma_class_shape(cur: ClassModel, kinds: Seq<ClassModel>, f: nat)
    ensures
        class_model(cur, kinds, f) matches Some((_, c)) ==> class_shape(cur, c),
{
    let builder = ClassModel { fields: Seq::empty(), ..cur };
    lemma_fields_shape(cur.fields, cur.fields, 0, builder, others(kinds, cur.name), f);
    if let Some((_, fs)) = fields_from(cur.fields, 0, builder, others(kinds, cur.name), f) {
        let c1 = ClassModel { fields: fs, ..cur };
        assert forall|j: int| 0 <= j < cur.methods.len() implies method_shape(cur.methods[j], #[trigger] c1.methods[j]) by {
            assert forall|k: int| 0 <= k < cur.methods[j].parameters.len() implies param_shape(
                cur.methods[j].parameters[k],
                #[trigger] cur.methods[j].parameters[k],
            ) by {}
        }
        lemma_methods_shape(cur.methods, c1.methods, 0, c1, kinds, f);
    }
    assert forall|j: int| 0 <= j < cur.methods.len() implies method_shape(cur.methods[j], #[trigger] cur.methods[j]) by {
        assert forall|k: int| 0 <= k < cur.methods[j].parameters.len() implies param_shape(
            cur.methods[j].parameters[k],
            #[trigger] cur.methods[j].parameters[k],
        ) by {}
    }
}

proof fn lemma_env_shape(orig: Seq<ClassModel>, s0: Seq<ClassModel>, state: Seq<ClassModel>, i: int)
    requires
        program_shape(s0, state),
    ensures
        env_from(orig, i, state) matches Some((_, r)) ==> program_shape(s0, r),
    decreases state.len() - i,
{
    if 0 <= i < state.len() {
        lemma_class_shape(state[i], orig, BODY_DEPTH as nat);
        if let Some((_, c)) = class_model(state[i], orig, BODY_DEPTH as nat) {
            let s2 = state.update(i, c);
            assert forall|k: int| 0 <= k < s0.len() implies class_shape(s0[k], #[trigger] s2[k]) by {
                if k == i {
                    let a = s0[k];
                    let b = state[k];
                    assert(class_shape(a, b));
                    assert(class_shape(b, c));
                    assert forall|j: int| 0 <= j < a.fields.len() implies field_shape(a.fields[j], #[trigger] c.fields[j]) by {
                        assert(field_shape(a.fields[j], b.fields[j]));
                        assert(field_shape(b.fields[j], c.fields[j]));
                    }
                    assert forall|j: int| 0 <= j < a.methods.len() implies method_shape(a.methods[j], #[trigger] c.methods[j]) by {
                        assert(method_shape(a.methods[j], b.methods[j]));
                        assert(method_shape(b.methods[j], c.methods[j]));
                        assert forall|q: int| 0 <= q < a.methods[j].parameters.len() implies param_shape(
                            a.methods[j].parameters[q],
                            #[trigger] c.methods[j].parameters[q],
                        ) by {
                            assert(param_shape(a.methods[j].parameters[q], b.methods[j].parameters[q]));
                            assert(param_shape(b.methods[j].parameters[q], c.methods[j].parameters[q]));
                        }
                    }
                }
            }
            lemma_env_shape(orig, s0, s2, i + 1);
        }
    }
}

/// Checking the members of a program keeps its shape: the same types, in
/// the same order, with the same names, supertypes, modifiers and
/// constructors, and the same fields and methods; only initial values,
/// parameter types and method bodies may be replaced by their resolved
/// forms. This holds whether the check succeeds or not.
pub proof fn members_keep_shape(kinds: Seq<ClassModel>)
    ensures
        members_model(kinds) matches Some((_, checked)) ==> program_shape(kinds, checked),
{
    assert forall|i: int| 0 <= i < kinds.len() implies class_shape(kinds[i], #[trigger] kinds[i]) by {
        let a = kinds[i];
        assert forall|j: int| 0 <= j < a.methods.len() implies method_shape(a.methods[j], #[trigger] a.methods[j]) by {
            assert forall|q: int| 0 <= q < a.methods[j].parameters.len() implies param_shape(
                a.methods[j].parameters[q],
                #[trigger] a.methods[j].parameters[q],
            ) by {}
        }
    }
    lemma_env_shape(kinds, kinds, kinds, 0);
}

} // verus!
