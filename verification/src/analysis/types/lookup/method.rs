//! Choosing among methods by their arguments.
use vstd::prelude::*;

use crate::analysis::environment::classorinterface::{ClassModel, ClassOrInterfaceEnvironment};
use crate::analysis::environment::method::{MethodEnvironment, MethodModel};
use crate::analysis::environment::variable::VarModel;
use crate::analysis::environment::variable::VariableEnvironment;
use crate::analysis::types::lookup::class;
use crate::analysis::types::lookup::class::{
    deep_ok, env_ok, in_env_model, lemma_in_env_deep_ok, lemma_in_env_ok, lemma_world_env, method_ok,
    vars_ok, world_ok,
};
use crate::analysis::types::lookup::field::{
    find_field, find_variable, first_named_field, first_named_var, lemma_move_two_ok, move_two,
    move_two_model, name_prefix, LOOKUP_LIMIT,
};
use crate::ast::{lemma_model_children, ASTNode, NodeModel};
use crate::analysis::types::obj::{edit_model, Type};
use crate::ast::type_ok;
use crate::numbers::u32_text;
use crate::text::note;

verus! {

/// The sum of the edit distances of the arguments `args` to the parameters
/// `params`, from the `j`th on, added to `acc`: a parameter that does not
/// fit at all sets the sum to `u32::MAX`; `None` where the sum would exceed
/// `u32::MAX` (the addition would overflow).
pub open spec fn params_distance(
    params: Seq<VarModel>,
    args: Seq<ClassModel>,
    cls: ClassModel,
    kinds: Seq<ClassModel>,
    j: int,
    acc: nat,
) -> Option<Result<nat, ()>>
    decreases params.len() - j,
{
    if j < 0 || j >= params.len() {
        Some(Ok(acc))
    } else {
        match in_env_model(params[j].kind, cls, kinds) {
            Err(_) => Some(Err(())),
            Ok(p) => match edit_model(p, args[j], cls, kinds) {
                Err(_) => Some(Err(())),
                Ok(ed) => if ed == u32::MAX {
                    params_distance(params, args, cls, kinds, j + 1, ed)
                } else if acc + ed > u32::MAX {
                    None
                } else {
                    params_distance(params, args, cls, kinds, j + 1, acc + ed)
                },
            },
        }
    }
}

/// The scan of `methods` from the `i`th on, with the best method so far and
/// its distance: a method with fewer or more parameters than arguments is
/// skipped; one at the same distance as the best makes the choice ambiguous
/// (no best); a closer one becomes the best.
pub open spec fn select_from(
    methods: Seq<MethodModel>,
    args: Seq<ClassModel>,
    cls: ClassModel,
    kinds: Seq<ClassModel>,
    i: int,
    best: Option<MethodModel>,
    distance: nat,
) -> Option<Result<(Option<MethodModel>, nat), ()>>
    decreases methods.len() - i,
{
    if i < 0 || i >= methods.len() {
        Some(Ok((best, distance)))
    } else {
        let m = methods[i];
        if m.parameters.len() != args.len() {
            select_from(methods, args, cls, kinds, i + 1, best, distance)
        } else if m.parameters.len() == 0 {
            if distance == 0 {
                select_from(methods, args, cls, kinds, i + 1, None, 0)
            } else {
                select_from(methods, args, cls, kinds, i + 1, Some(m), 0)
            }
        } else {
            match params_distance(m.parameters, args, cls, kinds, 0, 0) {
                None => None,
                Some(Err(_)) => Some(Err(())),
                Some(Ok(md)) => if md == u32::MAX {
                    select_from(methods, args, cls, kinds, i + 1, best, distance)
                } else if md == distance {
                    select_from(methods, args, cls, kinds, i + 1, None, distance)
                } else if md < distance {
                    select_from(methods, args, cls, kinds, i + 1, Some(m), md)
                } else {
                    select_from(methods, args, cls, kinds, i + 1, best, distance)
                },
            }
        }
    }
}

/// The method of `methods` that fits the arguments best: an error when none
/// fits, when two fit equally well, or when a type does not resolve; `None`
/// where a distance would overflow.
pub open spec fn select_model(
    methods: Seq<MethodModel>,
    args: Seq<ClassModel>,
    cls: ClassModel,
    kinds: Seq<ClassModel>,
) -> Option<Result<MethodModel, ()>> {
    match select_from(methods, args, cls, kinds, 0, None, u32::MAX as nat) {
        None => None,
        Some(Err(_)) => Some(Err(())),
        Some(Ok((best, distance))) => if distance == u32::MAX {
            Some(Err(()))
        } else {
            match best {
                Some(m) => Some(Ok(m)),
                None => Some(Err(())),
            }
        },
    }
}

/// The parameter types of the methods are well-formed names.
pub open spec fn methods_ok(methods: Seq<MethodModel>) -> bool {
    forall|i: int, j: int|
        0 <= i < methods.len() && 0 <= j < methods[i].parameters.len() ==> type_ok(
            #[trigger] methods[i].parameters[j].kind,
        )
}

/// The types of the arguments are well-formed.
pub open spec fn types_args_ok(args: Seq<ClassModel>) -> bool {
    forall|i: int| 0 <= i < args.len() ==> type_ok(#[trigger] args[i].name)
}

/// The distance of the arguments to the parameters of `method`.
fn method_distance(
    method: &MethodEnvironment,
    args: &Vec<Type>,
    cls: &ClassOrInterfaceEnvironment,
    kinds: &Vec<ClassOrInterfaceEnvironment>,
) -> (r: Result<u32, String>)
    requires
        method.parameters@.len() == args@.len(),
        env_ok(cls.deep_view(), kinds.deep_view()),
        forall|j: int| 0 <= j < method.deep_view().parameters.len() ==> type_ok(
            #[trigger] method.deep_view().parameters[j].kind,
        ),
        types_args_ok(args.deep_view()),
        params_distance(method.deep_view().parameters, args.deep_view(), cls.deep_view(), kinds.deep_view(), 0, 0)
            is Some,
    ensures
        match r {
            Ok(d) => params_distance(
                method.deep_view().parameters,
                args.deep_view(),
                cls.deep_view(),
                kinds.deep_view(),
                0,
                0,
            ) == Some(Ok::<nat, ()>(d as nat)),
            Err(_) => params_distance(
                method.deep_view().parameters,
                args.deep_view(),
                cls.deep_view(),
                kinds.deep_view(),
                0,
                0,
            ) == Some(Err::<nat, ()>(())),
        },
{
    let ghost ps = method.deep_view().parameters;
    let ghost avs = args.deep_view();
    let ghost goal = params_distance(ps, avs, cls.deep_view(), kinds.deep_view(), 0, 0);
    let mut total: u32 = 0;
    let mut j: usize = 0;
    while j < method.parameters.len()
        invariant
            j <= method.parameters@.len(),
            method.parameters@.len() == args@.len(),
            ps == method.deep_view().parameters,
            avs == args.deep_view(),
            env_ok(cls.deep_view(), kinds.deep_view()),
            forall|k: int| 0 <= k < ps.len() ==> type_ok(#[trigger] ps[k].kind),
            types_args_ok(avs),
            goal is Some,
            goal == params_distance(ps, avs, cls.deep_view(), kinds.deep_view(), 0, 0),
            goal == params_distance(ps, avs, cls.deep_view(), kinds.deep_view(), j as int, total as nat),
        decreases method.parameters@.len() - j,
    {
        let param = &method.parameters[j];
        let arg = &args[j];
        proof {
            assert(ps[j as int] == param.deep_view());
            assert(avs[j as int] == arg.deep_view());
            assert(type_ok(ps[j as int].kind));
            assert(type_ok(avs[j as int].name));
            lemma_in_env_ok(param.kind.model(), cls.deep_view(), kinds.deep_view());
        }
        let found_param = match class::in_env(&param.kind, cls, kinds) {
            Ok(fp) => Type::new(fp),
            Err(e) => return Err(e),
        };
        match found_param.edit_distance(arg, cls, kinds) {
            Ok(ed) => {
                if ed == u32::MAX {
                    total = ed;
                } else {
                    total = total + ed;
                }
            },
            Err(e) => {
                return Err(e);
            },
        }
        j = j + 1;
    }
    Ok(total)
}

/// Chooses the method of `methods` that fits the arguments `args` best (see
/// `select_model`).
pub fn select_method(
    methods: &Vec<MethodEnvironment>,
    args: &Vec<Type>,
    cls: &ClassOrInterfaceEnvironment,
    kinds: &Vec<ClassOrInterfaceEnvironment>,
) -> (r: Result<MethodEnvironment, String>)
    requires
        env_ok(cls.deep_view(), kinds.deep_view()),
        methods_ok(methods.deep_view()),
        types_args_ok(args.deep_view()),
        select_model(methods.deep_view(), args.deep_view(), cls.deep_view(), kinds.deep_view()) is Some,
    ensures
        match r {
            Ok(m) => select_model(methods.deep_view(), args.deep_view(), cls.deep_view(), kinds.deep_view())
                == Some(Ok::<MethodModel, ()>(m.deep_view())),
            Err(_) => select_model(methods.deep_view(), args.deep_view(), cls.deep_view(), kinds.deep_view())
                == Some(Err::<MethodModel, ()>(())),
        },
{
    let ghost ms = methods.deep_view();
    let ghost avs = args.deep_view();
    let ghost c = cls.deep_view();
    let ghost ks = kinds.deep_view();
    let ghost goal = select_from(ms, avs, c, ks, 0, None, u32::MAX as nat);
    let mut best: Option<MethodEnvironment> = None;
    let mut distance: u32 = u32::MAX;
    let mut i: usize = 0;
    while i < methods.len()
        invariant
            i <= methods@.len(),
            ms == methods.deep_view(),
            avs == args.deep_view(),
            c == cls.deep_view(),
            ks == kinds.deep_view(),
            env_ok(c, ks),
            methods_ok(ms),
            types_args_ok(avs),
            goal is Some,
            goal == select_from(ms, avs, c, ks, 0, None, u32::MAX as nat),
            select_model(ms, avs, c, ks) is Some,
            goal == select_from(
                ms,
                avs,
                c,
                ks,
                i as int,
                match best {
                    Some(b) => Some(b.deep_view()),
                    None => None,
                },
                distance as nat,
            ),
        decreases methods@.len() - i,
    {
        let method = &methods[i];
        proof {
            assert(ms[i as int] == method.deep_view());
            assert forall|j: int| 0 <= j < method.deep_view().parameters.len() implies type_ok(
                #[trigger] method.deep_view().parameters[j].kind,
            ) by {
                assert(type_ok(ms[i as int].parameters[j].kind));
            }
        }
        if method.parameters.len() == args.len() {
            if method.parameters.len() == 0 {
                if distance == 0 {
                    best = None;
                } else {
                    best = Some(method.clone());
                    distance = 0;
                }
            } else {
                match method_distance(method, args, cls, kinds) {
                    Ok(md) => {
                        if md == u32::MAX {
                        } else if md == distance {
                            best = None;
                        } else if md < distance {
                            best = Some(method.clone());
                            distance = md;
                        }
                    },
                    Err(e) => {
                        return Err(e);
                    },
                }
            }
        }
        i = i + 1;
    }
    if distance == u32::MAX {
        return Err(note("no method matching parameters was found"));
    }
    match best {
        Some(m) => Ok(m),
        None => {
            let mut e = String::from_str("ambiguous methods were found with distance ");
            let d = u32_text(distance);
            e.append(d.as_str());
            Err(e)
        },
    }
}

/// The method selected is one of the candidates, so it is well-formed.
pub proof fn lemma_select_from_ok(
    methods: Seq<MethodModel>,
    args: Seq<ClassModel>,
    cls: ClassModel,
    kinds: Seq<ClassModel>,
    i: int,
    best: Option<MethodModel>,
    distance: nat,
)
    requires
        forall|j: int| 0 <= j < methods.len() ==> method_ok(#[trigger] methods[j]),
        best matches Some(b) ==> method_ok(b),
    ensures
        select_from(methods, args, cls, kinds, i, best, distance) matches Some(Ok((Some(b), _))) ==> method_ok(b),
    decreases methods.len() - i,
{
    if 0 <= i < methods.len() {
        let m = methods[i];
        assert(method_ok(methods[i]));
        if m.parameters.len() != args.len() {
            lemma_select_from_ok(methods, args, cls, kinds, i + 1, best, distance);
        } else if m.parameters.len() == 0 {
            if distance == 0 {
                lemma_select_from_ok(methods, args, cls, kinds, i + 1, None, 0);
            } else {
                lemma_select_from_ok(methods, args, cls, kinds, i + 1, Some(m), 0);
            }
        } else {
            match params_distance(m.parameters, args, cls, kinds, 0, 0) {
                Some(Ok(md)) => {
                    lemma_select_from_ok(methods, args, cls, kinds, i + 1, best, distance);
                    lemma_select_from_ok(methods, args, cls, kinds, i + 1, None, distance);
                    lemma_select_from_ok(methods, args, cls, kinds, i + 1, Some(m), md);
                },
                _ => {},
            }
        }
    }
}

/// The methods of `ms` named `n`, in order.
pub open spec fn methods_named(ms: Seq<MethodModel>, n: NodeModel) -> Seq<MethodModel>
    decreases ms.len(),
{
    if ms.len() == 0 {
        Seq::empty()
    } else if ms.last().name == n {
        methods_named(ms.drop_last(), n).push(ms.last())
    } else {
        methods_named(ms.drop_last(), n)
    }
}

/// The class and method that the method name `method` denotes on the type
/// named `canonical`, for the arguments `args`, within `fuel` steps: when
/// the type resolves, the first prefix of `method` (ending at a name, not a
/// dot) that names methods selects among them (it must be the whole name),
/// or names a field whose type the rest is looked up on; otherwise the last
/// part of `canonical` moves to `method`. `None` where selecting would
/// overflow.
pub open spec fn method_in_env(
    canonical: NodeModel,
    method: NodeModel,
    args: Seq<ClassModel>,
    current: ClassModel,
    kinds: Seq<ClassModel>,
    fuel: nat,
) -> Option<Result<(ClassModel, MethodModel), ()>>
    decreases fuel, method.children.len() + 1,
{
    if fuel == 0 {
        Some(Err(()))
    } else {
        match in_env_model(canonical, current, kinds) {
            Ok(cls) => method_scan(cls, method, args, kinds, 0, fuel),
            Err(_) => match move_two_model(canonical, method) {
                None => Some(Err(())),
                Some((c2, m2)) => method_in_env(c2, m2, args, current, kinds, (fuel - 1) as nat),
            },
        }
    }
}

/// The scan of the prefixes of `method` from the one ending at `idx` on
/// (see `method_in_env`).
pub open spec fn method_scan(
    cls: ClassModel,
    method: NodeModel,
    args: Seq<ClassModel>,
    kinds: Seq<ClassModel>,
    idx: int,
    fuel: nat,
) -> Option<Result<(ClassModel, MethodModel), ()>>
    decreases fuel, method.children.len() - idx,
{
    if idx < 0 || idx >= method.children.len() || fuel == 0 {
        Some(Err(()))
    } else if idx % 2 != 0 {
        method_scan(cls, method, args, kinds, idx + 1, fuel)
    } else {
        let p = name_prefix(method, idx);
        let ms = methods_named(cls.methods, p);
        if ms.len() > 0 {
            if idx + 1 < method.children.len() {
                Some(Err(()))
            } else {
                match select_model(ms, args, cls, kinds) {
                    None => None,
                    Some(Err(_)) => Some(Err(())),
                    Some(Ok(m)) => Some(Ok((cls, m))),
                }
            }
        } else {
            match first_named_field(cls.fields, p, 0) {
                Some(f) => if idx + 1 == method.children.len() {
                    Some(Err(()))
                } else {
                    match in_env_model(f.kind, cls, kinds) {
                        Ok(c) => method_in_env(
                            c.name,
                            NodeModel { children: method.children.skip(idx + 2), ..method },
                            args,
                            c,
                            kinds,
                            (fuel - 1) as nat,
                        ),
                        Err(_) => Some(Err(())),
                    }
                },
                None => method_scan(cls, method, args, kinds, idx + 1, fuel),
            }
        }
    }
}

/// The class and method that the method name `method` denotes on the
/// variable named `canonical` (a qualified `canonical` may end in names
/// that move to `method`).
pub open spec fn method_in_variables(
    canonical: NodeModel,
    method: NodeModel,
    args: Seq<ClassModel>,
    current: ClassModel,
    kinds: Seq<ClassModel>,
    variables: Seq<VarModel>,
) -> Option<Result<(ClassModel, MethodModel), ()>>
    decreases canonical.children.len(),
{
    match first_named_var(variables, canonical, 0) {
        Some(v) => method_in_env(v.kind, method, args, current, kinds, LOOKUP_LIMIT as nat),
        None => match move_two_model(canonical, method) {
            None => Some(Err(())),
            Some((c2, m2)) => method_in_variables(c2, m2, args, current, kinds, variables),
        },
    }
}

/// A found class and method, by their models.
pub open spec fn pair_result(r: Result<(ClassOrInterfaceEnvironment, MethodEnvironment), String>) -> Result<
    (ClassModel, MethodModel),
    (),
> {
    match r {
        Ok((c, m)) => Ok((c.deep_view(), m.deep_view())),
        Err(_) => Err(()),
    }
}

/// The methods named `n` of a well-formed class have well-formed
/// parameter types.
proof fn lemma_methods_named_ok(ms: Seq<MethodModel>, n: NodeModel)
    requires
        forall|i: int| 0 <= i < ms.len() ==> method_ok(#[trigger] ms[i]),
    ensures
        methods_ok(methods_named(ms, n)),
        forall|i: int| 0 <= i < methods_named(ms, n).len() ==> method_ok(#[trigger] methods_named(ms, n)[i]),
    decreases ms.len(),
{
    if ms.len() > 0 {
        lemma_methods_named_ok(ms.drop_last(), n);
        let r = methods_named(ms, n);
        assert(method_ok(ms[ms.len() - 1]));
        assert forall|i: int| 0 <= i < r.len() implies method_ok(#[trigger] r[i]) by {
            if i < methods_named(ms.drop_last(), n).len() {
                assert(r[i] == methods_named(ms.drop_last(), n)[i]);
            }
        }
        assert forall|i: int, j: int| 0 <= i < r.len() && 0 <= j < r[i].parameters.len() implies type_ok(
            #[trigger] r[i].parameters[j].kind,
        ) by {
            assert(method_ok(r[i]));
        }
    }
}

/// The methods of `ms` named `n`.
fn collect_named(ms: &Vec<MethodEnvironment>, n: &ASTNode) -> (r: Vec<MethodEnvironment>)
    ensures
        r.deep_view() == methods_named(ms.deep_view(), n.model()),
{
    let mut r: Vec<MethodEnvironment> = Vec::new();
    let mut i: usize = 0;
    proof {
        assert(r.deep_view() =~= methods_named(ms.deep_view().take(0), n.model()));
    }
    while i < ms.len()
        invariant
            i <= ms@.len(),
            r.deep_view() == methods_named(ms.deep_view().take(i as int), n.model()),
        decreases ms@.len() - i,
    {
        proof {
            assert(ms.deep_view().take(i + 1).drop_last() =~= ms.deep_view().take(i as int));
            assert(ms.deep_view().take(i + 1).last() == ms@[i as int].deep_view());
        }
        if ms[i].name.equals(n) {
            let ghost before = r.deep_view();
            r.push(ms[i].clone());
            proof {
                assert(r.deep_view() =~= before.push(ms@[i as int].deep_view()));
            }
        }
        i = i + 1;
    }
    proof {
        assert(ms.deep_view().take(ms@.len() as int) =~= ms.deep_view());
    }
    r
}

/// The class and method named `method` on the type named `canonical`,
/// within `fuel` steps (see `method_in_env`).
fn method_within(
    canonical: &ASTNode,
    method: &ASTNode,
    args: &Vec<Type>,
    current: &ClassOrInterfaceEnvironment,
    kinds: &Vec<ClassOrInterfaceEnvironment>,
    fuel: u32,
) -> (r: Result<(ClassOrInterfaceEnvironment, MethodEnvironment), String>)
    requires
        type_ok(canonical.model()),
        world_ok(current.deep_view(), kinds.deep_view()),
        types_args_ok(args.deep_view()),
        method_in_env(canonical.model(), method.model(), args.deep_view(), current.deep_view(), kinds.deep_view(), fuel as nat)
            is Some,
    ensures
        pair_result(r) == method_in_env(
            canonical.model(),
            method.model(),
            args.deep_view(),
            current.deep_view(),
            kinds.deep_view(),
            fuel as nat,
        )->Some_0,
        r matches Ok((c, m)) ==> deep_ok(c.deep_view()) && method_ok(m.deep_view()),
    decreases fuel, 1int,
{
    if fuel == 0 {
        return Err(note("could not lookup method in environment"));
    }
    let ghost cur = current.deep_view();
    let ghost ks = kinds.deep_view();
    proof {
        lemma_in_env_deep_ok(canonical.model(), cur, ks);
    }
    match class::in_env(canonical, current, kinds) {
        Ok(cls) => {
            return scan_method(&cls, method, args, kinds, fuel);
        },
        Err(_) => {},
    }
    let mut c2 = canonical.clone();
    let mut m2 = method.clone();
    match move_two(&mut c2, &mut m2) {
        Ok(()) => {
            proof {
                lemma_move_two_ok(canonical.model(), method.model());
            }
            method_within(&c2, &m2, args, current, kinds, fuel - 1)
        },
        Err(()) => Err(note("could not lookup method in environment")),
    }
}

/// The scan of the prefixes of `method` on the class `cls` (see
/// `method_scan`).
fn scan_method(
    cls: &ClassOrInterfaceEnvironment,
    method: &ASTNode,
    args: &Vec<Type>,
    kinds: &Vec<ClassOrInterfaceEnvironment>,
    fuel: u32,
) -> (r: Result<(ClassOrInterfaceEnvironment, MethodEnvironment), String>)
    requires
        fuel > 0,
        world_ok(cls.deep_view(), kinds.deep_view()),
        types_args_ok(args.deep_view()),
        method_scan(cls.deep_view(), method.model(), args.deep_view(), kinds.deep_view(), 0, fuel as nat) is Some,
    ensures
        pair_result(r) == method_scan(cls.deep_view(), method.model(), args.deep_view(), kinds.deep_view(), 0, fuel as nat)->Some_0,
        r matches Ok((c, m)) ==> deep_ok(c.deep_view()) && method_ok(m.deep_view()),
    decreases fuel, 0int,
{
    let ghost c = cls.deep_view();
    let ghost ks = kinds.deep_view();
    let ghost goal = method_scan(c, method.model(), args.deep_view(), ks, 0, fuel as nat);
    proof {
        lemma_model_children(*method);
        lemma_world_env(c, ks);
    }
    let mut potential: Vec<ASTNode> = Vec::new();
    proof {
        assert(potential.deep_view() =~= method.model().children.take(0));
    }
    let mut idx: usize = 0;
    while idx < method.children.len()
        invariant
            idx <= method.children@.len(),
            c == cls.deep_view(),
            ks == kinds.deep_view(),
            fuel > 0,
            world_ok(c, ks),
            types_args_ok(args.deep_view()),
            method.model().children == crate::ast::models(method.children@),
            potential.deep_view() == method.model().children.take(idx as int),
            goal is Some,
            goal == method_scan(c, method.model(), args.deep_view(), ks, 0, fuel as nat),
            goal == method_scan(c, method.model(), args.deep_view(), ks, idx as int, fuel as nat),
        decreases method.children@.len() - idx,
    {
        let ghost before = potential.deep_view();
        potential.push(method.children[idx].clone());
        proof {
            assert(potential.deep_view() =~= before.push(method.model().children[idx as int]));
            assert(method.model().children.take(idx + 1) =~= method.model().children.take(idx as int).push(
                method.model().children[idx as int],
            ));
        }
        if idx % 2 == 0 {
            let pv = crate::ast::clone_nodes(&potential);
            proof {
                crate::ast::lemma_vec_models(pv);
            }
            let pname = ASTNode::rule("Name", pv);
            proof {
                assert(pname.model() == name_prefix(method.model(), idx as int));
            }
            let methods = collect_named(&cls.methods, &pname);
            if methods.len() > 0 {
                if idx + 1 < method.children.len() {
                    return Err(note("a method name must not continue past the method"));
                }
                proof {
                    assert forall|i: int| 0 <= i < c.methods.len() implies method_ok(#[trigger] c.methods[i]) by {
                        assert(deep_ok(c));
                    }
                    lemma_methods_named_ok(c.methods, pname.model());
                    lemma_world_env(c, ks);
                    lemma_select_from_ok(methods.deep_view(), args.deep_view(), c, ks, 0, None, u32::MAX as nat);
                }
                return match select_method(&methods, args, cls, kinds) {
                    Ok(m) => {
                        let found_cls = cls.clone();
                        Ok((found_cls, m))
                    },
                    Err(e) => Err(e),
                };
            }
            match find_field(&cls.fields, &pname) {
                Some(j) => {
                    if idx + 1 == method.children.len() {
                        return Err(note("a field is not a method"));
                    }
                    let f = &cls.fields[j];
                    proof {
                        assert(c.fields[j as int] == f.deep_view());
                        assert(type_ok(c.fields[j as int].kind));
                        lemma_in_env_deep_ok(f.kind.model(), c, ks);
                    }
                    let found_cls = match class::in_env(&f.kind, cls, kinds) {
                        Ok(fc) => fc,
                        Err(e) => return Err(e),
                    };
                    let mut remaining = method.clone();
                    let ghost rem0 = remaining.children@;
                    proof {
                        lemma_model_children(remaining);
                    }
                    let stop = idx + 2;
                    let mut k: usize = 0;
                    while k < stop
                        invariant
                            stop == idx + 2,
                            k <= stop,
                            stop <= rem0.len(),
                            remaining.children@ == rem0.skip(k as int),
                            remaining.token.model() == method.token.model(),
                        decreases stop - k,
                    {
                        remaining.children.remove(0);
                        proof {
                            assert(remaining.children@ =~= rem0.skip(k + 1));
                        }
                        k = k + 1;
                    }
                    proof {
                        lemma_model_children(remaining);
                        assert(remaining.model().children =~= method.model().children.skip(idx + 2));
                        assert(remaining.model() == NodeModel {
                            children: method.model().children.skip(idx + 2),
                            ..method.model()
                        });
                        lemma_in_env_deep_ok(f.kind.model(), c, ks);
                        assert(crate::analysis::types::lookup::class::class_ok(found_cls.deep_view()));
                    }
                    return method_within(&found_cls.name, &remaining, args, &found_cls, kinds, fuel - 1);
                },
                None => {},
            }
        }
        idx = idx + 1;
    }
    Err(note("resolved method to a class without that method"))
}

/// The class and method named `method` on the type named `canonical`, for
/// the arguments `args` (see `method_in_env`).
pub fn in_env(
    canonical: &ASTNode,
    method: &ASTNode,
    args: &Vec<Type>,
    current: &ClassOrInterfaceEnvironment,
    kinds: &Vec<ClassOrInterfaceEnvironment>,
) -> (r: Result<(ClassOrInterfaceEnvironment, MethodEnvironment), String>)
    requires
        type_ok(canonical.model()),
        world_ok(current.deep_view(), kinds.deep_view()),
        types_args_ok(args.deep_view()),
        method_in_env(
            canonical.model(),
            method.model(),
            args.deep_view(),
            current.deep_view(),
            kinds.deep_view(),
            LOOKUP_LIMIT as nat,
        ) is Some,
    ensures
        pair_result(r) == method_in_env(
            canonical.model(),
            method.model(),
            args.deep_view(),
            current.deep_view(),
            kinds.deep_view(),
            LOOKUP_LIMIT as nat,
        )->Some_0,
        r matches Ok((c, m)) ==> deep_ok(c.deep_view()) && method_ok(m.deep_view()),
{
    method_within(canonical, method, args, current, kinds, LOOKUP_LIMIT)
}

/// The class and method named `method` on the variable named `canonical`
/// (see `method_in_variables`).
pub fn in_variables(
    canonical: &ASTNode,
    method: &ASTNode,
    args: &Vec<Type>,
    current: &ClassOrInterfaceEnvironment,
    kinds: &Vec<ClassOrInterfaceEnvironment>,
    variables: &Vec<VariableEnvironment>,
) -> (r: Result<(ClassOrInterfaceEnvironment, MethodEnvironment), String>)
    requires
        type_ok(canonical.model()),
        world_ok(current.deep_view(), kinds.deep_view()),
        types_args_ok(args.deep_view()),
        vars_ok(variables.deep_view()),
        method_in_variables(
            canonical.model(),
            method.model(),
            args.deep_view(),
            current.deep_view(),
            kinds.deep_view(),
            variables.deep_view(),
        ) is Some,
    ensures
        pair_result(r) == method_in_variables(
            canonical.model(),
            method.model(),
            args.deep_view(),
            current.deep_view(),
            kinds.deep_view(),
            variables.deep_view(),
        )->Some_0,
        r matches Ok((c, m)) ==> deep_ok(c.deep_view()) && method_ok(m.deep_view()),
    decreases canonical.model().children.len(),
{
    match find_variable(variables, canonical) {
        Some(j) => {
            proof {
                assert(variables.deep_view()[j as int] == variables@[j as int].deep_view());
                assert(type_ok(variables.deep_view()[j as int].kind));
            }
            return in_env(&variables[j].kind, method, args, current, kinds);
        },
        None => {},
    }
    let mut c2 = canonical.clone();
    let mut m2 = method.clone();
    match move_two(&mut c2, &mut m2) {
        Ok(()) => {
            proof {
                lemma_move_two_ok(canonical.model(), method.model());
            }
            in_variables(&c2, &m2, args, current, kinds, variables)
        },
        Err(()) => Err(note("could not lookup method in variables")),
    }
}

} // verus!
