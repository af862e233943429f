//! Type checking: resolving names to classes, and checking the hierarchy.
pub mod inheritance;
pub mod laws;
pub mod lookup;
pub mod members;
pub mod obj;
pub mod resolve;
pub mod verify;
pub mod wellformed;

use vstd::prelude::*;

use crate::analysis::environment::classorinterface::{clone_classes, ClassModel, ClassOrInterface, ClassOrInterfaceEnvironment};
use crate::analysis::environment::method::{MethodEnvironment, MethodModel};
use crate::analysis::environment::Environment;
use crate::analysis::types::inheritance::hierarchy_model;
use crate::analysis::types::members::{check_class, class_wf, env_from, members_model, outcome_of, program_wf};
use crate::analysis::types::wellformed::lemma_hierarchy_wf;
use crate::analysis::types::lookup::class::{class_ok, found, in_env, in_env_model};
use crate::analysis::types::verify::prefixes::{package, package_check};
use crate::ast::{contains_node, flatten, leaf_model, lemma_model_children, lemma_types_ok, object_model, type_ok, ASTNode, NodeModel};
use crate::text::{message2, message_around};
use crate::tokens::TokenKind;

verus! {

/// All types of a program are well-formed.
pub open spec fn kinds_ok(kinds: Seq<ClassModel>) -> bool {
    forall|i: int| 0 <= i < kinds.len() ==> class_ok(#[trigger] kinds[i])
}

/// The types of `old` from `i` on, each built from its supertypes and added
/// to `acc`: `Err` with what was built when one fails, `None` where building
/// one would stop the program.
pub open spec fn rebuild_from(old: Seq<ClassModel>, i: int, acc: Seq<ClassModel>) -> Option<
    Result<Seq<ClassModel>, Seq<ClassModel>>,
>
    decreases old.len() - i,
{
    if i < 0 || i >= old.len() {
        Some(Ok(acc))
    } else {
        match hierarchy_model(old, old[i], Seq::empty()) {
            None => None,
            Some(Err(_)) => Some(Err(acc)),
            Some(Ok(c)) => rebuild_from(old, i + 1, acc.push(c)),
        }
    }
}

/// The program with every type built from its supertypes.
pub open spec fn rebuild_model(kinds: Seq<ClassModel>) -> Option<Result<Seq<ClassModel>, Seq<ClassModel>>> {
    rebuild_from(kinds, 0, Seq::empty())
}

/// The list that an outcome leaves behind.
pub open spec fn kinds_of(r: Result<Seq<ClassModel>, Seq<ClassModel>>) -> Seq<ClassModel> {
    match r {
        Ok(k) => k,
        Err(k) => k,
    }
}

/// Replaces every type of the program by the type built from its
/// supertypes (see `inheritance::verify`).
pub fn rebuild_env(env: &mut Environment) -> (r: Result<(), String>)
    requires
        kinds_ok(old(env).deep_view()),
        rebuild_model(old(env).deep_view()) is Some,
    ensures
        r is Ok <==> rebuild_model(old(env).deep_view())->Some_0 is Ok,
        final(env).deep_view() == kinds_of(rebuild_model(old(env).deep_view())->Some_0),
{
    let old_env = Environment { kinds: clone_classes(&env.kinds) };
    let ghost ks = old_env.deep_view();
    env.kinds = Vec::new();
    proof {
        assert(env.kinds.deep_view() =~= Seq::<ClassModel>::empty());
    }
    let mut i: usize = 0;
    while i < old_env.kinds.len()
        invariant
            i <= old_env.kinds@.len(),
            ks == old_env.deep_view(),
            ks == old(env).deep_view(),
            kinds_ok(ks),
            rebuild_model(ks) is Some,
            rebuild_model(ks) == rebuild_from(ks, i as int, env.deep_view()),
        decreases old_env.kinds@.len() - i,
    {
        let current = &old_env.kinds[i];
        proof {
            assert(ks[i as int] == current.deep_view());
            assert(class_ok(ks[i as int]));
        }
        let mut visited: Vec<ASTNode> = Vec::new();
        proof {
            assert(visited.deep_view() =~= Seq::<NodeModel>::empty());
        }
        match inheritance::verify(&old_env, current, &mut visited) {
            Ok(c) => {
                let ghost before = env.deep_view();
                let ghost cd = c.deep_view();
                env.kinds.push(c);
                proof {
                    assert(env.deep_view() =~= before.push(cd));
                }
            },
            Err(e) => {
                return Err(e);
            },
        }
        i = i + 1;
    }
    Ok(())
}

/// The first constructor without parameters, from index `i` on.
pub open spec fn first_zero_arg(ctors: Seq<MethodModel>, i: int) -> Option<MethodModel>
    decreases ctors.len() - i,
{
    if i < 0 || i >= ctors.len() {
        None
    } else if ctors[i].parameters.len() == 0 {
        Some(ctors[i])
    } else {
        first_zero_arg(ctors, i + 1)
    }
}

/// The qualified name of a superclass's constructor: the superclass's name,
/// flattened, then `.` and the constructor's name.
pub open spec fn super_constructor_name(found: ClassModel, ctor: MethodModel) -> NodeModel {
    let f = flatten(found.name);
    NodeModel { children: f.children.push(leaf_model(TokenKind::Dot)).push(ctor.name), ..f }
}

/// Constructors with their superclass constructor set to `p`.
pub open spec fn with_parent(ctors: Seq<MethodModel>, p: NodeModel) -> Seq<MethodModel> {
    ctors.map_values(|m: MethodModel| MethodModel { parent: Some(p), ..m })
}

/// The checks on the superclasses `names` of the class `c`: each resolves
/// to a class that is not final and not an interface, and (except for
/// `java.lang.Object`) has a constructor without parameters, which becomes
/// the superclass constructor of `c`'s constructors. `Err` carries the class
/// as it then is.
pub open spec fn class_extends_check(c: ClassModel, kinds: Seq<ClassModel>, names: Seq<NodeModel>) -> Result<
    ClassModel,
    ClassModel,
>
    decreases names.len(),
{
    if names.len() == 0 {
        Ok(c)
    } else {
        match in_env_model(names[0], c, kinds) {
            Err(_) => Err(c),
            Ok(found) => if (found.kind == ClassOrInterface::CLASS && found.modifiers.contains(
                leaf_model(TokenKind::Final),
            )) || found.kind == ClassOrInterface::INTERFACE {
                Err(c)
            } else if c.name != object_model() {
                match first_zero_arg(found.constructors, 0) {
                    None => Err(c),
                    Some(ctor) => class_extends_check(
                        ClassModel {
                            constructors: with_parent(c.constructors, super_constructor_name(found, ctor)),
                            ..c
                        },
                        kinds,
                        names.drop_first(),
                    ),
                }
            } else {
                class_extends_check(c, kinds, names.drop_first())
            },
        }
    }
}

/// The checks on the interfaces `names` that the class `c` implements: each
/// resolves to an interface, and none is repeated.
pub open spec fn implements_check(
    c: ClassModel,
    kinds: Seq<ClassModel>,
    names: Seq<NodeModel>,
    resolved: Seq<NodeModel>,
) -> bool
    decreases names.len(),
{
    if names.len() == 0 {
        true
    } else {
        match in_env_model(names[0], c, kinds) {
            Err(_) => false,
            Ok(found) => !resolved.contains(found.name) && found.kind != ClassOrInterface::CLASS
                && implements_check(c, kinds, names.drop_first(), resolved.push(found.name)),
        }
    }
}

/// The checks on the types `names` that the interface `c` extends: each
/// resolves to an interface (or `java.lang.Object`), and none is repeated.
pub open spec fn interface_extends_check(
    c: ClassModel,
    kinds: Seq<ClassModel>,
    names: Seq<NodeModel>,
    resolved: Seq<NodeModel>,
) -> bool
    decreases names.len(),
{
    if names.len() == 0 {
        true
    } else {
        match in_env_model(names[0], c, kinds) {
            Err(_) => false,
            Ok(found) => !resolved.contains(found.name) && !(found.kind == ClassOrInterface::CLASS
                && found.name != object_model()) && interface_extends_check(
                c,
                kinds,
                names.drop_first(),
                resolved.push(found.name),
            ),
        }
    }
}

/// The checks on one type of the program (see `verify_env_inheritable`).
pub open spec fn inheritable_class(c: ClassModel, kinds: Seq<ClassModel>) -> Result<ClassModel, ClassModel> {
    if package_check(c.name, c, kinds) is Err {
        Err(c)
    } else if c.kind == ClassOrInterface::CLASS {
        match class_extends_check(c, kinds, c.extends) {
            Err(c2) => Err(c2),
            Ok(c2) => if implements_check(c2, kinds, c2.implements, Seq::empty()) {
                Ok(c2)
            } else {
                Err(c2)
            },
        }
    } else if interface_extends_check(c, kinds, c.extends, Seq::empty()) {
        Ok(c)
    } else {
        Err(c)
    }
}

/// The checks on the types `cur` from index `i` on, against the program
/// `kinds` as it was.
pub open spec fn inheritable_from(kinds: Seq<ClassModel>, cur: Seq<ClassModel>, i: int) -> Result<
    Seq<ClassModel>,
    Seq<ClassModel>,
>
    decreases cur.len() - i,
{
    if i < 0 || i >= cur.len() {
        Ok(cur)
    } else {
        match inheritable_class(cur[i], kinds) {
            Ok(c) => inheritable_from(kinds, cur.update(i, c), i + 1),
            Err(c) => Err(cur.update(i, c)),
        }
    }
}

/// The inheritance checks on a whole program.
pub open spec fn inheritable_model(kinds: Seq<ClassModel>) -> Result<Seq<ClassModel>, Seq<ClassModel>> {
    inheritable_from(kinds, kinds, 0)
}

/// Sets the superclass constructor of every constructor to `p`.
fn set_parents(ctors: &mut Vec<MethodEnvironment>, p: &ASTNode)
    ensures
        final(ctors).deep_view() == with_parent(old(ctors).deep_view(), p.model()),
{
    let ghost start = ctors.deep_view();
    let mut j: usize = 0;
    while j < ctors.len()
        invariant
            j <= ctors@.len(),
            ctors@.len() == start.len(),
            start == old(ctors).deep_view(),
            forall|k: int| 0 <= k < j ==> #[trigger] ctors.deep_view()[k] == (MethodModel {
                parent: Some(p.model()),
                ..start[k]
            }),
            forall|k: int| j <= k < ctors@.len() ==> #[trigger] ctors.deep_view()[k] == start[k],
        decreases ctors@.len() - j,
    {
        let mut m = ctors[j].clone();
        proof {
            assert(ctors.deep_view()[j as int] == ctors@[j as int].deep_view());
        }
        m.parent = Some(p.clone());
        let ghost before = ctors.deep_view();
        ctors.set(j, m);
        proof {
            assert forall|k: int| 0 <= k < ctors@.len() && k != j implies #[trigger] ctors.deep_view()[k] == before[k] by {
                assert(ctors.deep_view()[k] == ctors@[k].deep_view());
            }
        }
        j = j + 1;
    }
    proof {
        assert(ctors.deep_view() =~= with_parent(start, p.model()));
    }
}

/// The first constructor without parameters.
fn find_zero_arg(ctors: &Vec<MethodEnvironment>) -> (r: Option<usize>)
    ensures
        match r {
            Some(j) => j < ctors@.len() && first_zero_arg(ctors.deep_view(), 0) == Some(ctors.deep_view()[j as int]),
            None => first_zero_arg(ctors.deep_view(), 0) is None,
        },
{
    let mut j: usize = 0;
    while j < ctors.len()
        invariant
            j <= ctors@.len(),
            first_zero_arg(ctors.deep_view(), 0) == first_zero_arg(ctors.deep_view(), j as int),
        decreases ctors@.len() - j,
    {
        proof {
            assert(ctors.deep_view()[j as int] == ctors@[j as int].deep_view());
        }
        if ctors[j].parameters.len() == 0 {
            return Some(j);
        }
        j = j + 1;
    }
    None
}

/// The checks on the superclasses of a class (see `class_extends_check`).
fn check_class_extends(current: &mut ClassOrInterfaceEnvironment, kinds: &Vec<ClassOrInterfaceEnvironment>) -> (r:
    Result<(), String>)
    requires
        class_ok(old(current).deep_view()),
    ensures
        r is Ok <==> class_extends_check(old(current).deep_view(), kinds.deep_view(), old(current).deep_view().extends) is Ok,
        final(current).deep_view() == match class_extends_check(
            old(current).deep_view(),
            kinds.deep_view(),
            old(current).deep_view().extends,
        ) {
            Ok(c) => c,
            Err(c) => c,
        },
        final(current).deep_view() == (ClassModel {
            constructors: final(current).deep_view().constructors,
            ..old(current).deep_view()
        }),
{
    let ghost start = current.deep_view();
    let ghost ks = kinds.deep_view();
    let extends = crate::ast::clone_nodes(&current.extends);
    let ghost ns = extends.deep_view();
    let ghost goal = class_extends_check(start, ks, ns);
    let object = crate::analysis::environment::class::object_name();
    proof {
        assert(ns.skip(0) =~= ns);
        lemma_types_ok(ns);
    }
    let mut j: usize = 0;
    while j < extends.len()
        invariant
            j <= extends@.len(),
            ks == kinds.deep_view(),
            ns == extends.deep_view(),
            ns == start.extends,
            object.model() == object_model(),
            forall|k: int| 0 <= k < ns.len() ==> type_ok(#[trigger] ns[k]),
            start == old(current).deep_view(),
            goal == class_extends_check(start, ks, ns),
            goal == class_extends_check(current.deep_view(), ks, ns.skip(j as int)),
            current.deep_view() == (ClassModel { constructors: current.deep_view().constructors, ..start }),
        decreases extends@.len() - j,
    {
        let name = &extends[j];
        proof {
            assert(ns[j as int] == name.model());
            assert(ns.skip(j as int)[0] == ns[j as int]);
            assert(ns.skip(j as int).drop_first() =~= ns.skip(j + 1));
            assert(type_ok(name.model()));
        }
        let found_class = match in_env(name, current, kinds) {
            Ok(f) => f,
            Err(e) => return Err(e),
        };
        if found_class.kind == ClassOrInterface::CLASS && contains_node(
            &found_class.modifiers,
            &ASTNode::leaf(TokenKind::Final),
        ) {
            return Err(message2("class ", &current.name, " cannot extend final class ", &found_class.name));
        } else if found_class.kind == ClassOrInterface::INTERFACE {
            return Err(message2("class ", &current.name, " cannot extend interface ", &found_class.name));
        }
        if !current.name.equals(&object) {
            match find_zero_arg(&found_class.constructors) {
                None => {
                    return Err(message2("class ", &current.name, " has missing zero-argument constructor in ", &found_class.name));
                },
                Some(k) => {
                    let mut qualified = found_class.name.flattened();
                    proof {
                        lemma_model_children(qualified);
                        assert(qualified.children.deep_view() =~= qualified.model().children);
                    }
                    let ghost fq0 = qualified.children.deep_view();
                    qualified.children.push(ASTNode::leaf(TokenKind::Dot));
                    qualified.children.push(found_class.constructors[k].name.clone());
                    proof {
                        lemma_model_children(qualified);
                        assert(qualified.children.deep_view() =~= fq0.push(leaf_model(TokenKind::Dot)).push(
                            found_class.constructors@[k as int].name.model(),
                        ));
                        assert(qualified.model().children =~= qualified.children.deep_view());
                        assert(found_class.deep_view().constructors[k as int] == found_class.constructors@[k as int].deep_view());
                        assert(qualified.model() =~= super_constructor_name(
                            found_class.deep_view(),
                            found_class.deep_view().constructors[k as int],
                        ));
                    }
                    set_parents(&mut current.constructors, &qualified);
                },
            }
        }
        j = j + 1;
    }
    proof {
        assert(ns.skip(extends@.len() as int) =~= Seq::<NodeModel>::empty());
    }
    Ok(())
}

/// The checks on the interfaces that a class implements, or that an
/// interface extends (see `implements_check`, `interface_extends_check`).
fn check_supertypes(
    current: &ClassOrInterfaceEnvironment,
    names: &Vec<ASTNode>,
    kinds: &Vec<ClassOrInterfaceEnvironment>,
    of_class: bool,
) -> (r: Result<(), String>)
    requires
        crate::ast::types_ok(names.deep_view()),
    ensures
        of_class ==> (r is Ok <==> implements_check(current.deep_view(), kinds.deep_view(), names.deep_view(), Seq::empty())),
        !of_class ==> (r is Ok <==> interface_extends_check(
            current.deep_view(),
            kinds.deep_view(),
            names.deep_view(),
            Seq::empty(),
        )),
{
    let ghost cur = current.deep_view();
    let ghost ks = kinds.deep_view();
    let ghost ns = names.deep_view();
    let object = crate::analysis::environment::class::object_name();
    let mut resolved: Vec<ASTNode> = Vec::new();
    proof {
        assert(ns.skip(0) =~= ns);
        assert(resolved.deep_view() =~= Seq::<NodeModel>::empty());
        lemma_types_ok(ns);
    }
    let mut j: usize = 0;
    while j < names.len()
        invariant
            j <= names@.len(),
            cur == current.deep_view(),
            ks == kinds.deep_view(),
            ns == names.deep_view(),
            object.model() == object_model(),
            forall|k: int| 0 <= k < ns.len() ==> type_ok(#[trigger] ns[k]),
            of_class ==> implements_check(cur, ks, ns, Seq::empty()) == implements_check(
                cur,
                ks,
                ns.skip(j as int),
                resolved.deep_view(),
            ),
            !of_class ==> interface_extends_check(cur, ks, ns, Seq::empty()) == interface_extends_check(
                cur,
                ks,
                ns.skip(j as int),
                resolved.deep_view(),
            ),
        decreases names@.len() - j,
    {
        let name = &names[j];
        proof {
            assert(ns[j as int] == name.model());
            assert(ns.skip(j as int)[0] == ns[j as int]);
            assert(ns.skip(j as int).drop_first() =~= ns.skip(j + 1));
            assert(type_ok(name.model()));
        }
        let found_class = match in_env(name, current, kinds) {
            Ok(f) => f,
            Err(e) => return Err(e),
        };
        if contains_node(&resolved, &found_class.name) {
            if of_class {
                return Err(message_around("interface ", &found_class.name, " must not be repeated in class implements"));
            }
            return Err(message_around("type ", &found_class.name, " must not be repeated in interface extends"));
        }
        if of_class {
            if found_class.kind == ClassOrInterface::CLASS {
                return Err(message2("class ", &current.name, " cannot implement class ", &found_class.name));
            }
        } else {
            if found_class.kind == ClassOrInterface::CLASS && !found_class.name.equals(&object) {
                return Err(message2("interface ", &current.name, " cannot extend class ", &found_class.name));
            }
        }
        let ghost before = resolved.deep_view();
        resolved.push(found_class.name.clone());
        proof {
            assert(resolved.deep_view() =~= before.push(found_class.deep_view().name));
        }
        j = j + 1;
    }
    proof {
        assert(ns.skip(names@.len() as int) =~= Seq::<NodeModel>::empty());
    }
    Ok(())
}

/// The checks on one type (see `inheritable_class`).
fn check_inheritable(current: &mut ClassOrInterfaceEnvironment, kinds: &Vec<ClassOrInterfaceEnvironment>) -> (r:
    Result<(), String>)
    requires
        class_ok(old(current).deep_view()),
    ensures
        r is Ok <==> inheritable_class(old(current).deep_view(), kinds.deep_view()) is Ok,
        final(current).deep_view() == match inheritable_class(old(current).deep_view(), kinds.deep_view()) {
            Ok(c) => c,
            Err(c) => c,
        },
        final(current).deep_view() == (ClassModel {
            constructors: final(current).deep_view().constructors,
            ..old(current).deep_view()
        }),
{
    let r = package(&current.name, current, kinds);
    if r.is_err() {
        return r;
    }
    if current.kind == ClassOrInterface::CLASS {
        let r = check_class_extends(current, kinds);
        if r.is_err() {
            return r;
        }
        proof {
            lemma_types_ok(current.deep_view().implements);
        }
        let implements = crate::ast::clone_nodes(&current.implements);
        check_supertypes(current, &implements, kinds, true)
    } else {
        let extends = crate::ast::clone_nodes(&current.extends);
        check_supertypes(current, &extends, kinds, false)
    }
}

/// Checks the class hierarchy of a program: the canonical name of no type
/// has a strict prefix that names a type; a class extends only classes that
/// are not final and have a constructor without parameters (which becomes
/// the superclass constructor of its constructors), and implements only
/// interfaces, none twice; an interface extends only interfaces (or
/// `java.lang.Object`), none twice.
pub fn verify_env_inheritable(env: &mut Environment) -> (r: Result<(), String>)
    requires
        kinds_ok(old(env).deep_view()),
    ensures
        r is Ok <==> inheritable_model(old(env).deep_view()) is Ok,
        final(env).deep_view() == kinds_of(inheritable_model(old(env).deep_view())),
        r is Ok ==> kinds_ok(final(env).deep_view()),
{
    let kinds = clone_classes(&env.kinds);
    let ghost ks = kinds.deep_view();
    let mut i: usize = 0;
    while i < env.kinds.len()
        invariant
            i <= env.kinds@.len(),
            ks == kinds.deep_view(),
            ks == old(env).deep_view(),
            env.deep_view().len() == ks.len(),
            kinds_ok(env.deep_view()),
            inheritable_model(ks) == inheritable_from(ks, env.deep_view(), i as int),
        decreases env.kinds@.len() - i,
    {
        let mut current = env.kinds[i].clone();
        proof {
            assert(env.deep_view()[i as int] == env.kinds@[i as int].deep_view());
            assert(class_ok(env.deep_view()[i as int]));
        }
        let ghost before = env.deep_view();
        let r = check_inheritable(&mut current, &kinds);
        let ghost cd = current.deep_view();
        env.kinds.set(i, current);
        proof {
            assert(env.deep_view() =~= before.update(i as int, cd));
        }
        if r.is_err() {
            return r;
        }
        proof {
            assert(class_ok(cd));
            assert forall|k: int| 0 <= k < env.deep_view().len() implies class_ok(#[trigger] env.deep_view()[k]) by {
                if k != i {
                    assert(env.deep_view()[k] == before[k]);
                }
            }
        }
        i = i + 1;
    }
    Ok(())
}

/// Checks the members of every type of the program (see `members_model`):
/// constructors, fields and methods, with their parameters and bodies. The
/// resolved forms of initial values, parameter types and method bodies are
/// kept.
pub fn verify_env(env: &mut Environment) -> (r: Result<(), String>)
    requires
        program_wf(old(env).deep_view()),
        members_model(old(env).deep_view()) is Some,
    ensures
        members_model(old(env).deep_view()) == Some((outcome_of(r), final(env).deep_view())),
{
    let kinds = clone_classes(&env.kinds);
    let ghost ks = kinds.deep_view();
    let mut i: usize = 0;
    while i < env.kinds.len()
        invariant
            i <= env.kinds@.len(),
            ks == kinds.deep_view(),
            ks == old(env).deep_view(),
            program_wf(ks),
            env.deep_view().len() == ks.len(),
            forall|j: int| i <= j < ks.len() ==> #[trigger] env.deep_view()[j] == ks[j],
            members_model(ks) is Some,
            members_model(ks) == env_from(ks, i as int, env.deep_view()),
        decreases env.kinds@.len() - i,
    {
        let ghost before = env.deep_view();
        let mut current = env.kinds[i].clone();
        proof {
            assert(before[i as int] == env.kinds@[i as int].deep_view());
            assert(class_wf(ks[i as int]));
        }
        let r = check_class(&mut current, &kinds);
        let ghost cd = current.deep_view();
        env.kinds.set(i, current);
        proof {
            assert(env.deep_view() =~= before.update(i as int, cd));
        }
        if r.is_err() {
            return r;
        }
        i = i + 1;
    }
    Ok(())
}

/// Type checking a program: the hierarchy is checked, each type is built
/// from its supertypes, and the members of every type are checked.
pub open spec fn verify_model(ks: Seq<ClassModel>) -> Option<(Result<(), ()>, Seq<ClassModel>)> {
    match inheritable_model(ks) {
        Err(k1) => Some((Err(()), k1)),
        Ok(k1) => match rebuild_model(k1) {
            None => None,
            Some(Err(k2)) => Some((Err(()), k2)),
            Some(Ok(k2)) => members_model(k2),
        },
    }
}

/// Type checks a program (see `verify_model`): its hierarchy
/// (`verify_env_inheritable`), each type built from its supertypes
/// (`rebuild_env`), and the members of every type (`verify_env`).
pub fn verify(env: &mut Environment) -> (r: Result<(), String>)
    requires
        program_wf(old(env).deep_view()),
        verify_model(old(env).deep_view()) is Some,
    ensures
        verify_model(old(env).deep_view()) == Some((outcome_of(r), final(env).deep_view())),
{
    proof {
        let ks = env.deep_view();
        assert forall|i: int| 0 <= i < ks.len() implies class_ok(#[trigger] ks[i]) by {
            assert(class_wf(ks[i]));
        }
        lemma_hierarchy_wf(ks);
    }
    match verify_env_inheritable(env) {
        Err(e) => return Err(e),
        Ok(_) => {},
    }
    match rebuild_env(env) {
        Err(e) => return Err(e),
        Ok(_) => {},
    }
    verify_env(env)
}

} // verus!
