//! Building each class from its supertypes.
use vstd::prelude::*;

use crate::analysis::environment::classorinterface::{class_new, ClassModel, ClassOrInterface, ClassOrInterfaceEnvironment};
use crate::analysis::environment::hierarchy::{apply_model, inherit_model};

use crate::analysis::environment::Environment;
use crate::analysis::types::lookup::class::{env_ok, found, in_env, in_env_model, lemma_in_env_ok};
use crate::ast::{contains_node, leaf_model, lemma_types_ok, type_ok, ASTNode, NodeModel};
use crate::text::{message, note};
use crate::tokens::TokenKind;

verus! {

/// The deepest chain of supertypes that is followed.
pub const DEPTH_LIMIT: u32 = 4294967295;

/// A concrete class declares or inherits an abstract method.
pub open spec fn abstract_in_concrete(c: ClassModel) -> bool {
    &&& c.kind == ClassOrInterface::CLASS
    &&& !c.modifiers.contains(leaf_model(TokenKind::Abstract))
    &&& exists|i: int|
        0 <= i < c.methods.len() && (#[trigger] c.methods[i]).modifiers.contains(
            leaf_model(TokenKind::Abstract),
        )
}

/// `current` built from its supertypes: `None` where inheriting or applying
/// would stop the program (see `inherit_model`, `apply_model`), `Err` for a
/// cyclic hierarchy, a supertype that does not resolve, a refused
/// inheritance or override, an abstract method in a concrete class, or a
/// chain of supertypes deeper than `fuel`.
pub open spec fn build_class(
    kinds: Seq<ClassModel>,
    current: ClassModel,
    visited: Seq<NodeModel>,
    fuel: nat,
) -> Option<Result<ClassModel, ()>>
    decreases fuel, 1int, 0int,
{
    if fuel == 0 || visited.contains(current.name) {
        Some(Err(()))
    } else {
        let vis = visited.push(current.name);
        let child = class_new(current.name, current.kind);
        match inherit_parents(kinds, current, child, current.implements, Seq::empty(), (fuel - 1) as nat) {
            None => None,
            Some(Err(_)) => Some(Err(())),
            Some(Ok(c1)) => match inherit_parents(kinds, current, c1, current.extends, vis, (fuel - 1) as nat) {
                None => None,
                Some(Err(_)) => Some(Err(())),
                Some(Ok(c2)) => match apply_model(c2, current) {
                    None => None,
                    Some(Err(_)) => Some(Err(())),
                    Some(Ok(c3)) => if abstract_in_concrete(c3) {
                        Some(Err(()))
                    } else {
                        Some(Ok(c3))
                    },
                },
            },
        }
    }
}

/// `child` after inheriting, in order, from the supertypes named `names`
/// (each built with `visited` as the chain so far).
pub open spec fn inherit_parents(
    kinds: Seq<ClassModel>,
    current: ClassModel,
    child: ClassModel,
    names: Seq<NodeModel>,
    visited: Seq<NodeModel>,
    fuel: nat,
) -> Option<Result<ClassModel, ()>>
    decreases fuel, 2int, names.len(),
{
    if names.len() == 0 {
        Some(Ok(child))
    } else {
        match in_env_model(names[0], current, kinds) {
            Err(_) => Some(Err(())),
            Ok(found) => match build_class(kinds, found, visited, fuel) {
                None => None,
                Some(Err(_)) => Some(Err(())),
                Some(Ok(parent)) => match inherit_model(child, parent) {
                    None => None,
                    Some(Err(_)) => Some(Err(())),
                    Some(Ok(c)) => inherit_parents(kinds, current, c, names.drop_first(), visited, fuel),
                },
            },
        }
    }
}

/// The class built from `current` in a program.
pub open spec fn hierarchy_model(kinds: Seq<ClassModel>, current: ClassModel, visited: Seq<NodeModel>) -> Option<
    Result<ClassModel, ()>,
> {
    build_class(kinds, current, visited, DEPTH_LIMIT as nat)
}

/// Whether a concrete class has an abstract method.
fn has_abstract_in_concrete(c: &ClassOrInterfaceEnvironment) -> (r: bool)
    ensures
        r == abstract_in_concrete(c.deep_view()),
{
    let abs = ASTNode::leaf(TokenKind::Abstract);
    if c.kind != ClassOrInterface::CLASS || contains_node(&c.modifiers, &abs) {
        return false;
    }
    let mut i: usize = 0;
    while i < c.methods.len()
        invariant
            i <= c.methods@.len(),
            abs.model() == leaf_model(TokenKind::Abstract),
            c.kind == ClassOrInterface::CLASS,
            !c.deep_view().modifiers.contains(leaf_model(TokenKind::Abstract)),
            forall|j: int|
                0 <= j < i ==> !(#[trigger] c.deep_view().methods[j]).modifiers.contains(
                    leaf_model(TokenKind::Abstract),
                ),
        decreases c.methods@.len() - i,
    {
        proof {
            assert(c.deep_view().methods[i as int] == c.methods@[i as int].deep_view());
        }
        if contains_node(&c.methods[i].modifiers, &abs) {
            proof {
                assert(c.deep_view().methods[i as int].modifiers.contains(leaf_model(TokenKind::Abstract)));
            }
            return true;
        }
        i = i + 1;
    }
    false
}

/// Inherits, in order, from the supertypes named `names` of `current`.
fn inherit_from(
    env: &Environment,
    current: &ClassOrInterfaceEnvironment,
    child: &mut ClassOrInterfaceEnvironment,
    names: &Vec<ASTNode>,
    visited: &Vec<ASTNode>,
    fuel: u32,
) -> (r: Result<(), String>)
    requires
        env_ok(current.deep_view(), env.deep_view()),
        crate::ast::types_ok(names.deep_view()),
        inherit_parents(
            env.deep_view(),
            current.deep_view(),
            old(child).deep_view(),
            names.deep_view(),
            visited.deep_view(),
            fuel as nat,
        ) is Some,
    ensures
        r is Ok <==> inherit_parents(
            env.deep_view(),
            current.deep_view(),
            old(child).deep_view(),
            names.deep_view(),
            visited.deep_view(),
            fuel as nat,
        )->Some_0 is Ok,
        r is Ok ==> final(child).deep_view() == inherit_parents(
            env.deep_view(),
            current.deep_view(),
            old(child).deep_view(),
            names.deep_view(),
            visited.deep_view(),
            fuel as nat,
        )->Some_0->Ok_0,
    decreases fuel, 2int,
{
    let ghost ks = env.deep_view();
    let ghost cur = current.deep_view();
    let ghost ns = names.deep_view();
    let ghost vis = visited.deep_view();
    let ghost goal = inherit_parents(ks, cur, child.deep_view(), ns, vis, fuel as nat);
    proof {
        assert(ns.skip(0) =~= ns);
        lemma_types_ok(ns);
    }
    let mut i: usize = 0;
    while i < names.len()
        invariant
            i <= names@.len(),
            ks == env.deep_view(),
            cur == current.deep_view(),
            ns == names.deep_view(),
            vis == visited.deep_view(),
            env_ok(cur, ks),
            forall|j: int| 0 <= j < ns.len() ==> type_ok(#[trigger] ns[j]),
            goal is Some,
            goal == inherit_parents(ks, cur, old(child).deep_view(), ns, vis, fuel as nat),
            goal == inherit_parents(ks, cur, child.deep_view(), ns.skip(i as int), vis, fuel as nat),
        decreases names@.len() - i,
    {
        let name = &names[i];
        proof {
            assert(ns[i as int] == name.model());
            assert(ns.skip(i as int)[0] == ns[i as int]);
            assert(ns.skip(i as int).drop_first() =~= ns.skip(i + 1));
            lemma_in_env_ok(name.model(), cur, ks);
        }
        let found_class = match in_env(name, current, &env.kinds) {
            Ok(f) => f,
            Err(e) => return Err(e),
        };
        let mut chain = crate::ast::clone_nodes(visited);
        let parent = match verify_within(env, &found_class, &mut chain, fuel) {
            Ok(p) => p,
            Err(e) => return Err(e),
        };
        let r = child.inherit(&parent);
        if r.is_err() {
            return r;
        }
        i = i + 1;
    }
    proof {
        assert(ns.skip(names@.len() as int) =~= Seq::<NodeModel>::empty());
    }
    Ok(())
}

/// Builds `current` from its supertypes, following chains of at most `fuel`
/// supertypes.
fn verify_within(
    env: &Environment,
    current: &ClassOrInterfaceEnvironment,
    visited: &mut Vec<ASTNode>,
    fuel: u32,
) -> (r: Result<ClassOrInterfaceEnvironment, String>)
    requires
        env_ok(current.deep_view(), env.deep_view()),
        build_class(env.deep_view(), current.deep_view(), old(visited).deep_view(), fuel as nat) is Some,
    ensures
        found(r) == build_class(env.deep_view(), current.deep_view(), old(visited).deep_view(), fuel as nat)->Some_0,
        r is Ok ==> final(visited).deep_view() == old(visited).deep_view().push(current.deep_view().name),
        fuel > 0 && old(visited).deep_view().contains(current.deep_view().name) ==> (r matches Err(e)
            && e@ == "cyclic class hierarchy detected"@),
        fuel == 0 || old(visited).deep_view().contains(current.deep_view().name) ==> final(visited).deep_view()
            == old(visited).deep_view(),
        fuel > 0 && !old(visited).deep_view().contains(current.deep_view().name) ==> final(visited).deep_view()
            == old(visited).deep_view().push(current.deep_view().name),
    decreases fuel, 1int,
{
    let ghost ks = env.deep_view();
    let ghost cur = current.deep_view();
    if fuel == 0 {
        return Err(note("class hierarchy is too deep"));
    }
    if contains_node(visited, &current.name) {
        return Err(note("cyclic class hierarchy detected"));
    }
    let ghost before = visited.deep_view();
    visited.push(current.name.clone());
    proof {
        assert(visited.deep_view() =~= before.push(cur.name));
    }
    let mut child = ClassOrInterfaceEnvironment::new(current.name.clone(), current.kind);
    let empty: Vec<ASTNode> = Vec::new();
    proof {
        assert(empty.deep_view() =~= Seq::<NodeModel>::empty());
    }
    let r = inherit_from(env, current, &mut child, &current.implements, &empty, fuel - 1);
    if r.is_err() {
        return Err(r.unwrap_err());
    }
    let r = inherit_from(env, current, &mut child, &current.extends, visited, fuel - 1);
    if r.is_err() {
        return Err(r.unwrap_err());
    }
    let r = child.apply(current);
    if r.is_err() {
        return Err(r.unwrap_err());
    }
    if has_abstract_in_concrete(&child) {
        return Err(message("abstract method found in non-abstract class ", &child.name));
    }
    Ok(child)
}

/// Builds `current` from its supertypes: it inherits from each interface it
/// implements and each type it extends, in order, and then its own
/// declarations are applied; a cyclic hierarchy, or an abstract method in a
/// concrete class, is an error.
pub fn verify(
    env: &Environment,
    current: &ClassOrInterfaceEnvironment,
    visited: &mut Vec<ASTNode>,
) -> (r: Result<ClassOrInterfaceEnvironment, String>)
    requires
        env_ok(current.deep_view(), env.deep_view()),
        hierarchy_model(env.deep_view(), current.deep_view(), old(visited).deep_view()) is Some,
    ensures
        found(r) == hierarchy_model(env.deep_view(), current.deep_view(), old(visited).deep_view())->Some_0,
        old(visited).deep_view().contains(current.deep_view().name) ==> (r matches Err(e)
            && e@ == "cyclic class hierarchy detected"@) && final(visited).deep_view() == old(visited).deep_view(),
        !old(visited).deep_view().contains(current.deep_view().name) ==> final(visited).deep_view()
            == old(visited).deep_view().push(current.deep_view().name),
{
    verify_within(env, current, visited, DEPTH_LIMIT)
}

/// `a` extends a type that resolves, from `a`, to `b`.
pub open spec fn extends_step(kinds: Seq<ClassModel>, a: ClassModel, b: ClassModel) -> bool {
    exists|i: int| 0 <= i < a.extends.len() && #[trigger] in_env_model(a.extends[i], a, kinds) == Ok::<ClassModel, ()>(b)
}

/// `path` leads from a type back to itself, each type extending the next.
pub open spec fn extends_cycle(kinds: Seq<ClassModel>, path: Seq<ClassModel>) -> bool {
    &&& path.len() >= 2
    &&& path[0] == path.last()
    &&& forall|i: int| 0 <= i < path.len() - 1 ==> #[trigger] extends_step(kinds, path[i], path[i + 1])
}

/// Inheriting from a list of supertypes fails where one of them cannot be
/// built.
proof fn lemma_parents_fail(
    kinds: Seq<ClassModel>,
    current: ClassModel,
    child: ClassModel,
    names: Seq<NodeModel>,
    visited: Seq<NodeModel>,
    fuel: nat,
    i: int,
    target: ClassModel,
)
    requires
        0 <= i < names.len(),
        in_env_model(names[i], current, kinds) == Ok::<ClassModel, ()>(target),
        !(build_class(kinds, target, visited, fuel) matches Some(Ok(_))),
    ensures
        !(inherit_parents(kinds, current, child, names, visited, fuel) matches Some(Ok(_))),
    decreases names.len(),
{
    if i > 0 {
        match in_env_model(names[0], current, kinds) {
            Ok(found) => match build_class(kinds, found, visited, fuel) {
                Some(Ok(parent)) => match inherit_model(child, parent) {
                    Some(Ok(c)) => {
                        assert(names.drop_first()[i - 1] == names[i]);
                        lemma_parents_fail(kinds, current, c, names.drop_first(), visited, fuel, i - 1, target);
                    },
                    _ => {},
                },
                _ => {},
            },
            Err(_) => {},
        }
    }
}

/// From the `k`th type of a cycle on, with the types before it on the
/// chain already visited, no type can be built.
proof fn lemma_cycle_from(kinds: Seq<ClassModel>, path: Seq<ClassModel>, k: int, visited: Seq<NodeModel>, fuel: nat)
    requires
        extends_cycle(kinds, path),
        0 <= k < path.len(),
        forall|j: int| 0 <= j < k ==> visited.contains(#[trigger] path[j].name),
    ensures
        !(build_class(kinds, path[k], visited, fuel) matches Some(Ok(_))),
    decreases path.len() - k,
{
    if k == path.len() - 1 {
        assert(path[k] == path[0]);
        assert(visited.contains(path[0].name));
    } else if fuel == 0 || visited.contains(path[k].name) {
    } else {
        let cur = path[k];
        let vis = visited.push(cur.name);
        assert forall|j: int| 0 <= j < k + 1 implies vis.contains(#[trigger] path[j].name) by {
            if j < k {
                assert(visited.contains(path[j].name));
                let w = choose|w: int| 0 <= w < visited.len() && visited[w] == path[j].name;
                assert(vis[w] == path[j].name);
            } else {
                assert(vis[visited.len() as int] == cur.name);
            }
        }
        lemma_cycle_from(kinds, path, k + 1, vis, (fuel - 1) as nat);
        assert(extends_step(kinds, path[k], path[k + 1]));
        let i = choose|i: int|
            0 <= i < cur.extends.len() && #[trigger] in_env_model(cur.extends[i], cur, kinds) == Ok::<ClassModel, ()>(path[k + 1]);
        let child = class_new(cur.name, cur.kind);
        match inherit_parents(kinds, cur, child, cur.implements, Seq::empty(), (fuel - 1) as nat) {
            Some(Ok(c1)) => {
                lemma_parents_fail(kinds, cur, c1, cur.extends, vis, (fuel - 1) as nat, i, path[k + 1]);
            },
            _ => {},
        }
    }
}

/// A type that reaches itself through the types it extends is never built:
/// the hierarchy check refuses it, whatever chain was visited before.
pub proof fn cyclic_hierarchy_refused(kinds: Seq<ClassModel>, path: Seq<ClassModel>, visited: Seq<NodeModel>)
    requires
        extends_cycle(kinds, path),
    ensures
        !(hierarchy_model(kinds, path[0], visited) matches Some(Ok(_))),
{
    lemma_cycle_from(kinds, path, 0, visited, DEPTH_LIMIT as nat);
}

} // verus!
