//! Class instance creation expressions.
use vstd::prelude::*;

use crate::analysis::environment::classorinterface::ClassOrInterfaceEnvironment;
use crate::analysis::environment::variable::VariableEnvironment;
use crate::analysis::types::lookup::class::{in_env, lemma_in_env_deep_ok, lemma_world_env, vars_ok, world_ok};
use crate::analysis::types::lookup::method::{lemma_select_from_ok, select_method};
use crate::analysis::types::obj::Type;
use crate::analysis::types::resolve::methodinvocation::{get_args, qualified};
use crate::analysis::types::resolve::model::{only_initializes, instance_creation_model, outcome, outcome_ok, pop_two, set_child};
use crate::analysis::types::resolve::wellformed::{lemma_constructors_ok, lemma_qualified_member_ok, lemma_set_child_ok};
use crate::ast::{flatten, lemma_model_children, lemma_types_ok, type_ok, ASTNode};

verus! {

/// `new T(args)`: the arguments are resolved, the constructor of `T` that
/// fits them best is chosen and the name becomes its fully qualified
/// name. Where `T` does not resolve, the creation is tried again on a copy
/// whose name lacks its last part.
pub fn go(
    node: &mut ASTNode,
    modifiers: &Vec<ASTNode>,
    current: &ClassOrInterfaceEnvironment,
    kinds: &Vec<ClassOrInterfaceEnvironment>,
    globals: &mut Vec<VariableEnvironment>,
    depth: u32,
) -> (r: Result<Type, String>)
    requires
        type_ok(old(node).model()),
        world_ok(current.deep_view(), kinds.deep_view()),
        vars_ok(old(globals).deep_view()),
        instance_creation_model(
            old(node).model(),
            modifiers.deep_view(),
            current.deep_view(),
            kinds.deep_view(),
            old(globals).deep_view(),
            depth as nat,
        ) is Some,
    ensures
        instance_creation_model(
            old(node).model(),
            modifiers.deep_view(),
            current.deep_view(),
            kinds.deep_view(),
            old(globals).deep_view(),
            depth as nat,
        ) == outcome(r, final(node).model(), final(globals).deep_view()),
        outcome_ok(r, final(node).model(), final(globals).deep_view()),
        only_initializes(old(globals).deep_view(), final(globals).deep_view()),
    decreases depth, 3int,
{
    proof {
        lemma_model_children(*node);
    }
    let idx: usize = if node.children.len() == 2 {
        1
    } else {
        0
    };
    let args = match get_args(node, idx, modifiers, current, kinds, globals, depth - 1) {
        Err(e) => return Err(e),
        Ok(a) => a,
    };
    proof {
        lemma_model_children(*node);
        lemma_types_ok(node.model().children);
        assert(type_ok(node.model().children[0]));
        lemma_in_env_deep_ok(node.model().children[0], current.deep_view(), kinds.deep_view());
    }
    let ghost n1 = node.model();
    match in_env(&node.children[0], current, kinds) {
        Ok(cls) => {
            proof {
                lemma_constructors_ok(cls.deep_view());
                lemma_world_env(cls.deep_view(), kinds.deep_view());
                assert forall|j: int| 0 <= j < cls.deep_view().constructors.len() implies crate::analysis::types::lookup::class::method_ok(
                    #[trigger] cls.deep_view().constructors[j],
                ) by {}
                lemma_select_from_ok(
                    cls.deep_view().constructors,
                    args.deep_view(),
                    cls.deep_view(),
                    kinds.deep_view(),
                    0,
                    None,
                    u32::MAX as nat,
                );
            }
            match select_method(&cls.constructors, &args, &cls, kinds) {
                Err(e) => Err(e),
                Ok(ctor) => {
                    proof {
                        lemma_qualified_member_ok(cls.deep_view().name, ctor.deep_view().name);
                    }
                    let fq = qualified(&cls.name, &ctor.name);
                    proof {
                        lemma_set_child_ok(n1, 0, fq.model());
                    }
                    let ghost q = fq.model();
                    node.children.set(0, fq);
                    proof {
                        lemma_model_children(*node);
                        assert(node.model().children =~= n1.children.update(0, q));
                    }
                    Ok(Type::new(cls))
                },
            }
        },
        Err(_) => {
            let mut copy = node.clone();
            let mut first = copy.children[0].flattened();
            proof {
                lemma_model_children(first);
            }
            let ghost f0 = first.model();
            first.children.pop();
            first.children.pop();
            proof {
                lemma_model_children(first);
                assert(first.model() == pop_two(flatten(n1.children[0]))) by {
                    assert(first.model().children =~= pop_two(f0).children);
                }
            }
            let ghost p = first.model();
            copy.children.set(0, first);
            proof {
                lemma_model_children(copy);
                assert(copy.model().children =~= n1.children.update(0, p));
                assert(copy.model() == set_child(n1, 0, p));
            }
            go(&mut copy, modifiers, current, kinds, globals, depth - 1)
        },
    }
}

} // verus!
