//! Local variable declarations.
use vstd::prelude::*;

use crate::analysis::environment::classorinterface::ClassOrInterfaceEnvironment;
use crate::analysis::environment::variable::VariableEnvironment;
use crate::analysis::types::lookup::class::{in_env, lemma_in_env_deep_ok, lemma_world_env, vars_ok, world_ok};
use crate::analysis::types::lookup::field::find_variable;
use crate::analysis::types::obj::Type;
use crate::analysis::types::verify::class::resolveable;
use crate::analysis::types::verify::method::model::{declaration_model, keeps_locals, lemma_var_new_ok};
use crate::analysis::types::verify::method::statement::{joined, nonblock, typed_copy};
use crate::ast::{lemma_model_children, lemma_types_ok, type_ok, ASTNode};
use crate::text::note;
use crate::tokens::TokenKind;

verus! {

/// The result of a check, by its model.
pub open spec fn unit(r: Result<(), String>) -> Result<(), ()> {
    match r {
        Ok(_) => Ok(()),
        Err(_) => Err(()),
    }
}

/// Checks the local variable declaration `node`: its name must not be
/// taken by a variable of an enclosing scope (`globals`) or of this one
/// (`locals`); an initializer is checked and must be assignable to the
/// declared type. The variable is added to `locals`, and its type must
/// resolve.
pub fn go(
    node: &ASTNode,
    modifiers: &Vec<ASTNode>,
    kinds: &Vec<ClassOrInterfaceEnvironment>,
    current: &ClassOrInterfaceEnvironment,
    globals: &Vec<VariableEnvironment>,
    locals: &mut Vec<VariableEnvironment>,
    depth: u32,
) -> (r: Result<(), String>)
    requires
        type_ok(node.model()),
        world_ok(current.deep_view(), kinds.deep_view()),
        vars_ok(globals.deep_view()),
        vars_ok(old(locals).deep_view()),
        declaration_model(
            node.model(),
            modifiers.deep_view(),
            current.deep_view(),
            kinds.deep_view(),
            globals.deep_view(),
            old(locals).deep_view(),
            depth as nat,
        ) is Some,
    ensures
        declaration_model(
            node.model(),
            modifiers.deep_view(),
            current.deep_view(),
            kinds.deep_view(),
            globals.deep_view(),
            old(locals).deep_view(),
            depth as nat,
        ) == Some((unit(r), final(locals).deep_view())),
        vars_ok(final(locals).deep_view()),
        keeps_locals(old(locals).deep_view(), final(locals).deep_view()),
    decreases depth, 0int,
{
    proof {
        lemma_model_children(*node);
        lemma_types_ok(node.model().children);
        lemma_var_new_ok(node.model());
        lemma_world_env(current.deep_view(), kinds.deep_view());
    }
    let new = VariableEnvironment::new(node.clone());
    if find_variable(globals, &new.name).is_some() {
        return Err(note("cannot declare a variable with a conflict in an outer scope"));
    }
    if find_variable(locals, &new.name).is_some() {
        return Err(note("cannot declare a variable with a conflict in the local scope"));
    }
    if node.children[1].token.kind == TokenKind::Assignment {
        proof {
            lemma_model_children(node.children@[1]);
            assert(type_ok(node.model().children[1]));
            lemma_types_ok(node.model().children[1].children);
        }
        let mut rvalue = node.children[1].children[1].clone();
        match nonblock(&mut rvalue, modifiers, current, kinds, globals, locals, depth - 1) {
            Err(e) => return Err(e),
            Ok(_) => {},
        }
        proof {
            lemma_in_env_deep_ok(new.kind.model(), current.deep_view(), kinds.deep_view());
        }
        let lhs = match in_env(&new.kind, current, kinds) {
            Ok(l) => Type::new(l),
            Err(e) => return Err(e),
        };
        let bg = joined(globals, locals);
        let rhs = match typed_copy(&rvalue, modifiers, current, kinds, &bg, depth) {
            Ok(t) => t,
            Err(e) => return Err(e),
        };
        match lhs.assign(&rhs, current, kinds) {
            Ok(_) => {},
            Err(e) => return Err(e),
        }
    }
    let ghost before = locals.deep_view();
    let v = new.clone();
    locals.push(v);
    proof {
        assert(locals.deep_view() =~= before.push(new.deep_view()));
        assert forall|i: int| 0 <= i < locals.deep_view().len() implies type_ok(
            #[trigger] locals.deep_view()[i].kind,
        ) && type_ok(locals.deep_view()[i].name) by {
            if i < before.len() {
                assert(locals.deep_view()[i] == before[i]);
            }
        }
    }
    resolveable(&new.kind, current, kinds)
}

} // verus!
