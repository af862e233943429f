//! Types that must resolve.
use vstd::prelude::*;

use crate::analysis::environment::classorinterface::{ClassModel, ClassOrInterfaceEnvironment};
use crate::analysis::types::lookup::class::{env_ok, in_env, in_env_model, lemma_in_env_ok};
use crate::ast::{lemma_model_children, lemma_types_ok, type_ok, NodeModel, ASTNode};
use crate::tokens::lexeme_is;

verus! {

/// The type `name` resolves from `current`, and so does the element type of
/// an array type.
pub open spec fn resolveable_model(name: NodeModel, current: ClassModel, kinds: Seq<ClassModel>) -> bool {
    match in_env_model(name, current, kinds) {
        Err(_) => false,
        Ok(c) => c.name.token.lexeme == Some("ArrayType"@) ==> in_env_model(c.name.children[0], current, kinds)
            is Ok,
    }
}

/// Checks that the type `name` resolves (see `resolveable_model`).
pub fn resolveable(
    name: &ASTNode,
    current: &ClassOrInterfaceEnvironment,
    kinds: &Vec<ClassOrInterfaceEnvironment>,
) -> (r: Result<(), String>)
    requires
        type_ok(name.model()),
        env_ok(current.deep_view(), kinds.deep_view()),
    ensures
        r is Ok <==> resolveable_model(name.model(), current.deep_view(), kinds.deep_view()),
{
    proof {
        lemma_in_env_ok(name.model(), current.deep_view(), kinds.deep_view());
    }
    let cls = match in_env(name, current, kinds) {
        Ok(c) => c,
        Err(e) => return Err(e),
    };
    if lexeme_is(&cls.name.token.lexeme, "ArrayType") {
        proof {
            lemma_model_children(cls.name);
            crate::ast::lemma_type_ok_arr_ok(cls.name.model());
            lemma_types_ok(cls.name.model().children);
        }
        let element = in_env(&cls.name.children[0], current, kinds);
        if element.is_err() {
            return Err(element.unwrap_err());
        }
    }
    Ok(())
}

} // verus!
