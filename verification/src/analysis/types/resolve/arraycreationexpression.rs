//! Array creation expressions.
use vstd::prelude::*;

use crate::analysis::environment::classorinterface::ClassOrInterfaceEnvironment;
use crate::analysis::environment::variable::{clone_vars, VariableEnvironment};
use crate::analysis::types::lookup::array::create;
use crate::analysis::types::lookup::class::{deep_ok, vars_ok, world_ok};
use crate::analysis::types::obj::{type_result, Type};
use crate::analysis::types::resolve::expression::go as resolve;
use crate::analysis::types::resolve::model::{array_creation_model, array_of, done};
use crate::analysis::types::resolve::wellformed::lemma_array_of_ok;
use crate::ast::{
    lemma_model_children, lemma_type_ok_arr_ok, lemma_types_ok, models, rule_model, type_ok, ASTNode,
};
use crate::text::note;
use crate::tokens::{lexeme_is, Token, TokenKind};

verus! {

/// The array type whose element type is `element`.
pub(crate) fn array_type(element: &ASTNode) -> (r: ClassOrInterfaceEnvironment)
    ensures
        r.deep_view() == array_of(element.model()),
{
    let mut children: Vec<ASTNode> = Vec::new();
    children.push(element.clone());
    let kind = ASTNode { token: Token::new(TokenKind::NonTerminal, Some("ArrayType")), children };
    proof {
        lemma_model_children(kind);
        assert(models(kind.children@) =~= seq![element.model()]);
        assert(kind.model() == rule_model("ArrayType"@, seq![element.model()]));
    }
    create(&kind)
}

/// `new T[i]`: the dimension, where there is one, must widen to `int`;
/// the type is the array of `T`. The operands are resolved on copies, and
/// the variables are left as they are.
pub fn go(
    node: &ASTNode,
    modifiers: &Vec<ASTNode>,
    current: &ClassOrInterfaceEnvironment,
    kinds: &Vec<ClassOrInterfaceEnvironment>,
    globals: &Vec<VariableEnvironment>,
    depth: u32,
) -> (r: Result<Type, String>)
    requires
        type_ok(node.model()),
        world_ok(current.deep_view(), kinds.deep_view()),
        vars_ok(globals.deep_view()),
        array_creation_model(
            node.model(),
            modifiers.deep_view(),
            current.deep_view(),
            kinds.deep_view(),
            globals.deep_view(),
            depth as nat,
        ) is Some,
    ensures
        array_creation_model(
            node.model(),
            modifiers.deep_view(),
            current.deep_view(),
            kinds.deep_view(),
            globals.deep_view(),
            depth as nat,
        ) == done(type_result(r), node.model(), globals.deep_view()),
        r matches Ok(t) ==> deep_ok(t.deep_view()),
    decreases depth, 2int,
{
    proof {
        lemma_model_children(*node);
        lemma_types_ok(node.model().children);
    }
    let dimexpr = &node.children[1];
    if lexeme_is(&dimexpr.token.lexeme, "DimExpr") {
        proof {
            lemma_model_children(*dimexpr);
            assert(type_ok(dimexpr.model()));
            lemma_types_ok(dimexpr.model().children);
        }
        let mut index = dimexpr.children[1].clone();
        let mut scratch = clone_vars(globals);
        match resolve(&mut index, modifiers, current, kinds, &mut scratch, depth - 1) {
            Ok(idx) => {
                proof {
                    lemma_type_ok_arr_ok(idx.deep_view().name);
                }
                if !idx.is_coercible_to_int() {
                    return Err(note("got invalid index type"));
                }
            },
            Err(e) => return Err(e),
        }
    }
    let mut element = node.children[0].clone();
    let mut scratch = clone_vars(globals);
    match resolve(&mut element, modifiers, current, kinds, &mut scratch, depth - 1) {
        Ok(x) => {
            proof {
                lemma_array_of_ok(x.deep_view().name);
            }
            Ok(Type::new(array_type(&x.kind.name)))
        },
        Err(e) => Err(e),
    }
}

} // verus!
