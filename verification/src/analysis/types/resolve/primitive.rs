//! The types of literals and of the primitive types' keywords.
use vstd::prelude::*;

use crate::analysis::types::lookup::class::{deep_ok, lemma_qualified_ok};
use crate::analysis::types::obj::{prim_type, qualified_type, type_result, Type};
use crate::analysis::types::resolve::model::primitive_model;
use crate::analysis::types::resolve::wellformed::lemma_const_ok;
use crate::ast::ASTNode;
use crate::text::note;
use crate::tokens::TokenKind;

verus! {

/// The type of a literal (`true`, `'c'`, `1`, `"s"`, `null`) or of a
/// primitive type's keyword.
pub fn go(node: &ASTNode) -> (r: Result<Type, String>)
    ensures
        type_result(r) == primitive_model(node.model()),
        r matches Ok(t) ==> deep_ok(t.deep_view()),
{
    proof {
        lemma_const_ok(TokenKind::Boolean, None);
        lemma_const_ok(TokenKind::Byte, None);
        lemma_const_ok(TokenKind::Char, None);
        lemma_const_ok(TokenKind::Int, None);
        lemma_const_ok(TokenKind::Null, None);
        lemma_const_ok(TokenKind::Short, None);
    }
    match node.token.kind {
        TokenKind::Boolean | TokenKind::True | TokenKind::False => Ok(prim_type(TokenKind::Boolean)),
        TokenKind::Byte => Ok(prim_type(TokenKind::Byte)),
        TokenKind::Char | TokenKind::CharValue => Ok(prim_type(TokenKind::Char)),
        TokenKind::Int | TokenKind::NumValue => Ok(prim_type(TokenKind::Int)),
        TokenKind::Null => Ok(prim_type(TokenKind::Null)),
        TokenKind::Short => Ok(prim_type(TokenKind::Short)),
        TokenKind::StrValue => {
            proof {
                reveal_strlit("java");
                reveal_strlit("lang");
                reveal_strlit("String");
                reveal_strlit("ArrayType");
                assert("java"@ != "ArrayType"@) by {
                    assert("java"@.len() != "ArrayType"@.len());
                }
                assert("lang"@ != "ArrayType"@) by {
                    assert("lang"@.len() != "ArrayType"@.len());
                }
                assert("String"@ != "ArrayType"@) by {
                    assert("String"@.len() != "ArrayType"@.len());
                }
                lemma_qualified_ok("java"@, "lang"@, "String"@);
            }
            Ok(qualified_type("java", "lang", "String"))
        },
        _ => Err(note("invalid primitive type")),
    }
}

} // verus!
