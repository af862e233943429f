//! Resolving keeps the names it handles well-formed: the rewritten
//! expression, the variables, and every type it gives.
use vstd::prelude::*;

use crate::analysis::environment::classorinterface::ClassModel;
use crate::analysis::environment::variable::VarModel;

use crate::analysis::types::lookup::class::{deep_ok, lemma_array_deep_ok, lemma_in_env_deep_ok, lemma_qualified_ok, vars_ok, world_ok};
use crate::analysis::types::lookup::method::methods_ok;
use crate::analysis::types::obj::{assign_model, cast_model, comparison_model, comparison_value, math_model, math_value, prim, string_canonical, with_lexeme};
use crate::analysis::types::resolve::model::{array_of, mark_initialized, qualified_member, set_child, set_token};
use crate::ast::{flat_children, flatten, kind_ok, leaf_model, lemma_type_ok_flatten, lemma_types_ok, type_ok, types_ok, NodeModel};
use crate::numbers::{decimal, signed_decimal};
use crate::tokens::{TokenKind, TokenModel};

verus! {

/// A spliced non-empty list of well-formed array names is not empty.
proof fn lemma_flat_nonempty(t: TokenModel, cs: Seq<NodeModel>)
    requires
        t.lexeme == Some("ArrayType"@),
        types_ok(cs),
        cs.len() >= 1,
    ensures
        flat_children(t, cs).len() >= 1,
{
    let c = cs.last();
    assert(type_ok(c));
    if c.token == t {
        assert(kind_ok(c));
        assert(flatten(c).token == c.token);
    }
}

/// A node with at least one child, all well-formed, is well-formed.
pub proof fn lemma_type_ok_of_children(n: NodeModel)
    requires
        types_ok(n.children),
        n.children.len() >= 1,
    ensures
        type_ok(n),
{
    if n.token.kind == TokenKind::NonTerminal && n.token.lexeme == Some("ArrayType"@) {
        lemma_flat_nonempty(n.token, n.children);
    }
    assert(kind_ok(n));
}

/// Replacing a child of a well-formed node by a well-formed node keeps it
/// well-formed.
pub proof fn lemma_set_child_ok(n: NodeModel, i: int, x: NodeModel)
    requires
        type_ok(n),
        0 <= i < n.children.len(),
        type_ok(x),
    ensures
        type_ok(set_child(n, i, x)),
{
    lemma_types_ok(n.children);
    let cs = n.children.update(i, x);
    assert forall|j: int| 0 <= j < cs.len() implies type_ok(#[trigger] cs[j]) by {
        if j != i {
            assert(type_ok(n.children[j]));
        }
    }
    lemma_types_ok(cs);
    lemma_type_ok_of_children(set_child(n, i, x));
}

/// Replacing the token of a well-formed node with children keeps it
/// well-formed.
pub proof fn lemma_set_token_ok(n: NodeModel, t: TokenModel)
    requires
        type_ok(n),
        n.children.len() >= 1,
    ensures
        type_ok(set_token(n, t)),
{
    lemma_type_ok_of_children(set_token(n, t));
}

/// A well-formed node without some of its children is well-formed, as
/// long as one is left.
pub proof fn lemma_remove_ok(n: NodeModel, i: int)
    requires
        type_ok(n),
        0 <= i < n.children.len(),
        n.children.len() >= 2,
    ensures
        type_ok(NodeModel { children: n.children.remove(i), ..n }),
{
    lemma_types_ok(n.children);
    let cs = n.children.remove(i);
    assert forall|j: int| 0 <= j < cs.len() implies type_ok(#[trigger] cs[j]) by {
        if j < i {
            assert(cs[j] == n.children[j]);
        } else {
            assert(cs[j] == n.children[j + 1]);
        }
    }
    lemma_types_ok(cs);
    lemma_type_ok_of_children(NodeModel { children: cs, ..n });
}

/// A primitive type, with a lexeme other than `ArrayType`, is well-formed.
pub proof fn lemma_const_ok(k: TokenKind, l: Option<Seq<char>>)
    requires
        l != Some("ArrayType"@),
    ensures
        deep_ok(with_lexeme(prim(k), l)),
        deep_ok(prim(k)),
{
    let a = with_lexeme(prim(k), l).name;
    assert(a.children =~= Seq::<NodeModel>::empty());
    assert(flat_children(a.token, a.children) =~= Seq::<NodeModel>::empty());
    assert(kind_ok(a));
    assert(type_ok(a));
    let b = prim(k).name;
    assert(flat_children(b.token, b.children) =~= Seq::<NodeModel>::empty());
    assert(kind_ok(b));
    assert(type_ok(b));
}

/// The decimal text of a number starts with a digit.
proof fn lemma_decimal_head(n: nat)
    ensures
        decimal(n).len() >= 1,
        decimal(n)[0] != 'A',
    decreases n,
{
    if n >= 10 {
        lemma_decimal_head(n / 10);
        assert(decimal(n)[0] == decimal(n / 10)[0]);
    }
}

/// The text of a number is not `ArrayType`.
pub proof fn lemma_signed_not_array(n: int)
    ensures
        signed_decimal(n) != "ArrayType"@,
{
    reveal_strlit("ArrayType");
    if n < 0 {
        lemma_decimal_head((-n) as nat);
        assert(signed_decimal(n)[0] == '-');
    } else {
        lemma_decimal_head(n as nat);
    }
    assert(signed_decimal(n)[0] != "ArrayType"@[0]);
}

/// The type of an arithmetic operation is well-formed.
pub proof fn lemma_math_ok(a: ClassModel, op: TokenKind, b: ClassModel)
    ensures
        math_model(a, op, b) matches Ok(t) ==> deep_ok(t),
{
    lemma_const_ok(TokenKind::Int, None);
    lemma_const_ok(TokenKind::Byte, None);
    lemma_const_ok(TokenKind::Short, None);
    reveal_strlit("java");
    reveal_strlit("lang");
    reveal_strlit("String");
    reveal_strlit("ArrayType");
    assert("java"@ != "ArrayType"@) by {
        assert("java"@.len() != "ArrayType"@.len());
    }
    assert("lang"@ != "ArrayType"@) by {
        assert("lang"@.len() != "ArrayType"@.len());
    }
    assert("String"@ != "ArrayType"@) by {
        assert("String"@.len() != "ArrayType"@.len());
    }
    lemma_qualified_ok("java"@, "lang"@, "String"@);
    assert(deep_ok(string_canonical()));
    if let Ok(t) = math_model(a, op, b) {
        if t.name.token.lexeme is Some {
            let x = crate::analysis::types::obj::lexeme_value(a.name)->Some_0;
            let y = crate::analysis::types::obj::lexeme_value(b.name)->Some_0;
            if t != string_canonical() {
                let v = math_value(op, x, y);
                if op == TokenKind::FSlash {
                    if y != 0 {
                        lemma_signed_not_array(x.checked_div(y)->Some_0 as int);
                    }
                } else if op == TokenKind::Minus {
                    lemma_signed_not_array(x - y);
                } else if op == TokenKind::Percent {
                    lemma_signed_not_array(x.checked_rem(y)->Some_0 as int);
                } else if op == TokenKind::Plus {
                    lemma_signed_not_array(x + y);
                } else if op == TokenKind::Star {
                    lemma_signed_not_array(x * y);
                }
                lemma_const_ok(TokenKind::Int, v);
            }
        }
    }
}

/// The type of a comparison is well-formed.
pub proof fn lemma_comparison_ok(a: ClassModel, op: TokenKind, b: ClassModel, c: ClassModel, k: Seq<ClassModel>)
    ensures
        comparison_model(a, op, b, c, k) matches Ok(t) ==> deep_ok(t),
{
    reveal_strlit("true");
    reveal_strlit("false");
    reveal_strlit("ArrayType");
    assert("true"@ != "ArrayType"@) by {
        assert("true"@.len() != "ArrayType"@.len());
    }
    assert("false"@ != "ArrayType"@) by {
        assert("false"@.len() != "ArrayType"@.len());
    }
    lemma_const_ok(TokenKind::Boolean, None);
    lemma_const_ok(TokenKind::Boolean, Some("true"@));
    lemma_const_ok(TokenKind::Boolean, Some("false"@));
    if let (Some(x), Some(y)) = (
        crate::analysis::types::obj::lexeme_value(a.name),
        crate::analysis::types::obj::lexeme_value(b.name),
    ) {
        lemma_const_ok(TokenKind::Boolean, comparison_value(op, x, y));
    }
}

/// A folded `boolean` constant is well-formed.
pub proof fn lemma_bool_ok(v: bool)
    ensures
        deep_ok(with_lexeme(prim(TokenKind::Boolean), Some(if v { "true"@ } else { "false"@ }))),
        deep_ok(prim(TokenKind::Boolean)),
{
    reveal_strlit("true");
    reveal_strlit("false");
    reveal_strlit("ArrayType");
    assert("true"@ != "ArrayType"@) by {
        assert("true"@.len() != "ArrayType"@.len());
    }
    assert("false"@ != "ArrayType"@) by {
        assert("false"@.len() != "ArrayType"@.len());
    }
    lemma_const_ok(TokenKind::Boolean, Some(if v { "true"@ } else { "false"@ }));
}

/// The type given by an assignment is well-formed.
pub proof fn lemma_assign_ok(a: ClassModel, b: ClassModel, c: ClassModel, k: Seq<ClassModel>)
    requires
        type_ok(a.name),
        world_ok(c, k),
    ensures
        assign_model(a, b, c, k) matches Ok(t) ==> deep_ok(t),
{
    lemma_in_env_deep_ok(a.name, c, k);
    lemma_const_ok(TokenKind::Int, None);
}

/// The type given by a cast is well-formed.
pub proof fn lemma_cast_ok(a: ClassModel, b: ClassModel, c: ClassModel, k: Seq<ClassModel>)
    requires
        type_ok(a.name),
        world_ok(c, k),
    ensures
        cast_model(a, b, c, k) matches Ok(t) ==> deep_ok(t),
{
    lemma_in_env_deep_ok(a.name, c, k);
}

/// The array type of a well-formed element type is well-formed.
pub proof fn lemma_array_of_ok(x: NodeModel)
    requires
        type_ok(x),
    ensures
        deep_ok(array_of(x)),
        type_ok(array_of(x).name),
{
    let a = array_of(x).name;
    let y = flatten(x);
    lemma_type_ok_flatten(x);
    assert(a.children =~= seq![y]);
    lemma_types_ok(a.children);
    lemma_type_ok_of_children(a);
    lemma_array_deep_ok(crate::ast::rule_model("ArrayType"@, seq![x]));
}

/// A fully qualified member name built from well-formed names is
/// well-formed.
pub proof fn lemma_qualified_member_ok(cls: NodeModel, member: NodeModel)
    requires
        type_ok(cls),
        type_ok(member),
    ensures
        type_ok(qualified_member(cls, member)),
{
    let f = flatten(cls);
    lemma_type_ok_flatten(cls);
    lemma_types_ok(f.children);
    let d = leaf_model(TokenKind::Dot);
    assert(flat_children(d.token, d.children) =~= Seq::<NodeModel>::empty());
    assert(type_ok(d));
    let cs = f.children.push(d).push(member);
    assert forall|j: int| 0 <= j < cs.len() implies type_ok(#[trigger] cs[j]) by {
        if j < f.children.len() {
            assert(cs[j] == f.children[j]);
        }
    }
    lemma_types_ok(cs);
    lemma_type_ok_of_children(qualified_member(cls, member));
}

/// Marking a variable initialized keeps the variables well-formed.
pub proof fn lemma_mark_initialized_ok(g: Seq<VarModel>, n: NodeModel, i: int)
    requires
        vars_ok(g),
    ensures
        vars_ok(mark_initialized(g, n, i)),
    decreases g.len() - i,
{
    if 0 <= i < g.len() && g[i].name != n {
        lemma_mark_initialized_ok(g, n, i + 1);
    } else if 0 <= i < g.len() {
        let h = mark_initialized(g, n, i);
        assert forall|j: int| 0 <= j < h.len() implies type_ok(#[trigger] h[j].kind) && type_ok(h[j].name) by {
            assert(type_ok(g[j].kind));
        }
    }
}

/// The constructors of a well-formed class have well-formed parameters.
pub proof fn lemma_constructors_ok(c: ClassModel)
    requires
        deep_ok(c),
    ensures
        methods_ok(c.constructors),
{
    assert forall|i: int, j: int|
        0 <= i < c.constructors.len() && 0 <= j < c.constructors[i].parameters.len() implies type_ok(
        #[trigger] c.constructors[i].parameters[j].kind,
    ) by {
        assert(crate::analysis::types::lookup::class::method_ok(c.constructors[i]));
    }
}

} // verus!
