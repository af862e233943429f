//! Checking that compilation units have the shape the environment builder
//! reads: every type name can be brought to its normal form, and every
//! declaration has the parts it is read by.
use vstd::prelude::*;

use crate::analysis::environment::class::{class_decl_ok, class_member_ok, class_part_ok, list_entries, read_list};
use crate::analysis::environment::field::{constant_decl_ok, field_decl_ok};
use crate::analysis::environment::interface::{interface_decl_ok, interface_member_ok, interface_part_ok};
use crate::analysis::environment::method::{header_ok, param_nodes, params_ok};
use crate::analysis::environment::unit_ok;
use crate::analysis::environment::variable::var_node_ok;
use crate::analysis::environment::wellformed::{tree_wf, trees_wf};
use crate::ast::{kind_ok, lemma_model_children, lemma_types_ok, type_ok, ASTNode, NodeModel, AST};
use crate::tokens::{lexeme_is, TokenKind};

verus! {

/// Whether a type name keeps an element type for an array after flattening.
fn is_kind_ok(n: &ASTNode) -> (r: bool)
    ensures
        r == kind_ok(n.model()),
{
    let f = n.flattened();
    proof {
        lemma_model_children(f);
    }
    !lexeme_is(&f.token.lexeme, "ArrayType") || f.children.len() >= 1
}

/// Whether every sub-tree of a name can be brought to its normal form.
pub fn is_type_ok(n: &ASTNode) -> (r: bool)
    ensures
        r == type_ok(n.model()),
    decreases n,
{
    proof {
        lemma_model_children(*n);
        lemma_types_ok(n.model().children);
    }
    if !is_kind_ok(n) {
        return false;
    }
    let mut i: usize = 0;
    while i < n.children.len()
        invariant
            i <= n.children@.len(),
            n.model().children == crate::ast::models(n.children@),
            forall|j: int| 0 <= j < i ==> type_ok(#[trigger] n.model().children[j]),
            kind_ok(n.model()),
            crate::ast::types_ok(n.model().children) <==> forall|j: int|
                0 <= j < n.model().children.len() ==> type_ok(#[trigger] n.model().children[j]),
        decreases n.children@.len() - i,
    {
        proof {
            assert(n.model().children[i as int] == n.children@[i as int].model());
        }
        if !is_type_ok(&n.children[i]) {
            return false;
        }
        i = i + 1;
    }
    true
}

/// Whether a variable declaration node can be read.
fn is_var_node_ok(n: &ASTNode) -> (r: bool)
    ensures
        r == var_node_ok(n.model()),
{
    proof {
        lemma_model_children(*n);
    }
    if n.children.len() < 2 || !is_kind_ok(&n.children[0]) {
        return false;
    }
    proof {
        lemma_model_children(n.children@[1]);
    }
    n.children[1].token.kind != TokenKind::Assignment || n.children[1].children.len() >= 1
}

/// Whether the parameters of a declarator can be read.
fn is_params_ok(d: &ASTNode) -> (r: bool)
    ensures
        r == params_ok(d.model()),
{
    proof {
        lemma_model_children(*d);
    }
    if d.children.len() != 4 {
        return true;
    }
    let p = &d.children[2];
    proof {
        lemma_model_children(*p);
        assert(d.model().children[2] == p.model());
    }
    if lexeme_is(&p.token.lexeme, "ParameterList") {
        let f = p.flattened();
        proof {
            lemma_model_children(f);
        }
        let ghost ps = param_nodes(d.model().children[2]);
        let mut i: usize = 0;
        while i < f.children.len()
            invariant
                i <= f.children@.len(),
                ps == f.model().children,
                ps == param_nodes(d.model().children[2]),
                d.model().children.len() == 4,
                f.model().children == crate::ast::models(f.children@),
                forall|j: int| 0 <= j < i ==> #[trigger] ps[j].token.kind != TokenKind::Comma ==> var_node_ok(ps[j]),
            decreases f.children@.len() - i,
        {
            proof {
                assert(ps[i as int] == f.children@[i as int].model());
                lemma_model_children(f.children@[i as int]);
            }
            if f.children[i].token.kind != TokenKind::Comma && !is_var_node_ok(&f.children[i]) {
                proof {
                    let k = i as int;
                    assert(0 <= k < param_nodes(d.model().children[2]).len());
                    assert(param_nodes(d.model().children[2])[k].token.kind != TokenKind::Comma);
                    assert(!var_node_ok(param_nodes(d.model().children[2])[k]));
                }
                return false;
            }
            i = i + 1;
        }
        proof {
            assert forall|j: int|
                0 <= j < param_nodes(d.model().children[2]).len() && #[trigger] param_nodes(
                    d.model().children[2],
                )[j].token.kind != TokenKind::Comma implies var_node_ok(param_nodes(d.model().children[2])[j]) by {
                assert(ps[j].token.kind != TokenKind::Comma ==> var_node_ok(ps[j]));
            }
        }
        true
    } else {
        proof {
            assert(param_nodes(d.model().children[2]) =~= seq![p.model()]);
            lemma_model_children(*p);
            assert(param_nodes(d.model().children[2])[0] == p.model());
        }
        let r = p.token.kind == TokenKind::Comma || is_var_node_ok(p);
        proof {
            if r {
                assert forall|j: int|
                    0 <= j < param_nodes(d.model().children[2]).len() && #[trigger] param_nodes(
                        d.model().children[2],
                    )[j].token.kind != TokenKind::Comma implies var_node_ok(param_nodes(d.model().children[2])[j]) by {
                    assert(j == 0);
                }
            }
        }
        r
    }
}

/// Whether a method header can be read.
fn is_header_ok(h: &ASTNode) -> (r: bool)
    ensures
        r == header_ok(h.model()),
{
    proof {
        lemma_model_children(*h);
    }
    if h.children.len() < 3 {
        return false;
    }
    proof {
        lemma_model_children(h.children@[2]);
    }
    h.children[2].children.len() >= 1 && is_params_ok(&h.children[2])
}

/// Whether a member declaration of a class body can be read.
fn is_class_member_ok(d: &ASTNode) -> (r: bool)
    ensures
        r == class_member_ok(d.model()),
{
    proof {
        lemma_model_children(*d);
    }
    if lexeme_is(&d.token.lexeme, "AbstractMethodDeclaration") {
        d.children.len() >= 1 && is_header_ok(&d.children[0])
    } else if lexeme_is(&d.token.lexeme, "ConstructorDeclaration") {
        if d.children.len() < 3 {
            return false;
        }
        proof {
            lemma_model_children(d.children@[1]);
        }
        d.children[1].children.len() >= 1 && is_params_ok(&d.children[1])
    } else if lexeme_is(&d.token.lexeme, "FieldDeclaration") {
        d.children.len() >= 3 && is_kind_ok(&d.children[1])
    } else if lexeme_is(&d.token.lexeme, "MethodDeclaration") {
        d.children.len() >= 2 && is_header_ok(&d.children[0])
    } else {
        true
    }
}

/// Whether a member declaration of an interface body can be read.
fn is_interface_member_ok(d: &ASTNode) -> (r: bool)
    ensures
        r == interface_member_ok(d.model()),
{
    proof {
        lemma_model_children(*d);
    }
    if lexeme_is(&d.token.lexeme, "AbstractMethodDeclaration") {
        d.children.len() >= 1 && is_header_ok(&d.children[0])
    } else if lexeme_is(&d.token.lexeme, "ConstantDeclaration") {
        d.children.len() >= 5 && is_kind_ok(&d.children[1]) && is_kind_ok(&d.children[4])
    } else {
        true
    }
}

/// Whether a part of a class declaration can be read.
fn is_class_part_ok(p: &ASTNode) -> (r: bool)
    ensures
        r == class_part_ok(p.model()),
{
    proof {
        lemma_model_children(*p);
    }
    if (lexeme_is(&p.token.lexeme, "Implements") || lexeme_is(&p.token.lexeme, "ClassExtends"))
        && p.children.len() < 2 {
        return false;
    }
    if lexeme_is(&p.token.lexeme, "ClassBody") && p.children.len() == 3 {
        let list = read_list(&p.children[1], "ClassBodyDeclarations");
        proof {
            lemma_model_children(list);
        }
        let ghost es = list_entries(p.model().children[1], "ClassBodyDeclarations"@);
        let mut i: usize = 0;
        while i < list.children.len()
            invariant
                i <= list.children@.len(),
                es == list.model().children,
                es == list_entries(p.model().children[1], "ClassBodyDeclarations"@),
                p.model().token.lexeme == Some("ClassBody"@),
                p.model().children.len() == 3,
                list.model().children == crate::ast::models(list.children@),
                forall|j: int| 0 <= j < i ==> class_member_ok(#[trigger] es[j]),
            decreases list.children@.len() - i,
        {
            proof {
                assert(es[i as int] == list.children@[i as int].model());
            }
            if !is_class_member_ok(&list.children[i]) {
                return false;
            }
            i = i + 1;
        }
    }
    true
}

/// Whether a part of an interface declaration can be read.
fn is_interface_part_ok(p: &ASTNode) -> (r: bool)
    ensures
        r == interface_part_ok(p.model()),
{
    proof {
        lemma_model_children(*p);
    }
    if lexeme_is(&p.token.lexeme, "InterfaceExtends") && p.children.len() < 2 {
        return false;
    }
    if lexeme_is(&p.token.lexeme, "InterfaceBody") && p.children.len() == 3 {
        let list = read_list(&p.children[1], "InterfaceMemberDeclarations");
        proof {
            lemma_model_children(list);
        }
        let ghost es = list_entries(p.model().children[1], "InterfaceMemberDeclarations"@);
        let mut i: usize = 0;
        while i < list.children.len()
            invariant
                i <= list.children@.len(),
                es == list.model().children,
                es == list_entries(p.model().children[1], "InterfaceMemberDeclarations"@),
                p.model().token.lexeme == Some("InterfaceBody"@),
                p.model().children.len() == 3,
                list.model().children == crate::ast::models(list.children@),
                forall|j: int| 0 <= j < i ==> interface_member_ok(#[trigger] es[j]),
            decreases list.children@.len() - i,
        {
            proof {
                assert(es[i as int] == list.children@[i as int].model());
            }
            if !is_interface_member_ok(&list.children[i]) {
                return false;
            }
            i = i + 1;
        }
    }
    true
}

/// Whether a class declaration can be read.
fn is_class_decl_ok(n: &ASTNode) -> (r: bool)
    ensures
        r == class_decl_ok(n.model()),
{
    proof {
        lemma_model_children(*n);
    }
    if n.children.len() < 1 {
        return false;
    }
    let mut i: usize = 3;
    while i < n.children.len()
        invariant
            3 <= i,
            i <= n.children@.len() || n.children@.len() < 3,
            n.model().children == crate::ast::models(n.children@),
            forall|j: int| 3 <= j < i && j < n.children@.len() ==> class_part_ok(#[trigger] n.model().children[j]),
        decreases n.children@.len() - i,
    {
        proof {
            assert(n.model().children[i as int] == n.children@[i as int].model());
        }
        if !is_class_part_ok(&n.children[i]) {
            return false;
        }
        i = i + 1;
    }
    true
}

/// Whether an interface declaration can be read.
fn is_interface_decl_ok(n: &ASTNode) -> (r: bool)
    ensures
        r == interface_decl_ok(n.model()),
{
    proof {
        lemma_model_children(*n);
    }
    if n.children.len() < 1 {
        return false;
    }
    let mut i: usize = 3;
    while i < n.children.len()
        invariant
            3 <= i,
            i <= n.children@.len() || n.children@.len() < 3,
            n.model().children == crate::ast::models(n.children@),
            forall|j: int| 3 <= j < i && j < n.children@.len() ==> interface_part_ok(
                #[trigger] n.model().children[j],
            ),
        decreases n.children@.len() - i,
    {
        proof {
            assert(n.model().children[i as int] == n.children@[i as int].model());
        }
        if !is_interface_part_ok(&n.children[i]) {
            return false;
        }
        i = i + 1;
    }
    true
}

/// Whether a compilation unit has the shape that the analysis reads: its
/// canonical name and its declaration are well-formed type trees, and its
/// declaration has the parts it is read by.
pub fn unit_well_formed(t: &AST) -> (r: bool)
    ensures
        r == (unit_ok(t.deep_view()) && tree_wf(t.deep_view())),
{
    if !is_type_ok(&t.canonical) {
        return false;
    }
    match &t.root {
        None => true,
        Some(root) => {
            if !is_type_ok(root) {
                return false;
            }
            if lexeme_is(&root.token.lexeme, "ClassDeclaration") && !is_class_decl_ok(root) {
                return false;
            }
            if lexeme_is(&root.token.lexeme, "InterfaceDeclaration") && !is_interface_decl_ok(root) {
                return false;
            }
            true
        },
    }
}

/// Whether every compilation unit of a program has the shape that the
/// analysis reads (`trees_wf`), so that `Environment::new` and `analyze` may
/// be called on it.
pub fn trees_well_formed(trees: &Vec<AST>) -> (r: bool)
    ensures
        r == trees_wf(trees.deep_view()),
{
    let mut i: usize = 0;
    while i < trees.len()
        invariant
            i <= trees@.len(),
            forall|j: int|
                0 <= j < i ==> unit_ok(#[trigger] trees.deep_view()[j]) && tree_wf(trees.deep_view()[j]),
        decreases trees@.len() - i,
    {
        proof {
            assert(trees.deep_view()[i as int] == trees@[i as int].deep_view());
        }
        if !unit_well_formed(&trees[i]) {
            return false;
        }
        i = i + 1;
    }
    true
}

} // verus!
