//! Building the environment from well-formed compilation units gives a
//! well-formed program: every name, member and body of a type comes from
//! the units' trees.
use vstd::prelude::*;

use crate::analysis::environment::class::{
    add_types, after_header, class_decl, class_member, class_member_ok, class_members, class_part,
    class_part_ok, class_parts, default_extends, list_entries,
};
use crate::analysis::environment::classorinterface::{class_new, ClassModel, ClassOrInterface};
use crate::analysis::environment::field::{constant_decl, declared_field, field_decl};
use crate::analysis::environment::interface::{
    interface_decl, interface_member, interface_member_ok, interface_members, interface_part, interface_part_ok,
    interface_parts,
};
use crate::analysis::environment::method::{
    abstract_method_decl, constructor_decl, declared_params, header_method, header_ok, method_decl,
    param_nodes, params_from, params_ok,
};
use crate::analysis::environment::variable::{var_new, var_node_ok, VarModel};
use crate::analysis::environment::{build, declare, environment, unit_ok, unit_step};
use crate::analysis::types::lookup::class::vars_ok;
use crate::analysis::types::members::program_wf;
use crate::analysis::types::verify::method::model::lemma_var_new_ok;
use crate::analysis::types::wellformed::{fields_wf, lemma_class_wf, method_wf, methods_wf, field_wf};
use crate::analysis::types::resolve::wellformed::lemma_type_ok_of_children;
use crate::ast::{
    flatten, ident_model, lemma_type_ok_flatten, lemma_types_ok, normal_kind, type_ok, types_ok, ASTModel,
    NodeModel,
};
use crate::tokens::TokenKind;

verus! {

/// A compilation unit whose names and declaration are well-formed.
pub open spec fn tree_wf(t: ASTModel) -> bool {
    type_ok(t.canonical) && (t.root matches Some(r) ==> type_ok(r))
}

/// Every compilation unit of a program can be read and is well-formed.
pub open spec fn trees_wf(trees: Seq<ASTModel>) -> bool {
    forall|i: int| 0 <= i < trees.len() ==> unit_ok(#[trigger] trees[i]) && tree_wf(trees[i])
}

proof fn lemma_child(n: NodeModel, i: int)
    requires
        type_ok(n),
        0 <= i < n.children.len(),
    ensures
        type_ok(n.children[i]),
{
    lemma_types_ok(n.children);
}

/// The normal form of a well-formed type name is well-formed.
pub proof fn lemma_normal_kind_ok(x: NodeModel)
    requires
        type_ok(x),
    ensures
        type_ok(normal_kind(x)),
{
    lemma_type_ok_flatten(x);
    let kf = flatten(x);
    if kf.token.lexeme == Some("ArrayType"@) {
        lemma_types_ok(kf.children);
        assert(type_ok(kf.children[0]));
        lemma_type_ok_flatten(kf.children[0]);
        let a = NodeModel { token: kf.token, children: seq![flatten(kf.children[0])] };
        lemma_types_ok(a.children);
        lemma_type_ok_of_children(a);
        assert(normal_kind(x) == a);
    }
}

proof fn lemma_entries(n: NodeModel, rule: Seq<char>)
    requires
        type_ok(n),
    ensures
        forall|i: int| 0 <= i < list_entries(n, rule).len() ==> type_ok(#[trigger] list_entries(n, rule)[i]),
{
    if n.token.lexeme == Some(rule) {
        lemma_type_ok_flatten(n);
        lemma_types_ok(flatten(n).children);
    }
}

proof fn lemma_params_from(cs: Seq<NodeModel>)
    requires
        forall|i: int| 0 <= i < cs.len() ==> type_ok(#[trigger] cs[i]),
        forall|i: int| 0 <= i < cs.len() && (#[trigger] cs[i]).token.kind != TokenKind::Comma ==> var_node_ok(cs[i]),
    ensures
        vars_ok(params_from(cs)),
    decreases cs.len(),
{
    if cs.len() > 0 {
        lemma_params_from(cs.drop_last());
        let rest = params_from(cs.drop_last());
        let c = cs.last();
        assert(type_ok(cs[cs.len() - 1]));
        if c.token.kind != TokenKind::Comma {
            assert(var_node_ok(cs[cs.len() - 1]));
            lemma_var_new_ok(c);
            let v = VarModel { initialized: true, ..var_new(c) };
            assert forall|i: int| 0 <= i < rest.push(v).len() implies type_ok(#[trigger] rest.push(v)[i].kind) && type_ok(
                rest.push(v)[i].name,
            ) by {
                if i < rest.len() {
                    assert(rest.push(v)[i] == rest[i]);
                }
            }
        }
    }
}

proof fn lemma_declared_params(declarator: NodeModel)
    requires
        type_ok(declarator),
        params_ok(declarator),
    ensures
        vars_ok(declared_params(declarator)),
{
    if declarator.children.len() == 4 {
        lemma_child(declarator, 2);
        let p = declarator.children[2];
        if p.token.lexeme == Some("ParameterList"@) {
            lemma_type_ok_flatten(p);
            lemma_types_ok(flatten(p).children);
        }
        lemma_params_from(param_nodes(p));
    }
}

proof fn lemma_header(header: NodeModel)
    requires
        type_ok(header),
        header_ok(header),
    ensures
        method_wf(header_method(header)),
{
    lemma_child(header, 1);
    lemma_child(header, 2);
    lemma_child(header.children[2], 0);
    lemma_declared_params(header.children[2]);
}

proof fn lemma_add_types(acc: Seq<NodeModel>, cs: Seq<NodeModel>)
    requires
        forall|i: int| 0 <= i < acc.len() ==> type_ok(#[trigger] acc[i]),
        forall|i: int| 0 <= i < cs.len() ==> type_ok(#[trigger] cs[i]),
    ensures
        add_types(acc, cs) matches Ok(l) ==> types_ok(l),
    decreases cs.len(),
{
    if cs.len() == 0 {
        lemma_types_ok(acc);
    } else {
        let g = cs[0];
        assert(type_ok(g));
        lemma_type_ok_flatten(g);
        assert forall|i: int| 0 <= i < cs.drop_first().len() implies type_ok(#[trigger] cs.drop_first()[i]) by {
            assert(cs.drop_first()[i] == cs[i + 1]);
        }
        if g.token.kind == TokenKind::Identifier || g.token.lexeme == Some("Name"@) {
            let x = if g.token.kind == TokenKind::Identifier {
                g
            } else {
                flatten(g)
            };
            assert forall|i: int| 0 <= i < acc.push(x).len() implies type_ok(#[trigger] acc.push(x)[i]) by {
                if i < acc.len() {
                    assert(acc.push(x)[i] == acc[i]);
                }
            }
            lemma_add_types(acc.push(x), cs.drop_first());
        } else if g.token.kind == TokenKind::Comma {
            lemma_add_types(acc, cs.drop_first());
        }
    }
}

proof fn lemma_push_type(l: Seq<NodeModel>, x: NodeModel)
    requires
        types_ok(l),
        type_ok(x),
    ensures
        types_ok(l.push(x)),
{
    assert(l.push(x).drop_last() =~= l);
}

/// The parts of a class's well-formedness, member by member.
pub open spec fn parts_wf(c: ClassModel) -> bool {
    crate::analysis::types::lookup::class::class_ok(c) && fields_wf(c.fields) && methods_wf(c.methods) && methods_wf(
        c.constructors,
    )
}

proof fn lemma_methods_push(s: Seq<crate::analysis::environment::method::MethodModel>, m: crate::analysis::environment::method::MethodModel)
    requires
        methods_wf(s),
        method_wf(m),
    ensures
        methods_wf(s.push(m)),
{
    assert forall|j: int| 0 <= j < s.push(m).len() implies method_wf(#[trigger] s.push(m)[j]) by {
        if j < s.len() {
            assert(s.push(m)[j] == s[j]);
        }
    }
}

proof fn lemma_fields_push(s: Seq<crate::analysis::environment::field::FieldModel>, f: crate::analysis::environment::field::FieldModel)
    requires
        fields_wf(s),
        field_wf(f),
    ensures
        fields_wf(s.push(f)),
{
    assert forall|j: int| 0 <= j < s.push(f).len() implies field_wf(#[trigger] s.push(f)[j]) by {
        if j < s.len() {
            assert(s.push(f)[j] == s[j]);
        }
    }
}

proof fn lemma_declared_field(d: NodeModel)
    requires
        type_ok(d),
        d.children.len() >= 3,
    ensures
        field_wf(declared_field(d)),
{
    lemma_child(d, 1);
    lemma_child(d, 2);
    lemma_normal_kind_ok(d.children[1]);
}

proof fn lemma_abstract_decl(c: ClassModel, header: NodeModel)
    requires
        parts_wf(c),
        type_ok(header),
        header_ok(header),
    ensures
        abstract_method_decl(c, header) matches Ok(c2) ==> parts_wf(c2),
{
    lemma_header(header);
    let m = header_method(header);
    let abs = crate::ast::leaf_model(TokenKind::Abstract);
    let modifiers = if !m.modifiers.contains(abs) && c.kind == ClassOrInterface::INTERFACE {
        m.modifiers.push(abs)
    } else {
        m.modifiers
    };
    lemma_methods_push(c.methods, crate::analysis::environment::method::MethodModel { modifiers, ..m });
}

proof fn lemma_constant_decl(c: ClassModel, d: NodeModel)
    requires
        parts_wf(c),
        type_ok(d),
        d.children.len() >= 5,
    ensures
        constant_decl(c, d) matches Ok(c2) ==> parts_wf(c2),
{
    lemma_declared_field(d);
    lemma_child(d, 4);
    lemma_normal_kind_ok(d.children[4]);
    let f = crate::analysis::environment::field::FieldModel {
        value: Some(normal_kind(d.children[4])),
        ..declared_field(d)
    };
    lemma_fields_push(c.fields, f);
}

proof fn members_step(c: ClassModel, d: NodeModel)
    requires
        parts_wf(c),
        type_ok(d),
        class_member_ok(d),
    ensures
        class_member(c, d) matches Ok(c2) ==> parts_wf(c2),
{
    if d.token.lexeme == Some("AbstractMethodDeclaration"@) {
        lemma_child(d, 0);
        lemma_abstract_decl(c, d.children[0]);
    } else if d.token.lexeme == Some("ConstructorDeclaration"@) {
        lemma_child(d, 1);
        lemma_child(d, 2);
        lemma_child(d.children[1], 0);
        lemma_declared_params(d.children[1]);
        let m = crate::analysis::environment::method::MethodModel {
            modifiers: d.children[0].children,
            return_type: c.name,
            name: d.children[1].children[0],
            parameters: declared_params(d.children[1]),
            parent: None,
            body: Some(d.children[2]),
        };
        assert(method_wf(m));
        lemma_methods_push(c.constructors, m);
    } else if d.token.lexeme == Some("FieldDeclaration"@) {
        lemma_declared_field(d);
        lemma_fields_push(c.fields, declared_field(d));
    } else if d.token.lexeme == Some("MethodDeclaration"@) {
        lemma_child(d, 0);
        lemma_child(d, 1);
        lemma_header(d.children[0]);
        lemma_methods_push(
            c.methods,
            crate::analysis::environment::method::MethodModel { body: Some(d.children[1]), ..header_method(d.children[0]) },
        );
    }
}

proof fn lemma_class_members(c: ClassModel, ds: Seq<NodeModel>)
    requires
        parts_wf(c),
        forall|i: int| 0 <= i < ds.len() ==> type_ok(#[trigger] ds[i]) && class_member_ok(ds[i]),
    ensures
        class_members(c, ds) matches Ok(c2) ==> parts_wf(c2),
    decreases ds.len(),
{
    if ds.len() > 0 {
        assert(type_ok(ds[0]) && class_member_ok(ds[0]));
        members_step(c, ds[0]);
        if let Ok(c2) = class_member(c, ds[0]) {
            assert forall|i: int| 0 <= i < ds.drop_first().len() implies type_ok(#[trigger] ds.drop_first()[i])
                && class_member_ok(ds.drop_first()[i]) by {
                assert(ds.drop_first()[i] == ds[i + 1]);
            }
            lemma_class_members(c2, ds.drop_first());
        }
    }
}

proof fn lemma_class_part(c: ClassModel, p: NodeModel)
    requires
        parts_wf(c),
        type_ok(p),
        class_part_ok(p),
    ensures
        class_part(c, p) matches Ok(c2) ==> parts_wf(c2),
{
    if p.token.lexeme == Some("Implements"@) {
        lemma_child(p, 1);
        lemma_entries(p.children[1], "ClassOrInterfaceTypeList"@);
        lemma_types_ok(c.implements);
        lemma_add_types(c.implements, list_entries(p.children[1], "ClassOrInterfaceTypeList"@));
    } else if p.token.lexeme == Some("ClassExtends"@) {
        lemma_child(p, 1);
        let t = p.children[1];
        lemma_type_ok_flatten(t);
        lemma_push_type(c.extends, t);
        lemma_push_type(c.extends, flatten(t));
    } else if p.token.lexeme == Some("ClassBody"@) && p.children.len() == 3 {
        lemma_child(p, 1);
        let ds = list_entries(p.children[1], "ClassBodyDeclarations"@);
        lemma_entries(p.children[1], "ClassBodyDeclarations"@);
        assert forall|i: int| 0 <= i < ds.len() implies type_ok(#[trigger] ds[i]) && class_member_ok(ds[i]) by {
            assert(class_member_ok(list_entries(p.children[1], "ClassBodyDeclarations"@)[i]));
        }
        lemma_class_members(c, ds);
    }
}

proof fn lemma_class_parts(c: ClassModel, ps: Seq<NodeModel>)
    requires
        parts_wf(c),
        forall|i: int| 0 <= i < ps.len() ==> type_ok(#[trigger] ps[i]) && class_part_ok(ps[i]),
    ensures
        class_parts(c, ps) matches Ok(c2) ==> parts_wf(c2),
    decreases ps.len(),
{
    if ps.len() > 0 {
        assert(type_ok(ps[0]) && class_part_ok(ps[0]));
        lemma_class_part(c, ps[0]);
        if let Ok(c2) = class_part(c, ps[0]) {
            assert forall|i: int| 0 <= i < ps.drop_first().len() implies type_ok(#[trigger] ps.drop_first()[i])
                && class_part_ok(ps.drop_first()[i]) by {
                assert(ps.drop_first()[i] == ps[i + 1]);
            }
            lemma_class_parts(c2, ps.drop_first());
        }
    }
}

proof fn lemma_interface_member(c: ClassModel, d: NodeModel)
    requires
        parts_wf(c),
        type_ok(d),
        interface_member_ok(d),
    ensures
        interface_member(c, d) matches Ok(c2) ==> parts_wf(c2),
{
    if d.token.lexeme == Some("AbstractMethodDeclaration"@) {
        lemma_child(d, 0);
        lemma_abstract_decl(c, d.children[0]);
    } else if d.token.lexeme == Some("ConstantDeclaration"@) {
        lemma_constant_decl(c, d);
    }
}

proof fn lemma_interface_members(c: ClassModel, ds: Seq<NodeModel>)
    requires
        parts_wf(c),
        forall|i: int| 0 <= i < ds.len() ==> type_ok(#[trigger] ds[i]) && interface_member_ok(ds[i]),
    ensures
        interface_members(c, ds) matches Ok(c2) ==> parts_wf(c2),
    decreases ds.len(),
{
    if ds.len() > 0 {
        assert(type_ok(ds[0]) && interface_member_ok(ds[0]));
        lemma_interface_member(c, ds[0]);
        if let Ok(c2) = interface_member(c, ds[0]) {
            assert forall|i: int| 0 <= i < ds.drop_first().len() implies type_ok(#[trigger] ds.drop_first()[i])
                && interface_member_ok(ds.drop_first()[i]) by {
                assert(ds.drop_first()[i] == ds[i + 1]);
            }
            lemma_interface_members(c2, ds.drop_first());
        }
    }
}

proof fn lemma_interface_parts(c: ClassModel, ps: Seq<NodeModel>)
    requires
        parts_wf(c),
        forall|i: int| 0 <= i < ps.len() ==> type_ok(#[trigger] ps[i]) && interface_part_ok(ps[i]),
    ensures
        interface_parts(c, ps) matches Ok(c2) ==> parts_wf(c2),
    decreases ps.len(),
{
    if ps.len() > 0 {
        let p = ps[0];
        assert(type_ok(p) && interface_part_ok(p));
        if p.token.lexeme == Some("InterfaceExtends"@) {
            lemma_child(p, 1);
            lemma_entries(p.children[1], "ClassOrInterfaceTypeList"@);
            lemma_types_ok(c.extends);
            lemma_add_types(c.extends, list_entries(p.children[1], "ClassOrInterfaceTypeList"@));
        } else if p.token.lexeme == Some("InterfaceBody"@) && p.children.len() == 3 {
            lemma_child(p, 1);
            let ds = list_entries(p.children[1], "InterfaceMemberDeclarations"@);
            lemma_entries(p.children[1], "InterfaceMemberDeclarations"@);
            assert forall|i: int| 0 <= i < ds.len() implies type_ok(#[trigger] ds[i]) && interface_member_ok(ds[i]) by {
                assert(interface_member_ok(list_entries(p.children[1], "InterfaceMemberDeclarations"@)[i]));
            }
            lemma_interface_members(c, ds);
        }
        if let Ok(c2) = interface_part(c, p) {
            assert forall|i: int| 0 <= i < ps.drop_first().len() implies type_ok(#[trigger] ps.drop_first()[i])
                && interface_part_ok(ps.drop_first()[i]) by {
                assert(ps.drop_first()[i] == ps[i + 1]);
            }
            lemma_interface_parts(c2, ps.drop_first());
        }
    }
}

proof fn lemma_default_extends(c: ClassModel)
    requires
        parts_wf(c),
    ensures
        parts_wf(default_extends(c)),
{
    reveal_strlit("Object");
    reveal_strlit("ArrayType");
    assert("Object"@ != "ArrayType"@) by {
        assert("Object"@.len() != "ArrayType"@.len());
    }
    let o = ident_model("Object"@);
    assert(o.children =~= Seq::<NodeModel>::empty());
    assert(type_ok(o));
    lemma_push_type(c.extends, o);
}

proof fn lemma_start(canonical: NodeModel, kind: ClassOrInterface, imports: Seq<NodeModel>, modifiers: Seq<NodeModel>)
    requires
        type_ok(canonical),
    ensures
        parts_wf(ClassModel { imports, modifiers, ..class_new(canonical, kind) }),
{
}

proof fn lemma_after_header(node: NodeModel)
    requires
        type_ok(node),
    ensures
        forall|i: int| 0 <= i < after_header(node.children).len() ==> type_ok(#[trigger] after_header(node.children)[i]),
{
    lemma_types_ok(node.children);
    if node.children.len() >= 3 {
        assert forall|i: int| 0 <= i < after_header(node.children).len() implies type_ok(
            #[trigger] after_header(node.children)[i],
        ) by {
            assert(after_header(node.children)[i] == node.children[i + 3]);
        }
    }
}

/// Declaring a well-formed unit adds a well-formed type.
proof fn lemma_declare(kinds: Seq<ClassModel>, t: ASTModel)
    requires
        program_wf(kinds),
        unit_ok(t),
        tree_wf(t),
        t.root is Some,
    ensures
        declare(kinds, t) matches Ok(k) ==> program_wf(k),
{
    let root = t.root->Some_0;
    let ps = after_header(root.children);
    lemma_after_header(root);
    if root.token.lexeme == Some("ClassDeclaration"@) {
        let c0 = ClassModel {
            imports: t.imports,
            modifiers: root.children[0].children,
            ..class_new(t.canonical, ClassOrInterface::CLASS)
        };
        lemma_start(t.canonical, ClassOrInterface::CLASS, t.imports, root.children[0].children);
        assert forall|i: int| 0 <= i < ps.len() implies type_ok(#[trigger] ps[i]) && class_part_ok(ps[i]) by {
            assert(ps[i] == root.children[i + 3]);
        }
        lemma_class_parts(c0, ps);
        if let Ok(x) = class_parts(c0, ps) {
            lemma_default_extends(x);
            lemma_class_wf(default_extends(x));
        }
    } else if root.token.lexeme == Some("InterfaceDeclaration"@) {
        let c0 = ClassModel {
            imports: t.imports,
            modifiers: root.children[0].children,
            ..class_new(t.canonical, ClassOrInterface::INTERFACE)
        };
        lemma_start(t.canonical, ClassOrInterface::INTERFACE, t.imports, root.children[0].children);
        assert forall|i: int| 0 <= i < ps.len() implies type_ok(#[trigger] ps[i]) && interface_part_ok(ps[i]) by {
            assert(ps[i] == root.children[i + 3]);
        }
        lemma_interface_parts(c0, ps);
        if let Ok(x) = interface_parts(c0, ps) {
            lemma_default_extends(x);
            lemma_class_wf(default_extends(x));
        }
    }
    if let Ok(k) = declare(kinds, t) {
        assert forall|i: int| 0 <= i < k.len() implies crate::analysis::types::members::class_wf(#[trigger] k[i]) by {
            if i < kinds.len() {
                assert(k[i] == kinds[i]);
            }
        }
    }
}

proof fn lemma_build(trees: Seq<ASTModel>, kinds: Seq<ClassModel>, ts: Seq<ASTModel>)
    requires
        program_wf(kinds),
        trees_wf(ts),
    ensures
        build(trees, kinds, ts) matches Ok(k) ==> program_wf(k),
    decreases ts.len(),
{
    if ts.len() > 0 {
        assert(unit_ok(ts[0]) && tree_wf(ts[0]));
        if ts[0].root is Some {
            lemma_declare(kinds, ts[0]);
        }
        if let Ok(k) = unit_step(trees, kinds, ts[0]) {
            assert forall|i: int| 0 <= i < ts.drop_first().len() implies unit_ok(#[trigger] ts.drop_first()[i])
                && tree_wf(ts.drop_first()[i]) by {
                assert(ts.drop_first()[i] == ts[i + 1]);
            }
            lemma_build(trees, k, ts.drop_first());
        }
    }
}

/// The environment built from well-formed compilation units is a
/// well-formed program.
pub proof fn lemma_environment_wf(trees: Seq<ASTModel>)
    requires
        trees_wf(trees),
    ensures
        environment(trees) matches Ok(k) ==> program_wf(k),
{
    lemma_build(trees, Seq::empty(), trees);
}

} // verus!
