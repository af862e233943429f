//! What holds of every environment that is built.
use vstd::prelude::*;

use crate::analysis::environment::class::{class_decl, class_member, class_members, class_part, class_parts, name_taken};
use crate::analysis::environment::classorinterface::{class_new, ClassModel, ClassOrInterface};

use crate::analysis::environment::interface::{interface_decl, interface_member, interface_members, interface_part, interface_parts};
use crate::analysis::environment::method::MethodModel;
use crate::analysis::environment::{build, environment, unit_step};
use crate::ast::{leaf_model, object_model, ASTModel, NodeModel};
use crate::tokens::TokenKind;

verus! {

/// No two types of `kinds` have the same name.
pub open spec fn unique_names(kinds: Seq<ClassModel>) -> bool {
    forall|i: int, j: int| 0 <= i < j < kinds.len() ==> kinds[i].name != kinds[j].name
}

/// Every type but `java.lang.Object` has a supertype.
pub open spec fn has_supertypes(kinds: Seq<ClassModel>) -> bool {
    forall|i: int| 0 <= i < kinds.len() ==> (#[trigger] kinds[i]).extends.len() > 0 || kinds[i].name == object_model()
}

/// Every method of an interface is abstract.
pub open spec fn abstract_interface(c: ClassModel) -> bool {
    c.kind == ClassOrInterface::INTERFACE ==> forall|j: int|
        0 <= j < c.methods.len() ==> (#[trigger] c.methods[j]).modifiers.contains(leaf_model(TokenKind::Abstract))
}

/// Every method of every interface is abstract.
pub open spec fn interfaces_abstract(kinds: Seq<ClassModel>) -> bool {
    forall|i: int| 0 <= i < kinds.len() ==> abstract_interface(#[trigger] kinds[i])
}

/// The members of a class body keep its name and kind.
proof fn lemma_class_members_keep(c: ClassModel, ds: Seq<NodeModel>)
    ensures
        class_members(c, ds) matches Ok(c2) ==> c2.name == c.name && c2.kind == c.kind,
    decreases ds.len(),
{
    if ds.len() > 0 {
        match class_member(c, ds[0]) {
            Ok(c2) => lemma_class_members_keep(c2, ds.drop_first()),
            Err(_) => {},
        }
    }
}

/// The parts of a class declaration keep its name and kind.
proof fn lemma_class_parts_keep(c: ClassModel, ps: Seq<NodeModel>)
    ensures
        class_parts(c, ps) matches Ok(c2) ==> c2.name == c.name && c2.kind == c.kind,
    decreases ps.len(),
{
    if ps.len() > 0 {
        let p = ps[0];
        if p.token.lexeme == Some("ClassBody"@) && p.children.len() == 3 && p.token.lexeme != Some(
            "Implements"@,
        ) && p.token.lexeme != Some("ClassExtends"@) {
            lemma_class_members_keep(c, crate::analysis::environment::class::list_entries(
                p.children[1],
                "ClassBodyDeclarations"@,
            ));
        }
        match class_part(c, p) {
            Ok(c2) => lemma_class_parts_keep(c2, ps.drop_first()),
            Err(_) => {},
        }
    }
}

/// The members of an interface body keep its name and kind, and keep every
/// method of an interface abstract.
proof fn lemma_interface_members_keep(c: ClassModel, ds: Seq<NodeModel>)
    ensures
        interface_members(c, ds) matches Ok(c2) ==> c2.name == c.name && c2.kind == c.kind && (
        abstract_interface(c) ==> abstract_interface(c2)),
    decreases ds.len(),
{
    if ds.len() > 0 {
        let d = ds[0];
        match interface_member(c, d) {
            Ok(c2) => {
                if d.token.lexeme == Some("AbstractMethodDeclaration"@) && abstract_interface(c) {
                    let m = crate::analysis::environment::method::header_method(d.children[0]);
                    let abs = leaf_model(TokenKind::Abstract);
                    let mods = if !m.modifiers.contains(abs) && c.kind == ClassOrInterface::INTERFACE {
                        m.modifiers.push(abs)
                    } else {
                        m.modifiers
                    };
                    let m2 = MethodModel { modifiers: mods, ..m };
                    assert(c2 == ClassModel { methods: c.methods.push(m2), ..c });
                    if c.kind == ClassOrInterface::INTERFACE {
                        assert(mods.contains(abs)) by {
                            if !m.modifiers.contains(abs) {
                                assert(mods[mods.len() - 1] == abs);
                            }
                        }
                        assert forall|j: int| 0 <= j < c2.methods.len() implies (#[trigger] c2.methods[j]).modifiers.contains(
                            abs,
                        ) by {
                            if j < c.methods.len() {
                                assert(c2.methods[j] == c.methods[j]);
                            } else {
                                assert(c2.methods[j] == m2);
                            }
                        }
                    }
                }
                lemma_interface_members_keep(c2, ds.drop_first());
            },
            Err(_) => {},
        }
    }
}

/// The parts of an interface declaration keep its name and kind, and keep
/// every method of an interface abstract.
proof fn lemma_interface_parts_keep(c: ClassModel, ps: Seq<NodeModel>)
    ensures
        interface_parts(c, ps) matches Ok(c2) ==> c2.name == c.name && c2.kind == c.kind && (
        abstract_interface(c) ==> abstract_interface(c2)),
    decreases ps.len(),
{
    if ps.len() > 0 {
        let p = ps[0];
        if p.token.lexeme == Some("InterfaceBody"@) && p.children.len() == 3 {
            lemma_interface_members_keep(c, crate::analysis::environment::class::list_entries(
                p.children[1],
                "InterfaceMemberDeclarations"@,
            ));
        }
        match interface_part(c, p) {
            Ok(c2) => lemma_interface_parts_keep(c2, ps.drop_first()),
            Err(_) => {},
        }
    }
}

/// What one compilation unit adds keeps the three properties.
proof fn lemma_unit_step(trees: Seq<ASTModel>, kinds: Seq<ClassModel>, t: ASTModel)
    requires
        unique_names(kinds),
        has_supertypes(kinds),
        interfaces_abstract(kinds),
    ensures
        unit_step(trees, kinds, t) matches Ok(k) ==> unique_names(k) && has_supertypes(k) && interfaces_abstract(k),
{
    if t.root is Some {
        let root = t.root->Some_0;
        if root.token.lexeme == Some("ClassDeclaration"@) {
            match class_decl(t.canonical, kinds, t.imports, root) {
                Ok(c) => {
                    let c0 = ClassModel {
                        imports: t.imports,
                        modifiers: root.children[0].children,
                        ..class_new(t.canonical, ClassOrInterface::CLASS)
                    };
                    let ps = crate::analysis::environment::class::after_header(root.children);
                    lemma_class_parts_keep(c0, ps);
                    assert(!name_taken(kinds, t.canonical));
                    assert(c.name == t.canonical);
                    assert(c.kind == ClassOrInterface::CLASS);
                    let k = kinds.push(c);
                    assert forall|i: int, j: int| 0 <= i < j < k.len() implies k[i].name != k[j].name by {
                        if j == kinds.len() {
                            assert(kinds[i].name != t.canonical);
                        }
                    }
                    assert forall|i: int| 0 <= i < k.len() implies abstract_interface(#[trigger] k[i]) by {
                        if i < kinds.len() {
                            assert(abstract_interface(kinds[i]));
                        }
                    }
                    assert forall|i: int| 0 <= i < k.len() implies (#[trigger] k[i]).extends.len() > 0 || k[i].name
                        == object_model() by {
                        if i < kinds.len() {
                            assert(kinds[i].extends.len() > 0 || kinds[i].name == object_model());
                        }
                    }
                },
                Err(_) => {},
            }
        } else if root.token.lexeme == Some("InterfaceDeclaration"@) {
            match interface_decl(t.canonical, kinds, t.imports, root) {
                Ok(c) => {
                    let c0 = ClassModel {
                        imports: t.imports,
                        modifiers: root.children[0].children,
                        ..class_new(t.canonical, ClassOrInterface::INTERFACE)
                    };
                    let ps = crate::analysis::environment::class::after_header(root.children);
                    lemma_interface_parts_keep(c0, ps);
                    assert(abstract_interface(c0));
                    assert(!name_taken(kinds, t.canonical));
                    assert(c.name == t.canonical);
                    assert(abstract_interface(c));
                    let k = kinds.push(c);
                    assert forall|i: int, j: int| 0 <= i < j < k.len() implies k[i].name != k[j].name by {
                        if j == kinds.len() {
                            assert(kinds[i].name != t.canonical);
                        }
                    }
                    assert forall|i: int| 0 <= i < k.len() implies abstract_interface(#[trigger] k[i]) by {
                        if i < kinds.len() {
                            assert(abstract_interface(kinds[i]));
                        }
                    }
                    assert forall|i: int| 0 <= i < k.len() implies (#[trigger] k[i]).extends.len() > 0 || k[i].name
                        == object_model() by {
                        if i < kinds.len() {
                            assert(kinds[i].extends.len() > 0 || kinds[i].name == object_model());
                        }
                    }
                },
                Err(_) => {},
            }
        }
    }
}

/// The properties hold after any number of compilation units.
proof fn lemma_build(trees: Seq<ASTModel>, kinds: Seq<ClassModel>, ts: Seq<ASTModel>)
    requires
        unique_names(kinds),
        has_supertypes(kinds),
        interfaces_abstract(kinds),
    ensures
        build(trees, kinds, ts) matches Ok(k) ==> unique_names(k) && has_supertypes(k) && interfaces_abstract(k),
    decreases ts.len(),
{
    if ts.len() > 0 {
        lemma_unit_step(trees, kinds, ts[0]);
        match unit_step(trees, kinds, ts[0]) {
            Ok(k) => lemma_build(trees, k, ts.drop_first()),
            Err(_) => {},
        }
    }
}

/// In an environment that was built, the names of the classes and
/// interfaces are unique, every type but `java.lang.Object` has a
/// supertype (`Object` by default), and every method of an interface is
/// abstract.
pub proof fn environment_laws(trees: Seq<ASTModel>)
    ensures
        environment(trees) matches Ok(kinds) ==> unique_names(kinds) && has_supertypes(kinds)
            && interfaces_abstract(kinds),
{
    lemma_build(trees, Seq::empty(), trees);
}

} // verus!
