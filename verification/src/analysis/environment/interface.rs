//! Interface declarations.
use vstd::prelude::*;

use crate::analysis::environment::class::{
    add_default_extends, add_types, after_header, default_extends, has_import_clash,
    import_clash, is_name_taken, list_entries, name_taken, push_types, read_list,
};
use crate::analysis::environment::classorinterface::{
    class_new, ClassModel, ClassOrInterface, ClassOrInterfaceEnvironment,
};
use crate::analysis::environment::field::{
    analyze_constant_declaration, constant_decl, constant_decl_ok,
};
use crate::analysis::environment::method::{
    abstract_method_decl, analyze_abstract_method_declaration, header_ok,
};
use crate::ast::{clone_imports, clone_nodes, lemma_model_children, models, ASTNode, ASTNodeImport, NodeModel};
use crate::text::{message, node_text, note};
use crate::tokens::lexeme_is;

verus! {

/// A member declaration of an interface body can be read.
pub open spec fn interface_member_ok(d: NodeModel) -> bool {
    if d.token.lexeme == Some("AbstractMethodDeclaration"@) {
        d.children.len() >= 1 && header_ok(d.children[0])
    } else if d.token.lexeme == Some("ConstantDeclaration"@) {
        constant_decl_ok(d)
    } else {
        true
    }
}

/// One member declaration of an interface body: abstract methods and
/// constants.
pub open spec fn interface_member(c: ClassModel, d: NodeModel) -> Result<ClassModel, ()> {
    if d.token.lexeme == Some("AbstractMethodDeclaration"@) {
        abstract_method_decl(c, d.children[0])
    } else if d.token.lexeme == Some("ConstantDeclaration"@) {
        constant_decl(c, d)
    } else if d.token.lexeme is Some {
        Err(())
    } else {
        Ok(c)
    }
}

/// The member declarations of an interface body, in order; the first error
/// stops.
pub open spec fn interface_members(c: ClassModel, ds: Seq<NodeModel>) -> Result<ClassModel, ()>
    decreases ds.len(),
{
    if ds.len() == 0 {
        Ok(c)
    } else {
        match interface_member(c, ds[0]) {
            Ok(c2) => interface_members(c2, ds.drop_first()),
            Err(_) => Err(()),
        }
    }
}

/// A part of an interface declaration can be read.
pub open spec fn interface_part_ok(p: NodeModel) -> bool {
    &&& p.token.lexeme == Some("InterfaceExtends"@) ==> p.children.len() >= 2
    &&& (p.token.lexeme == Some("InterfaceBody"@) && p.children.len() == 3) ==> forall|i: int|
        0 <= i < list_entries(p.children[1], "InterfaceMemberDeclarations"@).len()
            ==> interface_member_ok(
            #[trigger] list_entries(p.children[1], "InterfaceMemberDeclarations"@)[i],
        )
}

/// One part of an interface declaration: the interfaces it extends, or its
/// body.
pub open spec fn interface_part(c: ClassModel, p: NodeModel) -> Result<ClassModel, ()> {
    if p.token.lexeme == Some("InterfaceExtends"@) {
        match add_types(c.extends, list_entries(p.children[1], "ClassOrInterfaceTypeList"@)) {
            Ok(l) => Ok(ClassModel { extends: l, ..c }),
            Err(_) => Err(()),
        }
    } else if p.token.lexeme == Some("InterfaceBody"@) && p.children.len() == 3 {
        interface_members(c, list_entries(p.children[1], "InterfaceMemberDeclarations"@))
    } else {
        Ok(c)
    }
}

/// The parts of an interface declaration, in order; the first error stops.
pub open spec fn interface_parts(c: ClassModel, ps: Seq<NodeModel>) -> Result<ClassModel, ()>
    decreases ps.len(),
{
    if ps.len() == 0 {
        Ok(c)
    } else {
        match interface_part(c, ps[0]) {
            Ok(c2) => interface_parts(c2, ps.drop_first()),
            Err(_) => Err(()),
        }
    }
}

/// An interface declaration `Modifiers interface Name Parts...` can be read.
pub open spec fn interface_decl_ok(node: NodeModel) -> bool {
    node.children.len() >= 1 && forall|i: int|
        3 <= i < node.children.len() ==> interface_part_ok(#[trigger] node.children[i])
}

/// The interface that a declaration declares.
pub open spec fn interface_decl(
    canonical: NodeModel,
    kinds: Seq<ClassModel>,
    imports: Seq<NodeModel>,
    node: NodeModel,
) -> Result<ClassModel, ()> {
    if name_taken(kinds, canonical) || import_clash(canonical, imports) {
        Err(())
    } else {
        let c0 = ClassModel {
            imports,
            modifiers: node.children[0].children,
            ..class_new(canonical, ClassOrInterface::INTERFACE)
        };
        match interface_parts(c0, after_header(node.children)) {
            Ok(c) => Ok(default_extends(c)),
            Err(_) => Err(()),
        }
    }
}

fn analyze_interface_member(current: &mut ClassOrInterfaceEnvironment, d: &ASTNode) -> (r: Result<
    (),
    String,
>)
    requires
        interface_member_ok(d.model()),
    ensures
        r is Ok <==> interface_member(old(current).deep_view(), d.model()) is Ok,
        r is Ok ==> final(current).deep_view() == interface_member(
            old(current).deep_view(),
            d.model(),
        )->Ok_0,
{
    proof {
        lemma_model_children(*d);
    }
    if lexeme_is(&d.token.lexeme, "AbstractMethodDeclaration") {
        analyze_abstract_method_declaration(current, &d.children[0])
    } else if lexeme_is(&d.token.lexeme, "ConstantDeclaration") {
        analyze_constant_declaration(current, d)
    } else {
        match &d.token.lexeme {
            Some(l) => {
                let mut m = note("no InterfaceBody analyzer for ");
                m.append(l.as_str());
                Err(m)
            },
            None => Ok(()),
        }
    }
}

fn analyze_interface_part(current: &mut ClassOrInterfaceEnvironment, p: &ASTNode) -> (r: Result<
    (),
    String,
>)
    requires
        interface_part_ok(p.model()),
    ensures
        r is Ok <==> interface_part(old(current).deep_view(), p.model()) is Ok,
        r is Ok ==> final(current).deep_view() == interface_part(
            old(current).deep_view(),
            p.model(),
        )->Ok_0,
{
    proof {
        lemma_model_children(*p);
    }
    if lexeme_is(&p.token.lexeme, "InterfaceExtends") {
        proof {
            assert(p.model().children[1] == p.children@[1].model());
        }
        let list = read_list(&p.children[1], "ClassOrInterfaceTypeList");
        let r = push_types(&mut current.extends, &list);
        proof {
            if r is Ok {
                assert(current.deep_view() =~= interface_part(
                    old(current).deep_view(),
                    p.model(),
                )->Ok_0);
            }
        }
        r
    } else if lexeme_is(&p.token.lexeme, "InterfaceBody") && p.children.len() == 3 {
        let list = read_list(&p.children[1], "InterfaceMemberDeclarations");
        proof {
            lemma_model_children(list);
        }
        let ghost ds = list.model().children;
        let ghost goal = interface_members(current.deep_view(), ds);
        proof {
            assert(ds.skip(0) =~= ds);
            assert(interface_part(old(current).deep_view(), p.model()) == goal);
        }
        let mut i: usize = 0;
        while i < list.children.len()
            invariant
                i <= list.children@.len(),
                ds == models(list.children@),
                forall|k: int| 0 <= k < ds.len() ==> interface_member_ok(#[trigger] ds[k]),
                interface_part(old(current).deep_view(), p.model()) == goal,
                goal == interface_members(current.deep_view(), ds.skip(i as int)),
            decreases list.children@.len() - i,
        {
            proof {
                assert(ds.skip(i as int)[0] == ds[i as int]);
                assert(ds.skip(i as int).drop_first() =~= ds.skip(i + 1));
                assert(interface_member_ok(ds[i as int]));
            }
            let ghost cur = current.deep_view();
            let r = analyze_interface_member(current, &list.children[i]);
            if r.is_err() {
                proof {
                    assert(interface_member(cur, ds.skip(i as int)[0]) is Err);
                }
                return r;
            }
            i = i + 1;
        }
        proof {
            assert(ds.skip(list.children@.len() as int) =~= Seq::<NodeModel>::empty());
        }
        Ok(())
    } else {
        Ok(())
    }
}

pub fn analyze_interface_declaration(
    canonical: &ASTNode,
    kinds: &mut Vec<ClassOrInterfaceEnvironment>,
    imports: &Vec<ASTNodeImport>,
    node: &ASTNode,
) -> (r: Result<(), String>)
    requires
        interface_decl_ok(node.model()),
    ensures
        r is Ok <==> interface_decl(
            canonical.model(),
            old(kinds).deep_view(),
            imports.deep_view(),
            node.model(),
        ) is Ok,
        r is Ok ==> final(kinds).deep_view() == old(kinds).deep_view().push(
            interface_decl(
                canonical.model(),
                old(kinds).deep_view(),
                imports.deep_view(),
                node.model(),
            )->Ok_0,
        ),
        r is Err ==> final(kinds).deep_view() == old(kinds).deep_view(),
        name_taken(old(kinds).deep_view(), canonical.model()) ==> (r matches Err(e)
            && e@ == "class/interface names must be unique"@),
        !name_taken(old(kinds).deep_view(), canonical.model()) && import_clash(
            canonical.model(),
            imports.deep_view(),
        ) ==> (r matches Err(e) && e@ == "single-type-import declaration clashes with interface "@ + node_text(
            canonical.model().children.last(),
        )),
{
    proof {
        lemma_model_children(*node);
        lemma_model_children(node.children@[0]);
    }
    if is_name_taken(kinds, canonical) {
        return Err(note("class/interface names must be unique"));
    }
    if has_import_clash(canonical, imports) {
        proof {
            lemma_model_children(*canonical);
        }
        let last = canonical.children.len() - 1;
        return Err(message("single-type-import declaration clashes with interface ", &canonical.children[last]));
    }
    let mut current = ClassOrInterfaceEnvironment::new(
        canonical.clone(),
        ClassOrInterface::INTERFACE,
    );
    current.imports = clone_imports(imports);
    current.modifiers = clone_nodes(&node.children[0].children);
    proof {
        assert(node.children@[0].children.deep_view() =~= models(node.children@[0].children@));
    }
    let ghost c0 = current.deep_view();
    let ghost ps = after_header(node.model().children);
    let ghost goal = interface_parts(c0, ps);
    proof {
        assert(c0 == ClassModel {
            imports: imports.deep_view(),
            modifiers: node.model().children[0].children,
            ..class_new(canonical.model(), ClassOrInterface::INTERFACE)
        });
        assert(ps.skip(0) =~= ps);
        if node.children@.len() < 3 {
            assert(ps =~= Seq::<NodeModel>::empty());
        }
    }
    let mut idx: usize = 3;
    while idx < node.children.len()
        invariant
            3 <= idx,
            node.model().children == models(node.children@),
            ps == after_header(node.model().children),
            forall|k: int|
                3 <= k < node.model().children.len() ==> interface_part_ok(
                    #[trigger] node.model().children[k],
                ),
            idx <= node.children@.len() || node.children@.len() < 3,
            node.children@.len() >= 3 ==> goal == interface_parts(
                current.deep_view(),
                ps.skip(idx - 3),
            ),
            node.children@.len() < 3 ==> current.deep_view() == c0,
            kinds.deep_view() == old(kinds).deep_view(),
            !name_taken(old(kinds).deep_view(), canonical.model()),
            !import_clash(canonical.model(), imports.deep_view()),
            c0 == (ClassModel {
                imports: imports.deep_view(),
                modifiers: node.model().children[0].children,
                ..class_new(canonical.model(), ClassOrInterface::INTERFACE)
            }),
            goal == interface_parts(c0, ps),
        decreases node.children@.len() - idx,
    {
        proof {
            assert(ps.skip(idx - 3)[0] == node.model().children[idx as int]);
            assert(ps.skip(idx - 3).drop_first() =~= ps.skip(idx - 2));
            assert(interface_part_ok(node.model().children[idx as int]));
        }
        let ghost cur = current.deep_view();
        let r = analyze_interface_part(&mut current, &node.children[idx]);
        if r.is_err() {
            proof {
                assert(interface_part(cur, ps.skip(idx - 3)[0]) is Err);
            }
            return r;
        }
        idx = idx + 1;
    }
    proof {
        if node.children@.len() >= 3 {
            assert(ps.skip(node.children@.len() - 3) =~= Seq::<NodeModel>::empty());
        } else {
            assert(ps =~= Seq::<NodeModel>::empty());
        }
    }
    add_default_extends(&mut current);
    let ghost before = kinds.deep_view();
    let ghost cd = current.deep_view();
    kinds.push(current);
    proof {
        assert(kinds.deep_view() =~= before.push(cd));
    }
    Ok(())
}

} // verus!
