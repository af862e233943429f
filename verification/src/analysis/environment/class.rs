//! Class declarations.
use vstd::prelude::*;

use crate::analysis::environment::classorinterface::{
    class_new, ClassModel, ClassOrInterface, ClassOrInterfaceEnvironment,
};
use crate::analysis::environment::field::{analyze_field_declaration, field_decl, field_decl_ok};
use crate::analysis::environment::method::{
    abstract_method_decl, analyze_abstract_method_declaration, analyze_constructor_declaration,
    analyze_method_declaration, constructor_decl, header_ok, method_decl, params_ok,
};
use crate::ast::{
    clone_imports, clone_nodes, flatten, ident_model, lemma_model_children, models, object_model,
    prefix_equals, ASTNode, ASTNodeImport, NodeModel,
};
use crate::text::{message, node_text, note};
use crate::tokens::{lexeme_is, TokenKind};

verus! {

/// The entries of a list node `rule`: the flattened list, or the single entry
/// when there is no list.
pub open spec fn list_entries(n: NodeModel, rule: Seq<char>) -> Seq<NodeModel> {
    if n.token.lexeme == Some(rule) {
        flatten(n).children
    } else {
        seq![n]
    }
}

/// Reads a list node `rule` into its entries.
pub fn read_list(n: &ASTNode, rule: &str) -> (r: ASTNode)
    ensures
        r.model().children == list_entries(n.model(), rule@),
{
    if lexeme_is(&n.token.lexeme, rule) {
        n.flattened()
    } else {
        let mut v: Vec<ASTNode> = Vec::new();
        v.push(n.clone());
        let r = ASTNode::rule(rule, v);
        proof {
            assert(models(v@) =~= seq![n.model()]);
        }
        r
    }
}

/// Appends the type names of a type list to `acc`: identifiers as they are,
/// `Name`s flattened, commas skipped; anything else is an error.
pub open spec fn add_types(acc: Seq<NodeModel>, cs: Seq<NodeModel>) -> Result<Seq<NodeModel>, ()>
    decreases cs.len(),
{
    if cs.len() == 0 {
        Ok(acc)
    } else {
        let g = cs[0];
        if g.token.kind == TokenKind::Identifier {
            add_types(acc.push(g), cs.drop_first())
        } else if g.token.lexeme == Some("Name"@) {
            add_types(acc.push(flatten(g)), cs.drop_first())
        } else if g.token.kind == TokenKind::Comma {
            add_types(acc, cs.drop_first())
        } else {
            Err(())
        }
    }
}

/// Appends the type names of the list `list` to `acc`.
pub fn push_types(acc: &mut Vec<ASTNode>, list: &ASTNode) -> (r: Result<(), String>)
    ensures
        r is Ok <==> add_types(old(acc).deep_view(), list.model().children) is Ok,
        r is Ok ==> final(acc).deep_view() == add_types(
            old(acc).deep_view(),
            list.model().children,
        )->Ok_0,
{
    proof {
        lemma_model_children(*list);
    }
    let ghost cs = list.model().children;
    let ghost goal = add_types(acc.deep_view(), cs);
    proof {
        assert(cs.skip(0) =~= cs);
    }
    let mut i: usize = 0;
    while i < list.children.len()
        invariant
            i <= list.children@.len(),
            cs == models(list.children@),
            cs == list.model().children,
            goal == add_types(old(acc).deep_view(), cs),
            goal == add_types(acc.deep_view(), cs.skip(i as int)),
        decreases list.children@.len() - i,
    {
        let g = &list.children[i];
        let ghost before = acc.deep_view();
        let ghost s = cs.skip(i as int);
        proof {
            assert(s[0] == g.model());
            assert(s.drop_first() =~= cs.skip(i + 1));
        }
        if g.token.kind == TokenKind::Identifier {
            acc.push(g.clone());
            proof {
                assert(acc.deep_view() =~= before.push(g.model()));
                assert(add_types(before, s) == add_types(before.push(g.model()), s.drop_first()));
            }
        } else if lexeme_is(&g.token.lexeme, "Name") {
            let f = g.flattened();
            acc.push(f);
            proof {
                assert(acc.deep_view() =~= before.push(flatten(g.model())));
                assert(add_types(before, s) == add_types(before.push(flatten(g.model())), s.drop_first()));
            }
        } else if g.token.kind == TokenKind::Comma {
            proof {
                assert(add_types(before, s) == add_types(before, s.drop_first()));
            }
        } else {
            proof {
                assert(add_types(before, s) is Err);
            }
            return Err(message("got invalid ClassOrInterfaceTypeList child ", g));
        }
        i = i + 1;
    }
    proof {
        assert(cs.skip(list.children@.len() as int) =~= Seq::<NodeModel>::empty());
    }
    Ok(())
}

/// An imported type of the same simple name from another package.
pub open spec fn import_clash(canonical: NodeModel, imports: Seq<NodeModel>) -> bool {
    canonical.children.len() > 0 && exists|i: int|
        0 <= i < imports.len() && imports[i].children.len() > 0 && #[trigger] imports[i].children.last()
            == canonical.children.last() && imports[i].children.drop_last()
            != canonical.children.drop_last()
}

/// Whether an import clashes with the declared type's simple name.
pub fn has_import_clash(canonical: &ASTNode, imports: &Vec<ASTNodeImport>) -> (r: bool)
    ensures
        r == import_clash(canonical.model(), imports.deep_view()),
{
    proof {
        lemma_model_children(*canonical);
    }
    let n = canonical.children.len();
    if n == 0 {
        return false;
    }
    let mut i: usize = 0;
    while i < imports.len()
        invariant
            n == canonical.children@.len(),
            n > 0,
            i <= imports@.len(),
            forall|j: int|
                0 <= j < i ==> !(imports.deep_view()[j].children.len() > 0
                    && imports.deep_view()[j].children.last() == canonical.model().children.last()
                    && imports.deep_view()[j].children.drop_last()
                    != canonical.model().children.drop_last()),
        decreases imports@.len() - i,
    {
        let imp = &imports[i].import;
        proof {
            lemma_model_children(*imp);
            assert(imports.deep_view()[i as int] == imp.model());
        }
        let m = imp.children.len();
        if m > 0 {
            let same_name = imp.children[m - 1].equals(&canonical.children[n - 1]);
            let same_package = prefix_equals(&imp.children, m - 1, &canonical.children, n - 1);
            proof {
                assert(imp.children.deep_view() =~= imp.model().children);
                assert(canonical.children.deep_view() =~= canonical.model().children);
                assert(imp.model().children.take(m - 1) =~= imp.model().children.drop_last());
                assert(canonical.model().children.take(n - 1) =~= canonical.model().children.drop_last());
            }
            if same_name && !same_package {
                proof {
                    let ims = imports.deep_view();
                    assert(ims[i as int].children.len() > 0 && ims[i as int].children.last()
                        == canonical.model().children.last() && ims[i as int].children.drop_last()
                        != canonical.model().children.drop_last());
                }
                return true;
            }
        }
        i = i + 1;
    }
    false
}

/// A member declaration of a class body can be read.
pub open spec fn class_member_ok(d: NodeModel) -> bool {
    if d.token.lexeme == Some("AbstractMethodDeclaration"@) {
        d.children.len() >= 1 && header_ok(d.children[0])
    } else if d.token.lexeme == Some("ConstructorDeclaration"@) {
        d.children.len() >= 3 && d.children[1].children.len() >= 1 && params_ok(d.children[1])
    } else if d.token.lexeme == Some("FieldDeclaration"@) {
        field_decl_ok(d)
    } else if d.token.lexeme == Some("MethodDeclaration"@) {
        d.children.len() >= 2 && header_ok(d.children[0])
    } else {
        true
    }
}

/// One member declaration of a class body.
pub open spec fn class_member(c: ClassModel, d: NodeModel) -> Result<ClassModel, ()> {
    if d.token.lexeme == Some("AbstractMethodDeclaration"@) {
        abstract_method_decl(c, d.children[0])
    } else if d.token.lexeme == Some("ConstructorDeclaration"@) {
        constructor_decl(c, d.children[0], d.children[1], d.children[2])
    } else if d.token.lexeme == Some("FieldDeclaration"@) {
        match field_decl(c.fields, d) {
            Ok(fs) => Ok(ClassModel { fields: fs, ..c }),
            Err(_) => Err(()),
        }
    } else if d.token.lexeme == Some("MethodDeclaration"@) {
        method_decl(c, d.children[0], d.children[1])
    } else if d.token.lexeme is Some {
        Err(())
    } else {
        Ok(c)
    }
}

/// The member declarations of a class body, in order; the first error stops.
pub open spec fn class_members(c: ClassModel, ds: Seq<NodeModel>) -> Result<ClassModel, ()>
    decreases ds.len(),
{
    if ds.len() == 0 {
        Ok(c)
    } else {
        match class_member(c, ds[0]) {
            Ok(c2) => class_members(c2, ds.drop_first()),
            Err(_) => Err(()),
        }
    }
}

/// A part of a class declaration (after modifiers, `class` and the name) can
/// be read.
pub open spec fn class_part_ok(p: NodeModel) -> bool {
    &&& (p.token.lexeme == Some("Implements"@) || p.token.lexeme == Some("ClassExtends"@)) ==> p.children.len() >= 2
    &&& (p.token.lexeme == Some("ClassBody"@) && p.children.len() == 3) ==> forall|i: int|
        0 <= i < list_entries(p.children[1], "ClassBodyDeclarations"@).len() ==> class_member_ok(
            #[trigger] list_entries(p.children[1], "ClassBodyDeclarations"@)[i],
        )
}

/// One part of a class declaration: its interfaces, its superclass or its body.
pub open spec fn class_part(c: ClassModel, p: NodeModel) -> Result<ClassModel, ()> {
    if p.token.lexeme == Some("Implements"@) {
        match add_types(c.implements, list_entries(p.children[1], "ClassOrInterfaceTypeList"@)) {
            Ok(l) => Ok(ClassModel { implements: l, ..c }),
            Err(_) => Err(()),
        }
    } else if p.token.lexeme == Some("ClassExtends"@) {
        let t = p.children[1];
        if t.token.kind == TokenKind::Identifier {
            Ok(ClassModel { extends: c.extends.push(t), ..c })
        } else if t.token.lexeme == Some("Name"@) {
            Ok(ClassModel { extends: c.extends.push(flatten(t)), ..c })
        } else {
            Err(())
        }
    } else if p.token.lexeme == Some("ClassBody"@) && p.children.len() == 3 {
        class_members(c, list_entries(p.children[1], "ClassBodyDeclarations"@))
    } else {
        Ok(c)
    }
}

/// The parts of a class declaration, in order; the first error stops.
pub open spec fn class_parts(c: ClassModel, ps: Seq<NodeModel>) -> Result<ClassModel, ()>
    decreases ps.len(),
{
    if ps.len() == 0 {
        Ok(c)
    } else {
        match class_part(c, ps[0]) {
            Ok(c2) => class_parts(c2, ps.drop_first()),
            Err(_) => Err(()),
        }
    }
}

/// A type that names no superclass extends `Object`, except `java.lang.Object`.
pub open spec fn default_extends(c: ClassModel) -> ClassModel {
    if c.extends.len() == 0 && c.name != object_model() {
        ClassModel { extends: c.extends.push(ident_model("Object"@)), ..c }
    } else {
        c
    }
}

/// A type of this name is already declared.
pub open spec fn name_taken(kinds: Seq<ClassModel>, name: NodeModel) -> bool {
    exists|i: int| 0 <= i < kinds.len() && #[trigger] kinds[i].name == name
}

/// What follows `Modifiers class Name` in a declaration.
pub open spec fn after_header(cs: Seq<NodeModel>) -> Seq<NodeModel> {
    if cs.len() >= 3 {
        cs.skip(3)
    } else {
        Seq::empty()
    }
}

/// A class declaration `Modifiers class Name Parts...` can be read.
pub open spec fn class_decl_ok(node: NodeModel) -> bool {
    node.children.len() >= 1 && forall|i: int| 3 <= i < node.children.len() ==> class_part_ok(#[trigger] node.children[i])
}

/// The class that a declaration declares.
pub open spec fn class_decl(
    canonical: NodeModel,
    kinds: Seq<ClassModel>,
    imports: Seq<NodeModel>,
    node: NodeModel,
) -> Result<ClassModel, ()> {
    if name_taken(kinds, canonical) || import_clash(canonical, imports) {
        Err(())
    } else {
        let c0 = ClassModel {
            imports,
            modifiers: node.children[0].children,
            ..class_new(canonical, ClassOrInterface::CLASS)
        };
        match class_parts(c0, after_header(node.children)) {
            Ok(c) => Ok(default_extends(c)),
            Err(_) => Err(()),
        }
    }
}

/// Whether a type of this name is among `kinds`.
pub fn is_name_taken(kinds: &Vec<ClassOrInterfaceEnvironment>, name: &ASTNode) -> (r: bool)
    ensures
        r == name_taken(kinds.deep_view(), name.model()),
{
    let mut i: usize = 0;
    while i < kinds.len()
        invariant
            i <= kinds@.len(),
            forall|j: int| 0 <= j < i ==> kinds.deep_view()[j].name != name.model(),
        decreases kinds@.len() - i,
    {
        if kinds[i].name.equals(name) {
            proof {
                assert(kinds.deep_view()[i as int].name == name.model());
            }
            return true;
        }
        proof {
            assert(kinds.deep_view()[i as int] == kinds@[i as int].deep_view());
        }
        i = i + 1;
    }
    false
}

/// Adds `Object` as the superclass of a type that names none.
pub fn add_default_extends(current: &mut ClassOrInterfaceEnvironment)
    ensures
        final(current).deep_view() == default_extends(old(current).deep_view()),
{
    let object = object_name();
    if current.extends.len() == 0 && !current.name.equals(&object) {
        let ghost before = current.extends.deep_view();
        let o = ASTNode::ident("Object");
        let ghost od = o.model();
        current.extends.push(o);
        proof {
            assert(current.extends.deep_view() =~= before.push(od));
            assert(current.deep_view() =~= default_extends(old(current).deep_view()));
        }
    } else {
        proof {
            assert(current.extends.deep_view().len() == current.extends@.len());
        }
    }
}

/// The name `java.lang.Object`.
pub fn object_name() -> (r: ASTNode)
    ensures
        r.model() == object_model(),
{
    qualified3("java", "lang", "Object")
}

/// The qualified name `a.b.c`.
pub fn qualified3(a: &str, b: &str, c: &str) -> (r: ASTNode)
    ensures
        r.model() == crate::ast::qualified3(a@, b@, c@),
{
    let mut v: Vec<ASTNode> = Vec::new();
    v.push(ASTNode::ident(a));
    v.push(ASTNode::leaf(TokenKind::Dot));
    v.push(ASTNode::ident(b));
    v.push(ASTNode::leaf(TokenKind::Dot));
    v.push(ASTNode::ident(c));
    let r = ASTNode::rule("Name", v);
    proof {
        assert(models(v@) =~= crate::ast::qualified3(a@, b@, c@).children);
    }
    r
}

fn analyze_class_member(current: &mut ClassOrInterfaceEnvironment, d: &ASTNode) -> (r: Result<(), String>)
    requires
        class_member_ok(d.model()),
    ensures
        r is Ok <==> class_member(old(current).deep_view(), d.model()) is Ok,
        r is Ok ==> final(current).deep_view() == class_member(old(current).deep_view(), d.model())->Ok_0,
{
    proof {
        lemma_model_children(*d);
    }
    if lexeme_is(&d.token.lexeme, "AbstractMethodDeclaration") {
        analyze_abstract_method_declaration(current, &d.children[0])
    } else if lexeme_is(&d.token.lexeme, "ConstructorDeclaration") {
        analyze_constructor_declaration(current, &d.children[0], &d.children[1], &d.children[2])
    } else if lexeme_is(&d.token.lexeme, "FieldDeclaration") {
        analyze_field_declaration(&mut current.fields, d)
    } else if lexeme_is(&d.token.lexeme, "MethodDeclaration") {
        analyze_method_declaration(current, &d.children[0], &d.children[1])
    } else {
        match &d.token.lexeme {
            Some(l) => {
                let mut m = note("no ClassBody analyzer for ");
                m.append(l.as_str());
                Err(m)
            },
            None => Ok(()),
        }
    }
}

fn analyze_class_part(current: &mut ClassOrInterfaceEnvironment, p: &ASTNode) -> (r: Result<(), String>)
    requires
        class_part_ok(p.model()),
    ensures
        r is Ok <==> class_part(old(current).deep_view(), p.model()) is Ok,
        r is Ok ==> final(current).deep_view() == class_part(old(current).deep_view(), p.model())->Ok_0,
{
    proof {
        lemma_model_children(*p);
    }
    if lexeme_is(&p.token.lexeme, "Implements") {
        proof {
            assert(p.model().children[1] == p.children@[1].model());
        }
        let list = read_list(&p.children[1], "ClassOrInterfaceTypeList");
        let r = push_types(&mut current.implements, &list);
        proof {
            if r is Ok {
                assert(current.deep_view() =~= class_part(old(current).deep_view(), p.model())->Ok_0);
            }
        }
        r
    } else if lexeme_is(&p.token.lexeme, "ClassExtends") {
        proof {
            assert(p.model().children[1] == p.children@[1].model());
        }
        let t = &p.children[1];
        let ghost before = current.extends.deep_view();
        if t.token.kind == TokenKind::Identifier {
            let c = t.clone();
            current.extends.push(c);
            proof {
                assert(current.extends.deep_view() =~= before.push(t.model()));
            }
        } else if lexeme_is(&t.token.lexeme, "Name") {
            let f = t.flattened();
            current.extends.push(f);
            proof {
                assert(current.extends.deep_view() =~= before.push(flatten(t.model())));
            }
        } else {
            return Err(message("got invalid ClassExtends child ", t));
        }
        proof {
            assert(current.deep_view() =~= class_part(old(current).deep_view(), p.model())->Ok_0);
        }
        Ok(())
    } else if lexeme_is(&p.token.lexeme, "ClassBody") && p.children.len() == 3 {
        let list = read_list(&p.children[1], "ClassBodyDeclarations");
        proof {
            lemma_model_children(list);
        }
        let ghost ds = list.model().children;
        let ghost goal = class_members(current.deep_view(), ds);
        proof {
            assert(ds.skip(0) =~= ds);
            assert(class_part(old(current).deep_view(), p.model()) == goal);
        }
        let mut i: usize = 0;
        while i < list.children.len()
            invariant
                i <= list.children@.len(),
                ds == models(list.children@),
                forall|k: int| 0 <= k < ds.len() ==> class_member_ok(#[trigger] ds[k]),
                class_part(old(current).deep_view(), p.model()) == goal,
                goal == class_members(current.deep_view(), ds.skip(i as int)),
            decreases list.children@.len() - i,
        {
            proof {
                assert(ds.skip(i as int)[0] == ds[i as int]);
                assert(ds.skip(i as int).drop_first() =~= ds.skip(i + 1));
                assert(class_member_ok(ds[i as int]));
            }
            let ghost cur = current.deep_view();
            let r = analyze_class_member(current, &list.children[i]);
            if r.is_err() {
                proof {
                    assert(class_member(cur, ds.skip(i as int)[0]) is Err);
                }
                return r;
            }
            i = i + 1;
        }
        proof {
            assert(ds.skip(list.children@.len() as int) =~= Seq::<NodeModel>::empty());
        }
        Ok(())
    } else {
        Ok(())
    }
}

pub fn analyze_class_declaration(
    canonical: &ASTNode,
    kinds: &mut Vec<ClassOrInterfaceEnvironment>,
    imports: &Vec<ASTNodeImport>,
    node: &ASTNode,
) -> (r: Result<(), String>)
    requires
        class_decl_ok(node.model()),
    ensures
        r is Ok <==> class_decl(
            canonical.model(),
            old(kinds).deep_view(),
            imports.deep_view(),
            node.model(),
        ) is Ok,
        r is Ok ==> final(kinds).deep_view() == old(kinds).deep_view().push(
            class_decl(canonical.model(), old(kinds).deep_view(), imports.deep_view(), node.model())->Ok_0,
        ),
        r is Err ==> final(kinds).deep_view() == old(kinds).deep_view(),
        name_taken(old(kinds).deep_view(), canonical.model()) ==> (r matches Err(e)
            && e@ == "class/interface names must be unique"@),
        !name_taken(old(kinds).deep_view(), canonical.model()) && import_clash(
            canonical.model(),
            imports.deep_view(),
        ) ==> (r matches Err(e) && e@ == "single-type-import declaration clashes with class "@ + node_text(
            canonical.model().children.last(),
        )),
{
    proof {
        lemma_model_children(*node);
        lemma_model_children(node.children@[0]);
    }
    if is_name_taken(kinds, canonical) {
        return Err(note("class/interface names must be unique"));
    }
    if has_import_clash(canonical, imports) {
        proof {
            lemma_model_children(*canonical);
        }
        let last = canonical.children.len() - 1;
        return Err(message("single-type-import declaration clashes with class ", &canonical.children[last]));
    }
    let mut current = ClassOrInterfaceEnvironment::new(canonical.clone(), ClassOrInterface::CLASS);
    current.imports = clone_imports(imports);
    current.modifiers = clone_nodes(&node.children[0].children);
    proof {
        assert(node.children@[0].children.deep_view() =~= models(node.children@[0].children@));
    }
    let ghost c0 = current.deep_view();
    let ghost ps = after_header(node.model().children);
    let ghost goal = class_parts(c0, ps);
    proof {
        assert(c0 == ClassModel {
            imports: imports.deep_view(),
            modifiers: node.model().children[0].children,
            ..class_new(canonical.model(), ClassOrInterface::CLASS)
        });
        assert(ps.skip(0) =~= ps);
        if node.children@.len() < 3 {
            assert(ps =~= Seq::<NodeModel>::empty());
        }
    }
    let mut idx: usize = 3;
    while idx < node.children.len()
        invariant
            3 <= idx,
            node.model().children == models(node.children@),
            ps == after_header(node.model().children),
            forall|k: int| 3 <= k < node.model().children.len() ==> class_part_ok(#[trigger] node.model().children[k]),
            idx <= node.children@.len() || node.children@.len() < 3,
            node.children@.len() >= 3 ==> goal == class_parts(current.deep_view(), ps.skip(idx - 3)),
            node.children@.len() < 3 ==> current.deep_view() == c0,
            kinds.deep_view() == old(kinds).deep_view(),
            !name_taken(old(kinds).deep_view(), canonical.model()),
            !import_clash(canonical.model(), imports.deep_view()),
            c0 == (ClassModel {
                imports: imports.deep_view(),
                modifiers: node.model().children[0].children,
                ..class_new(canonical.model(), ClassOrInterface::CLASS)
            }),
            goal == class_parts(c0, ps),
        decreases node.children@.len() - idx,
    {
        proof {
            assert(ps.skip(idx - 3)[0] == node.model().children[idx as int]);
            assert(ps.skip(idx - 3).drop_first() =~= ps.skip(idx - 2));
            assert(class_part_ok(node.model().children[idx as int]));
        }
        let ghost cur = current.deep_view();
        let r = analyze_class_part(&mut current, &node.children[idx]);
        if r.is_err() {
            proof {
                assert(class_part(cur, ps.skip(idx - 3)[0]) is Err);
            }
            return r;
        }
        idx = idx + 1;
    }
    proof {
        if node.children@.len() >= 3 {
            assert(ps.skip(node.children@.len() - 3) =~= Seq::<NodeModel>::empty());
        } else {
            assert(ps =~= Seq::<NodeModel>::empty());
        }
    }
    add_default_extends(&mut current);
    let ghost before = kinds.deep_view();
    let ghost cd = current.deep_view();
    kinds.push(current);
    proof {
        assert(kinds.deep_view() =~= before.push(cd));
    }
    Ok(())
}

} // verus!
