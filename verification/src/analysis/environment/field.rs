//! Fields and constants.
use vstd::prelude::*;

use crate::ast::{clone_nodes, kind_ok, normal_kind, normalize_kind, ASTNode, NodeModel};

verus! {

pub struct FieldModel {
    pub modifiers: Seq<NodeModel>,
    pub kind: NodeModel,
    pub name: NodeModel,
    pub value: Option<NodeModel>,
}

#[derive(Debug)]
pub struct FieldEnvironment {
    pub modifiers: Vec<ASTNode>,
    pub kind: ASTNode,
    pub name: ASTNode,
    pub value: Option<ASTNode>,
}

impl DeepView for FieldEnvironment {
    type V = FieldModel;

    open spec fn deep_view(&self) -> FieldModel {
        FieldModel {
            modifiers: self.modifiers.deep_view(),
            kind: self.kind.model(),
            name: self.name.model(),
            value: self.value.deep_view(),
        }
    }
}

impl Clone for FieldEnvironment {
    fn clone(&self) -> (r: Self)
        ensures
            r.deep_view() == self.deep_view(),
    {
        FieldEnvironment {
            modifiers: clone_nodes(&self.modifiers),
            kind: self.kind.clone(),
            name: self.name.clone(),
            value: match &self.value {
                Some(v) => Some(v.clone()),
                None => None,
            },
        }
    }
}

/// A field named `name` of type `kind`, with no modifiers or value yet.
pub open spec fn field_new(name: NodeModel, kind: NodeModel) -> FieldModel {
    FieldModel { modifiers: Seq::empty(), kind: normal_kind(kind), name, value: None }
}

impl FieldEnvironment {
    pub fn new(name: ASTNode, kind: ASTNode) -> (r: FieldEnvironment)
        requires
            kind_ok(kind.model()),
        ensures
            r.deep_view() == field_new(name.model(), kind.model()),
    {
        let kind = normalize_kind(&kind);
        let r = FieldEnvironment { modifiers: Vec::new(), kind, name, value: None };
        proof {
            assert(r.modifiers.deep_view() =~= Seq::<NodeModel>::empty());
        }
        r
    }
}

/// A copy of a list of fields.
pub fn clone_fields(v: &Vec<FieldEnvironment>) -> (r: Vec<FieldEnvironment>)
    ensures
        r.deep_view() == v.deep_view(),
{
    let r = v.clone();
    proof {
        assert forall|i: int| 0 <= i < v@.len() implies #[trigger] r@[i].deep_view()
            == v@[i].deep_view() by {
            assert(cloned::<FieldEnvironment>(v[i], r[i]));
        }
        assert(r.deep_view() =~= v.deep_view());
    }
    r
}

} // verus!

verus! {

use crate::analysis::environment::classorinterface::{ClassModel, ClassOrInterfaceEnvironment};
use crate::ast::{lemma_model_children, models};
use crate::text::note;

/// A field of the same name is already declared.
pub open spec fn field_clash(fs: Seq<FieldModel>, f: FieldModel) -> bool {
    exists|i: int| 0 <= i < fs.len() && #[trigger] fs[i].name == f.name
}

/// The shape of a field declaration `Modifiers Type Name ...` that can be read.
pub open spec fn field_decl_ok(decl: NodeModel) -> bool {
    decl.children.len() >= 3 && kind_ok(decl.children[1])
}

/// The field that a declaration declares.
pub open spec fn declared_field(decl: NodeModel) -> FieldModel {
    FieldModel { modifiers: decl.children[0].children, ..field_new(decl.children[2], decl.children[1]) }
}

/// Adds the declared field, unless one of the same name exists.
pub open spec fn field_decl(fs: Seq<FieldModel>, decl: NodeModel) -> Result<Seq<FieldModel>, ()> {
    if field_clash(fs, declared_field(decl)) {
        Err(())
    } else {
        Ok(fs.push(declared_field(decl)))
    }
}

/// The shape of a constant declaration `Modifiers Type Name = Value` that
/// can be read.
pub open spec fn constant_decl_ok(decl: NodeModel) -> bool {
    decl.children.len() >= 5 && kind_ok(decl.children[1]) && kind_ok(decl.children[4])
}

/// Adds the declared constant (a field with a value), unless a field of the
/// same name exists.
pub open spec fn constant_decl(c: ClassModel, decl: NodeModel) -> Result<ClassModel, ()> {
    let f = FieldModel { value: Some(normal_kind(decl.children[4])), ..declared_field(decl) };
    if field_clash(c.fields, f) {
        Err(())
    } else {
        Ok(ClassModel { fields: c.fields.push(f), ..c })
    }
}

fn has_field_clash(fs: &Vec<FieldEnvironment>, f: &FieldEnvironment) -> (r: bool)
    ensures
        r == field_clash(fs.deep_view(), f.deep_view()),
{
    let mut i: usize = 0;
    while i < fs.len()
        invariant
            i <= fs@.len(),
            forall|j: int| 0 <= j < i ==> fs@[j].name.model() != f.name.model(),
        decreases fs@.len() - i,
    {
        if fs[i].name.equals(&f.name) {
            proof {
                assert(fs.deep_view()[i as int].name == f.deep_view().name);
            }
            return true;
        }
        i = i + 1;
    }
    proof {
        assert forall|j: int| 0 <= j < fs.deep_view().len() implies #[trigger] fs.deep_view()[j].name
            != f.deep_view().name by {
            assert(fs.deep_view()[j] == fs@[j].deep_view());
        }
    }
    false
}

fn read_field(decl: &ASTNode) -> (f: FieldEnvironment)
    requires
        field_decl_ok(decl.model()),
    ensures
        f.deep_view() == declared_field(decl.model()),
{
    proof {
        lemma_model_children(*decl);
        lemma_model_children(decl.children@[0]);
    }
    let mut f = FieldEnvironment::new(decl.children[2].clone(), decl.children[1].clone());
    f.modifiers = clone_nodes(&decl.children[0].children);
    proof {
        assert(decl.children@[0].children.deep_view() =~= models(decl.children@[0].children@));
    }
    f
}

pub fn analyze_field_declaration(fields: &mut Vec<FieldEnvironment>, declaration: &ASTNode) -> (r:
    Result<(), String>)
    requires
        field_decl_ok(declaration.model()),
    ensures
        r is Ok <==> field_decl(old(fields).deep_view(), declaration.model()) is Ok,
        r is Ok ==> final(fields).deep_view() == field_decl(
            old(fields).deep_view(),
            declaration.model(),
        )->Ok_0,
        r is Err ==> final(fields).deep_view() == old(fields).deep_view(),
        r matches Err(e) ==> e@ == "field names must be unique"@,
{
    let f = read_field(declaration);
    if has_field_clash(fields, &f) {
        return Err(note("field names must be unique"));
    }
    let ghost before = fields.deep_view();
    let ghost fd = f.deep_view();
    fields.push(f);
    proof {
        assert(fields.deep_view() =~= before.push(fd));
    }
    Ok(())
}

pub fn analyze_constant_declaration(
    current: &mut ClassOrInterfaceEnvironment,
    declaration: &ASTNode,
) -> (r: Result<(), String>)
    requires
        constant_decl_ok(declaration.model()),
    ensures
        r is Ok <==> constant_decl(old(current).deep_view(), declaration.model()) is Ok,
        r is Ok ==> final(current).deep_view() == constant_decl(
            old(current).deep_view(),
            declaration.model(),
        )->Ok_0,
        r is Err ==> final(current).deep_view() == old(current).deep_view(),
        r matches Err(e) ==> e@ == "field names must be unique"@,
{
    proof {
        lemma_model_children(*declaration);
    }
    let mut f = read_field(declaration);
    f.value = Some(normalize_kind(&declaration.children[4]));
    let ghost expected = constant_decl(current.deep_view(), declaration.model());
    if has_field_clash(&current.fields, &f) {
        return Err(note("field names must be unique"));
    }
    let ghost before = current.fields.deep_view();
    let ghost fd = f.deep_view();
    current.fields.push(f);
    proof {
        assert(current.fields.deep_view() =~= before.push(fd));
        assert(current.deep_view() =~= expected->Ok_0);
    }
    Ok(())
}

} // verus!
