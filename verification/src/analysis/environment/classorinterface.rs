//! The environment of one class or interface.
use vstd::prelude::*;

use crate::analysis::environment::field::{clone_fields, FieldEnvironment, FieldModel};
use crate::analysis::environment::method::{clone_methods, MethodEnvironment, MethodModel};
use crate::ast::{clone_imports, clone_nodes, ASTNode, ASTNodeImport, NodeModel};

verus! {

#[derive(Clone, Copy, Debug, PartialEq, Eq, Structural)]
pub enum ClassOrInterface {
    CLASS,
    INTERFACE,
}

pub struct ClassModel {
    pub constructors: Seq<MethodModel>,
    pub extends: Seq<NodeModel>,
    pub fields: Seq<FieldModel>,
    pub implements: Seq<NodeModel>,
    pub imports: Seq<NodeModel>,
    pub methods: Seq<MethodModel>,
    pub modifiers: Seq<NodeModel>,
    pub name: NodeModel,
    pub kind: ClassOrInterface,
}

#[derive(Debug)]
pub struct ClassOrInterfaceEnvironment {
    pub constructors: Vec<MethodEnvironment>,
    pub extends: Vec<ASTNode>,
    pub fields: Vec<FieldEnvironment>,
    pub implements: Vec<ASTNode>,
    pub imports: Vec<ASTNodeImport>,
    pub methods: Vec<MethodEnvironment>,
    pub modifiers: Vec<ASTNode>,
    pub name: ASTNode,
    pub kind: ClassOrInterface,
}

impl DeepView for ClassOrInterfaceEnvironment {
    type V = ClassModel;

    open spec fn deep_view(&self) -> ClassModel {
        ClassModel {
            constructors: self.constructors.deep_view(),
            extends: self.extends.deep_view(),
            fields: self.fields.deep_view(),
            implements: self.implements.deep_view(),
            imports: self.imports.deep_view(),
            methods: self.methods.deep_view(),
            modifiers: self.modifiers.deep_view(),
            name: self.name.model(),
            kind: self.kind,
        }
    }
}

impl Clone for ClassOrInterfaceEnvironment {
    fn clone(&self) -> (r: Self)
        ensures
            r.deep_view() == self.deep_view(),
    {
        ClassOrInterfaceEnvironment {
            constructors: clone_methods(&self.constructors),
            extends: clone_nodes(&self.extends),
            fields: clone_fields(&self.fields),
            implements: clone_nodes(&self.implements),
            imports: clone_imports(&self.imports),
            methods: clone_methods(&self.methods),
            modifiers: clone_nodes(&self.modifiers),
            name: self.name.clone(),
            kind: self.kind,
        }
    }
}

/// An empty class or interface called `name`.
pub open spec fn class_new(name: NodeModel, kind: ClassOrInterface) -> ClassModel {
    ClassModel {
        constructors: Seq::empty(),
        extends: Seq::empty(),
        fields: Seq::empty(),
        implements: Seq::empty(),
        imports: Seq::empty(),
        methods: Seq::empty(),
        modifiers: Seq::empty(),
        name,
        kind,
    }
}

impl ClassOrInterfaceEnvironment {
    pub fn new(name: ASTNode, kind: ClassOrInterface) -> (r: ClassOrInterfaceEnvironment)
        ensures
            r.deep_view() == class_new(name.model(), kind),
    {
        let r = ClassOrInterfaceEnvironment {
            constructors: Vec::new(),
            extends: Vec::new(),
            fields: Vec::new(),
            implements: Vec::new(),
            imports: Vec::new(),
            kind,
            methods: Vec::new(),
            modifiers: Vec::new(),
            name,
        };
        proof {
            assert(r.constructors.deep_view() =~= Seq::<MethodModel>::empty());
            assert(r.methods.deep_view() =~= Seq::<MethodModel>::empty());
            assert(r.fields.deep_view() =~= Seq::<FieldModel>::empty());
            assert(r.extends.deep_view() =~= Seq::<NodeModel>::empty());
            assert(r.implements.deep_view() =~= Seq::<NodeModel>::empty());
            assert(r.imports.deep_view() =~= Seq::<NodeModel>::empty());
            assert(r.modifiers.deep_view() =~= Seq::<NodeModel>::empty());
        }
        r
    }
}

/// A copy of a list of classes and interfaces.
pub fn clone_classes(v: &Vec<ClassOrInterfaceEnvironment>) -> (r: Vec<ClassOrInterfaceEnvironment>)
    ensures
        r.deep_view() == v.deep_view(),
{
    let r = v.clone();
    proof {
        assert forall|i: int| 0 <= i < v@.len() implies #[trigger] r@[i].deep_view()
            == v@[i].deep_view() by {
            assert(cloned::<ClassOrInterfaceEnvironment>(v[i], r[i]));
        }
        assert(r.deep_view() =~= v.deep_view());
    }
    r
}

} // verus!
