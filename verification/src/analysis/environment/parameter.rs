//! Formal parameters as written in a declaration.
use vstd::prelude::*;

use crate::ast::{lemma_model_children, ASTNode, NodeModel};

verus! {

pub struct ParameterModel {
    pub kind: NodeModel,
    pub name: NodeModel,
    pub dim: bool,
}

#[derive(Debug)]
pub struct ParameterEnvironment {
    pub kind: ASTNode,
    pub name: ASTNode,
    pub dim: bool,
}

impl DeepView for ParameterEnvironment {
    type V = ParameterModel;

    open spec fn deep_view(&self) -> ParameterModel {
        ParameterModel { kind: self.kind.model(), name: self.name.model(), dim: self.dim }
    }
}

impl ParameterEnvironment {
    /// Reads `Type Name` or `Type Name Dim`.
    pub fn new(node: ASTNode) -> (r: ParameterEnvironment)
        requires
            node.model().children.len() >= 2,
        ensures
            r.deep_view() == (ParameterModel {
                kind: node.model().children[0],
                name: node.model().children[1],
                dim: node.model().children.len() == 3,
            }),
    {
        proof {
            lemma_model_children(node);
        }
        ParameterEnvironment {
            kind: node.children[0].clone(),
            name: node.children[1].clone(),
            dim: node.children.len() == 3,
        }
    }

    /// Parameters are equal when kind, name and array-ness agree.
    pub fn equals(&self, other: &ParameterEnvironment) -> (r: bool)
        ensures
            r == (self.deep_view() == other.deep_view()),
    {
        self.kind.equals(&other.kind) && self.name.equals(&other.name) && self.dim == other.dim
    }
}

} // verus!
