//! Local variables and parameters.
use vstd::prelude::*;

use crate::ast::{
    lemma_model_children, normal_kind, normalize_kind, kind_ok, rule_model, ASTNode, NodeModel,
};
use crate::tokens::{lexeme_is, TokenKind};

verus! {

pub struct VarModel {
    pub kind: NodeModel,
    pub name: NodeModel,
    pub dim: bool,
    pub initialized: bool,
}

#[derive(Debug)]
pub struct VariableEnvironment {
    pub kind: ASTNode,
    pub name: ASTNode,
    pub dim: bool,
    pub initialized: bool,
}

impl DeepView for VariableEnvironment {
    type V = VarModel;

    open spec fn deep_view(&self) -> VarModel {
        VarModel {
            kind: self.kind.model(),
            name: self.name.model(),
            dim: self.dim,
            initialized: self.initialized,
        }
    }
}

impl Clone for VariableEnvironment {
    fn clone(&self) -> (r: Self)
        ensures
            r.deep_view() == self.deep_view(),
    {
        VariableEnvironment {
            kind: self.kind.clone(),
            name: self.name.clone(),
            dim: self.dim,
            initialized: self.initialized,
        }
    }
}

/// The declared name inside a declarator: the target of an initializing
/// assignment, or the declarator itself.
pub open spec fn declared(n: NodeModel) -> NodeModel {
    if n.token.kind == TokenKind::Assignment {
        n.children[0]
    } else {
        n
    }
}

/// A variable's name, wrapped in a `Name` unless it already is a `Name` or an
/// `ArrayType`.
pub open spec fn var_name(n: NodeModel) -> NodeModel {
    let d = declared(n);
    if d.token.lexeme == Some("ArrayType"@) || d.token.lexeme == Some("Name"@) {
        d
    } else {
        rule_model("Name"@, seq![d])
    }
}

/// A declaration node `Type Declarator ...` can be read as a variable.
pub open spec fn var_node_ok(node: NodeModel) -> bool {
    &&& node.children.len() >= 2
    &&& kind_ok(node.children[0])
    &&& (node.children[1].token.kind == TokenKind::Assignment ==> node.children[1].children.len()
        >= 1)
}

/// The variable that a declaration node declares (not yet initialized).
pub open spec fn var_new(node: NodeModel) -> VarModel {
    VarModel {
        kind: normal_kind(node.children[0]),
        name: var_name(node.children[1]),
        dim: node.children[0].token.lexeme == Some("ArrayType"@),
        initialized: false,
    }
}

/// The signature of a parameter list: kinds and array-ness, in order. Two
/// variables compare equal when these agree.
pub open spec fn signature(ps: Seq<VarModel>) -> Seq<(NodeModel, bool)> {
    ps.map_values(|p: VarModel| (p.kind, p.dim))
}

impl VariableEnvironment {
    pub fn new(node: ASTNode) -> (r: VariableEnvironment)
        requires
            var_node_ok(node.model()),
        ensures
            r.deep_view() == var_new(node.model()),
    {
        proof {
            lemma_model_children(node);
            lemma_model_children(node.children@[0]);
            lemma_model_children(node.children@[1]);
        }
        let dim = lexeme_is(&node.children[0].token.lexeme, "ArrayType");
        let kind = normalize_kind(&node.children[0]);
        let target = if node.children[1].token.kind == TokenKind::Assignment {
            node.children[1].children[0].clone()
        } else {
            node.children[1].clone()
        };
        let name = if lexeme_is(&target.token.lexeme, "ArrayType") || lexeme_is(
            &target.token.lexeme,
            "Name",
        ) {
            target
        } else {
            let mut v: Vec<ASTNode> = Vec::new();
            v.push(target);
            ASTNode::rule("Name", v)
        };
        proof {
            assert(crate::ast::models(seq![target]) =~= seq![target.model()]);
        }
        VariableEnvironment { kind, name, dim, initialized: false }
    }

    /// Variables compare equal when their kinds and array-ness agree.
    pub fn same_as(&self, other: &VariableEnvironment) -> (r: bool)
        ensures
            r == (self.deep_view().kind == other.deep_view().kind && self.dim == other.dim),
    {
        self.kind.equals(&other.kind) && self.dim == other.dim
    }
}

/// Whether two parameter lists have the same signature.
pub fn same_signature(a: &Vec<VariableEnvironment>, b: &Vec<VariableEnvironment>) -> (r: bool)
    ensures
        r == (signature(a.deep_view()) == signature(b.deep_view())),
{
    if a.len() != b.len() {
        proof {
            assert(signature(a.deep_view()).len() != signature(b.deep_view()).len());
        }
        return false;
    }
    let mut i: usize = 0;
    while i < a.len()
        invariant
            a@.len() == b@.len(),
            i <= a@.len(),
            forall|j: int|
                0 <= j < i ==> #[trigger] signature(a.deep_view())[j] == signature(b.deep_view())[j],
        decreases a@.len() - i,
    {
        if !a[i].same_as(&b[i]) {
            proof {
                assert(signature(a.deep_view())[i as int] == (a@[i as int].kind.model(), a@[i as int].dim));
                assert(signature(b.deep_view())[i as int] == (b@[i as int].kind.model(), b@[i as int].dim));
            }
            return false;
        }
        proof {
            assert(signature(a.deep_view())[i as int] == (a@[i as int].kind.model(), a@[i as int].dim));
            assert(signature(b.deep_view())[i as int] == (b@[i as int].kind.model(), b@[i as int].dim));
        }
        i = i + 1;
    }
    proof {
        assert(signature(a.deep_view()) =~= signature(b.deep_view()));
    }
    true
}

/// A copy of a list of variables.
pub fn clone_vars(v: &Vec<VariableEnvironment>) -> (r: Vec<VariableEnvironment>)
    ensures
        r.deep_view() == v.deep_view(),
{
    let r = v.clone();
    proof {
        assert forall|i: int| 0 <= i < v@.len() implies #[trigger] r@[i].deep_view()
            == v@[i].deep_view() by {
            assert(cloned::<VariableEnvironment>(v[i], r[i]));
        }
        assert(r.deep_view() =~= v.deep_view());
    }
    r
}

} // verus!
