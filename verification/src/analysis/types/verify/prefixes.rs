//! Strict prefixes of canonical names must not name types.
use vstd::prelude::*;

use crate::analysis::environment::classorinterface::{ClassModel, ClassOrInterfaceEnvironment};
use crate::analysis::types::lookup::class::{canonical_check, canonical_from, lookup_step0_canonical, lookup_step3_enclosing_package, prefix_name, rank, step0_from};
use crate::ast::{clone_nodes, lemma_model_children, lemma_vec_models, ASTNode, NodeModel};
use crate::text::message;
use crate::tokens::{is_primitive_kind, primitive_kind};

verus! {

/// The package check of `c` from the child at `idx` on: no strict prefix
/// resolves to a type by its canonical name.
pub open spec fn package_from(c: NodeModel, current: ClassModel, kinds: Seq<ClassModel>, idx: int) -> Result<
    (),
    (),
>
    decreases c.children.len() - idx,
{
    if idx < 0 || idx >= c.children.len() {
        Ok(())
    } else if idx % 2 != 0 {
        package_from(c, current, kinds, idx + 1)
    } else {
        let p = prefix_name(c, idx);
        if p == c {
            Ok(())
        } else if step0_from(p, current, kinds, 0) matches Some(Ok(_)) {
            Err(())
        } else {
            package_from(c, current, kinds, idx + 1)
        }
    }
}

/// The check on the canonical name of a declared type: it does not start
/// with a primitive type, and no strict prefix is the canonical name of a
/// type.
pub open spec fn package_check(c: NodeModel, current: ClassModel, kinds: Seq<ClassModel>) -> Result<(), ()> {
    if c.children.len() > 0 && is_primitive_kind(c.children[0].token.kind) {
        Err(())
    } else {
        package_from(c, current, kinds, 0)
    }
}

/// The `Name` of the first `idx + 1` children of `c`, built from `prefix`.
fn prefix_node(c: &ASTNode, prefix: &Vec<ASTNode>, idx: usize) -> (r: ASTNode)
    requires
        idx < c.model().children.len(),
        prefix.deep_view() == c.model().children.take(idx + 1),
    ensures
        r.model() == prefix_name(c.model(), idx as int),
{
    let v = clone_nodes(prefix);
    proof {
        lemma_vec_models(v);
    }
    ASTNode::rule("Name", v)
}

/// Checks that no strict prefix of the canonical name `name` resolves
/// to a type, by canonical name or in the enclosing package.
pub fn canonical(
    name: &ASTNode,
    current: &ClassOrInterfaceEnvironment,
    kinds: &Vec<ClassOrInterfaceEnvironment>,
) -> (r: Result<(), String>)
    ensures
        r is Ok <==> canonical_check(name.model(), current.deep_view(), kinds.deep_view()) is Ok,
    decreases name.model().children.len(), rank(name.model()), 1int,
{
    proof {
        lemma_model_children(*name);
    }
    let ghost c = name.model();
    let ghost cur = current.deep_view();
    let ghost ks = kinds.deep_view();
    if name.children.len() > 0 && primitive_kind(name.children[0].token.kind) {
        return Err(message("strict prefix resolves to primitive type in ", name));
    }
    let mut prefix: Vec<ASTNode> = Vec::new();
    proof {
        assert(prefix.deep_view() =~= c.children.take(0));
    }
    let mut idx: usize = 0;
    while idx < name.children.len()
        invariant
            idx <= name.children@.len(),
            c == name.model(),
            c.children == crate::ast::models(name.children@),
            cur == current.deep_view(),
            ks == kinds.deep_view(),
            prefix.deep_view() == c.children.take(idx as int),
            canonical_check(c, cur, ks) == canonical_from(c, cur, ks, idx as int),
        decreases name.children@.len() - idx,
    {
        let ghost before = prefix.deep_view();
        prefix.push(name.children[idx].clone());
        proof {
            assert(prefix.deep_view() =~= before.push(c.children[idx as int]));
            assert(c.children.take(idx + 1) =~= c.children.take(idx as int).push(c.children[idx as int]));
        }
        if idx % 2 == 0 {
            let p = prefix_node(name, &prefix, idx);
            if p.equals(name) {
                return Ok(());
            }
            proof {
                if idx + 1 == c.children.len() {
                    assert(c.children.take(idx + 1) =~= c.children);
                }
            }
            match lookup_step0_canonical(&p, current, kinds) {
                Some(Ok(_)) => {
                    return Err(message("strict prefix resolves to canonical type ", &p));
                },
                _ => {},
            }
            match lookup_step3_enclosing_package(&p, current, kinds) {
                Some(Ok(_)) => {
                    return Err(message("strict prefix resolves to local type ", &p));
                },
                _ => {},
            }
        }
        idx = idx + 1;
    }
    Ok(())
}

/// Checks that no strict prefix of the canonical name of a declared type is
/// the name name of a type.
pub fn package(
    name: &ASTNode,
    current: &ClassOrInterfaceEnvironment,
    kinds: &Vec<ClassOrInterfaceEnvironment>,
) -> (r: Result<(), String>)
    ensures
        r is Ok <==> package_check(name.model(), current.deep_view(), kinds.deep_view()) is Ok,
{
    proof {
        lemma_model_children(*name);
    }
    let ghost c = name.model();
    let ghost cur = current.deep_view();
    let ghost ks = kinds.deep_view();
    if name.children.len() > 0 && primitive_kind(name.children[0].token.kind) {
        return Err(message("strict prefix resolves to primitive type in ", name));
    }
    let mut prefix: Vec<ASTNode> = Vec::new();
    proof {
        assert(prefix.deep_view() =~= c.children.take(0));
    }
    let mut idx: usize = 0;
    while idx < name.children.len()
        invariant
            idx <= name.children@.len(),
            c == name.model(),
            c.children == crate::ast::models(name.children@),
            cur == current.deep_view(),
            ks == kinds.deep_view(),
            prefix.deep_view() == c.children.take(idx as int),
            package_check(c, cur, ks) == package_from(c, cur, ks, idx as int),
        decreases name.children@.len() - idx,
    {
        let ghost before = prefix.deep_view();
        prefix.push(name.children[idx].clone());
        proof {
            assert(prefix.deep_view() =~= before.push(c.children[idx as int]));
            assert(c.children.take(idx + 1) =~= c.children.take(idx as int).push(c.children[idx as int]));
        }
        if idx % 2 == 0 {
            let p = prefix_node(name, &prefix, idx);
            if p.equals(name) {
                return Ok(());
            }
            match lookup_step0_canonical(&p, current, kinds) {
                Some(Ok(_)) => {
                    return Err(message("strict prefix resolves to canonical type ", &p));
                },
                _ => {},
            }
        }
        idx = idx + 1;
    }
    Ok(())
}

} // verus!
