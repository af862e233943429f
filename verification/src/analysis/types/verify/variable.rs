//! Variables must be initialized before they are read.
use vstd::prelude::*;

use crate::analysis::environment::classorinterface::ClassOrInterfaceEnvironment;
use crate::analysis::environment::variable::{VarModel, VariableEnvironment};
use crate::ast::{lemma_model_children, NodeModel, ASTNode};
use crate::text::message;
use crate::tokens::{lexeme_is, TokenKind};

verus! {

/// Whether the first variable of `globals` (from the `i`th on) named `n` is
/// initialized; none when no variable has that name.
pub open spec fn first_initialized(globals: Seq<VarModel>, n: NodeModel, i: int) -> Option<bool>
    decreases globals.len() - i,
{
    if i < 0 || i >= globals.len() {
        None
    } else if globals[i].name == n {
        Some(globals[i].initialized)
    } else {
        first_initialized(globals, n, i + 1)
    }
}

/// A node that names a variable: an identifier or a `Name`.
pub open spec fn names_variable(n: NodeModel) -> bool {
    n.token.kind == TokenKind::Identifier || (n.token.kind == TokenKind::NonTerminal && n.token.lexeme
        == Some("Name"@))
}

/// No variable read in `n` is known to be uninitialized: a name denotes its
/// first variable of that name, which must be initialized; other nodes are
/// checked through their children.
pub open spec fn initialized_model(n: NodeModel, globals: Seq<VarModel>) -> bool
    decreases n, 1int,
{
    if names_variable(n) {
        first_initialized(globals, n, 0) != Some(false)
    } else {
        children_initialized(n.children, globals)
    }
}

/// `initialized_model` holds of every node of `cs`.
pub open spec fn children_initialized(cs: Seq<NodeModel>, globals: Seq<VarModel>) -> bool
    decreases cs, 0int,
{
    cs.len() == 0 || (children_initialized(cs.drop_last(), globals) && initialized_model(cs.last(), globals))
}

/// Checks that no variable read in `node` is uninitialized (see
/// `initialized_model`).
pub fn initialized(
    node: &ASTNode,
    current: &ClassOrInterfaceEnvironment,
    globals: &Vec<VariableEnvironment>,
) -> (r: Result<(), String>)
    ensures
        r is Ok <==> initialized_model(node.model(), globals.deep_view()),
    decreases node,
{
    proof {
        lemma_model_children(*node);
    }
    let ghost gs = globals.deep_view();
    if node.token.kind == TokenKind::Identifier || (node.token.kind == TokenKind::NonTerminal
        && lexeme_is(&node.token.lexeme, "Name")) {
        let mut i: usize = 0;
        while i < globals.len()
            invariant
                i <= globals@.len(),
                gs == globals.deep_view(),
                names_variable(node.model()),
                first_initialized(gs, node.model(), 0) == first_initialized(gs, node.model(), i as int),
            decreases globals@.len() - i,
        {
            proof {
                assert(gs[i as int] == globals@[i as int].deep_view());
            }
            if globals[i].name.equals(node) {
                if globals[i].initialized {
                    return Ok(());
                } else {
                    let mut e = message("using un-initialized variable ", &globals[i].name);
                    e.append(" in class ");
                    let c = message("", &current.name);
                    e.append(c.as_str());
                    return Err(e);
                }
            }
            i = i + 1;
        }
        return Ok(());
    }
    let ghost cs = node.model().children;
    let mut i: usize = 0;
    while i < node.children.len()
        invariant
            i <= node.children@.len(),
            cs == node.model().children,
            cs == crate::ast::models(node.children@),
            gs == globals.deep_view(),
            !names_variable(node.model()),
            children_initialized(cs.take(i as int), gs),
        decreases node.children@.len() - i,
    {
        proof {
            assert(cs.take(i + 1).drop_last() =~= cs.take(i as int));
            assert(cs.take(i + 1).last() == node.children@[i as int].model());
        }
        let r = initialized(&node.children[i], current, globals);
        if r.is_err() {
            proof {
                assert(!children_initialized(cs.take(i + 1), gs));
                if children_initialized(cs, gs) {
                    lemma_children_initialized_prefix(cs, i as int + 1, gs);
                }
            }
            return r;
        }
        i = i + 1;
    }
    proof {
        assert(cs.take(node.children@.len() as int) =~= cs);
    }
    Ok(())
}

/// When a prefix fails the check, so does the whole list.
proof fn lemma_children_initialized_prefix(cs: Seq<NodeModel>, k: int, globals: Seq<VarModel>)
    requires
        0 <= k <= cs.len(),
        children_initialized(cs, globals),
    ensures
        children_initialized(cs.take(k), globals),
    decreases cs.len(),
{
    if k < cs.len() {
        assert(cs.drop_last().take(k) =~= cs.take(k));
        lemma_children_initialized_prefix(cs.drop_last(), k, globals);
    } else {
        assert(cs.take(k) =~= cs);
    }
}

} // verus!
