//! Environments: what each class or interface declares.
pub mod class;
pub mod applying;
pub mod classorinterface;
pub mod field;
pub mod hierarchy;
pub mod interface;
pub mod laws;
pub mod method;
pub mod parameter;
pub mod shape;
pub mod variable;
pub mod wellformed;

use vstd::prelude::*;

use crate::analysis::environment::class::{analyze_class_declaration, class_decl, class_decl_ok};
use crate::analysis::environment::classorinterface::{ClassModel, ClassOrInterfaceEnvironment};
use crate::analysis::environment::interface::{
    analyze_interface_declaration, interface_decl, interface_decl_ok,
};
use crate::ast::{lemma_model_children, leaf_model, prefix_equals, ASTModel, ASTNode, NodeModel, AST};
use crate::text::message;
use crate::tokens::{lexeme_is, TokenKind};

verus! {

/// All classes and interfaces of a program.
#[derive(Debug)]
pub struct Environment {
    pub kinds: Vec<ClassOrInterfaceEnvironment>,
}

impl DeepView for Environment {
    type V = Seq<ClassModel>;

    open spec fn deep_view(&self) -> Seq<ClassModel> {
        self.kinds.deep_view()
    }
}

/// `s` begins with `p`.
pub open spec fn starts_with(s: Seq<NodeModel>, p: Seq<NodeModel>) -> bool {
    p.len() <= s.len() && s.take(p.len() as int) == p
}

/// An import names a single type (it does not end in `*`).
pub open spec fn names_type(imp: NodeModel) -> bool {
    imp.children.len() > 0 && imp.children.last() != leaf_model(TokenKind::Star)
}

/// The package part of an import: its name without the last `. Name` (or
/// `. *`).
pub open spec fn import_prefix(imp: NodeModel) -> Seq<NodeModel> {
    if imp.children.len() >= 2 {
        imp.children.take(imp.children.len() - 2)
    } else {
        Seq::empty()
    }
}

/// An import can be resolved: a single-type import names a type of the
/// program, and some compilation unit's package begins with the imported
/// package.
pub open spec fn import_ok(trees: Seq<ASTModel>, imp: NodeModel) -> bool {
    &&& names_type(imp) ==> exists|j: int| 0 <= j < trees.len() && #[trigger] trees[j].canonical == imp
    &&& exists|j: int|
        0 <= j < trees.len() && starts_with(#[trigger] trees[j].package.children, import_prefix(imp))
}

/// The declaration of a compilation unit with a root, added to `kinds`.
pub open spec fn declare(kinds: Seq<ClassModel>, t: ASTModel) -> Result<Seq<ClassModel>, ()> {
    let root = t.root->Some_0;
    if root.token.lexeme == Some("ClassDeclaration"@) {
        match class_decl(t.canonical, kinds, t.imports, root) {
            Ok(c) => Ok(kinds.push(c)),
            Err(_) => Err(()),
        }
    } else if root.token.lexeme == Some("InterfaceDeclaration"@) {
        match interface_decl(t.canonical, kinds, t.imports, root) {
            Ok(c) => Ok(kinds.push(c)),
            Err(_) => Err(()),
        }
    } else {
        Ok(kinds)
    }
}

/// One compilation unit: units without a root are skipped; otherwise its
/// type is declared and then each of its imports must resolve.
pub open spec fn unit_step(trees: Seq<ASTModel>, kinds: Seq<ClassModel>, t: ASTModel) -> Result<
    Seq<ClassModel>,
    (),
> {
    if t.root is None {
        Ok(kinds)
    } else {
        match declare(kinds, t) {
            Ok(k) => if forall|i: int| 0 <= i < t.imports.len() ==> import_ok(trees, #[trigger] t.imports[i]) {
                Ok(k)
            } else {
                Err(())
            },
            Err(_) => Err(()),
        }
    }
}

/// The compilation units `ts`, in order, starting from `kinds`; the first
/// error stops.
pub open spec fn build(trees: Seq<ASTModel>, kinds: Seq<ClassModel>, ts: Seq<ASTModel>) -> Result<
    Seq<ClassModel>,
    (),
>
    decreases ts.len(),
{
    if ts.len() == 0 {
        Ok(kinds)
    } else {
        match unit_step(trees, kinds, ts[0]) {
            Ok(k) => build(trees, k, ts.drop_first()),
            Err(_) => Err(()),
        }
    }
}

/// The environment of a program: all its compilation units, from no type.
pub open spec fn environment(trees: Seq<ASTModel>) -> Result<Seq<ClassModel>, ()> {
    build(trees, Seq::empty(), trees)
}

/// A compilation unit whose declaration can be read.
pub open spec fn unit_ok(t: ASTModel) -> bool {
    t.root matches Some(root) ==> {
        &&& root.token.lexeme == Some("ClassDeclaration"@) ==> class_decl_ok(root)
        &&& root.token.lexeme == Some("InterfaceDeclaration"@) ==> interface_decl_ok(root)
    }
}

/// Whether a compilation unit's canonical name is `n`.
fn canonical_declared(trees: &Vec<AST>, n: &ASTNode) -> (r: bool)
    ensures
        r == exists|j: int| 0 <= j < trees.deep_view().len() && #[trigger] trees.deep_view()[j].canonical == n.model(),
{
    let mut i: usize = 0;
    while i < trees.len()
        invariant
            i <= trees@.len(),
            forall|j: int| 0 <= j < i ==> trees.deep_view()[j].canonical != n.model(),
        decreases trees@.len() - i,
    {
        proof {
            assert(trees.deep_view()[i as int] == trees@[i as int].deep_view());
        }
        if trees[i].canonical.equals(n) {
            return true;
        }
        i = i + 1;
    }
    false
}

/// Whether some compilation unit's package begins with the first `k` nodes
/// of `prefix`.
fn package_declared(trees: &Vec<AST>, prefix: &Vec<ASTNode>) -> (r: bool)
    ensures
        r == exists|j: int|
            0 <= j < trees.deep_view().len() && starts_with(
                #[trigger] trees.deep_view()[j].package.children,
                prefix.deep_view(),
            ),
{
    let k = prefix.len();
    let mut i: usize = 0;
    while i < trees.len()
        invariant
            k == prefix@.len(),
            i <= trees@.len(),
            forall|j: int|
                0 <= j < i ==> !starts_with(
                    #[trigger] trees.deep_view()[j].package.children,
                    prefix.deep_view(),
                ),
        decreases trees@.len() - i,
    {
        let pkg = &trees[i].package.package;
        proof {
            assert(trees.deep_view()[i as int] == trees@[i as int].deep_view());
            lemma_model_children(*pkg);
            assert(pkg.children.deep_view() =~= pkg.model().children);
            assert(prefix.deep_view().take(k as int) =~= prefix.deep_view());
        }
        if k <= pkg.children.len() && prefix_equals(&pkg.children, k, prefix, k) {
            proof {
                assert(starts_with(trees.deep_view()[i as int].package.children, prefix.deep_view()));
            }
            return true;
        }
        i = i + 1;
    }
    false
}

/// Checks that an import resolves.
fn check_import(trees: &Vec<AST>, imp: &ASTNode) -> (r: Result<(), String>)
    ensures
        r is Ok <==> import_ok(trees.deep_view(), imp.model()),
{
    proof {
        lemma_model_children(*imp);
    }
    let n = imp.children.len();
    if n > 0 && !imp.children[n - 1].equals(&ASTNode::leaf(TokenKind::Star)) {
        if !canonical_declared(trees, imp) {
            return Err(message("could not find imported package ", imp));
        }
    }
    let mut package = imp.clone();
    let ghost full = package.children.deep_view();
    proof {
        lemma_model_children(package);
        assert(full =~= imp.model().children);
    }
    package.children.pop();
    package.children.pop();
    proof {
        assert(package.children.deep_view() =~= import_prefix(imp.model()));
    }
    if package_declared(trees, &package.children) {
        Ok(())
    } else {
        Err(message("could not find imported package ", &package))
    }
}

impl Environment {
    /// Builds the environment of a program from its compilation units: each
    /// class or interface is declared in order, and every import must
    /// resolve.
    pub fn new(trees: &Vec<AST>) -> (r: Result<Environment, String>)
        requires
            forall|i: int| 0 <= i < trees.deep_view().len() ==> unit_ok(#[trigger] trees.deep_view()[i]),
        ensures
            r is Ok <==> environment(trees.deep_view()) is Ok,
            r is Ok ==> r->Ok_0.deep_view() == environment(trees.deep_view())->Ok_0,
    {
        let mut env = Environment { kinds: Vec::new() };
        let ghost ts = trees.deep_view();
        let ghost goal = environment(ts);
        proof {
            assert(env.kinds.deep_view() =~= Seq::<ClassModel>::empty());
            assert(ts.skip(0) =~= ts);
        }
        let mut i: usize = 0;
        while i < trees.len()
            invariant
                ts == trees.deep_view(),
                i <= trees@.len(),
                forall|k: int| 0 <= k < ts.len() ==> unit_ok(#[trigger] ts[k]),
                goal == environment(ts),
                goal == build(ts, env.kinds.deep_view(), ts.skip(i as int)),
            decreases trees@.len() - i,
        {
            let tree = &trees[i];
            let ghost t = ts[i as int];
            let ghost before = env.kinds.deep_view();
            proof {
                assert(t == tree.deep_view());
                assert(ts.skip(i as int)[0] == t);
                assert(ts.skip(i as int).drop_first() =~= ts.skip(i + 1));
                assert(unit_ok(t));
            }
            match &tree.root {
                None => {},
                Some(root) => {
                    let result = if lexeme_is(&root.token.lexeme, "ClassDeclaration") {
                        analyze_class_declaration(&tree.canonical, &mut env.kinds, &tree.imports, root)
                    } else if lexeme_is(&root.token.lexeme, "InterfaceDeclaration") {
                        analyze_interface_declaration(&tree.canonical, &mut env.kinds, &tree.imports, root)
                    } else {
                        Ok(())
                    };
                    if result.is_err() {
                        proof {
                            assert(declare(before, t) is Err);
                        }
                        return Err(result.unwrap_err());
                    }
                    proof {
                        assert(declare(before, t) == Ok::<Seq<ClassModel>, ()>(env.kinds.deep_view()));
                    }
                    let mut j: usize = 0;
                    while j < tree.imports.len()
                        invariant
                            j <= tree.imports@.len(),
                            ts == trees.deep_view(),
                            t == tree.deep_view(),
                            t.root is Some,
                            declare(before, t) == Ok::<Seq<ClassModel>, ()>(env.kinds.deep_view()),
                            i < trees@.len(),
                            forall|k: int| 0 <= k < ts.len() ==> unit_ok(#[trigger] ts[k]),
                            goal == environment(ts),
                            goal == build(ts, before, ts.skip(i as int)),
                            ts.skip(i as int)[0] == t,
                            ts.skip(i as int).drop_first() == ts.skip(i + 1),
                            forall|k: int| 0 <= k < j ==> import_ok(ts, #[trigger] t.imports[k]),
                        decreases tree.imports@.len() - j,
                    {
                        proof {
                            assert(t.imports[j as int] == tree.imports@[j as int].import.model());
                        }
                        let c = check_import(trees, &tree.imports[j].import);
                        if c.is_err() {
                            proof {
                                assert(!import_ok(ts, t.imports[j as int]));
                                assert(unit_step(ts, before, t) is Err);
                            }
                            return Err(c.unwrap_err());
                        }
                        j = j + 1;
                    }
                    proof {
                        assert(unit_step(ts, before, t) == Ok::<Seq<ClassModel>, ()>(env.kinds.deep_view()));
                    }
                },
            }
            i = i + 1;
        }
        proof {
            assert(ts.skip(trees@.len() as int) =~= Seq::<ASTModel>::empty());
        }
        Ok(env)
    }
}

} // verus!
