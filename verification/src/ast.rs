//! The abstract syntax tree that the analysis works on.
use vstd::prelude::*;

use crate::tokens::{lexeme_is, Token, TokenKind, TokenModel};

verus! {

broadcast use vstd::seq::axiom_seq_index_decreases, vstd::seq::axiom_seq_subrange_decreases;

/// The mathematical content of a tree node.
pub struct NodeModel {
    pub token: TokenModel,
    pub children: Seq<NodeModel>,
}

#[derive(Debug)]
pub struct ASTNode {
    pub token: Token,
    pub children: Vec<ASTNode>,
}

/// The models of a sequence of nodes.
pub open spec fn models(v: Seq<ASTNode>) -> Seq<NodeModel> {
    Seq::new(v.len(), |i: int| v[i].model())
}

impl ASTNode {
    pub open spec fn model(&self) -> NodeModel
        decreases self,
    {
        NodeModel {
            token: self.token.model(),
            children: Seq::new(
                self.children@.len(),
                |i: int|
                    if 0 <= i < self.children@.len() {
                        self.children@[i].model()
                    } else {
                        NodeModel { token: self.token.model(), children: Seq::empty() }
                    },
            ),
        }
    }
}

pub proof fn lemma_model_children(n: ASTNode)
    ensures
        n.model().children == models(n.children@),
        n.model().token == n.token.model(),
{
    assert(n.model().children =~= models(n.children@));
}

pub open spec fn leaf_model(kind: TokenKind) -> NodeModel {
    NodeModel { token: TokenModel { kind, lexeme: None }, children: Seq::empty() }
}

pub open spec fn ident_model(s: Seq<char>) -> NodeModel {
    NodeModel {
        token: TokenModel { kind: TokenKind::Identifier, lexeme: Some(s) },
        children: Seq::empty(),
    }
}

pub open spec fn rule_token(rule: Seq<char>) -> TokenModel {
    TokenModel { kind: TokenKind::NonTerminal, lexeme: Some(rule) }
}

pub open spec fn rule_model(rule: Seq<char>, children: Seq<NodeModel>) -> NodeModel {
    NodeModel { token: rule_token(rule), children }
}

/// Whether a node is the non-terminal `rule`.
pub open spec fn is_rule(n: NodeModel, rule: Seq<char>) -> bool {
    n.token == rule_token(rule)
}

/// The qualified name `a.b.c`.
pub open spec fn qualified3(a: Seq<char>, b: Seq<char>, c: Seq<char>) -> NodeModel {
    rule_model(
        "Name"@,
        seq![ident_model(a), leaf_model(TokenKind::Dot), ident_model(b), leaf_model(TokenKind::Dot), ident_model(c)],
    )
}

pub open spec fn object_model() -> NodeModel {
    qualified3("java"@, "lang"@, "Object"@)
}

/// Splicing: the children of a node after every child that is the same
/// non-terminal as `t` has been replaced by its own (flattened) children.
pub open spec fn flat_children(t: TokenModel, cs: Seq<NodeModel>) -> Seq<NodeModel>
    decreases cs,
{
    if cs.len() == 0 {
        Seq::empty()
    } else {
        let rest = flat_children(t, cs.drop_last());
        let c = cs.last();
        if c.token == t {
            rest + flatten(c).children
        } else {
            rest.push(c)
        }
    }
}

/// A non-terminal with its nested repetitions of the same rule collapsed,
/// e.g. `Name(Name(a . b) . c)` becomes `Name(a . b . c)`. Terminals are
/// unchanged.
pub open spec fn flatten(n: NodeModel) -> NodeModel
    decreases n,
{
    if n.token.kind == TokenKind::NonTerminal {
        NodeModel { token: n.token, children: flat_children(n.token, n.children) }
    } else {
        n
    }
}

/// A `Name` that wraps a single node stands for that node.
pub open spec fn unwrap_name(n: NodeModel) -> NodeModel {
    if is_rule(n, "Name"@) && n.children.len() == 1 {
        n.children[0]
    } else {
        n
    }
}

/// A childless token that names a type by its kind (a primitive type,
/// `void`, `null`, or the kind of a literal), not by a name.
pub open spec fn kind_leaf(n: NodeModel) -> bool {
    n.children.len() == 0 && n.token.kind != TokenKind::Identifier && n.token.kind != TokenKind::NonTerminal
}

/// Two type names denote the same type: two types named by their kind are
/// the same when their kinds are (whatever constant value their lexemes
/// carry); other names when they are equal.
pub open spec fn same_type(a: NodeModel, b: NodeModel) -> bool {
    let x = unwrap_name(a);
    let y = unwrap_name(b);
    if kind_leaf(x) && kind_leaf(y) {
        x.token.kind == y.token.kind
    } else {
        x == y
    }
}

impl DeepView for ASTNode {
    type V = NodeModel;

    open spec fn deep_view(&self) -> NodeModel {
        self.model()
    }
}

/// The models of a vector of nodes are the models of its elements.
pub proof fn lemma_vec_models(v: Vec<ASTNode>)
    ensures
        v.deep_view() == models(v@),
{
    assert(v.deep_view() =~= models(v@));
}

/// A copy of a vector of nodes.
pub fn clone_nodes(v: &Vec<ASTNode>) -> (r: Vec<ASTNode>)
    ensures
        r.deep_view() == v.deep_view(),
{
    let r = v.clone();
    proof {
        assert forall|i: int| 0 <= i < v@.len() implies #[trigger] r@[i].model() == v@[i].model() by {
            assert(cloned::<ASTNode>(v[i], r[i]));
        }
        assert(r.deep_view() =~= v.deep_view());
    }
    r
}

/// Whether `v` holds a node equal to `n`.
pub fn contains_node(v: &Vec<ASTNode>, n: &ASTNode) -> (r: bool)
    ensures
        r == v.deep_view().contains(n.model()),
{
    let mut i: usize = 0;
    while i < v.len()
        invariant
            i <= v@.len(),
            forall|j: int| 0 <= j < i ==> v@[j].model() != n.model(),
        decreases v@.len() - i,
    {
        if v[i].equals(n) {
            proof {
                assert(v.deep_view()[i as int] == n.model());
            }
            return true;
        }
        i = i + 1;
    }
    proof {
        assert forall|j: int| 0 <= j < v.deep_view().len() implies v.deep_view()[j] != n.model() by {
            assert(v.deep_view()[j] == v@[j].model());
        }
    }
    false
}

/// Whether the first `na` nodes of `a` equal the first `nb` nodes of `b`.
pub fn prefix_equals(a: &Vec<ASTNode>, na: usize, b: &Vec<ASTNode>, nb: usize) -> (r: bool)
    requires
        na <= a@.len(),
        nb <= b@.len(),
    ensures
        r == (a.deep_view().take(na as int) == b.deep_view().take(nb as int)),
{
    if na != nb {
        proof {
            assert(a.deep_view().take(na as int).len() != b.deep_view().take(nb as int).len());
        }
        return false;
    }
    let mut i: usize = 0;
    while i < na
        invariant
            na == nb,
            na <= a@.len(),
            nb <= b@.len(),
            i <= na,
            forall|j: int| 0 <= j < i ==> a@[j].model() == b@[j].model(),
        decreases na - i,
    {
        if !a[i].equals(&b[i]) {
            proof {
                assert(a.deep_view().take(na as int)[i as int] == a@[i as int].model());
                assert(b.deep_view().take(nb as int)[i as int] == b@[i as int].model());
            }
            return false;
        }
        i = i + 1;
    }
    proof {
        assert(a.deep_view().take(na as int) =~= b.deep_view().take(nb as int));
    }
    true
}

/// Whether a type node can be brought to its normal form without failing:
/// a flattened `ArrayType` must keep its element type.
pub open spec fn kind_ok(n: NodeModel) -> bool {
    flatten(n).token.lexeme == Some("ArrayType"@) ==> flatten(n).children.len() >= 1
}

/// The normal form of a type node: flattened, and for an array type only
/// the (flattened) element type is kept.
pub open spec fn normal_kind(n: NodeModel) -> NodeModel {
    let k = flatten(n);
    if k.token.lexeme == Some("ArrayType"@) {
        NodeModel { token: k.token, children: seq![flatten(k.children[0])] }
    } else {
        k
    }
}

/// Brings a type node to its normal form.
pub fn normalize_kind(n: &ASTNode) -> (r: ASTNode)
    requires
        kind_ok(n.model()),
    ensures
        r.model() == normal_kind(n.model()),
{
    let k = n.flattened();
    proof {
        lemma_model_children(k);
    }
    if lexeme_is(&k.token.lexeme, "ArrayType") {
        let first = k.children[0].flattened();
        let mut children: Vec<ASTNode> = Vec::new();
        children.push(first);
        let r = ASTNode { token: k.token.clone(), children };
        proof {
            lemma_model_children(r);
            assert(r.model().children =~= seq![flatten(k.model().children[0])]);
        }
        r
    } else {
        k
    }
}

impl Clone for ASTNode {
    fn clone(&self) -> (r: ASTNode)
        ensures
            r.model() == self.model(),
        decreases self,
    {
        let mut children: Vec<ASTNode> = Vec::new();
        let n = self.children.len();
        let mut i: usize = 0;
        while i < n
            invariant
                n == self.children@.len(),
                i <= n,
                children@.len() == i,
                forall|j: int| 0 <= j < i ==> #[trigger] children@[j].model() == self.children@[j].model(),
            decreases n - i,
        {
            let c = self.children[i].clone();
            children.push(c);
            i = i + 1;
        }
        let r = ASTNode { token: self.token.clone(), children };
        proof {
            lemma_model_children(r);
            lemma_model_children(*self);
            assert(models(r.children@) =~= models(self.children@));
        }
        r
    }
}

impl ASTNode {
    /// A childless node whose token has no lexeme.
    pub fn leaf(kind: TokenKind) -> (r: ASTNode)
        ensures
            r.model() == leaf_model(kind),
    {
        let r = ASTNode { token: Token::new(kind, None), children: Vec::new() };
        proof {
            lemma_model_children(r);
            assert(r.model().children =~= Seq::<NodeModel>::empty());
        }
        r
    }

    /// A childless identifier.
    pub fn ident(name: &str) -> (r: ASTNode)
        ensures
            r.model() == ident_model(name@),
    {
        let r = ASTNode { token: Token::new(TokenKind::Identifier, Some(name)), children: Vec::new() };
        proof {
            lemma_model_children(r);
            assert(r.model().children =~= Seq::<NodeModel>::empty());
        }
        r
    }

    /// The non-terminal `rule` with the given children.
    pub fn rule(rule: &str, children: Vec<ASTNode>) -> (r: ASTNode)
        ensures
            r.model() == rule_model(rule@, models(children@)),
    {
        let r = ASTNode { token: Token::new(TokenKind::NonTerminal, Some(rule)), children };
        proof {
            lemma_model_children(r);
        }
        r
    }

    /// Whether this node is the non-terminal `rule`.
    pub fn is(&self, rule: &str) -> (r: bool)
        ensures
            r == is_rule(self.model(), rule@),
    {
        self.token.is_rule(rule)
    }

    /// Structural equality of two trees.
    pub fn equals(&self, other: &ASTNode) -> (r: bool)
        ensures
            r == (self.model() == other.model()),
        decreases self,
    {
        proof {
            lemma_model_children(*self);
            lemma_model_children(*other);
        }
        if !self.token.same(&other.token) {
            return false;
        }
        let n = self.children.len();
        if n != other.children.len() {
            proof {
                assert(self.model().children.len() != other.model().children.len());
            }
            return false;
        }
        let mut i: usize = 0;
        while i < n
            invariant
                n == self.children@.len(),
                n == other.children@.len(),
                i <= n,
                forall|j: int| 0 <= j < i ==> #[trigger] self.children@[j].model() == other.children@[j].model(),
            decreases n - i,
        {
            if !self.children[i].equals(&other.children[i]) {
                proof {
                    assert(self.model().children[i as int] == self.children@[i as int].model());
                    assert(other.model().children[i as int] == other.children@[i as int].model());
                }
                return false;
            }
            i = i + 1;
        }
        proof {
            assert(models(self.children@) =~= models(other.children@));
        }
        true
    }

    /// This node with nested repetitions of its own rule collapsed.
    pub fn flattened(&self) -> (r: ASTNode)
        ensures
            r.model() == flatten(self.model()),
        decreases self,
    {
        proof {
            lemma_model_children(*self);
        }
        if self.token.kind != TokenKind::NonTerminal {
            return self.clone();
        }
        let ghost t = self.model().token;
        let ghost cs = self.model().children;
        let mut children: Vec<ASTNode> = Vec::new();
        let n = self.children.len();
        let mut i: usize = 0;
        while i < n
            invariant
                n == self.children@.len(),
                i <= n,
                cs == models(self.children@),
                t == self.token.model(),
                models(children@) == flat_children(t, cs.subrange(0, i as int)),
            decreases n - i,
        {
            let ghost before = children@;
            proof {
                assert(cs.subrange(0, i + 1).drop_last() =~= cs.subrange(0, i as int));
                assert(cs.subrange(0, i + 1).last() == cs[i as int]);
            }
            let c = &self.children[i];
            if c.token.same(&self.token) {
                let f = c.flattened();
                proof {
                    lemma_model_children(f);
                }
                let mut j: usize = 0;
                let m = f.children.len();
                while j < m
                    invariant
                        m == f.children@.len(),
                        j <= m,
                        models(children@) == flat_children(t, cs.subrange(0, i as int)) + models(
                            f.children@,
                        ).subrange(0, j as int),
                    decreases m - j,
                {
                    let ghost prev = children@;
                    children.push(f.children[j].clone());
                    proof {
                        assert(models(children@) =~= models(prev).push(f.children@[j as int].model()));
                        assert(models(f.children@).subrange(0, j + 1) =~= models(
                            f.children@,
                        ).subrange(0, j as int).push(f.children@[j as int].model()));
                    }
                    j = j + 1;
                }
                proof {
                    assert(models(f.children@).subrange(0, m as int) =~= models(f.children@));
                }
            } else {
                children.push(c.clone());
                proof {
                    assert(models(children@) =~= models(before).push(c.model()));
                }
            }
            i = i + 1;
        }
        proof {
            assert(cs.subrange(0, n as int) =~= cs);
        }
        let r = ASTNode { token: self.token.clone(), children };
        proof {
            lemma_model_children(r);
        }
        r
    }

    /// Collapses nested repetitions of this node's own rule, in place.
    pub fn flatten(&mut self)
        ensures
            final(self).model() == flatten(old(self).model()),
    {
        let f = self.flattened();
        *self = f;
    }

    /// Whether two type names denote the same type.
    pub fn is_same_type(&self, other: &ASTNode) -> (r: bool)
        ensures
            r == same_type(self.model(), other.model()),
    {
        proof {
            lemma_model_children(*self);
            lemma_model_children(*other);
        }
        let a = if self.is("Name") && self.children.len() == 1 {
            &self.children[0]
        } else {
            self
        };
        let b = if other.is("Name") && other.children.len() == 1 {
            &other.children[0]
        } else {
            other
        };
        proof {
            lemma_model_children(*a);
            lemma_model_children(*b);
        }
        let a_leaf = a.children.len() == 0 && a.token.kind != TokenKind::Identifier && a.token.kind
            != TokenKind::NonTerminal;
        let b_leaf = b.children.len() == 0 && b.token.kind != TokenKind::Identifier && b.token.kind
            != TokenKind::NonTerminal;
        if a_leaf && b_leaf {
            return a.token.kind == b.token.kind;
        }
        a.equals(b)
    }
}

} // verus!

verus! {

/// An import declaration: the imported name, possibly ending in `*`.
#[derive(Debug)]
pub struct ASTNodeImport {
    pub import: ASTNode,
}

impl DeepView for ASTNodeImport {
    type V = NodeModel;

    open spec fn deep_view(&self) -> NodeModel {
        self.import.model()
    }
}

impl Clone for ASTNodeImport {
    fn clone(&self) -> (r: Self)
        ensures
            r.deep_view() == self.deep_view(),
    {
        ASTNodeImport { import: self.import.clone() }
    }
}

/// A package declaration.
#[derive(Debug)]
pub struct ASTNodePackage {
    pub package: ASTNode,
}

/// One compilation unit: its canonical type name, package, imports and the
/// declaration of its type.
#[derive(Debug)]
pub struct AST {
    pub canonical: ASTNode,
    pub package: ASTNodePackage,
    pub imports: Vec<ASTNodeImport>,
    pub root: Option<ASTNode>,
}

pub struct ASTModel {
    pub canonical: NodeModel,
    pub package: NodeModel,
    pub imports: Seq<NodeModel>,
    pub root: Option<NodeModel>,
}

impl DeepView for AST {
    type V = ASTModel;

    open spec fn deep_view(&self) -> ASTModel {
        ASTModel {
            canonical: self.canonical.model(),
            package: self.package.package.model(),
            imports: self.imports.deep_view(),
            root: self.root.deep_view(),
        }
    }
}

/// A copy of a list of imports.
pub fn clone_imports(v: &Vec<ASTNodeImport>) -> (r: Vec<ASTNodeImport>)
    ensures
        r.deep_view() == v.deep_view(),
{
    let r = v.clone();
    proof {
        assert forall|i: int| 0 <= i < v@.len() implies #[trigger] r@[i].deep_view()
            == v@[i].deep_view() by {
            assert(cloned::<ASTNodeImport>(v[i], r[i]));
        }
        assert(r.deep_view() =~= v.deep_view());
    }
    r
}

} // verus!

verus! {

/// No node of a spliced list is the non-terminal that was spliced.
pub proof fn lemma_flat_children_token(t: TokenModel, cs: Seq<NodeModel>)
    requires
        t.kind == TokenKind::NonTerminal,
    ensures
        forall|i: int| 0 <= i < flat_children(t, cs).len() ==> (#[trigger] flat_children(t, cs)[i]).token != t,
    decreases cs,
{
    if cs.len() > 0 {
        let rest = flat_children(t, cs.drop_last());
        lemma_flat_children_token(t, cs.drop_last());
        let c = cs.last();
        if c.token == t {
            let f = flat_children(t, c.children);
            lemma_flat_children_token(t, c.children);
            assert(flatten(c).children == f);
            assert(flat_children(t, cs) == rest + f);
            assert forall|i: int| 0 <= i < (rest + f).len() implies (#[trigger] (rest + f)[i]).token != t by {
                if i < rest.len() {
                    assert(rest[i].token != t);
                } else {
                    assert(f[i - rest.len()].token != t);
                }
            }
        } else {
            assert(flat_children(t, cs) == rest.push(c));
            assert forall|i: int| 0 <= i < rest.push(c).len() implies (#[trigger] rest.push(c)[i]).token != t by {
                if i < rest.len() {
                    assert(rest[i].token != t);
                }
            }
        }
    }
}

/// Splicing a list in which the non-terminal does not occur leaves it
/// unchanged.
pub proof fn lemma_flat_children_unchanged(t: TokenModel, cs: Seq<NodeModel>)
    requires
        forall|i: int| 0 <= i < cs.len() ==> (#[trigger] cs[i]).token != t,
    ensures
        flat_children(t, cs) == cs,
    decreases cs.len(),
{
    if cs.len() > 0 {
        assert forall|i: int| 0 <= i < cs.drop_last().len() implies (#[trigger] cs.drop_last()[i]).token != t by {
            assert(cs[i].token != t);
        }
        lemma_flat_children_unchanged(t, cs.drop_last());
        assert(cs[cs.len() - 1].token != t);
        assert(cs.drop_last().push(cs.last()) =~= cs);
    }
}

/// Flattening is idempotent: a flattened node has no nested repetition of
/// its rule left.
pub proof fn lemma_flatten_idempotent(n: NodeModel)
    ensures
        flatten(flatten(n)) == flatten(n),
{
    if n.token.kind == TokenKind::NonTerminal {
        lemma_flat_children_token(n.token, n.children);
        lemma_flat_children_unchanged(n.token, flat_children(n.token, n.children));
    }
}

/// A type name whose every sub-tree can be brought to its normal form: each
/// array type keeps an element type after flattening.
pub open spec fn type_ok(n: NodeModel) -> bool
    decreases n, 1int,
{
    kind_ok(n) && types_ok(n.children)
}

/// Every name of a list is well-formed.
pub open spec fn types_ok(cs: Seq<NodeModel>) -> bool
    decreases cs, 0int,
{
    cs.len() == 0 || (types_ok(cs.drop_last()) && type_ok(cs.last()))
}

/// `types_ok` holds exactly when every name of the list is well-formed.
pub proof fn lemma_types_ok(cs: Seq<NodeModel>)
    ensures
        types_ok(cs) <==> forall|i: int| 0 <= i < cs.len() ==> type_ok(#[trigger] cs[i]),
    decreases cs.len(),
{
    if cs.len() > 0 {
        lemma_types_ok(cs.drop_last());
        if forall|i: int| 0 <= i < cs.len() ==> type_ok(#[trigger] cs[i]) {
            assert forall|i: int| 0 <= i < cs.drop_last().len() implies type_ok(#[trigger] cs.drop_last()[i]) by {
                assert(type_ok(cs[i]));
            }
            assert(type_ok(cs[cs.len() - 1]));
        }
        if types_ok(cs) {
            assert forall|i: int| 0 <= i < cs.len() implies type_ok(#[trigger] cs[i]) by {
                if i < cs.len() - 1 {
                    assert(type_ok(cs.drop_last()[i]));
                }
            }
        }
    }
}

/// Every array type along the first children has an element type.
pub open spec fn arr_ok(n: NodeModel) -> bool
    decreases n,
{
    n.token.lexeme == Some("ArrayType"@) ==> (n.children.len() >= 1 && arr_ok(n.children[0]))
}

/// The nodes of a spliced list of well-formed names are well-formed.
pub proof fn lemma_flat_children_ok(t: TokenModel, cs: Seq<NodeModel>)
    requires
        types_ok(cs),
    ensures
        types_ok(flat_children(t, cs)),
    decreases cs,
{
    if cs.len() > 0 {
        let rest = flat_children(t, cs.drop_last());
        lemma_flat_children_ok(t, cs.drop_last());
        let c = cs.last();
        lemma_types_ok(rest);
        assert(type_ok(c));
        if c.token == t {
            assert(types_ok(c.children));
            let f = flatten(c).children;
            if t.kind == TokenKind::NonTerminal {
                assert(f == flat_children(t, c.children));
                lemma_flat_children_ok(t, c.children);
            } else {
                assert(f == c.children);
            }
            lemma_types_ok(f);
            assert(flat_children(t, cs) == rest + f);
            assert forall|i: int| 0 <= i < (rest + f).len() implies type_ok(#[trigger] (rest + f)[i]) by {
                if i < rest.len() {
                    assert(type_ok(rest[i]));
                } else {
                    assert(type_ok(f[i - rest.len()]));
                }
            }
            lemma_types_ok(rest + f);
        } else {
            assert(flat_children(t, cs) == rest.push(c));
            assert forall|i: int| 0 <= i < rest.push(c).len() implies type_ok(#[trigger] rest.push(c)[i]) by {
                if i < rest.len() {
                    assert(type_ok(rest[i]));
                }
            }
            lemma_types_ok(rest.push(c));
        }
    }
}

/// Flattening keeps a name well-formed.
pub proof fn lemma_type_ok_flatten(n: NodeModel)
    requires
        type_ok(n),
    ensures
        type_ok(flatten(n)),
{
    if n.token.kind == TokenKind::NonTerminal {
        lemma_flat_children_ok(n.token, n.children);
        lemma_flatten_idempotent(n);
        assert(kind_ok(flatten(n)));
    }
}

/// A well-formed name has an element type along every array type.
pub proof fn lemma_type_ok_arr_ok(n: NodeModel)
    requires
        type_ok(n),
    ensures
        arr_ok(n),
    decreases n,
{
    if n.token.lexeme == Some("ArrayType"@) {
        if n.children.len() == 0 {
            assert(flat_children(n.token, n.children) =~= Seq::<NodeModel>::empty());
        }
        assert(n.children.len() >= 1);
        lemma_types_ok(n.children);
        assert(type_ok(n.children[0]));
        lemma_type_ok_arr_ok(n.children[0]);
    }
}

} // verus!
