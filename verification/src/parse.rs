//! Building the abstract syntax tree of a compilation unit from its parse
//! tree: the package, the imports, and the type declaration with its
//! expressions brought to their abstract form.
use vstd::prelude::*;

use crate::ast::{ident_model, leaf_model, lemma_model_children, models, rule_model, ASTNode, NodeModel};
use crate::error::{ASTError, ErrorMessage};
use crate::text::{message, node_text, token_text};
use crate::tokens::{Token, TokenKind, TokenModel};

verus! {

broadcast use vstd::seq::axiom_seq_index_decreases, vstd::seq::axiom_seq_subrange_decreases;

/// A node of the parse tree that the parser hands over: a token (a
/// non-terminal carries the name of its rule as lexeme) and the nodes it was
/// reduced from.
pub struct ParseNode {
    pub token: Token,
    pub children: Vec<ParseNode>,
}

impl ParseNode {
    /// The tree as a mathematical value.
    pub open spec fn model(&self) -> NodeModel
        decreases self,
    {
        NodeModel {
            token: self.token.model(),
            children: Seq::new(
                self.children@.len(),
                |i: int|
                    if 0 <= i < self.children@.len() {
                        self.children@[i].model()
                    } else {
                        NodeModel { token: self.token.model(), children: Seq::empty() }
                    },
            ),
        }
    }
}

/// The models of a sequence of parse nodes.
pub open spec fn parse_models(v: Seq<ParseNode>) -> Seq<NodeModel> {
    Seq::new(v.len(), |i: int| v[i].model())
}

pub proof fn lemma_parse_children(n: ParseNode)
    ensures
        n.model().children == parse_models(n.children@),
        n.model().token == n.token.model(),
{
    assert(n.model().children =~= parse_models(n.children@));
}

/// An error of this stage: its message and the text of the node at fault.
pub open spec fn fault(e: ASTError) -> (ErrorMessage, Seq<char>) {
    (e.message, e.node@)
}

/// `s` ends with `suffix`.
pub open spec fn ends_with(s: Seq<char>, suffix: Seq<char>) -> bool {
    s.len() >= suffix.len() && s.subrange(s.len() - suffix.len(), s.len() as int) == suffix
}

/// What follows an optional leading `+`.
pub open spec fn after_plus(s: Seq<char>) -> Seq<char> {
    if s.len() > 0 && s[0] == '+' {
        s.skip(1)
    } else {
        s
    }
}

/// Every character is a decimal digit.
pub open spec fn all_digits(ds: Seq<char>) -> bool {
    forall|i: int| 0 <= i < ds.len() ==> crate::numbers::is_digit(#[trigger] ds[i])
}

/// The `u64` that `s` denotes as `str::parse::<u64>` reads it: an optional
/// `+`, then at least one decimal digit and nothing else, at most
/// `u64::MAX`; otherwise none.
pub open spec fn parse_u64(s: Seq<char>) -> Option<int> {
    let ds = after_plus(s);
    if ds.len() == 0 || !all_digits(ds) || crate::numbers::digits_value(ds) > u64::MAX {
        None
    } else {
        Some(crate::numbers::digits_value(ds))
    }
}

/// An integer literal beyond the range of `int`: it reads as a `u64` larger
/// than 2^31 - 1 (one that does not read as a `u64` counts as 0).
pub open spec fn int_out_of_bounds(s: Seq<char>) -> bool {
    parse_u64(s) matches Some(v) && v > 2147483647
}

/// A node, among `n` and all below it, of the rule `PrimaryNoNewArray` that
/// does not have exactly one child.
pub open spec fn bad_primary(n: NodeModel) -> bool
    decreases n, 1int,
{
    (n.token.lexeme == Some("PrimaryNoNewArray"@) && n.children.len() != 1) || any_bad_primary(n.children)
}

/// `bad_primary` for some tree of a list.
pub open spec fn any_bad_primary(cs: Seq<NodeModel>) -> bool
    decreases cs, 0int,
{
    cs.len() > 0 && (any_bad_primary(cs.drop_last()) || bad_primary(cs.last()))
}

/// The literal `0` that a unary minus is applied to.
pub open spec fn zero_model() -> NodeModel {
    NodeModel { token: TokenModel { kind: TokenKind::NumValue, lexeme: Some("0"@) }, children: Seq::empty() }
}

/// The abstract form of a parse tree: chains of single-child rules are
/// collapsed, a binary expression becomes its operator over its two
/// operands, `return e;` its `return` over `e`, `-e` a subtraction from 0,
/// parentheses and trailing semicolons drop away, and other nodes keep their
/// token over their children's abstract forms. A cast whose type is an
/// expression must name a type, and an integer literal must be within the
/// range of `int`.
pub open spec fn parse_types_model(n: NodeModel) -> Result<NodeModel, (ErrorMessage, Seq<char>)>
    decreases n, 1int,
{
    let len = n.children.len();
    let l = n.token.lexeme;
    if n.token.kind != TokenKind::NonTerminal {
        Ok(NodeModel { token: n.token, children: Seq::empty() })
    } else if l == Some("CastExpression"@) && len == 4 {
        match parse_all(n.children) {
            Err(e) => Err(e),
            Ok(cs) => if n.children[1].token.lexeme == Some("Expression"@) && (cs[1].token.kind
                != TokenKind::Identifier || bad_primary(n.children[1])) {
                Err((ErrorMessage::InvalidCast, node_text(cs[1])))
            } else {
                Ok(NodeModel { token: n.token, children: cs })
            },
        }
    } else if len == 3 && (l matches Some(s) && (ends_with(s, "Expression"@) || s == "VariableDeclarator"@)) {
        match parse_types_model(n.children[0]) {
            Err(e) => Err(e),
            Ok(a) => match parse_types_model(n.children[2]) {
                Err(e) => Err(e),
                Ok(b) => Ok(NodeModel { token: n.children[1].token, children: seq![a, b] }),
            },
        }
    } else if len == 3 && l == Some("ReturnStatement"@) {
        match parse_types_model(n.children[1]) {
            Err(e) => Err(e),
            Ok(a) => Ok(NodeModel { token: n.children[0].token, children: seq![a] }),
        }
    } else if len == 3 && l == Some("PrimaryNoNewArray"@) {
        parse_types_model(n.children[1])
    } else if len == 2 && l == Some("UnaryExpression"@) {
        match parse_types_model(n.children[1]) {
            Err(e) => Err(e),
            Ok(a) => Ok(NodeModel { token: n.children[0].token, children: seq![zero_model(), a] }),
        }
    } else if len == 2 && l is Some && n.children[1].token.kind == TokenKind::Semicolon {
        parse_types_model(n.children[0])
    } else if len == 1 && l == Some("MultiplicativeExpression"@) {
        match parse_types_model(n.children[0]) {
            Err(e) => Err(e),
            Ok(a) => if a.token.kind == TokenKind::NumValue && (a.token.lexeme matches Some(v) && int_out_of_bounds(v)) {
                Err((ErrorMessage::IntOOB, node_text(a)))
            } else {
                Ok(a)
            },
        }
    } else if len == 1 && l is Some {
        parse_types_model(n.children[0])
    } else {
        match parse_all(n.children) {
            Err(e) => Err(e),
            Ok(cs) => Ok(NodeModel { token: n.token, children: cs }),
        }
    }
}

/// The abstract forms of a list of trees, in order; the first error stops.
pub open spec fn parse_all(cs: Seq<NodeModel>) -> Result<Seq<NodeModel>, (ErrorMessage, Seq<char>)>
    decreases cs, 0int,
{
    if cs.len() == 0 {
        Ok(Seq::empty())
    } else {
        match parse_all(cs.drop_last()) {
            Err(e) => Err(e),
            Ok(ps) => match parse_types_model(cs.last()) {
                Err(e) => Err(e),
                Ok(p) => Ok(ps.push(p)),
            },
        }
    }
}

/// Whether `s` ends with `suffix`.
fn text_ends_with(s: &str, suffix: &str) -> (r: bool)
    ensures
        r == ends_with(s@, suffix@),
{
    let n = s.unicode_len();
    let m = suffix.unicode_len();
    if n < m {
        return false;
    }
    let ghost tail = s@.subrange(n - m, n as int);
    let mut j: usize = 0;
    while j < m
        invariant
            m <= n,
            n == s@.len(),
            m == suffix@.len(),
            tail == s@.subrange(n - m, n as int),
            j <= m,
            forall|k: int| 0 <= k < j ==> tail[k] == suffix@[k],
        decreases m - j,
    {
        if s.get_char(n - m + j) != suffix.get_char(j) {
            proof {
                assert(tail[j as int] != suffix@[j as int]);
            }
            return false;
        }
        j = j + 1;
    }
    proof {
        assert(tail =~= suffix@);
    }
    true
}

/// Whether an integer literal is beyond the range of `int`.
fn literal_out_of_bounds(text: &str) -> (r: bool)
    ensures
        r == int_out_of_bounds(text@),
{
    let n = text.unicode_len();
    let ghost s = text@;
    let mut start: usize = 0;
    if n > 0 && text.get_char(0) == '+' {
        start = 1;
    }
    let ghost ds = after_plus(s);
    proof {
        assert(ds =~= s.skip(start as int));
    }
    if start >= n {
        return false;
    }
    let mut acc: u128 = 0;
    let mut i: usize = start;
    proof {
        assert(ds.take(0) =~= Seq::<char>::empty());
    }
    while i < n
        invariant
            start <= i <= n,
            n == s.len(),
            s == text@,
            ds == s.skip(start as int),
            ds == after_plus(s),
            0 <= acc <= u64::MAX,
            acc == crate::numbers::digits_value(ds.take(i - start)),
            forall|j: int| 0 <= j < i - start ==> crate::numbers::is_digit(#[trigger] ds[j]),
        decreases n - i,
    {
        let c = text.get_char(i);
        proof {
            assert(ds[i - start] == c);
        }
        if !('0' <= c && c <= '9') {
            proof {
                assert(!crate::numbers::is_digit(ds[i - start]));
                assert(parse_u64(s) is None);
            }
            return false;
        }
        let d: u128 = (c as u32 - '0' as u32) as u128;
        proof {
            assert(ds.take(i - start + 1).drop_last() =~= ds.take(i - start));
            assert(ds.take(i - start + 1).last() == c);
            assert(d == crate::numbers::digit_value(c));
        }
        acc = acc * 10 + d;
        proof {
            assert(acc == crate::numbers::digits_value(ds.take(i - start + 1)));
            assert(crate::numbers::is_digit(ds[i - start]));
        }
        if acc > 18446744073709551615 {
            proof {
                assert forall|j: int| 0 <= j < i - start + 1 implies crate::numbers::is_digit(
                    #[trigger] ds.take(i - start + 1)[j],
                ) by {
                    if j < i - start {
                        assert(crate::numbers::is_digit(ds[j]));
                    }
                }
                if all_digits(ds) {
                    crate::numbers::lemma_digits_value_grows(ds, i - start + 1);
                }
                assert(parse_u64(s) is None);
            }
            return false;
        }
        i = i + 1;
    }
    proof {
        assert(ds.take(n - start) =~= ds);
        assert(all_digits(ds));
    }
    acc > 2147483647
}

proof fn lemma_any_bad_prefix(cs: Seq<NodeModel>, k: int)
    requires
        0 <= k <= cs.len(),
        any_bad_primary(cs.take(k)),
    ensures
        any_bad_primary(cs),
    decreases cs.len(),
{
    if k == cs.len() {
        assert(cs.take(k) =~= cs);
    } else {
        assert(cs.drop_last().take(k) =~= cs.take(k));
        lemma_any_bad_prefix(cs.drop_last(), k);
    }
}

/// Whether a rule `PrimaryNoNewArray` without exactly one child is `n` or
/// below it.
fn has_bad_primary(n: &ParseNode) -> (r: bool)
    ensures
        r == bad_primary(n.model()),
    decreases n,
{
    proof {
        lemma_parse_children(*n);
    }
    if crate::tokens::lexeme_is(&n.token.lexeme, "PrimaryNoNewArray") && n.children.len() != 1 {
        return true;
    }
    let ghost cs = n.model().children;
    let mut i: usize = 0;
    proof {
        assert(cs.take(0) =~= Seq::<NodeModel>::empty());
    }
    while i < n.children.len()
        invariant
            i <= n.children@.len(),
            cs == n.model().children,
            cs == parse_models(n.children@),
            !any_bad_primary(cs.take(i as int)),
        decreases n.children@.len() - i,
    {
        proof {
            assert(cs.take(i + 1).drop_last() =~= cs.take(i as int));
            assert(cs.take(i + 1).last() == n.children@[i as int].model());
        }
        if has_bad_primary(&n.children[i]) {
            proof {
                lemma_any_bad_prefix(cs, i + 1);
            }
            return true;
        }
        i = i + 1;
    }
    proof {
        assert(cs.take(n.children@.len() as int) =~= cs);
    }
    false
}

/// The result of building an abstract tree, by its model.
pub open spec fn node_result(r: Result<ASTNode, ASTError>) -> Result<NodeModel, (ErrorMessage, Seq<char>)> {
    match r {
        Ok(a) => Ok(a.model()),
        Err(e) => Err(fault(e)),
    }
}

/// An error about the tree `n`.
fn fault_at(m: ErrorMessage, n: &ASTNode) -> (e: ASTError)
    ensures
        fault(e) == (m, node_text(n.model())),
{
    let mut t = String::new();
    crate::text::push_text(&mut t, n);
    proof {
        assert(t@ =~= node_text(n.model()));
    }
    ASTError { message: m, node: t }
}

/// A failure on a prefix of a list is the failure on the list.
proof fn lemma_parse_all_prefix(cs: Seq<NodeModel>, k: int)
    requires
        0 <= k <= cs.len(),
        parse_all(cs.take(k)) is Err,
    ensures
        parse_all(cs) == parse_all(cs.take(k)),
    decreases cs.len(),
{
    if k == cs.len() {
        assert(cs.take(k) =~= cs);
    } else {
        assert(cs.drop_last().take(k) =~= cs.take(k));
        lemma_parse_all_prefix(cs.drop_last(), k);
    }
}

/// The abstract forms of the children of `node`, in order.
fn parse_children(node: &ParseNode) -> (r: Result<Vec<ASTNode>, ASTError>)
    ensures
        match r {
            Ok(v) => parse_all(node.model().children) == Ok::<Seq<NodeModel>, (ErrorMessage, Seq<char>)>(models(v@)),
            Err(e) => parse_all(node.model().children) == Err::<Seq<NodeModel>, (ErrorMessage, Seq<char>)>(fault(e)),
        },
        r matches Ok(v) ==> v@.len() == node.children@.len(),
    decreases node, 0int,
{
    proof {
        lemma_parse_children(*node);
    }
    let ghost cs = node.model().children;
    let mut out: Vec<ASTNode> = Vec::new();
    let mut i: usize = 0;
    proof {
        assert(cs.take(0) =~= Seq::<NodeModel>::empty());
        assert(models(out@) =~= Seq::<NodeModel>::empty());
    }
    while i < node.children.len()
        invariant
            i <= node.children@.len(),
            cs == node.model().children,
            cs == parse_models(node.children@),
            parse_all(cs.take(i as int)) == Ok::<Seq<NodeModel>, (ErrorMessage, Seq<char>)>(models(out@)),
            out@.len() == i,
        decreases node.children@.len() - i,
    {
        proof {
            assert(cs.take(i + 1).drop_last() =~= cs.take(i as int));
            assert(cs.take(i + 1).last() == node.children@[i as int].model());
        }
        match parse_types(&node.children[i]) {
            Err(e) => {
                proof {
                    lemma_parse_all_prefix(cs, i + 1);
                }
                return Err(e);
            },
            Ok(a) => {
                let ghost before = out@;
                out.push(a);
                proof {
                    assert(models(out@) =~= models(before).push(a.model()));
                }
            },
        }
        i = i + 1;
    }
    proof {
        assert(cs.take(node.children@.len() as int) =~= cs);
    }
    Ok(out)
}

/// A node with the given token over the given trees.
fn node_over(token: Token, children: Vec<ASTNode>) -> (r: ASTNode)
    ensures
        r.model() == (NodeModel { token: token.model(), children: models(children@) }),
{
    let r = ASTNode { token, children };
    proof {
        lemma_model_children(r);
    }
    r
}

/// Builds the abstract form of a parse tree (see `parse_types_model`): a
/// cast whose type is an expression must name a type (`InvalidCast`), and an
/// integer literal must be within the range of `int` (`IntOOB`).
pub fn parse_types(node: &ParseNode) -> (r: Result<ASTNode, ASTError>)
    ensures
        node_result(r) == parse_types_model(node.model()),
    decreases node, 1int,
{
    proof {
        lemma_parse_children(*node);
    }
    let len = node.children.len();
    if node.token.kind != TokenKind::NonTerminal {
        let none: Vec<ASTNode> = Vec::new();
        proof {
            assert(models(none@) =~= Seq::<NodeModel>::empty());
        }
        return Ok(node_over(node.token.clone(), none));
    }
    if crate::tokens::lexeme_is(&node.token.lexeme, "CastExpression") && len == 4 {
        let cs = match parse_children(node) {
            Err(e) => return Err(e),
            Ok(cs) => cs,
        };
        proof {
            assert(models(cs@)[1] == cs@[1].model());
            assert(node.model().children[1] == node.children@[1].model());
        }
        if crate::tokens::lexeme_is(&node.children[1].token.lexeme, "Expression") && (cs[1].token.kind
            != TokenKind::Identifier || has_bad_primary(&node.children[1])) {
            return Err(fault_at(ErrorMessage::InvalidCast, &cs[1]));
        }
        return Ok(node_over(node.token.clone(), cs));
    }
    let binary = len == 3 && match &node.token.lexeme {
        Some(l) => text_ends_with(l.as_str(), "Expression") || crate::tokens::lexeme_is(
            &node.token.lexeme,
            "VariableDeclarator",
        ),
        None => false,
    };
    if binary {
        let a = match parse_types(&node.children[0]) {
            Err(e) => return Err(e),
            Ok(a) => a,
        };
        let b = match parse_types(&node.children[2]) {
            Err(e) => return Err(e),
            Ok(b) => b,
        };
        let v = vec![a, b];
        proof {
            assert(models(v@) =~= seq![a.model(), b.model()]);
        }
        return Ok(node_over(node.children[1].token.clone(), v));
    }
    if len == 3 && crate::tokens::lexeme_is(&node.token.lexeme, "ReturnStatement") {
        let a = match parse_types(&node.children[1]) {
            Err(e) => return Err(e),
            Ok(a) => a,
        };
        let v = vec![a];
        proof {
            assert(models(v@) =~= seq![a.model()]);
        }
        return Ok(node_over(node.children[0].token.clone(), v));
    }
    if len == 3 && crate::tokens::lexeme_is(&node.token.lexeme, "PrimaryNoNewArray") {
        return parse_types(&node.children[1]);
    }
    if len == 2 && crate::tokens::lexeme_is(&node.token.lexeme, "UnaryExpression") {
        let a = match parse_types(&node.children[1]) {
            Err(e) => return Err(e),
            Ok(a) => a,
        };
        let none: Vec<ASTNode> = Vec::new();
        proof {
            assert(models(none@) =~= Seq::<NodeModel>::empty());
        }
        let zero = node_over(Token::new(TokenKind::NumValue, Some("0")), none);
        let v = vec![zero, a];
        proof {
            assert(zero.model() == zero_model());
            assert(models(v@) =~= seq![zero_model(), a.model()]);
        }
        return Ok(node_over(node.children[0].token.clone(), v));
    }
    if len == 2 && node.token.lexeme.is_some() && node.children[1].token.kind == TokenKind::Semicolon {
        return parse_types(&node.children[0]);
    }
    if len == 1 && crate::tokens::lexeme_is(&node.token.lexeme, "MultiplicativeExpression") {
        let a = match parse_types(&node.children[0]) {
            Err(e) => return Err(e),
            Ok(a) => a,
        };
        let too_large = a.token.kind == TokenKind::NumValue && match &a.token.lexeme {
            Some(v) => literal_out_of_bounds(v.as_str()),
            None => false,
        };
        if too_large {
            return Err(fault_at(ErrorMessage::IntOOB, &a));
        }
        return Ok(a);
    }
    if len == 1 && node.token.lexeme.is_some() {
        return parse_types(&node.children[0]);
    }
    let cs = match parse_children(node) {
        Err(e) => return Err(e),
        Ok(cs) => cs,
    };
    Ok(node_over(node.token.clone(), cs))
}

/// A token collected for a name: an identifier, or also `*` for an import.
pub open spec fn wanted(k: TokenKind, star: bool) -> bool {
    k == TokenKind::Identifier || (star && k == TokenKind::Star)
}

/// The wanted tokens of `n` and all below it, in order (a node before the
/// nodes below it).
pub open spec fn collect_names(n: NodeModel, star: bool) -> Seq<TokenModel>
    decreases n, 1int,
{
    (if wanted(n.token.kind, star) {
        seq![n.token]
    } else {
        Seq::empty()
    }) + collect_all_names(n.children, star)
}

/// `collect_names` over a list of trees, in order.
pub open spec fn collect_all_names(cs: Seq<NodeModel>, star: bool) -> Seq<TokenModel>
    decreases cs, 0int,
{
    if cs.len() == 0 {
        Seq::empty()
    } else {
        collect_all_names(cs.drop_last(), star) + collect_names(cs.last(), star)
    }
}

/// A childless node of the token `t`.
pub open spec fn token_leaf(t: TokenModel) -> NodeModel {
    NodeModel { token: t, children: Seq::empty() }
}

/// The tokens as the parts of a name, with a `.` between each two.
pub open spec fn dotted(ts: Seq<TokenModel>) -> Seq<NodeModel>
    decreases ts.len(),
{
    if ts.len() == 0 {
        Seq::empty()
    } else if ts.len() == 1 {
        seq![token_leaf(ts[0])]
    } else {
        dotted(ts.drop_last()).push(leaf_model(TokenKind::Dot)).push(token_leaf(ts.last()))
    }
}

/// The `Name` made of the tokens.
pub open spec fn name_of(ts: Seq<TokenModel>) -> NodeModel {
    rule_model("Name"@, dotted(ts))
}

/// The package that a declaration `package Name ;` names; another shape is
/// not a valid child of the root.
pub open spec fn package_model(n: NodeModel) -> Result<NodeModel, (ErrorMessage, Seq<char>)> {
    if n.children.len() == 3 && n.children[0].token.kind == TokenKind::Package && n.children[2].token.kind
        == TokenKind::Semicolon {
        Ok(name_of(collect_names(n.children[1], false)))
    } else {
        Err((ErrorMessage::InvalidRootChild, token_text(n.token)))
    }
}

/// The names that import declarations import, `*` included.
pub open spec fn imports_model(n: NodeModel) -> Seq<NodeModel> {
    Seq::new(n.children.len(), |i: int| name_of(collect_names(n.children[i], true)))
}

/// The package of a compilation unit that declares none.
pub open spec fn unnamed_package() -> NodeModel {
    rule_model("Name"@, seq![ident_model("juicyj_unnamed"@)])
}

/// The canonical name of the declared type: the package, a `.`, and the
/// type's simple name (the third child of its declaration); the package
/// where no type is declared.
pub open spec fn canonical_of(package: NodeModel, root: Option<NodeModel>) -> NodeModel {
    if root matches Some(r) && r.children.len() >= 3 {
        rule_model("Name"@, package.children.push(leaf_model(TokenKind::Dot)).push(root->Some_0.children[2]))
    } else {
        package
    }
}

/// The root's children from the `i`th on: a package declaration, import
/// declarations and type declarations (a later one of a kind replaces an
/// earlier one); anything else is an error.
pub open spec fn parts_from(
    cs: Seq<NodeModel>,
    i: int,
    pkg: Option<NodeModel>,
    imps: Option<Seq<NodeModel>>,
    root: Option<NodeModel>,
) -> Result<(Option<NodeModel>, Option<Seq<NodeModel>>, Option<NodeModel>), (ErrorMessage, Seq<char>)>
    decreases cs.len() - i,
{
    if i < 0 || i >= cs.len() {
        Ok((pkg, imps, root))
    } else {
        let c = cs[i];
        if c.token.lexeme == Some("PackageDeclaration"@) {
            match package_model(c) {
                Ok(p) => parts_from(cs, i + 1, Some(p), imps, root),
                Err(e) => Err(e),
            }
        } else if c.token.lexeme == Some("ImportDeclarations"@) {
            parts_from(cs, i + 1, pkg, Some(imports_model(c)), root)
        } else if c.token.lexeme == Some("TypeDeclarations"@) {
            match parse_types_model(c) {
                Ok(r) => parts_from(cs, i + 1, pkg, imps, Some(r)),
                Err(e) => Err(e),
            }
        } else {
            Err((ErrorMessage::InvalidRootChild, token_text(c.token)))
        }
    }
}

/// The compilation unit that a parse tree holds.
pub open spec fn ast_model(tree: NodeModel) -> Result<crate::ast::ASTModel, (ErrorMessage, Seq<char>)> {
    match parts_from(tree.children, 0, None, None, None) {
        Err(e) => Err(e),
        Ok((p, im, r)) => {
            let package = match p {
                Some(p) => p,
                None => unnamed_package(),
            };
            Ok(
                crate::ast::ASTModel {
                    canonical: canonical_of(package, r),
                    package,
                    imports: match im {
                        Some(im) => im,
                        None => Seq::empty(),
                    },
                    root: r,
                },
            )
        },
    }
}

/// The models of a sequence of tokens.
pub open spec fn token_models(v: Seq<Token>) -> Seq<TokenModel> {
    Seq::new(v.len(), |i: int| v[i].model())
}

/// Appends the wanted tokens of `n` and all below it to `out`.
fn collect_names_into(n: &ParseNode, star: bool, out: &mut Vec<Token>)
    ensures
        token_models(final(out)@) == token_models(old(out)@) + collect_names(n.model(), star),
    decreases n,
{
    proof {
        lemma_parse_children(*n);
    }
    let ghost start = token_models(out@);
    if n.token.kind == TokenKind::Identifier || (star && n.token.kind == TokenKind::Star) {
        out.push(n.token.clone());
        proof {
            assert(token_models(out@) =~= start + seq![n.token.model()]);
        }
    } else {
        proof {
            assert(token_models(out@) =~= start + Seq::<TokenModel>::empty());
        }
    }
    let ghost head = token_models(out@);
    let ghost cs = n.model().children;
    let mut i: usize = 0;
    proof {
        assert(cs.take(0) =~= Seq::<NodeModel>::empty());
        assert(head + collect_all_names(cs.take(0), star) =~= head);
    }
    while i < n.children.len()
        invariant
            i <= n.children@.len(),
            cs == n.model().children,
            cs == parse_models(n.children@),
            token_models(out@) == head + collect_all_names(cs.take(i as int), star),
        decreases n.children@.len() - i,
    {
        proof {
            assert(cs.take(i + 1).drop_last() =~= cs.take(i as int));
            assert(cs.take(i + 1).last() == n.children@[i as int].model());
        }
        let ghost before = token_models(out@);
        collect_names_into(&n.children[i], star, out);
        proof {
            assert(head + collect_all_names(cs.take(i + 1), star) =~= before + collect_names(
                n.children@[i as int].model(),
                star,
            ));
        }
        i = i + 1;
    }
    proof {
        assert(cs.take(n.children@.len() as int) =~= cs);
    }
}

/// The `Name` made of the tokens.
fn name_node(ts: &Vec<Token>) -> (r: ASTNode)
    ensures
        r.model() == name_of(token_models(ts@)),
{
    let ghost tms = token_models(ts@);
    let mut parts: Vec<ASTNode> = Vec::new();
    let mut i: usize = 0;
    proof {
        assert(tms.take(0) =~= Seq::<TokenModel>::empty());
        assert(models(parts@) =~= Seq::<NodeModel>::empty());
    }
    while i < ts.len()
        invariant
            i <= ts@.len(),
            tms == token_models(ts@),
            models(parts@) == dotted(tms.take(i as int)),
        decreases ts@.len() - i,
    {
        let none: Vec<ASTNode> = Vec::new();
        proof {
            assert(models(none@) =~= Seq::<NodeModel>::empty());
            assert(tms.take(i + 1).drop_last() =~= tms.take(i as int));
            assert(tms.take(i + 1).last() == ts@[i as int].model());
        }
        let ghost before = parts@;
        if i > 0 {
            let dot = ASTNode::leaf(TokenKind::Dot);
            parts.push(dot);
        }
        let leaf = node_over(ts[i].clone(), none);
        parts.push(leaf);
        proof {
            if i > 0 {
                assert(models(parts@) =~= models(before).push(leaf_model(TokenKind::Dot)).push(
                    token_leaf(ts@[i as int].model()),
                ));
            } else {
                assert(models(parts@) =~= seq![token_leaf(ts@[0].model())]);
            }
        }
        i = i + 1;
    }
    proof {
        assert(tms.take(ts@.len() as int) =~= tms);
    }
    node_over(Token::new(TokenKind::NonTerminal, Some("Name")), parts)
}

/// An error about the token of a node of the parse tree.
fn token_fault(m: ErrorMessage, t: &Token) -> (e: ASTError)
    ensures
        fault(e) == (m, token_text(t.model())),
{
    let none: Vec<ASTNode> = Vec::new();
    proof {
        assert(models(none@) =~= Seq::<NodeModel>::empty());
    }
    let leaf = node_over(t.clone(), none);
    fault_at(m, &leaf)
}

/// The package that a package declaration names.
fn package_node(n: &ParseNode) -> (r: Result<ASTNode, ASTError>)
    ensures
        node_result(r) == package_model(n.model()),
{
    proof {
        lemma_parse_children(*n);
    }
    if n.children.len() == 3 && n.children[0].token.kind == TokenKind::Package && n.children[2].token.kind
        == TokenKind::Semicolon {
        let mut ts: Vec<Token> = Vec::new();
        proof {
            assert(token_models(ts@) =~= Seq::<TokenModel>::empty());
        }
        collect_names_into(&n.children[1], false, &mut ts);
        proof {
            assert(token_models(ts@) =~= collect_names(n.model().children[1], false));
        }
        Ok(name_node(&ts))
    } else {
        Err(token_fault(ErrorMessage::InvalidRootChild, &n.token))
    }
}

/// The names that import declarations import.
fn import_nodes(n: &ParseNode) -> (r: Vec<crate::ast::ASTNodeImport>)
    ensures
        r.deep_view() == imports_model(n.model()),
{
    proof {
        lemma_parse_children(*n);
    }
    let mut out: Vec<crate::ast::ASTNodeImport> = Vec::new();
    let mut i: usize = 0;
    while i < n.children.len()
        invariant
            i <= n.children@.len(),
            n.model().children == parse_models(n.children@),
            out@.len() == i,
            forall|j: int| 0 <= j < i ==> (#[trigger] out@[j]).import.model() == name_of(
                collect_names(n.model().children[j], true),
            ),
        decreases n.children@.len() - i,
    {
        let mut ts: Vec<Token> = Vec::new();
        proof {
            assert(token_models(ts@) =~= Seq::<TokenModel>::empty());
        }
        collect_names_into(&n.children[i], true, &mut ts);
        proof {
            assert(token_models(ts@) =~= collect_names(n.model().children[i as int], true));
        }
        let name = name_node(&ts);
        out.push(crate::ast::ASTNodeImport { import: name });
        i = i + 1;
    }
    proof {
        assert(out.deep_view() =~= imports_model(n.model()));
    }
    out
}

impl crate::ast::AST {
    /// Builds a compilation unit from its parse tree (see `ast_model`).
    pub fn new(tree: &ParseNode) -> (r: Result<crate::ast::AST, ASTError>)
        ensures
            match r {
                Ok(a) => ast_model(tree.model()) == Ok::<crate::ast::ASTModel, (ErrorMessage, Seq<char>)>(a.deep_view()),
                Err(e) => ast_model(tree.model()) == Err::<crate::ast::ASTModel, (ErrorMessage, Seq<char>)>(fault(e)),
            },
    {
        proof {
            lemma_parse_children(*tree);
        }
        let ghost cs = tree.model().children;
        let mut pkg: Option<ASTNode> = None;
        let mut imps: Option<Vec<crate::ast::ASTNodeImport>> = None;
        let mut root: Option<ASTNode> = None;
        let mut i: usize = 0;
        while i < tree.children.len()
            invariant
                i <= tree.children@.len(),
                cs == tree.model().children,
                cs == parse_models(tree.children@),
                parts_from(cs, 0, None, None, None) == parts_from(
                    cs,
                    i as int,
                    pkg.deep_view(),
                    imps.deep_view(),
                    root.deep_view(),
                ),
            decreases tree.children@.len() - i,
        {
            let c = &tree.children[i];
            proof {
                assert(cs[i as int] == c.model());
            }
            if crate::tokens::lexeme_is(&c.token.lexeme, "PackageDeclaration") {
                match package_node(c) {
                    Ok(p) => {
                        pkg = Some(p);
                    },
                    Err(e) => return Err(e),
                }
            } else if crate::tokens::lexeme_is(&c.token.lexeme, "ImportDeclarations") {
                imps = Some(import_nodes(c));
            } else if crate::tokens::lexeme_is(&c.token.lexeme, "TypeDeclarations") {
                match parse_types(c) {
                    Ok(t) => {
                        root = Some(t);
                    },
                    Err(e) => return Err(e),
                }
            } else {
                return Err(token_fault(ErrorMessage::InvalidRootChild, &c.token));
            }
            i = i + 1;
        }
        let package = match pkg {
            Some(p) => p,
            None => {
                let mut v: Vec<ASTNode> = Vec::new();
                v.push(ASTNode::ident("juicyj_unnamed"));
                proof {
                    assert(models(v@) =~= seq![ident_model("juicyj_unnamed"@)]);
                }
                node_over(Token::new(TokenKind::NonTerminal, Some("Name")), v)
            },
        };
        let imports = match imps {
            Some(im) => im,
            None => {
                let v: Vec<crate::ast::ASTNodeImport> = Vec::new();
                proof {
                    assert(v.deep_view() =~= Seq::<NodeModel>::empty());
                }
                v
            },
        };
        proof {
            lemma_model_children(package);
        }
        let canonical = match &root {
            Some(r) if r.children.len() >= 3 => {
                let mut parts = crate::ast::clone_nodes(&package.children);
                parts.push(ASTNode::leaf(TokenKind::Dot));
                parts.push(r.children[2].clone());
                proof {
                    crate::ast::lemma_vec_models(package.children);
                    crate::ast::lemma_vec_models(parts);
                    lemma_model_children(*r);
                    assert(models(parts@) =~= package.model().children.push(leaf_model(TokenKind::Dot)).push(
                        r.model().children[2],
                    ));
                }
                node_over(Token::new(TokenKind::NonTerminal, Some("Name")), parts)
            },
            _ => package.clone(),
        };
        Ok(crate::ast::AST { canonical, package: crate::ast::ASTNodePackage { package }, imports, root })
    }
}

} // verus!
