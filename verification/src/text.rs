//! Rendering of tokens and trees as text, for messages.
use vstd::prelude::*;

use crate::ast::{lemma_model_children, ASTNode, NodeModel};
use crate::tokens::{TokenKind, TokenModel};

verus! {

broadcast use vstd::seq::axiom_seq_index_decreases, vstd::seq::axiom_seq_subrange_decreases;

/// How a token kind is written in source text.
pub open spec fn kind_text(k: TokenKind) -> Seq<char> {
    match k {
        TokenKind::Assignment => "="@,
        TokenKind::Equality => "=="@,
        TokenKind::GreaterThan => ">"@,
        TokenKind::GreaterThanOrEqual => ">="@,
        TokenKind::LessThan => "<"@,
        TokenKind::LessThanOrEqual => "<="@,
        TokenKind::Not => "!"@,
        TokenKind::NotEqual => "!="@,
        TokenKind::LBrace => "{"@,
        TokenKind::RBrace => "}"@,
        TokenKind::LBracket => "["@,
        TokenKind::RBracket => "]"@,
        TokenKind::LParen => "("@,
        TokenKind::RParen => ")"@,
        TokenKind::Dot => "."@,
        TokenKind::FSlash => "/"@,
        TokenKind::Minus => "-"@,
        TokenKind::Percent => "%"@,
        TokenKind::Plus => "+"@,
        TokenKind::Star => "*"@,
        TokenKind::And => "&&"@,
        TokenKind::Or => "||"@,
        TokenKind::BitAnd => "&"@,
        TokenKind::BitOr => "|"@,
        TokenKind::BitXor => "^"@,
        TokenKind::Import => "import"@,
        TokenKind::Package => "package"@,
        TokenKind::Private => "private"@,
        TokenKind::Protected => "protected"@,
        TokenKind::Public => "public"@,
        TokenKind::Abstract => "abstract"@,
        TokenKind::Extends => "extends"@,
        TokenKind::Implements => "implements"@,
        TokenKind::Interface => "interface"@,
        TokenKind::Final => "final"@,
        TokenKind::Native => "native"@,
        TokenKind::Static => "static"@,
        TokenKind::Boolean => "boolean"@,
        TokenKind::Byte => "byte"@,
        TokenKind::Char => "char"@,
        TokenKind::Int => "int"@,
        TokenKind::Short => "short"@,
        TokenKind::Str => "String"@,
        TokenKind::Void => "void"@,
        TokenKind::False => "false"@,
        TokenKind::True => "true"@,
        TokenKind::Null => "null"@,
        TokenKind::Class => "class"@,
        TokenKind::Delete => "delete"@,
        TokenKind::Instanceof => "instanceof"@,
        TokenKind::New => "new"@,
        TokenKind::Object => "Object"@,
        TokenKind::This => "this"@,
        TokenKind::Else => "else"@,
        TokenKind::For => "for"@,
        TokenKind::If => "if"@,
        TokenKind::Return => "return"@,
        TokenKind::While => "while"@,
        TokenKind::Identifier => "<identifier>"@,
        TokenKind::CharValue => "<char>"@,
        TokenKind::NumValue => "<number>"@,
        TokenKind::StrValue => "<string>"@,
        TokenKind::Comma => ","@,
        TokenKind::Semicolon => ";"@,
        TokenKind::NonTerminal => "<rule>"@,
    }
}

/// How a token kind is written in source text.
pub fn kind_str(k: TokenKind) -> (r: &'static str)
    ensures
        r@ == kind_text(k),
{
    match k {
        TokenKind::Assignment => "=",
        TokenKind::Equality => "==",
        TokenKind::GreaterThan => ">",
        TokenKind::GreaterThanOrEqual => ">=",
        TokenKind::LessThan => "<",
        TokenKind::LessThanOrEqual => "<=",
        TokenKind::Not => "!",
        TokenKind::NotEqual => "!=",
        TokenKind::LBrace => "{",
        TokenKind::RBrace => "}",
        TokenKind::LBracket => "[",
        TokenKind::RBracket => "]",
        TokenKind::LParen => "(",
        TokenKind::RParen => ")",
        TokenKind::Dot => ".",
        TokenKind::FSlash => "/",
        TokenKind::Minus => "-",
        TokenKind::Percent => "%",
        TokenKind::Plus => "+",
        TokenKind::Star => "*",
        TokenKind::And => "&&",
        TokenKind::Or => "||",
        TokenKind::BitAnd => "&",
        TokenKind::BitOr => "|",
        TokenKind::BitXor => "^",
        TokenKind::Import => "import",
        TokenKind::Package => "package",
        TokenKind::Private => "private",
        TokenKind::Protected => "protected",
        TokenKind::Public => "public",
        TokenKind::Abstract => "abstract",
        TokenKind::Extends => "extends",
        TokenKind::Implements => "implements",
        TokenKind::Interface => "interface",
        TokenKind::Final => "final",
        TokenKind::Native => "native",
        TokenKind::Static => "static",
        TokenKind::Boolean => "boolean",
        TokenKind::Byte => "byte",
        TokenKind::Char => "char",
        TokenKind::Int => "int",
        TokenKind::Short => "short",
        TokenKind::Str => "String",
        TokenKind::Void => "void",
        TokenKind::False => "false",
        TokenKind::True => "true",
        TokenKind::Null => "null",
        TokenKind::Class => "class",
        TokenKind::Delete => "delete",
        TokenKind::Instanceof => "instanceof",
        TokenKind::New => "new",
        TokenKind::Object => "Object",
        TokenKind::This => "this",
        TokenKind::Else => "else",
        TokenKind::For => "for",
        TokenKind::If => "if",
        TokenKind::Return => "return",
        TokenKind::While => "while",
        TokenKind::Identifier => "<identifier>",
        TokenKind::CharValue => "<char>",
        TokenKind::NumValue => "<number>",
        TokenKind::StrValue => "<string>",
        TokenKind::Comma => ",",
        TokenKind::Semicolon => ";",
        TokenKind::NonTerminal => "<rule>",
    }
}

/// The text of a token: its lexeme, or else how its kind is written.
pub open spec fn token_text(t: TokenModel) -> Seq<char> {
    match t.lexeme {
        Some(l) => l,
        None => kind_text(t.kind),
    }
}

/// The text of a sequence of trees, each followed by `sep`.
pub open spec fn texts(cs: Seq<NodeModel>, sep: Seq<char>) -> Seq<char>
    decreases cs,
{
    if cs.len() == 0 {
        Seq::empty()
    } else {
        texts(cs.drop_last(), sep) + node_text(cs.last()) + sep
    }
}

/// The text of a tree: a leaf is its token; a `Name` is its parts run
/// together; any other node is its children, each followed by a space.
pub open spec fn node_text(n: NodeModel) -> Seq<char>
    decreases n,
{
    if n.children.len() == 0 {
        token_text(n.token)
    } else if n.token.lexeme == Some("Name"@) {
        texts(n.children, Seq::empty())
    } else {
        texts(n.children, " "@)
    }
}

/// Appends the text of `n` to `out`.
pub fn push_text(out: &mut String, n: &ASTNode)
    ensures
        final(out)@ == old(out)@ + node_text(n.model()),
    decreases n,
{
    proof {
        lemma_model_children(*n);
    }
    if n.children.len() == 0 {
        match &n.token.lexeme {
            Some(l) => out.append(l.as_str()),
            None => out.append(kind_str(n.token.kind)),
        }
        return;
    }
    let is_name = crate::tokens::lexeme_is(&n.token.lexeme, "Name");
    let ghost sep: Seq<char> = if is_name { Seq::empty() } else { " "@ };
    let ghost start = out@;
    let ghost cs = n.model().children;
    let mut i: usize = 0;
    while i < n.children.len()
        invariant
            i <= n.children@.len(),
            cs == crate::ast::models(n.children@),
            sep == (if is_name { Seq::<char>::empty() } else { " "@ }),
            out@ == start + texts(cs.subrange(0, i as int), sep),
        decreases n.children@.len() - i,
    {
        proof {
            assert(cs.subrange(0, i + 1).drop_last() =~= cs.subrange(0, i as int));
            assert(cs.subrange(0, i + 1).last() == n.children@[i as int].model());
        }
        push_text(out, &n.children[i]);
        if !is_name {
            out.append(" ");
        }
        proof {
            if is_name {
                assert(out@ =~= start + texts(cs.subrange(0, i + 1), sep));
            } else {
                assert(out@ =~= start + texts(cs.subrange(0, i + 1), sep));
            }
        }
        i = i + 1;
    }
    proof {
        assert(cs.subrange(0, n.children@.len() as int) =~= cs);
    }
}

/// A message: `prefix` followed by the text of `n`.
pub fn message(prefix: &str, n: &ASTNode) -> (r: String)
    ensures
        r@ == prefix@ + node_text(n.model()),
{
    let mut s = String::from_str(prefix);
    push_text(&mut s, n);
    s
}

/// A message about two trees: `a`, the text of `n`, `b`, the text of `m`.
pub fn message2(a: &str, n: &ASTNode, b: &str, m: &ASTNode) -> (r: String)
    ensures
        r@ == a@ + node_text(n.model()) + b@ + node_text(m.model()),
{
    let mut s = String::from_str(a);
    push_text(&mut s, n);
    s.append(b);
    push_text(&mut s, m);
    s
}

/// A message with a tree inside: `a`, the text of `n`, then `b`.
pub fn message_around(a: &str, n: &ASTNode, b: &str) -> (r: String)
    ensures
        r@ == a@ + node_text(n.model()) + b@,
{
    let mut s = String::from_str(a);
    push_text(&mut s, n);
    s.append(b);
    s
}

/// A message without a tree.
pub fn note(text: &str) -> (r: String)
    ensures
        r@ == text@,
{
    String::from_str(text)
}

} // verus!
