use juicyj::ast::ASTNode;
use juicyj::ast::AST;
use juicyj::error::ErrorMessage;
use juicyj::parse::parse_types;
use juicyj::parse::ParseNode;
use juicyj::tokens::Token;
use juicyj::tokens::TokenKind;

fn tok(kind: TokenKind, lexeme: Option<&str>) -> ParseNode {
    ParseNode { token: Token::new(kind, lexeme), children: Vec::new() }
}

fn rule(r: &str, children: Vec<ParseNode>) -> ParseNode {
    ParseNode { token: Token::new(TokenKind::NonTerminal, Some(r)), children }
}

fn num(n: &str) -> ParseNode {
    tok(TokenKind::NumValue, Some(n))
}

fn ident(s: &str) -> ParseNode {
    tok(TokenKind::Identifier, Some(s))
}

fn ast_ident(s: &str) -> ASTNode {
    ASTNode { token: Token::new(TokenKind::Identifier, Some(s)), children: Vec::new() }
}

fn ast_name(parts: &[&str]) -> ASTNode {
    let mut children = Vec::new();
    for (i, p) in parts.iter().enumerate() {
        if i > 0 {
            children.push(ASTNode { token: Token::new(TokenKind::Dot, None), children: Vec::new() });
        }
        children.push(ast_ident(p));
    }
    ASTNode { token: Token::new(TokenKind::NonTerminal, Some("Name")), children }
}

fn parse_name(parts: &[&str]) -> ParseNode {
    let mut children = Vec::new();
    for (i, p) in parts.iter().enumerate() {
        if i > 0 {
            children.push(tok(TokenKind::Dot, None));
        }
        children.push(ident(p));
    }
    rule("Name", children)
}

#[test]
fn binary_and_unary_expressions_take_their_operator() {
    let sum = rule("AdditiveExpression", vec![num("1"), tok(TokenKind::Plus, None), num("2")]);
    let a = parse_types(&sum).unwrap();
    assert_eq!(a.token.kind, TokenKind::Plus);
    assert_eq!(a.children.len(), 2);
    assert_eq!(a.children[1].token.lexeme.as_deref(), Some("2"));
    let neg = rule("UnaryExpression", vec![tok(TokenKind::Minus, None), num("5")]);
    let a = parse_types(&neg).unwrap();
    assert_eq!(a.token.kind, TokenKind::Minus);
    assert_eq!(a.children[0].token.lexeme.as_deref(), Some("0"));
    assert_eq!(a.children[1].token.lexeme.as_deref(), Some("5"));
    let paren = rule("PrimaryNoNewArray", vec![tok(TokenKind::LParen, None), num("3"), tok(TokenKind::RParen, None)]);
    assert_eq!(parse_types(&paren).unwrap().token.lexeme.as_deref(), Some("3"));
    let ret = rule("ReturnStatement", vec![tok(TokenKind::Return, None), num("4"), tok(TokenKind::Semicolon, None)]);
    let a = parse_types(&ret).unwrap();
    assert_eq!(a.token.kind, TokenKind::Return);
    assert_eq!(a.children.len(), 1);
}

#[test]
fn integers_must_be_within_the_range_of_int() {
    let ok = rule("MultiplicativeExpression", vec![num("2147483647")]);
    assert!(parse_types(&ok).is_ok());
    let big = rule("MultiplicativeExpression", vec![num("2147483648")]);
    let e = parse_types(&big).unwrap_err();
    assert!(matches!(e.message, ErrorMessage::IntOOB));
    assert_eq!(e.node, "2147483648");
}

#[test]
fn a_cast_to_an_expression_must_name_a_type() {
    let bad = rule(
        "CastExpression",
        vec![tok(TokenKind::LParen, None), rule("Expression", vec![num("1")]), tok(TokenKind::RParen, None), ident("x")],
    );
    assert!(matches!(parse_types(&bad).unwrap_err().message, ErrorMessage::InvalidCast));
    let good = rule(
        "CastExpression",
        vec![tok(TokenKind::LParen, None), rule("Expression", vec![ident("A")]), tok(TokenKind::RParen, None), ident("x")],
    );
    assert_eq!(parse_types(&good).unwrap().children.len(), 4);
}

#[test]
fn a_compilation_unit_is_built_from_its_parse_tree() {
    let tree = rule(
        "CompilationUnit",
        vec![
            rule("PackageDeclaration", vec![tok(TokenKind::Package, None), parse_name(&["a", "b"]), tok(TokenKind::Semicolon, None)]),
            rule(
                "ImportDeclarations",
                vec![rule("SingleTypeImportDeclaration", vec![tok(TokenKind::Import, None), parse_name(&["c", "D"]), tok(TokenKind::Semicolon, None)])],
            ),
            rule(
                "TypeDeclarations",
                vec![rule(
                    "ClassDeclaration",
                    vec![
                        rule("Modifiers", vec![tok(TokenKind::Public, None), tok(TokenKind::Final, None)]),
                        tok(TokenKind::Class, None),
                        ident("A"),
                        rule("ClassBody", vec![tok(TokenKind::LBrace, None), tok(TokenKind::RBrace, None)]),
                    ],
                )],
            ),
        ],
    );
    let ast = AST::new(&tree).unwrap();
    assert!(ast.package.package.equals(&ast_name(&["a", "b"])));
    assert!(ast.canonical.equals(&ast_name(&["a", "b", "A"])));
    assert_eq!(ast.imports.len(), 1);
    assert!(ast.imports[0].import.equals(&ast_name(&["c", "D"])));
    let root = ast.root.unwrap();
    assert!(root.token.lexeme.as_deref() == Some("ClassDeclaration"));
    assert_eq!(root.children.len(), 4);

    let unnamed = rule("CompilationUnit", vec![rule("TypeDeclarations", vec![rule("InterfaceDeclaration", vec![rule("Modifiers", vec![tok(TokenKind::Public, None), tok(TokenKind::Abstract, None)]), tok(TokenKind::Interface, None), ident("I"), rule("InterfaceBody", vec![tok(TokenKind::LBrace, None), tok(TokenKind::RBrace, None)])])])]);
    let ast = AST::new(&unnamed).unwrap();
    assert!(ast.canonical.equals(&ast_name(&["juicyj_unnamed", "I"])));
    assert!(ast.imports.is_empty());

    let wrong = rule("CompilationUnit", vec![rule("Whatever", vec![])]);
    assert!(matches!(AST::new(&wrong).unwrap_err().message, ErrorMessage::InvalidRootChild));
}
