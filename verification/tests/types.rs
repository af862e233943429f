use juicyj::analysis::environment::classorinterface::ClassOrInterface;
use juicyj::analysis::environment::classorinterface::ClassOrInterfaceEnvironment;
use juicyj::analysis::environment::variable::VariableEnvironment;
use juicyj::analysis::environment::Environment;
use juicyj::analysis::types::obj::Type;
use juicyj::analysis::types::resolve::expression;
use juicyj::analysis::types::verify as verify_program;
use juicyj::analysis::types::verify::method::statement;
use juicyj::ast::ASTNode;
use juicyj::ast::ASTNodeImport;
use juicyj::ast::ASTNodePackage;
use juicyj::ast::AST;
use juicyj::tokens::Token;
use juicyj::tokens::TokenKind;

fn leaf(kind: TokenKind) -> ASTNode {
    ASTNode { token: Token::new(kind, None), children: Vec::new() }
}

fn lit(kind: TokenKind, text: &str) -> ASTNode {
    ASTNode { token: Token::new(kind, Some(text)), children: Vec::new() }
}

fn ident(s: &str) -> ASTNode {
    lit(TokenKind::Identifier, s)
}

fn rule(r: &str, children: Vec<ASTNode>) -> ASTNode {
    ASTNode { token: Token::new(TokenKind::NonTerminal, Some(r)), children }
}

fn op(kind: TokenKind, a: ASTNode, b: ASTNode) -> ASTNode {
    ASTNode { token: Token::new(kind, None), children: vec![a, b] }
}

fn name(parts: &[&str]) -> ASTNode {
    let mut children = Vec::new();
    for (i, p) in parts.iter().enumerate() {
        if i > 0 {
            children.push(leaf(TokenKind::Dot));
        }
        children.push(ident(p));
    }
    rule("Name", children)
}

fn num(n: &str) -> ASTNode {
    lit(TokenKind::NumValue, n)
}

fn class_env(n: ASTNode) -> ClassOrInterfaceEnvironment {
    ClassOrInterfaceEnvironment::new(n, ClassOrInterface::CLASS)
}

fn world() -> (ClassOrInterfaceEnvironment, Vec<ClassOrInterfaceEnvironment>) {
    let object = class_env(name(&["java", "lang", "Object"]));
    let string = class_env(name(&["java", "lang", "String"]));
    let a = class_env(name(&["pkg", "A"]));
    (a.clone(), vec![object, string, a])
}

fn local(kind: ASTNode, n: &str) -> VariableEnvironment {
    VariableEnvironment::new(rule("LocalVariableDeclaration", vec![kind, ident(n)]))
}

fn resolve(node: &mut ASTNode, globals: &mut Vec<VariableEnvironment>, depth: u32) -> Result<ClassOrInterfaceEnvironment, String> {
    let (current, kinds) = world();
    expression::go(node, &Vec::new(), &current, &kinds, globals, depth).map(|t| t.kind)
}

fn kind_of(node: ASTNode) -> Result<TokenKind, String> {
    let mut n = node;
    resolve(&mut n, &mut Vec::new(), 50).map(|c| c.name.token.kind)
}

#[test]
fn literals_have_primitive_types() {
    assert_eq!(kind_of(num("1")), Ok(TokenKind::Int));
    assert_eq!(kind_of(leaf(TokenKind::True)), Ok(TokenKind::Boolean));
    assert_eq!(kind_of(lit(TokenKind::CharValue, "c")), Ok(TokenKind::Char));
    assert_eq!(kind_of(leaf(TokenKind::Null)), Ok(TokenKind::Null));
    assert_eq!(kind_of(leaf(TokenKind::Semicolon)), Ok(TokenKind::Null));
}

#[test]
fn a_string_literal_is_a_java_lang_string() {
    let mut n = lit(TokenKind::StrValue, "s");
    let c = resolve(&mut n, &mut Vec::new(), 50).unwrap();
    assert!(c.name.equals(&name(&["java", "lang", "String"])));
}

#[test]
fn arithmetic_on_ints_is_an_int() {
    assert_eq!(kind_of(op(TokenKind::Star, num("2"), num("3"))), Ok(TokenKind::Int));
    assert_eq!(kind_of(op(TokenKind::Plus, lit(TokenKind::CharValue, "a"), lit(TokenKind::CharValue, "b"))), Ok(TokenKind::Int));
}

#[test]
fn adding_a_string_gives_a_string() {
    let mut n = op(TokenKind::Plus, num("1"), lit(TokenKind::StrValue, "s"));
    let c = resolve(&mut n, &mut Vec::new(), 50).unwrap();
    assert!(c.name.equals(&name(&["java", "lang", "String"])));
}

#[test]
fn arithmetic_on_booleans_is_refused() {
    assert!(kind_of(op(TokenKind::Minus, leaf(TokenKind::True), num("1"))).is_err());
}

#[test]
fn boolean_operators_need_booleans() {
    assert_eq!(kind_of(op(TokenKind::And, leaf(TokenKind::True), leaf(TokenKind::False))), Ok(TokenKind::Boolean));
    assert!(kind_of(op(TokenKind::Or, leaf(TokenKind::True), num("1"))).is_err());
    assert!(kind_of(op(TokenKind::BitAnd, num("1"), num("2"))).is_err());
}

#[test]
fn negation_needs_a_boolean() {
    let not = |x: ASTNode| ASTNode { token: Token::new(TokenKind::Not, None), children: vec![x] };
    assert_eq!(kind_of(not(leaf(TokenKind::False))), Ok(TokenKind::Boolean));
    assert!(kind_of(not(num("1"))).is_err());
}

#[test]
fn comparisons_are_booleans() {
    assert_eq!(kind_of(op(TokenKind::LessThan, num("1"), num("2"))), Ok(TokenKind::Boolean));
    assert_eq!(kind_of(op(TokenKind::Equality, lit(TokenKind::CharValue, "c"), num("2"))), Ok(TokenKind::Boolean));
}

#[test]
fn instanceof_on_a_primitive_is_refused() {
    assert!(kind_of(op(TokenKind::Instanceof, num("1"), leaf(TokenKind::Int))).is_err());
}

#[test]
fn this_is_the_current_class() {
    let mut n = leaf(TokenKind::This);
    let c = resolve(&mut n, &mut Vec::new(), 50).unwrap();
    assert!(c.name.equals(&name(&["pkg", "A"])));
}

#[test]
fn running_out_of_depth_is_an_error() {
    let mut n = op(TokenKind::Plus, num("1"), op(TokenKind::Plus, num("2"), num("3")));
    assert!(resolve(&mut n, &mut Vec::new(), 2).is_err());
    let mut m = op(TokenKind::Plus, num("1"), op(TokenKind::Plus, num("2"), num("3")));
    assert!(resolve(&mut m, &mut Vec::new(), 3).is_ok());
}

#[test]
fn a_variable_name_has_the_variable_type() {
    let mut globals = vec![local(leaf(TokenKind::Int), "x")];
    let mut n = name(&["x"]);
    let c = resolve(&mut n, &mut globals, 50).unwrap();
    assert_eq!(c.name.token.kind, TokenKind::Int);
}

#[test]
fn assignment_initializes_the_variable() {
    let mut globals = vec![local(leaf(TokenKind::Int), "x")];
    assert!(!globals[0].initialized);
    let mut n = rule("Assignment", vec![name(&["x"]), leaf(TokenKind::Assignment), num("1")]);
    let c = resolve(&mut n, &mut globals, 50).unwrap();
    assert_eq!(c.name.token.kind, TokenKind::Int);
    assert!(globals[0].initialized);
}

#[test]
fn reading_an_uninitialized_variable_is_refused() {
    let mut globals = vec![local(leaf(TokenKind::Int), "x"), local(leaf(TokenKind::Int), "y")];
    let mut n = rule("Assignment", vec![name(&["y"]), leaf(TokenKind::Assignment), name(&["x"])]);
    assert!(resolve(&mut n, &mut globals, 50).is_err());
    assert!(!globals[1].initialized);
}

#[test]
fn assigning_a_boolean_to_an_int_is_refused() {
    let mut globals = vec![local(leaf(TokenKind::Int), "x")];
    let mut n = rule("Assignment", vec![name(&["x"]), leaf(TokenKind::Assignment), leaf(TokenKind::True)]);
    assert!(resolve(&mut n, &mut globals, 50).is_err());
    assert!(globals[0].initialized);
}

#[test]
fn array_access_needs_an_array() {
    let mut globals = vec![local(leaf(TokenKind::Int), "x")];
    globals[0].initialized = true;
    let mut n = rule("ArrayAccess", vec![name(&["x"]), leaf(TokenKind::LBracket), num("0"), leaf(TokenKind::RBracket)]);
    assert!(resolve(&mut n, &mut globals, 50).is_err());
}

#[test]
fn an_array_of_ints_is_created_and_indexed() {
    let mut n = rule(
        "ArrayCreationExpression",
        vec![leaf(TokenKind::Int), rule("DimExpr", vec![leaf(TokenKind::LBracket), num("3"), leaf(TokenKind::RBracket)])],
    );
    let c = resolve(&mut n, &mut Vec::new(), 50).unwrap();
    assert!(c.name.is("ArrayType"));
    assert_eq!(c.fields.len(), 1);
    let mut bad = rule(
        "ArrayCreationExpression",
        vec![leaf(TokenKind::Int), rule("DimExpr", vec![leaf(TokenKind::LBracket), leaf(TokenKind::True), leaf(TokenKind::RBracket)])],
    );
    assert!(resolve(&mut bad, &mut Vec::new(), 50).is_err());
}

#[test]
fn casts_between_numbers_are_allowed() {
    let mut n = rule("CastExpression", vec![leaf(TokenKind::LParen), leaf(TokenKind::Short), leaf(TokenKind::RParen), num("1")]);
    let c = resolve(&mut n, &mut Vec::new(), 50).unwrap();
    assert_eq!(c.name.token.kind, TokenKind::Short);
    let mut b = rule("CastExpression", vec![leaf(TokenKind::LParen), leaf(TokenKind::Boolean), leaf(TokenKind::RParen), num("1")]);
    assert!(resolve(&mut b, &mut Vec::new(), 50).is_err());
}

fn block_of(statements: Vec<ASTNode>) -> ASTNode {
    rule("BlockStatements", statements)
}

fn check_block(node: &mut ASTNode, globals: &Vec<VariableEnvironment>) -> Result<Vec<TokenKind>, String> {
    let (current, kinds) = world();
    statement::block(node, &Vec::new(), &current, &kinds, globals, 50).map(|ts| ts.iter().map(|t| t.kind.name.token.kind).collect())
}

fn ret(e: ASTNode) -> ASTNode {
    rule("ReturnStatement", vec![leaf(TokenKind::Return), e, leaf(TokenKind::Semicolon)])
}

fn declare(kind: ASTNode, n: &str, value: Option<ASTNode>) -> ASTNode {
    let declarator = match value {
        Some(v) => ASTNode { token: Token::new(TokenKind::Assignment, None), children: vec![ident(n), v] },
        None => ident(n),
    };
    rule("LocalVariableDeclaration", vec![kind, declarator])
}

#[test]
fn a_block_returns_what_its_return_statements_return() {
    let mut b = block_of(vec![ret(num("1"))]);
    assert_eq!(check_block(&mut b, &Vec::new()), Ok(vec![TokenKind::Int]));
}

#[test]
fn a_block_without_return_yields_null() {
    let mut b = block_of(vec![op(TokenKind::Plus, num("1"), num("2"))]);
    assert_eq!(check_block(&mut b, &Vec::new()), Ok(vec![TokenKind::Null]));
}

#[test]
fn nested_statement_lists_are_flattened() {
    let mut b = block_of(vec![block_of(vec![ret(num("1"))]), ret(leaf(TokenKind::True))]);
    assert_eq!(check_block(&mut b, &Vec::new()), Ok(vec![TokenKind::Int, TokenKind::Boolean]));
    assert_eq!(b.children.len(), 2);
}

#[test]
fn a_declared_local_can_be_returned() {
    let mut b = block_of(vec![declare(leaf(TokenKind::Int), "x", Some(num("1"))), ret(name(&["x"]))]);
    assert_eq!(check_block(&mut b, &Vec::new()), Ok(vec![TokenKind::Int]));
}

#[test]
fn a_local_may_not_be_declared_twice() {
    let mut b = block_of(vec![declare(leaf(TokenKind::Int), "x", None), declare(leaf(TokenKind::Int), "x", None)]);
    assert!(check_block(&mut b, &Vec::new()).is_err());
    let globals = vec![local(leaf(TokenKind::Int), "y")];
    let mut c = block_of(vec![declare(leaf(TokenKind::Int), "y", None)]);
    assert!(check_block(&mut c, &globals).is_err());
}

#[test]
fn an_initializer_must_fit_the_declared_type() {
    let mut b = block_of(vec![declare(leaf(TokenKind::Boolean), "x", Some(num("1")))]);
    assert!(check_block(&mut b, &Vec::new()).is_err());
}

#[test]
fn conditions_must_be_booleans() {
    let body = rule("Block", vec![leaf(TokenKind::LBrace), leaf(TokenKind::RBrace)]);
    let stmt = |r: &str, cond: ASTNode| {
        rule(r, vec![leaf(TokenKind::If), leaf(TokenKind::LParen), cond, leaf(TokenKind::RParen), body.clone()])
    };
    let mut ok = block_of(vec![stmt("IfStatement", leaf(TokenKind::True))]);
    assert_eq!(check_block(&mut ok, &Vec::new()), Ok(vec![TokenKind::Null]));
    let mut bad = block_of(vec![stmt("IfStatement", num("1"))]);
    assert!(check_block(&mut bad, &Vec::new()).is_err());
    let mut w = block_of(vec![stmt("WhileStatement", op(TokenKind::LessThan, num("1"), num("2")))]);
    assert!(check_block(&mut w, &Vec::new()).is_ok());
}

fn unit(package: &[&str], simple: &str, root: ASTNode) -> AST {
    let mut canonical: Vec<&str> = package.to_vec();
    canonical.push(simple);
    let mut lang = name(&["java", "lang"]);
    lang.children.push(leaf(TokenKind::Dot));
    lang.children.push(leaf(TokenKind::Star));
    AST {
        canonical: name(&canonical),
        package: ASTNodePackage { package: name(package) },
        imports: vec![ASTNodeImport { import: lang }],
        root: Some(root),
    }
}

fn modifiers(kinds: &[TokenKind]) -> ASTNode {
    rule("Modifiers", kinds.iter().map(|k| leaf(*k)).collect())
}

fn class_decl(simple: &str, decls: Vec<ASTNode>) -> ASTNode {
    rule(
        "ClassDeclaration",
        vec![
            modifiers(&[TokenKind::Public]),
            leaf(TokenKind::Class),
            ident(simple),
            rule("ClassBody", vec![leaf(TokenKind::LBrace), rule("ClassBodyDeclarations", decls), leaf(TokenKind::RBrace)]),
        ],
    )
}

fn constructor(n: &str) -> ASTNode {
    rule(
        "ConstructorDeclaration",
        vec![
            modifiers(&[TokenKind::Public]),
            rule("MethodDeclarator", vec![ident(n), leaf(TokenKind::LParen), leaf(TokenKind::RParen)]),
            rule("Block", vec![leaf(TokenKind::LBrace), leaf(TokenKind::RBrace)]),
        ],
    )
}

fn method(ret_kind: ASTNode, n: &str, statements: Vec<ASTNode>) -> ASTNode {
    let header = rule(
        "MethodHeader",
        vec![modifiers(&[TokenKind::Public]), ret_kind, rule("MethodDeclarator", vec![ident(n), leaf(TokenKind::LParen), leaf(TokenKind::RParen)])],
    );
    let body = if statements.is_empty() {
        rule("Block", vec![leaf(TokenKind::LBrace), leaf(TokenKind::RBrace)])
    } else {
        rule("Block", vec![leaf(TokenKind::LBrace), block_of(statements), leaf(TokenKind::RBrace)])
    };
    rule("MethodDeclaration", vec![header, body])
}

fn program(decls: Vec<ASTNode>) -> Environment {
    let trees = vec![
        unit(&["java", "lang"], "Object", class_decl("Object", vec![constructor("Object")])),
        unit(&["pkg"], "A", class_decl("A", {
            let mut d = vec![constructor("A")];
            d.extend(decls);
            d
        })),
    ];
    Environment::new(&trees).unwrap()
}

#[test]
fn a_program_whose_methods_return_their_types_passes() {
    let mut env = program(vec![method(leaf(TokenKind::Int), "f", vec![ret(num("1"))])]);
    assert_eq!(verify_program(&mut env), Ok(()));
}

#[test]
fn a_method_returning_the_wrong_type_is_refused() {
    let mut env = program(vec![method(leaf(TokenKind::Int), "f", vec![ret(leaf(TokenKind::True))])]);
    assert!(verify_program(&mut env).is_err());
}

#[test]
fn a_non_void_method_must_return_something() {
    let mut env = program(vec![method(leaf(TokenKind::Int), "f", vec![])]);
    assert!(verify_program(&mut env).is_err());
    let mut ok = program(vec![method(leaf(TokenKind::Void), "g", vec![])]);
    assert_eq!(verify_program(&mut ok), Ok(()));
}

#[test]
fn resolving_only_marks_variables_initialized() {
    let mut globals = vec![local(leaf(TokenKind::Int), "x"), local(leaf(TokenKind::Boolean), "y")];
    let before: Vec<(bool, bool)> = globals.iter().map(|v| (v.dim, v.initialized)).collect();
    let mut n = rule("Assignment", vec![name(&["y"]), leaf(TokenKind::Assignment), leaf(TokenKind::True)]);
    assert!(resolve(&mut n, &mut globals, 50).is_ok());
    assert_eq!(globals.len(), 2);
    assert!(globals[0].name.equals(&name(&["x"])) && globals[1].name.equals(&name(&["y"])));
    assert_eq!(globals[0].kind.token.kind, TokenKind::Int);
    assert_eq!(globals[1].kind.token.kind, TokenKind::Boolean);
    assert_eq!(globals[0].initialized, before[0].1);
    assert!(globals[1].initialized);
}

#[test]
fn a_declaration_adds_a_local_after_the_others() {
    let (current, kinds) = world();
    let mut locals = vec![local(leaf(TokenKind::Int), "a")];
    let mut stmt = declare(leaf(TokenKind::Boolean), "b", Some(leaf(TokenKind::True)));
    let r = statement::nonblock(&mut stmt, &Vec::new(), &current, &kinds, &Vec::new(), &mut locals, 50);
    assert!(r.is_ok());
    assert_eq!(locals.len(), 2);
    assert!(locals[0].name.equals(&name(&["a"])));
    assert!(locals[1].name.equals(&name(&["b"])));
    let mut again = declare(leaf(TokenKind::Int), "a", None);
    assert!(statement::nonblock(&mut again, &Vec::new(), &current, &kinds, &Vec::new(), &mut locals, 50).is_err());
    assert_eq!(locals.len(), 2);
}

#[test]
fn a_type_can_be_assigned_to_itself_and_comparability_is_symmetric() {
    let (current, kinds) = world();
    let int = Type::new(class_env(leaf(TokenKind::Int)));
    let boolean = Type::new(class_env(leaf(TokenKind::Boolean)));
    let short = Type::new(class_env(leaf(TokenKind::Short)));
    assert!(int.assign(&int, &current, &kinds).is_ok());
    assert!(boolean.assign(&boolean, &current, &kinds).is_ok());
    assert!(int.assign(&short, &current, &kinds).is_ok());
    assert!(short.assign(&int, &current, &kinds).is_err());
    assert!(int.apply_comparison(&TokenKind::LessThan, &short, &current, &kinds).is_ok());
    assert!(short.apply_comparison(&TokenKind::LessThan, &int, &current, &kinds).is_ok());
    assert!(int.apply_comparison(&TokenKind::Equality, &boolean, &current, &kinds).is_err());
    assert!(boolean.apply_comparison(&TokenKind::Equality, &int, &current, &kinds).is_err());
    assert!(int.eq(&int) && !int.eq(&short));
}

#[test]
fn flattening_twice_is_flattening_once() {
    let mut n = rule("Name", vec![rule("Name", vec![ident("a"), leaf(TokenKind::Dot), ident("b")]), leaf(TokenKind::Dot), ident("c")]);
    n.flatten();
    let once = n.clone();
    n.flatten();
    assert!(n.equals(&once));
    assert!(once.equals(&name(&["a", "b", "c"])));
}

#[test]
fn checking_members_keeps_the_types_and_their_members() {
    for decls in [
        vec![method(leaf(TokenKind::Int), "f", vec![ret(num("1"))])],
        vec![method(leaf(TokenKind::Int), "f", vec![ret(leaf(TokenKind::True))])],
    ] {
        let mut env = program(decls);
        let before: Vec<(ASTNode, usize, usize, usize)> = env
            .kinds
            .iter()
            .map(|k| (k.name.clone(), k.constructors.len(), k.fields.len(), k.methods.len()))
            .collect();
        let _ = verify_program(&mut env);
        assert_eq!(env.kinds.len(), before.len());
        for (k, (n, c, f, m)) in env.kinds.iter().zip(before.iter()) {
            assert!(k.name.equals(n));
            assert_eq!((k.constructors.len(), k.fields.len(), k.methods.len()), (*c, *f, *m));
        }
    }
}

#[test]
fn refusals_name_their_cause() {
    let mut n = op(TokenKind::BitAnd, num("1"), num("2"));
    assert_eq!(resolve(&mut n, &mut Vec::new(), 50).unwrap_err(), "bitwise operations are not allowed");
    let mut n = op(TokenKind::BitOr, leaf(TokenKind::True), num("2"));
    assert_eq!(resolve(&mut n, &mut Vec::new(), 50).unwrap_err(), "bitwise operations are not allowed");
    let (current, kinds) = world();
    let statics = vec![leaf(TokenKind::Static)];
    let this_call = rule(
        "MethodInvocation",
        vec![rule("Name", vec![leaf(TokenKind::This), leaf(TokenKind::Dot), ident("m")]), leaf(TokenKind::LParen), leaf(TokenKind::RParen)],
    );
    let mut n = this_call.clone();
    let r = expression::go(&mut n, &statics, &current, &kinds, &mut Vec::new(), 50);
    assert_eq!(r.unwrap_err(), "can not use 'this' in static method");
    let mut n = this_call;
    assert_ne!(
        expression::go(&mut n, &Vec::new(), &current, &kinds, &mut Vec::new(), 50).err(),
        Some("can not use 'this' in static method".to_string())
    );
}

#[test]
fn the_hierarchy_check_records_the_chain_and_refuses_cycles() {
    let (current, kinds) = world();
    let env = Environment { kinds };
    let mut visited = vec![name(&["java", "lang", "Object"])];
    assert!(juicyj::analysis::types::inheritance::verify(&env, &current, &mut visited).is_ok());
    assert_eq!(visited.len(), 2);
    assert!(visited[1].equals(&name(&["pkg", "A"])));
    let r = juicyj::analysis::types::inheritance::verify(&env, &current, &mut visited);
    assert_eq!(r.unwrap_err(), "cyclic class hierarchy detected");
    assert_eq!(visited.len(), 2);
}

#[test]
fn a_type_that_extends_itself_through_another_is_refused() {
    let object = class_env(name(&["java", "lang", "Object"]));
    let mut a = class_env(name(&["pkg", "A"]));
    let mut b = class_env(name(&["pkg", "B"]));
    a.extends.push(name(&["pkg", "B"]));
    b.extends.push(name(&["pkg", "A"]));
    let env = Environment { kinds: vec![object, a.clone(), b] };
    let r = juicyj::analysis::types::inheritance::verify(&env, &a, &mut Vec::new());
    assert_eq!(r.unwrap_err(), "cyclic class hierarchy detected");
}

#[test]
fn clashing_single_type_imports_are_refused() {
    let d1 = class_env(name(&["c", "D"]));
    let d2 = class_env(name(&["e", "D"]));
    let mut a = class_env(name(&["pkg", "A"]));
    a.imports.push(ASTNodeImport { import: name(&["c", "D"]) });
    a.imports.push(ASTNodeImport { import: name(&["e", "D"]) });
    let kinds = vec![d1, d2, a.clone()];
    let r = juicyj::analysis::types::lookup::class::in_env(&ident("D"), &a, &kinds);
    assert_eq!(r.unwrap_err(), "single-type-import declarations clash");
    let mut b = class_env(name(&["pkg", "B"]));
    b.imports.push(ASTNodeImport { import: name(&["c", "D"]) });
    b.imports.push(ASTNodeImport { import: name(&["c", "D"]) });
    let kinds = vec![class_env(name(&["c", "D"])), b.clone()];
    assert!(juicyj::analysis::types::lookup::class::in_env(&ident("D"), &b, &kinds).is_ok());
}

#[test]
fn constant_conditions_are_booleans_and_are_folded() {
    let body = rule("Block", vec![leaf(TokenKind::LBrace), leaf(TokenKind::RBrace)]);
    let stmt = |r: &str, cond: ASTNode| {
        rule(r, vec![leaf(TokenKind::If), leaf(TokenKind::LParen), cond, leaf(TokenKind::RParen), body.clone()])
    };
    let is_a = || op(TokenKind::Instanceof, leaf(TokenKind::This), name(&["pkg", "A"]));
    let is_string = || op(TokenKind::Instanceof, leaf(TokenKind::This), name(&["java", "lang", "String"]));
    let mut n = is_a();
    let t = resolve(&mut n, &mut Vec::new(), 50).unwrap();
    assert_eq!(t.name.token.kind, TokenKind::Boolean);
    assert_eq!(t.name.token.lexeme.as_deref(), Some("true"));
    let mut n = op(TokenKind::BitAnd, is_a(), is_string());
    let t = resolve(&mut n, &mut Vec::new(), 50).unwrap();
    assert_eq!(t.name.token.lexeme.as_deref(), Some("true"));
    let mut n = op(TokenKind::And, is_a(), is_string());
    assert_eq!(resolve(&mut n, &mut Vec::new(), 50).unwrap().name.token.lexeme.as_deref(), Some("false"));
    let mut accepted = block_of(vec![stmt("IfStatement", is_a())]);
    assert_eq!(check_block(&mut accepted, &Vec::new()), Ok(vec![TokenKind::Null]));
    let mut never = block_of(vec![stmt("WhileStatement", is_string())]);
    assert_eq!(check_block(&mut never, &Vec::new()).unwrap_err(), "while statement condition is false");
}
