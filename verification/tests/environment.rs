use juicyj::analysis::environment::shape::trees_well_formed;
use juicyj::analysis::environment::field::FieldEnvironment;
use juicyj::analysis::environment::classorinterface::ClassOrInterface;
use juicyj::analysis::environment::classorinterface::ClassOrInterfaceEnvironment;
use juicyj::analysis::environment::method::MethodEnvironment;
use juicyj::analysis::environment::variable::VariableEnvironment;
use juicyj::analysis::environment::Environment;
use juicyj::ast::ASTNode;
use juicyj::ast::ASTNodeImport;
use juicyj::ast::ASTNodePackage;
use juicyj::ast::AST;
use juicyj::tokens::Token;
use juicyj::tokens::TokenKind;

fn leaf(kind: TokenKind) -> ASTNode {
    ASTNode { token: Token::new(kind, None), children: Vec::new() }
}

fn ident(s: &str) -> ASTNode {
    ASTNode { token: Token::new(TokenKind::Identifier, Some(s)), children: Vec::new() }
}

fn rule(r: &str, children: Vec<ASTNode>) -> ASTNode {
    ASTNode { token: Token::new(TokenKind::NonTerminal, Some(r)), children }
}

fn name(parts: &[&str]) -> ASTNode {
    let mut children = Vec::new();
    for (i, p) in parts.iter().enumerate() {
        if i > 0 {
            children.push(leaf(TokenKind::Dot));
        }
        if *p == "*" {
            children.push(leaf(TokenKind::Star));
        } else {
            children.push(ident(p));
        }
    }
    rule("Name", children)
}

fn modifiers(kinds: &[TokenKind]) -> ASTNode {
    rule("Modifiers", kinds.iter().map(|k| leaf(*k)).collect())
}

fn class_decl(simple: &str, mods: &[TokenKind], parts: Vec<ASTNode>) -> ASTNode {
    let mut children = vec![modifiers(mods), leaf(TokenKind::Class), ident(simple)];
    children.extend(parts);
    rule("ClassDeclaration", children)
}

fn interface_decl(simple: &str, parts: Vec<ASTNode>) -> ASTNode {
    let mut children = vec![modifiers(&[TokenKind::Public]), leaf(TokenKind::Interface), ident(simple)];
    children.extend(parts);
    rule("InterfaceDeclaration", children)
}

fn body(rule_name: &str, decls: Vec<ASTNode>) -> ASTNode {
    rule(rule_name, vec![leaf(TokenKind::LBrace), rule("ClassBodyDeclarations", decls), leaf(TokenKind::RBrace)])
}

fn interface_body(decls: Vec<ASTNode>) -> ASTNode {
    rule(
        "InterfaceBody",
        vec![leaf(TokenKind::LBrace), rule("InterfaceMemberDeclarations", decls), leaf(TokenKind::RBrace)],
    )
}

fn param(kind: ASTNode, n: &str) -> ASTNode {
    rule("FormalParameter", vec![kind, ident(n)])
}

fn declarator(n: &str, params: Vec<ASTNode>) -> ASTNode {
    if params.is_empty() {
        rule("MethodDeclarator", vec![ident(n), leaf(TokenKind::LParen), leaf(TokenKind::RParen)])
    } else {
        let mut list = Vec::new();
        for (i, p) in params.into_iter().enumerate() {
            if i > 0 {
                list.push(leaf(TokenKind::Comma));
            }
            list.push(p);
        }
        rule(
            "MethodDeclarator",
            vec![ident(n), leaf(TokenKind::LParen), rule("ParameterList", list), leaf(TokenKind::RParen)],
        )
    }
}

fn method(mods: &[TokenKind], ret: ASTNode, n: &str, params: Vec<ASTNode>) -> ASTNode {
    let header = rule("MethodHeader", vec![modifiers(mods), ret, declarator(n, params)]);
    rule("MethodDeclaration", vec![header, rule("Block", vec![leaf(TokenKind::LBrace), leaf(TokenKind::RBrace)])])
}

fn abstract_method(mods: &[TokenKind], ret: ASTNode, n: &str) -> ASTNode {
    let header = rule("MethodHeader", vec![modifiers(mods), ret, declarator(n, Vec::new())]);
    rule("AbstractMethodDeclaration", vec![header, leaf(TokenKind::Semicolon)])
}

fn field(mods: &[TokenKind], kind: ASTNode, n: &str) -> ASTNode {
    rule("FieldDeclaration", vec![modifiers(mods), kind, ident(n), leaf(TokenKind::Semicolon)])
}

fn constructor(n: &str, params: Vec<ASTNode>) -> ASTNode {
    rule(
        "ConstructorDeclaration",
        vec![modifiers(&[TokenKind::Public]), declarator(n, params), rule("Block", vec![leaf(TokenKind::LBrace), leaf(TokenKind::RBrace)])],
    )
}

fn unit(package: &[&str], simple: &str, imports: Vec<ASTNode>, root: Option<ASTNode>) -> AST {
    let mut canonical: Vec<&str> = package.to_vec();
    canonical.push(simple);
    AST {
        canonical: name(&canonical),
        package: ASTNodePackage { package: name(package) },
        imports: imports.into_iter().map(|i| ASTNodeImport { import: i }).collect(),
        root,
    }
}

fn object_unit() -> AST {
    unit(&["java", "lang"], "Object", Vec::new(), Some(class_decl("Object", &[TokenKind::Public], vec![body("ClassBody", vec![constructor("Object", Vec::new())])])))
}

#[test]
fn single_class_extends_object_by_default() {
    let trees = vec![
        object_unit(),
        unit(&["pkg"], "A", Vec::new(), Some(class_decl("A", &[TokenKind::Public], vec![body("ClassBody", vec![])]))),
    ];
    let env = Environment::new(&trees).unwrap();
    assert_eq!(env.kinds.len(), 2);
    assert!(env.kinds[0].extends.is_empty());
    assert_eq!(env.kinds[1].extends.len(), 1);
    assert!(env.kinds[1].extends[0].equals(&ident("Object")));
    assert!(env.kinds[1].name.equals(&name(&["pkg", "A"])));
    assert_eq!(env.kinds[1].kind, ClassOrInterface::CLASS);
    assert_eq!(env.kinds[1].modifiers.len(), 1);
}

#[test]
fn units_without_root_are_skipped() {
    let trees = vec![unit(&["pkg"], "A", Vec::new(), None)];
    let env = Environment::new(&trees).unwrap();
    assert!(env.kinds.is_empty());
}

#[test]
fn duplicate_type_names_are_refused() {
    let trees = vec![
        unit(&["pkg"], "A", Vec::new(), Some(class_decl("A", &[], vec![]))),
        unit(&["pkg"], "A", Vec::new(), Some(class_decl("A", &[], vec![]))),
    ];
    assert_eq!(Environment::new(&trees).unwrap_err(), "class/interface names must be unique");
}

#[test]
fn imports_must_resolve() {
    let missing = vec![unit(&["pkg"], "A", vec![name(&["other", "B"])], Some(class_decl("A", &[], vec![])))];
    assert!(Environment::new(&missing).is_err());
    let star = vec![
        unit(&["pkg"], "A", vec![name(&["other", "*"])], Some(class_decl("A", &[], vec![]))),
        unit(&["other"], "B", Vec::new(), Some(class_decl("B", &[], vec![]))),
    ];
    assert!(Environment::new(&star).is_ok());
    let no_package = vec![unit(&["pkg"], "A", vec![name(&["nowhere", "*"])], Some(class_decl("A", &[], vec![])))];
    assert!(Environment::new(&no_package).is_err());
}

#[test]
fn single_import_clashing_with_the_class_is_refused() {
    let trees = vec![
        unit(&["pkg"], "A", vec![name(&["other", "A"])], Some(class_decl("A", &[], vec![]))),
        unit(&["other"], "A", Vec::new(), Some(class_decl("A", &[], vec![]))),
    ];
    assert!(Environment::new(&trees).is_err());
}

#[test]
fn class_members_are_collected() {
    let decl = class_decl(
        "A",
        &[TokenKind::Public],
        vec![body(
            "ClassBody",
            vec![
                field(&[TokenKind::Public], leaf(TokenKind::Int), "x"),
                method(&[TokenKind::Public], leaf(TokenKind::Int), "f", vec![param(leaf(TokenKind::Int), "a")]),
                constructor("A", Vec::new()),
            ],
        )],
    );
    let trees = vec![unit(&["pkg"], "A", Vec::new(), Some(decl))];
    let env = Environment::new(&trees).unwrap();
    let a = &env.kinds[0];
    assert_eq!(a.fields.len(), 1);
    assert!(a.fields[0].name.equals(&ident("x")));
    assert_eq!(a.methods.len(), 1);
    assert_eq!(a.methods[0].parameters.len(), 1);
    assert!(a.methods[0].parameters[0].initialized);
    assert!(a.methods[0].body.is_some());
    assert_eq!(a.constructors.len(), 1);
    assert!(a.constructors[0].return_type.equals(&name(&["pkg", "A"])));
}

#[test]
fn duplicate_members_are_refused() {
    let fields = class_decl(
        "A",
        &[],
        vec![body("ClassBody", vec![field(&[], leaf(TokenKind::Int), "x"), field(&[], leaf(TokenKind::Char), "x")])],
    );
    assert_eq!(
        Environment::new(&vec![unit(&["pkg"], "A", Vec::new(), Some(fields))]).unwrap_err(),
        "field names must be unique"
    );
    let methods = class_decl(
        "A",
        &[],
        vec![body(
            "ClassBody",
            vec![
                method(&[], leaf(TokenKind::Int), "f", vec![param(leaf(TokenKind::Int), "a")]),
                method(&[], leaf(TokenKind::Void), "f", vec![param(leaf(TokenKind::Int), "b")]),
            ],
        )],
    );
    assert_eq!(
        Environment::new(&vec![unit(&["pkg"], "A", Vec::new(), Some(methods))]).unwrap_err(),
        "methods must have unique signatures"
    );
    let overloads = class_decl(
        "A",
        &[],
        vec![body(
            "ClassBody",
            vec![
                method(&[], leaf(TokenKind::Int), "f", vec![param(leaf(TokenKind::Int), "a")]),
                method(&[], leaf(TokenKind::Int), "f", vec![param(leaf(TokenKind::Char), "a")]),
            ],
        )],
    );
    assert!(Environment::new(&vec![unit(&["pkg"], "A", Vec::new(), Some(overloads))]).is_ok());
    let constructors = class_decl("A", &[], vec![body("ClassBody", vec![constructor("A", Vec::new()), constructor("A", Vec::new())])]);
    assert_eq!(
        Environment::new(&vec![unit(&["pkg"], "A", Vec::new(), Some(constructors))]).unwrap_err(),
        "constructors must have unique signatures"
    );
}

#[test]
fn interface_methods_are_abstract() {
    let decl = interface_decl(
        "I",
        vec![interface_body(vec![abstract_method(&[TokenKind::Public], leaf(TokenKind::Int), "f")])],
    );
    let env = Environment::new(&vec![unit(&["pkg"], "I", Vec::new(), Some(decl))]).unwrap();
    let i = &env.kinds[0];
    assert_eq!(i.kind, ClassOrInterface::INTERFACE);
    assert_eq!(i.methods.len(), 1);
    assert_eq!(i.methods[0].modifiers.len(), 2);
    assert!(i.methods[0].modifiers[1].equals(&leaf(TokenKind::Abstract)));
    assert!(i.extends[0].equals(&ident("Object")));
}

#[test]
fn unknown_interface_members_are_refused() {
    let decl = interface_decl("I", vec![interface_body(vec![field(&[], leaf(TokenKind::Int), "x")])]);
    assert_eq!(
        Environment::new(&vec![unit(&["pkg"], "I", Vec::new(), Some(decl))]).unwrap_err(),
        "no InterfaceBody analyzer for FieldDeclaration"
    );
}

#[test]
fn extends_and_implements_are_read() {
    let decl = class_decl(
        "A",
        &[],
        vec![
            rule("ClassExtends", vec![leaf(TokenKind::Extends), name(&["pkg", "B"])]),
            rule("Implements", vec![leaf(TokenKind::Implements), rule("ClassOrInterfaceTypeList", vec![ident("I"), leaf(TokenKind::Comma), ident("J")])]),
        ],
    );
    let env = Environment::new(&vec![unit(&["pkg"], "A", Vec::new(), Some(decl))]).unwrap();
    let a = &env.kinds[0];
    assert_eq!(a.extends.len(), 1);
    assert!(a.extends[0].equals(&name(&["pkg", "B"])));
    assert_eq!(a.implements.len(), 2);
    assert!(a.implements[1].equals(&ident("J")));
    let bad = class_decl("A", &[], vec![rule("ClassExtends", vec![leaf(TokenKind::Extends), leaf(TokenKind::Int)])]);
    assert!(Environment::new(&vec![unit(&["pkg"], "A", Vec::new(), Some(bad))]).is_err());
}

fn simple_method(n: &str, ret: TokenKind, mods: &[TokenKind]) -> MethodEnvironment {
    let mut m = MethodEnvironment::new(ident(n), leaf(ret));
    for k in mods {
        m.modifiers.push(leaf(*k));
    }
    m
}

#[test]
fn subclass_is_built_by_inheriting_then_applying() {
    let mut b = ClassOrInterfaceEnvironment::new(name(&["pkg", "B"]), ClassOrInterface::CLASS);
    b.methods.push(simple_method("f", TokenKind::Int, &[TokenKind::Public]));
    b.methods.push(simple_method("g", TokenKind::Int, &[TokenKind::Public]));
    let mut c = ClassOrInterfaceEnvironment::new(name(&["pkg", "C"]), ClassOrInterface::INTERFACE);
    c.methods.push(simple_method("h", TokenKind::Void, &[TokenKind::Public, TokenKind::Abstract]));
    let mut a = ClassOrInterfaceEnvironment::new(name(&["pkg", "A"]), ClassOrInterface::CLASS);
    a.methods.push(simple_method("f", TokenKind::Int, &[TokenKind::Public]));
    a.extends.push(ident("B"));

    let mut child = ClassOrInterfaceEnvironment::new(a.name.clone(), a.kind);
    child.inherit(&b).unwrap();
    child.inherit(&c).unwrap();
    child.apply(&a).unwrap();
    assert_eq!(child.methods.len(), 3);
    assert!(child.methods[0].name.equals(&ident("g")));
    assert!(child.methods[1].name.equals(&ident("h")));
    assert!(child.methods[2].name.equals(&ident("f")));
    assert_eq!(child.extends.len(), 1);
}

#[test]
fn overriding_rules_are_enforced() {
    let mut parent = ClassOrInterfaceEnvironment::new(name(&["pkg", "A"]), ClassOrInterface::CLASS);
    parent.methods.push(simple_method("f", TokenKind::Int, &[TokenKind::Public]));
    let mut other_return = ClassOrInterfaceEnvironment::new(name(&["pkg", "A"]), ClassOrInterface::CLASS);
    other_return.methods.push(simple_method("f", TokenKind::Void, &[TokenKind::Public]));
    let mut built = ClassOrInterfaceEnvironment::new(name(&["pkg", "A"]), ClassOrInterface::CLASS);
    built.inherit(&parent).unwrap();
    assert!(built.apply(&other_return).is_err());

    let mut weaker = ClassOrInterfaceEnvironment::new(name(&["pkg", "A"]), ClassOrInterface::CLASS);
    weaker.methods.push(simple_method("f", TokenKind::Int, &[TokenKind::Protected]));
    let mut built = ClassOrInterfaceEnvironment::new(name(&["pkg", "A"]), ClassOrInterface::CLASS);
    built.inherit(&parent).unwrap();
    assert!(built.apply(&weaker).is_err());

    let mut final_parent = ClassOrInterfaceEnvironment::new(name(&["pkg", "A"]), ClassOrInterface::CLASS);
    final_parent.methods.push(simple_method("f", TokenKind::Int, &[TokenKind::Public, TokenKind::Final]));
    let mut built = ClassOrInterfaceEnvironment::new(name(&["pkg", "A"]), ClassOrInterface::CLASS);
    built.inherit(&final_parent).unwrap();
    assert!(built.apply(&parent).is_err());

    let mut same = ClassOrInterfaceEnvironment::new(name(&["pkg", "A"]), ClassOrInterface::CLASS);
    same.methods.push(simple_method("f", TokenKind::Int, &[TokenKind::Public]));
    let mut built = ClassOrInterfaceEnvironment::new(name(&["pkg", "A"]), ClassOrInterface::CLASS);
    built.inherit(&parent).unwrap();
    assert!(built.apply(&same).is_ok());
    assert_eq!(built.methods.len(), 1);
}

#[test]
fn conflicting_inheritance_is_refused() {
    let mut p = ClassOrInterfaceEnvironment::new(name(&["pkg", "P"]), ClassOrInterface::CLASS);
    p.methods.push(simple_method("f", TokenKind::Int, &[TokenKind::Public]));
    let mut q = ClassOrInterfaceEnvironment::new(name(&["pkg", "Q"]), ClassOrInterface::CLASS);
    q.methods.push(simple_method("f", TokenKind::Int, &[TokenKind::Public]));
    let mut child = ClassOrInterfaceEnvironment::new(name(&["pkg", "A"]), ClassOrInterface::CLASS);
    child.inherit(&p).unwrap();
    assert!(child.inherit(&q).is_err());

    let mut r = ClassOrInterfaceEnvironment::new(name(&["pkg", "R"]), ClassOrInterface::CLASS);
    r.methods.push(simple_method("f", TokenKind::Void, &[TokenKind::Public, TokenKind::Abstract]));
    let mut child = ClassOrInterfaceEnvironment::new(name(&["pkg", "A"]), ClassOrInterface::CLASS);
    child.inherit(&p).unwrap();
    assert!(child.inherit(&r).is_err());
}

#[test]
fn concrete_method_implements_abstract_one() {
    let mut i = ClassOrInterfaceEnvironment::new(name(&["pkg", "I"]), ClassOrInterface::INTERFACE);
    i.methods.push(simple_method("f", TokenKind::Int, &[TokenKind::Public, TokenKind::Abstract]));
    let mut p = ClassOrInterfaceEnvironment::new(name(&["pkg", "P"]), ClassOrInterface::CLASS);
    p.methods.push(simple_method("f", TokenKind::Int, &[TokenKind::Public]));
    let mut child = ClassOrInterfaceEnvironment::new(name(&["pkg", "A"]), ClassOrInterface::CLASS);
    child.inherit(&i).unwrap();
    child.inherit(&p).unwrap();
    assert_eq!(child.methods.len(), 3);
}

#[test]
fn interfaces_inherit_object_methods_as_abstract() {
    let mut object = ClassOrInterfaceEnvironment::new(name(&["java", "lang", "Object"]), ClassOrInterface::CLASS);
    object.methods.push(simple_method("hashCode", TokenKind::Int, &[TokenKind::Public]));
    let mut child = ClassOrInterfaceEnvironment::new(name(&["pkg", "I"]), ClassOrInterface::INTERFACE);
    child.inherit(&object).unwrap();
    assert_eq!(child.methods.len(), 1);
    assert!(child.methods[0].modifiers[1].equals(&leaf(TokenKind::Abstract)));
}

#[test]
fn inherited_constructors_take_the_child_name() {
    let mut p = ClassOrInterfaceEnvironment::new(name(&["pkg", "P"]), ClassOrInterface::CLASS);
    p.constructors.push(MethodEnvironment::new(ident("P"), name(&["pkg", "P"])));
    let mut child = ClassOrInterfaceEnvironment::new(name(&["pkg", "A"]), ClassOrInterface::CLASS);
    child.inherit(&p).unwrap();
    assert_eq!(child.constructors.len(), 1);
    assert!(child.constructors[0].name.equals(&name(&["pkg", "A"])));
    let mut different = MethodEnvironment::new(ident("Q"), name(&["pkg", "P"]));
    different.body = Some(ident("body"));
    let mut q = ClassOrInterfaceEnvironment::new(name(&["pkg", "Q"]), ClassOrInterface::CLASS);
    q.constructors.push(different);
    assert_eq!(child.inherit(&q).unwrap_err(), "could not inherit conflicting constructors");
}

#[test]
fn variable_signature_ignores_names() {
    let a = VariableEnvironment::new(param(leaf(TokenKind::Int), "a"));
    let b = VariableEnvironment::new(param(leaf(TokenKind::Int), "b"));
    let c = VariableEnvironment::new(param(leaf(TokenKind::Char), "a"));
    assert!(a.same_as(&b));
    assert!(!a.same_as(&c));
    assert!(a.name.equals(&name(&["a"])));
    assert!(!a.initialized);
}

#[test]
fn declaration_errors_name_their_cause() {
    let mut kinds: Vec<ClassOrInterfaceEnvironment> = Vec::new();
    let imports = vec![ASTNodeImport { import: name(&["other", "A"]) }];
    let r = juicyj::analysis::environment::class::analyze_class_declaration(
        &name(&["pkg", "A"]),
        &mut kinds,
        &imports,
        &class_decl("A", &[], vec![]),
    );
    assert_eq!(r, Err("single-type-import declaration clashes with class A".to_string()));
    assert!(kinds.is_empty());
    let r = juicyj::analysis::environment::interface::analyze_interface_declaration(
        &name(&["pkg", "I"]),
        &mut kinds,
        &vec![ASTNodeImport { import: name(&["other", "I"]) }],
        &interface_decl("I", vec![]),
    );
    assert_eq!(r, Err("single-type-import declaration clashes with interface I".to_string()));
    assert!(juicyj::analysis::environment::class::analyze_class_declaration(&name(&["pkg", "A"]), &mut kinds, &Vec::new(), &class_decl("A", &[], vec![])).is_ok());
    let r = juicyj::analysis::environment::interface::analyze_interface_declaration(
        &name(&["pkg", "A"]),
        &mut kinds,
        &Vec::new(),
        &interface_decl("A", vec![]),
    );
    assert_eq!(r, Err("class/interface names must be unique".to_string()));
    assert_eq!(kinds.len(), 1);
}

#[test]
fn applying_keeps_each_declared_member_once() {
    let mut parent = ClassOrInterfaceEnvironment::new(name(&["pkg", "B"]), ClassOrInterface::CLASS);
    parent.fields.push(FieldEnvironment::new(ident("x"), leaf(TokenKind::Int)));
    parent.fields.push(FieldEnvironment::new(ident("y"), leaf(TokenKind::Int)));
    parent.methods.push(simple_method("f", TokenKind::Int, &[TokenKind::Public]));
    let mut a = ClassOrInterfaceEnvironment::new(name(&["pkg", "A"]), ClassOrInterface::CLASS);
    a.fields.push(FieldEnvironment::new(ident("x"), leaf(TokenKind::Boolean)));
    a.methods.push(simple_method("f", TokenKind::Int, &[TokenKind::Public]));
    a.modifiers.push(leaf(TokenKind::Public));
    a.extends.push(ident("B"));
    let mut child = ClassOrInterfaceEnvironment::new(a.name.clone(), a.kind);
    child.inherit(&parent).unwrap();
    child.apply(&a).unwrap();
    let xs: Vec<&FieldEnvironment> = child.fields.iter().filter(|f| f.name.equals(&ident("x"))).collect();
    assert_eq!(xs.len(), 1);
    assert_eq!(xs[0].kind.token.kind, TokenKind::Boolean);
    assert_eq!(child.fields.len(), 2);
    assert_eq!(child.methods.iter().filter(|m| m.name.equals(&ident("f"))).count(), 1);
    assert_eq!(child.extends.len(), 1);
    assert_eq!(child.modifiers.len(), 1);
}

#[test]
fn the_shape_of_compilation_units_can_be_checked() {
    assert!(trees_well_formed(&vec![object_unit()]));
    let short_field = rule("FieldDeclaration", vec![modifiers(&[TokenKind::Public]), leaf(TokenKind::Int)]);
    let bad = unit(&["pkg"], "A", Vec::new(), Some(class_decl("A", &[], vec![body("ClassBody", vec![short_field])])));
    assert!(!trees_well_formed(&vec![object_unit(), bad]));
}
