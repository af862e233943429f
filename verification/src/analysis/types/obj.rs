//! Types of expressions, and the rules that combine them.
use vstd::prelude::*;

use crate::analysis::environment::classorinterface::{class_new, ClassModel, ClassOrInterface, ClassOrInterfaceEnvironment};
use crate::analysis::types::lookup::class::{class_ok, env_ok, found, in_env, in_env_model, lemma_in_env_ok};
use crate::ast::{arr_ok, ident_model, leaf_model, lemma_model_children, lemma_type_ok_arr_ok, lemma_types_ok, object_model, qualified3, rule_model, same_type, type_ok, ASTNode, NodeModel};
use crate::numbers::{i32_text, parse_i32, parse_i32_text, signed_decimal};
use crate::text::{message, message2, message_around};
use crate::tokens::{lexeme_is, TokenKind};

verus! {

/// The type of an expression: the class or interface (or primitive, or array)
/// that it denotes.
#[derive(Debug)]
pub struct Type {
    pub kind: ClassOrInterfaceEnvironment,
}

impl DeepView for Type {
    type V = ClassModel;

    open spec fn deep_view(&self) -> ClassModel {
        self.kind.deep_view()
    }
}

impl Clone for Type {
    fn clone(&self) -> (r: Self)
        ensures
            r.deep_view() == self.deep_view(),
    {
        Type { kind: self.kind.clone() }
    }
}

/// The primitive type of the token kind `k`.
pub open spec fn prim(k: TokenKind) -> ClassModel {
    class_new(leaf_model(k), ClassOrInterface::CLASS)
}

/// `java.lang.String`.
pub open spec fn string_canonical() -> ClassModel {
    class_new(qualified3("java"@, "lang"@, "String"@), ClassOrInterface::CLASS)
}

/// `String`, by its simple name.
pub open spec fn string_short() -> ClassModel {
    class_new(rule_model("Name"@, seq![ident_model("String"@)]), ClassOrInterface::CLASS)
}

/// `java.lang.Object`.
pub open spec fn object_canonical() -> ClassModel {
    class_new(object_model(), ClassOrInterface::CLASS)
}

/// A type name of an array type.
pub open spec fn is_array_name(n: NodeModel) -> bool {
    n.token.lexeme == Some("ArrayType"@)
}

/// A name in the unnamed package, `juicyj_unnamed . Name ...`, without its
/// package part.
pub open spec fn strip_unnamed(n: NodeModel) -> NodeModel {
    if n.children.len() >= 3 && n.children[0].token.lexeme == Some("juicyj_unnamed"@) {
        NodeModel { children: n.children.skip(2), ..n }
    } else {
        n
    }
}

/// Type equality, by the types' names: array types by their element types;
/// other names when they denote the same type, or agree once a leading
/// unnamed package is removed.
pub open spec fn type_eq(a: NodeModel, b: NodeModel) -> bool
    decreases a,
{
    if is_array_name(a) != is_array_name(b) {
        false
    } else if is_array_name(a) {
        if a.children.len() >= 1 && b.children.len() >= 1 {
            type_eq(a.children[0], b.children[0])
        } else {
            false
        }
    } else {
        same_type(a, b) || strip_unnamed(a) == strip_unnamed(b)
    }
}

/// `t` is the primitive type of the token kind `k`.
pub open spec fn is_kind(t: ClassModel, k: TokenKind) -> bool {
    type_eq(t.name, leaf_model(k))
}

/// `t` is `byte`, `char`, `int` or `short`.
pub open spec fn coercible(t: ClassModel) -> bool {
    is_kind(t, TokenKind::Byte) || is_kind(t, TokenKind::Char) || is_kind(t, TokenKind::Int)
        || is_kind(t, TokenKind::Short)
}

/// `t` is `String`, by its canonical or its simple name.
pub open spec fn is_string(t: ClassModel) -> bool {
    type_eq(t.name, string_canonical().name) || type_eq(t.name, string_short().name)
}

/// `c` with its name's lexeme replaced by `l`.
pub open spec fn with_lexeme(c: ClassModel, l: Option<Seq<char>>) -> ClassModel {
    ClassModel {
        name: NodeModel { token: crate::tokens::TokenModel { lexeme: l, ..c.name.token }, ..c.name },
        ..c
    }
}

/// The value that the lexeme of a type's name holds, if it is an `i32`.
pub open spec fn lexeme_value(n: NodeModel) -> Option<i32> {
    match n.token.lexeme {
        Some(l) => parse_i32(l),
        None => None,
    }
}

/// The text of an arithmetic operation on two `int` constants (division and
/// remainder truncate toward zero), or none where the operation is not
/// folded.
pub open spec fn math_value(op: TokenKind, x: i32, y: i32) -> Option<Seq<char>> {
    if op == TokenKind::FSlash {
        if y == 0 {
            None
        } else {
            Some(signed_decimal(x.checked_div(y)->Some_0 as int))
        }
    } else if op == TokenKind::Minus {
        Some(signed_decimal(x - y))
    } else if op == TokenKind::Percent {
        Some(signed_decimal(x.checked_rem(y)->Some_0 as int))
    } else if op == TokenKind::Plus {
        Some(signed_decimal(x + y))
    } else if op == TokenKind::Star {
        Some(signed_decimal(x * y))
    } else {
        None
    }
}

/// The operations that stop on their operands: a result out of the range of
/// `int`, and a remainder by zero.
pub open spec fn math_defined(op: TokenKind, x: i32, y: i32) -> bool {
    &&& op == TokenKind::Plus ==> i32::MIN <= x + y <= i32::MAX
    &&& op == TokenKind::Minus ==> i32::MIN <= x - y <= i32::MAX
    &&& op == TokenKind::Star ==> i32::MIN <= x * y <= i32::MAX
    &&& op == TokenKind::Percent ==> y != 0
    &&& (op == TokenKind::FSlash || op == TokenKind::Percent) ==> !(x == i32::MIN && y == -1)
}

/// The operation can be carried out on these two types.
pub open spec fn math_ok(a: ClassModel, op: TokenKind, b: ClassModel) -> bool {
    (is_kind(a, TokenKind::Int) && is_kind(b, TokenKind::Int) && lexeme_value(a.name) is Some
        && lexeme_value(b.name) is Some) ==> math_defined(
        op,
        lexeme_value(a.name)->Some_0,
        lexeme_value(b.name)->Some_0,
    )
}

/// The type of `a op b` for an arithmetic operation: `int` for `int`-like
/// operands (folded when both are `int` constants), `byte` or `short` when
/// both are, `String` for a `+` with a string; nothing for voids or other
/// operands.
pub open spec fn math_model(a: ClassModel, op: TokenKind, b: ClassModel) -> Result<ClassModel, ()> {
    if is_kind(a, TokenKind::Void) || is_kind(b, TokenKind::Void) {
        Err(())
    } else if is_kind(a, TokenKind::Char) && is_kind(b, TokenKind::Char) {
        Ok(prim(TokenKind::Int))
    } else if is_kind(a, TokenKind::Byte) && is_kind(b, TokenKind::Byte) {
        Ok(prim(TokenKind::Byte))
    } else if (is_kind(a, TokenKind::Byte) || is_kind(a, TokenKind::Short)) && (is_kind(
        b,
        TokenKind::Byte,
    ) || is_kind(b, TokenKind::Short)) {
        Ok(prim(TokenKind::Short))
    } else if is_kind(a, TokenKind::Int) && is_kind(b, TokenKind::Int) {
        match (lexeme_value(a.name), lexeme_value(b.name)) {
            (Some(x), Some(y)) => Ok(with_lexeme(prim(TokenKind::Int), math_value(op, x, y))),
            _ => Ok(prim(TokenKind::Int)),
        }
    } else if coercible(a) && coercible(b) {
        Ok(prim(TokenKind::Int))
    } else if op == TokenKind::Plus && (is_string(a) || is_string(b)) {
        Ok(string_canonical())
    } else {
        Err(())
    }
}

/// A result of a type rule, by its model.
pub open spec fn type_result(r: Result<Type, String>) -> Result<ClassModel, ()> {
    match r {
        Ok(t) => Ok(t.deep_view()),
        Err(_) => Err(()),
    }
}

/// Type equality on names.
fn names_eq(a: &ASTNode, b: &ASTNode) -> (r: bool)
    requires
        crate::ast::arr_ok(a.model()),
        crate::ast::arr_ok(b.model()),
    ensures
        r == type_eq(a.model(), b.model()),
    decreases a,
{
    proof {
        lemma_model_children(*a);
        lemma_model_children(*b);
    }
    let a_array = lexeme_is(&a.token.lexeme, "ArrayType");
    let b_array = lexeme_is(&b.token.lexeme, "ArrayType");
    if a_array != b_array {
        return false;
    }
    if a_array {
        return names_eq(&a.children[0], &b.children[0]);
    }
    if a.is_same_type(b) {
        return true;
    }
    let sa = strip_unnamed_node(a);
    let sb = strip_unnamed_node(b);
    sa.equals(&sb)
}

/// A name without a leading unnamed package.
fn strip_unnamed_node(n: &ASTNode) -> (r: ASTNode)
    ensures
        r.model() == strip_unnamed(n.model()),
{
    proof {
        lemma_model_children(*n);
    }
    let mut r = n.clone();
    if n.children.len() >= 3 && lexeme_is(&n.children[0].token.lexeme, "juicyj_unnamed") {
        let ghost before = r.children@;
        r.children.remove(0);
        r.children.remove(0);
        proof {
            lemma_model_children(r);
            assert(r.children@ =~= before.skip(2));
            assert(crate::ast::models(r.children@) =~= n.model().children.skip(2));
        }
    }
    r
}

/// The primitive type of the token kind `k`.
pub fn prim_type(k: TokenKind) -> (r: Type)
    ensures
        r.deep_view() == prim(k),
{
    Type::new(ClassOrInterfaceEnvironment::new(ASTNode::leaf(k), ClassOrInterface::CLASS))
}

/// The text `true` or `false`.
fn bool_text(b: bool) -> (r: String)
    ensures
        r@ == (if b {
            "true"@
        } else {
            "false"@
        }),
{
    if b {
        String::from_str("true")
    } else {
        String::from_str("false")
    }
}

/// A quotient of naturals is at most the dividend, and at most half of it
/// for a divisor of 2 or more.
proof fn lemma_quotient_bounds(a: int, b: int)
    requires
        a >= 0,
        b >= 1,
    ensures
        0 <= a / b <= a,
        b >= 2 ==> a / b <= a / 2,
{
    assert(0 <= a / b <= a) by (nonlinear_arith)
        requires
            a >= 0,
            b >= 1,
    ;
    if b >= 2 {
        assert(a / b <= a / 2) by (nonlinear_arith)
            requires
                a >= 0,
                b >= 2,
        ;
    }
}

/// Truncating division of two `int`s is defined except by 0 and for
/// `i32::MIN / -1`.
proof fn lemma_checked_div_some(x: i32, d: i32)
    requires
        d != 0,
        !(x == i32::MIN && d == -1),
    ensures
        x.checked_div(d) is Some,
{
    let xi = x as int;
    let di = d as int;
    if xi > 0 && di > 0 {
        lemma_quotient_bounds(xi, di);
    } else if xi < 0 && di < 0 {
        lemma_quotient_bounds(xi * -1, di * -1);
    } else if xi < 0 {
        lemma_quotient_bounds(xi * -1, di);
    } else if xi > 0 {
        lemma_quotient_bounds(xi, di * -1);
    }
}

impl Type {
    pub fn new(kind: ClassOrInterfaceEnvironment) -> (r: Type)
        ensures
            r.deep_view() == kind.deep_view(),
    {
        Type { kind }
    }

    /// Type equality (see `type_eq`).
    pub fn eq(&self, other: &Type) -> (r: bool)
        requires
            crate::ast::arr_ok(self.deep_view().name),
            crate::ast::arr_ok(other.deep_view().name),
        ensures
            r == type_eq(self.deep_view().name, other.deep_view().name),
    {
        names_eq(&self.kind.name, &other.kind.name)
    }

    /// Whether this type is the primitive type of `k`.
    fn is(&self, k: TokenKind) -> (r: bool)
        requires
            crate::ast::arr_ok(self.deep_view().name),
        ensures
            r == is_kind(self.deep_view(), k),
    {
        let p = ASTNode::leaf(k);
        names_eq(&self.kind.name, &p)
    }

    /// Whether this type is `byte`, `char`, `int` or `short`.
    pub fn is_coercible_to_int(&self) -> (r: bool)
        requires
            crate::ast::arr_ok(self.deep_view().name),
        ensures
            r == coercible(self.deep_view()),
    {
        self.is(TokenKind::Byte) || self.is(TokenKind::Char) || self.is(TokenKind::Int) || self.is(
            TokenKind::Short,
        )
    }

    /// Whether this type is `String`.
    fn is_string(&self) -> (r: bool)
        requires
            crate::ast::arr_ok(self.deep_view().name),
        ensures
            r == is_string(self.deep_view()),
    {
        let canonical = qualified_type("java", "lang", "String");
        let mut v: Vec<ASTNode> = Vec::new();
        v.push(ASTNode::ident("String"));
        let short = ASTNode::rule("Name", v);
        proof {
            assert(crate::ast::models(v@) =~= seq![ident_model("String"@)]);
            reveal_strlit("ArrayType");
            reveal_strlit("Name");
            reveal_strlit("String");
            assert("Name"@ != "ArrayType"@) by {
                assert("Name"@.len() != "ArrayType"@.len());
            }
            assert(crate::ast::arr_ok(short.model()));
            assert(crate::ast::arr_ok(canonical.kind.name.model()));
        }
        names_eq(&self.kind.name, &canonical.kind.name) || names_eq(&self.kind.name, &short)
    }

    /// The type of `self operation other` for an arithmetic operation (see
    /// `math_model`); two `int` constants are folded into the constant
    /// result.
    pub fn apply_math(&self, operation: &TokenKind, other: &Type) -> (r: Result<Type, String>)
        requires
            crate::ast::arr_ok(self.deep_view().name),
            crate::ast::arr_ok(other.deep_view().name),
            math_ok(self.deep_view(), *operation, other.deep_view()),
        ensures
            type_result(r) == math_model(self.deep_view(), *operation, other.deep_view()),
    {
        if self.is(TokenKind::Void) || other.is(TokenKind::Void) {
            return Err(message("could not apply math to voids ", &self.kind.name));
        }
        if self.is(TokenKind::Char) && other.is(TokenKind::Char) {
            return Ok(prim_type(TokenKind::Int));
        }
        if self.is(TokenKind::Byte) && other.is(TokenKind::Byte) {
            return Ok(prim_type(TokenKind::Byte));
        }
        if (self.is(TokenKind::Byte) || self.is(TokenKind::Short)) && (other.is(TokenKind::Byte)
            || other.is(TokenKind::Short)) {
            return Ok(prim_type(TokenKind::Short));
        }
        if self.is(TokenKind::Int) && other.is(TokenKind::Int) {
            let mut result = prim_type(TokenKind::Int);
            let vlhs = match lexeme_int(&self.kind.name) {
                Some(x) => x,
                None => return Ok(result),
            };
            let vrhs = match lexeme_int(&other.kind.name) {
                Some(y) => y,
                None => return Ok(result),
            };
            proof {
                assert(is_kind(self.deep_view(), TokenKind::Int) && is_kind(other.deep_view(), TokenKind::Int));
                assert(math_defined(*operation, vlhs, vrhs));
            }
            let value = match *operation {
                TokenKind::FSlash => {
                    if vrhs == 0 {
                        None
                    } else {
                        proof {
                            lemma_checked_div_some(vlhs, vrhs);
                        }
                        Some(i32_text(vlhs.checked_div(vrhs).unwrap()))
                    }
                },
                TokenKind::Minus => Some(i32_text(vlhs - vrhs)),
                TokenKind::Percent => Some(i32_text(vlhs.checked_rem(vrhs).unwrap())),
                TokenKind::Plus => Some(i32_text(vlhs + vrhs)),
                TokenKind::Star => Some(i32_text(vlhs * vrhs)),
                _ => None,
            };
            let ghost vm = crate::tokens::lexeme_model(value);
            proof {
                assert(vm == math_value(*operation, vlhs, vrhs));
            }
            proof {
                lemma_model_children(result.kind.name);
                assert(result.kind.name.children@.len() == 0);
            }
            result.kind.name.token.lexeme = value;
            proof {
                lemma_model_children(result.kind.name);
                assert(result.kind.name.model().children =~= Seq::<NodeModel>::empty());
                assert(result.kind.name.model() =~= with_lexeme(prim(TokenKind::Int), vm).name);
                assert(result.deep_view() =~= with_lexeme(prim(TokenKind::Int), vm));
            }
            return Ok(result);
        }
        if self.is_coercible_to_int() && other.is_coercible_to_int() {
            return Ok(prim_type(TokenKind::Int));
        }
        if *operation == TokenKind::Plus && (self.is_string() || other.is_string()) {
            return Ok(qualified_type("java", "lang", "String"));
        }
        Err(message("could not apply math to ", &self.kind.name))
    }
}

/// The class of the qualified name `a.b.c`.
pub(crate) fn qualified_type(a: &str, b: &str, c: &str) -> (r: Type)
    ensures
        r.deep_view() == class_new(qualified3(a@, b@, c@), ClassOrInterface::CLASS),
{
    Type::new(ClassOrInterfaceEnvironment::new(
        crate::analysis::environment::class::qualified3(a, b, c),
        ClassOrInterface::CLASS,
    ))
}

/// The `i32` that the lexeme of `n` holds, if any.
fn lexeme_int(n: &ASTNode) -> (r: Option<i32>)
    ensures
        r == lexeme_value(n.model()),
{
    match &n.token.lexeme {
        Some(l) => parse_i32_text(l.as_str()),
        None => None,
    }
}

/// The most classes that a walk up the class hierarchy visits.
pub const WALK_LIMIT: u32 = 4294967295;

/// The classes that the names `names` denote as seen from `from`, pushed in
/// order onto `stack`; the first name that does not resolve is an error.
pub open spec fn push_lookups(
    stack: Seq<ClassModel>,
    names: Seq<NodeModel>,
    from: ClassModel,
    kinds: Seq<ClassModel>,
) -> Result<Seq<ClassModel>, ()>
    decreases names.len(),
{
    if names.len() == 0 {
        Ok(stack)
    } else {
        match in_env_model(names[0], from, kinds) {
            Ok(c) => push_lookups(stack.push(c), names.drop_first(), from, kinds),
            Err(_) => Err(()),
        }
    }
}

/// A depth-first walk up the hierarchy from the classes on `stack` (the last
/// one first), for a class named `target`: found (`Some(Ok)`), a supertype
/// that does not resolve (`Some(Err)`), or not found within `fuel` classes
/// (`None`).
pub open spec fn parent_walk(target: NodeModel, stack: Seq<ClassModel>, kinds: Seq<ClassModel>, fuel: nat) -> Option<
    Result<(), ()>,
>
    decreases fuel,
{
    if fuel == 0 || stack.len() == 0 {
        None
    } else {
        let p = stack.last();
        if p.name == target {
            Some(Ok(()))
        } else {
            match push_lookups(stack.drop_last(), p.extends + p.implements, p, kinds) {
                Ok(s) => parent_walk(target, s, kinds, (fuel - 1) as nat),
                Err(_) => Some(Err(())),
            }
        }
    }
}

/// The same walk, counting the classes visited before `target`: the count,
/// `u32::MAX` when it is not found, or an error.
pub open spec fn distance_walk(
    target: NodeModel,
    stack: Seq<ClassModel>,
    kinds: Seq<ClassModel>,
    fuel: nat,
    d: nat,
) -> Result<nat, ()>
    decreases fuel,
{
    if fuel == 0 || stack.len() == 0 {
        Ok(u32::MAX as nat)
    } else {
        let p = stack.last();
        if p.name == target {
            Ok(d)
        } else {
            match push_lookups(stack.drop_last(), p.extends + p.implements, p, kinds) {
                Ok(s) => distance_walk(target, s, kinds, (fuel - 1) as nat, d + 1),
                Err(_) => Err(()),
            }
        }
    }
}

/// `parent` is `child` or one of its supertypes.
pub open spec fn is_parent_model(parent: ClassModel, child: ClassModel, kinds: Seq<ClassModel>) -> Option<
    Result<(), ()>,
> {
    parent_walk(parent.name, seq![child], kinds, WALK_LIMIT as nat)
}

/// How far up from `child` the type `parent` is.
pub open spec fn distance_model(parent: ClassModel, child: ClassModel, kinds: Seq<ClassModel>) -> Result<
    nat,
    (),
> {
    distance_walk(parent.name, seq![child], kinds, WALK_LIMIT as nat, 0)
}

/// Whether a value of type `b` can be assigned to a variable of type `a`,
/// both resolved from `current`: the type assigned to (or `int` when an
/// `int`-like value widens to `int`), or an error.
pub open spec fn assign_model(a: ClassModel, b: ClassModel, current: ClassModel, kinds: Seq<ClassModel>) -> Result<
    ClassModel,
    (),
> {
    match (in_env_model(a.name, current, kinds), in_env_model(b.name, current, kinds)) {
        (Ok(l), Ok(r)) => {
            if is_kind(l, TokenKind::Void) && !is_kind(r, TokenKind::Null) {
                Err(())
            } else if is_array_name(l.name) {
                if type_eq(l.name, r.name) || is_kind(r, TokenKind::Null) {
                    Ok(l)
                } else if !is_array_name(r.name) {
                    if type_eq(r.name, object_canonical().name) {
                        Ok(l)
                    } else {
                        Err(())
                    }
                } else {
                    match (
                        in_env_model(l.name.children[0], current, kinds),
                        in_env_model(r.name.children[0], current, kinds),
                    ) {
                        (Ok(l2), Ok(r2)) => match is_parent_model(l2, r2, kinds) {
                            Some(Ok(_)) => Ok(l),
                            _ => Err(()),
                        },
                        _ => Err(()),
                    }
                }
            } else if type_eq(l.name, r.name) {
                Ok(l)
            } else if is_kind(l, TokenKind::Byte) && is_kind(r, TokenKind::Byte) {
                Ok(l)
            } else if is_kind(l, TokenKind::Short) && (is_kind(r, TokenKind::Byte) || is_kind(
                r,
                TokenKind::Short,
            )) {
                Ok(l)
            } else if is_kind(l, TokenKind::Int) && coercible(r) {
                Ok(prim(TokenKind::Int))
            } else if !coercible(l) && is_kind(r, TokenKind::Null) {
                Ok(l)
            } else {
                match is_parent_model(l, r, kinds) {
                    Some(Ok(_)) => Ok(l),
                    _ => Err(()),
                }
            }
        },
        _ => Err(()),
    }
}

/// How well a value of type `b` fits a parameter of type `a`: 0 for the
/// same type, more for a widening or a supertype, `u32::MAX` when it does
/// not fit at all, or an error when a type does not resolve.
pub open spec fn edit_model(a: ClassModel, b: ClassModel, current: ClassModel, kinds: Seq<ClassModel>) -> Result<
    nat,
    (),
> {
    match (in_env_model(a.name, current, kinds), in_env_model(b.name, current, kinds)) {
        (Ok(l), Ok(r)) => {
            if is_kind(l, TokenKind::Void) && !is_kind(r, TokenKind::Null) {
                Ok(u32::MAX as nat)
            } else if is_array_name(l.name) {
                if type_eq(l.name, r.name) || is_kind(r, TokenKind::Null) {
                    Ok(0)
                } else if !is_array_name(r.name) {
                    Ok(u32::MAX as nat)
                } else {
                    match (
                        in_env_model(l.name.children[0], current, kinds),
                        in_env_model(r.name.children[0], current, kinds),
                    ) {
                        (Ok(l2), Ok(r2)) => distance_model(l2, r2, kinds),
                        _ => Err(()),
                    }
                }
            } else if type_eq(l.name, r.name) {
                Ok(0)
            } else if is_kind(l, TokenKind::Byte) && is_kind(r, TokenKind::Byte) {
                Ok(0)
            } else if is_kind(l, TokenKind::Short) && (is_kind(r, TokenKind::Byte) || is_kind(
                r,
                TokenKind::Short,
            )) {
                Ok(1)
            } else if is_kind(l, TokenKind::Int) && is_kind(r, TokenKind::Short) {
                Ok(1)
            } else if is_kind(l, TokenKind::Int) && coercible(r) {
                Ok(2)
            } else if !coercible(l) && is_kind(r, TokenKind::Null) {
                Ok(1)
            } else {
                distance_model(l, r, kinds)
            }
        },
        _ => Err(()),
    }
}

/// The text of a comparison of two `int` constants, or none where the
/// operation is not a comparison.
pub open spec fn comparison_value(op: TokenKind, x: i32, y: i32) -> Option<Seq<char>> {
    let b = if op == TokenKind::Equality {
        Some(x == y)
    } else if op == TokenKind::NotEqual {
        Some(x != y)
    } else if op == TokenKind::LessThan {
        Some(x < y)
    } else if op == TokenKind::LessThanOrEqual {
        Some(x <= y)
    } else if op == TokenKind::GreaterThan {
        Some(x > y)
    } else if op == TokenKind::GreaterThanOrEqual {
        Some(x >= y)
    } else {
        None
    };
    match b {
        Some(true) => Some("true"@),
        Some(false) => Some("false"@),
        None => None,
    }
}

/// The type of a comparison: `boolean` (folded for two `int` constants)
/// when either side can be assigned to the other, else an error.
pub open spec fn comparison_model(
    a: ClassModel,
    op: TokenKind,
    b: ClassModel,
    current: ClassModel,
    kinds: Seq<ClassModel>,
) -> Result<ClassModel, ()> {
    if is_kind(a, TokenKind::Int) && is_kind(b, TokenKind::Int) {
        match (lexeme_value(a.name), lexeme_value(b.name)) {
            (Some(x), Some(y)) => Ok(with_lexeme(prim(TokenKind::Boolean), comparison_value(op, x, y))),
            _ => Ok(prim(TokenKind::Boolean)),
        }
    } else if assign_model(a, b, current, kinds) is Ok || assign_model(b, a, current, kinds) is Ok {
        Ok(prim(TokenKind::Boolean))
    } else {
        Err(())
    }
}

/// The type of a cast of a value of type `b` to the type `a`: `a` resolved,
/// when both are `int`-like or either can be assigned to the other.
pub open spec fn cast_model(a: ClassModel, b: ClassModel, current: ClassModel, kinds: Seq<ClassModel>) -> Result<
    ClassModel,
    (),
> {
    match (in_env_model(a.name, current, kinds), in_env_model(b.name, current, kinds)) {
        (Ok(l), Ok(r)) => {
            if coercible(l) && coercible(r) {
                Ok(l)
            } else if assign_model(l, r, current, kinds) is Ok || assign_model(r, l, current, kinds) is Ok {
                Ok(l)
            } else {
                Err(())
            }
        },
        _ => Err(()),
    }
}

/// The well-formedness of what a walk visits.
pub open spec fn all_ok(s: Seq<ClassModel>) -> bool {
    forall|i: int| 0 <= i < s.len() ==> class_ok(#[trigger] s[i])
}

/// Resolving the names of two lists in turn is resolving their
/// concatenation.
proof fn lemma_push_lookups_append(
    stack: Seq<ClassModel>,
    a: Seq<NodeModel>,
    b: Seq<NodeModel>,
    from: ClassModel,
    kinds: Seq<ClassModel>,
)
    ensures
        push_lookups(stack, a + b, from, kinds) == match push_lookups(stack, a, from, kinds) {
            Ok(s) => push_lookups(s, b, from, kinds),
            Err(_) => Err(()),
        },
    decreases a.len(),
{
    if a.len() == 0 {
        assert(a + b =~= b);
    } else {
        assert((a + b)[0] == a[0]);
        assert((a + b).drop_first() =~= a.drop_first() + b);
        match in_env_model(a[0], from, kinds) {
            Ok(c) => lemma_push_lookups_append(stack.push(c), a.drop_first(), b, from, kinds),
            Err(_) => {},
        }
    }
}

/// Pushes onto `stack` the classes that `names` denote as seen from `from`.
fn push_names(
    stack: &mut Vec<ClassOrInterfaceEnvironment>,
    names: &Vec<ASTNode>,
    from: &ClassOrInterfaceEnvironment,
    kinds: &Vec<ClassOrInterfaceEnvironment>,
) -> (r: Result<(), String>)
    requires
        all_ok(old(stack).deep_view()),
        env_ok(from.deep_view(), kinds.deep_view()),
        crate::ast::types_ok(names.deep_view()),
    ensures
        r is Ok <==> push_lookups(old(stack).deep_view(), names.deep_view(), from.deep_view(), kinds.deep_view()) is Ok,
        r is Ok ==> final(stack).deep_view() == push_lookups(
            old(stack).deep_view(),
            names.deep_view(),
            from.deep_view(),
            kinds.deep_view(),
        )->Ok_0,
        all_ok(final(stack).deep_view()),
{
    let ghost ns = names.deep_view();
    let ghost goal = push_lookups(stack.deep_view(), ns, from.deep_view(), kinds.deep_view());
    proof {
        assert(ns.skip(0) =~= ns);
        lemma_types_ok(ns);
    }
    let mut i: usize = 0;
    while i < names.len()
        invariant
            i <= names@.len(),
            ns == names.deep_view(),
            env_ok(from.deep_view(), kinds.deep_view()),
            forall|j: int| 0 <= j < ns.len() ==> type_ok(#[trigger] ns[j]),
            goal == push_lookups(old(stack).deep_view(), ns, from.deep_view(), kinds.deep_view()),
            goal == push_lookups(stack.deep_view(), ns.skip(i as int), from.deep_view(), kinds.deep_view()),
            all_ok(stack.deep_view()),
        decreases names@.len() - i,
    {
        let name = &names[i];
        proof {
            assert(ns[i as int] == name.model());
            assert(ns.skip(i as int)[0] == ns[i as int]);
            assert(ns.skip(i as int).drop_first() =~= ns.skip(i + 1));
            assert(type_ok(name.model()));
            lemma_in_env_ok(name.model(), from.deep_view(), kinds.deep_view());
        }
        match in_env(name, from, kinds) {
            Ok(c) => {
                let ghost before = stack.deep_view();
                let ghost cd = c.deep_view();
                stack.push(c);
                proof {
                    assert(stack.deep_view() =~= before.push(cd));
                }
            },
            Err(e) => {
                return Err(e);
            },
        }
        i = i + 1;
    }
    proof {
        assert(ns.skip(names@.len() as int) =~= Seq::<NodeModel>::empty());
    }
    Ok(())
}

/// Pushes onto `stack` the classes of the supertypes of `parent`, extends
/// first.
fn push_parents(
    stack: &mut Vec<ClassOrInterfaceEnvironment>,
    parent: &ClassOrInterfaceEnvironment,
    kinds: &Vec<ClassOrInterfaceEnvironment>,
) -> (r: Result<(), String>)
    requires
        all_ok(old(stack).deep_view()),
        env_ok(parent.deep_view(), kinds.deep_view()),
    ensures
        r is Ok <==> push_lookups(
            old(stack).deep_view(),
            parent.deep_view().extends + parent.deep_view().implements,
            parent.deep_view(),
            kinds.deep_view(),
        ) is Ok,
        r is Ok ==> final(stack).deep_view() == push_lookups(
            old(stack).deep_view(),
            parent.deep_view().extends + parent.deep_view().implements,
            parent.deep_view(),
            kinds.deep_view(),
        )->Ok_0,
        all_ok(final(stack).deep_view()),
{
    proof {
        lemma_push_lookups_append(
            stack.deep_view(),
            parent.deep_view().extends,
            parent.deep_view().implements,
            parent.deep_view(),
            kinds.deep_view(),
        );
    }
    let r = push_names(stack, &parent.extends, parent, kinds);
    if r.is_err() {
        return r;
    }
    push_names(stack, &parent.implements, parent, kinds)
}

impl Type {
    /// Whether `self` is `child` or one of its supertypes (see `parent_walk`).
    fn is_parent(&self, child: &Type, kinds: &Vec<ClassOrInterfaceEnvironment>) -> (r: Option<Result<(), String>>)
        requires
            class_ok(child.deep_view()),
            forall|i: int| 0 <= i < kinds.deep_view().len() ==> class_ok(#[trigger] kinds.deep_view()[i]),
        ensures
            match r {
                None => is_parent_model(self.deep_view(), child.deep_view(), kinds.deep_view()) is None,
                Some(Ok(_)) => is_parent_model(self.deep_view(), child.deep_view(), kinds.deep_view())
                    == Some(Ok::<(), ()>(())),
                Some(Err(_)) => is_parent_model(self.deep_view(), child.deep_view(), kinds.deep_view())
                    == Some(Err::<(), ()>(())),
            },
    {
        let ghost target = self.deep_view().name;
        let mut parents: Vec<ClassOrInterfaceEnvironment> = Vec::new();
        parents.push(child.kind.clone());
        proof {
            assert(parents.deep_view() =~= seq![child.deep_view()]);
        }
        let ghost goal = parent_walk(target, parents.deep_view(), kinds.deep_view(), WALK_LIMIT as nat);
        let mut fuel: u32 = WALK_LIMIT;
        while fuel > 0 && parents.len() > 0
            invariant
                target == self.deep_view().name,
                goal == is_parent_model(self.deep_view(), child.deep_view(), kinds.deep_view()),
                goal == parent_walk(target, parents.deep_view(), kinds.deep_view(), fuel as nat),
                all_ok(parents.deep_view()),
                forall|i: int| 0 <= i < kinds.deep_view().len() ==> class_ok(#[trigger] kinds.deep_view()[i]),
            decreases fuel,
        {
            let ghost before = parents.deep_view();
            let parent = parents.pop().unwrap();
            proof {
                assert(parents.deep_view() =~= before.drop_last());
                assert(parent.deep_view() == before.last());
                assert(class_ok(before[before.len() - 1]));
            }
            if parent.name.equals(&self.kind.name) {
                return Some(Ok(()));
            }
            match push_parents(&mut parents, &parent, kinds) {
                Ok(()) => {},
                Err(e) => {
                    return Some(Err(e));
                },
            }
            fuel = fuel - 1;
        }
        None
    }

    /// How far up from `child` the type `self` is (see `distance_walk`).
    fn inherit_distance(&self, child: &Type, kinds: &Vec<ClassOrInterfaceEnvironment>) -> (r: Result<u32, String>)
        requires
            class_ok(child.deep_view()),
            forall|i: int| 0 <= i < kinds.deep_view().len() ==> class_ok(#[trigger] kinds.deep_view()[i]),
        ensures
            match r {
                Ok(d) => distance_model(self.deep_view(), child.deep_view(), kinds.deep_view()) == Ok::<nat, ()>(d as nat),
                Err(_) => distance_model(self.deep_view(), child.deep_view(), kinds.deep_view()) is Err,
            },
    {
        let ghost target = self.deep_view().name;
        let mut parents: Vec<ClassOrInterfaceEnvironment> = Vec::new();
        parents.push(child.kind.clone());
        proof {
            assert(parents.deep_view() =~= seq![child.deep_view()]);
        }
        let ghost goal = distance_walk(target, parents.deep_view(), kinds.deep_view(), WALK_LIMIT as nat, 0);
        let mut fuel: u32 = WALK_LIMIT;
        let mut distance: u32 = 0;
        while fuel > 0 && parents.len() > 0
            invariant
                target == self.deep_view().name,
                goal == distance_model(self.deep_view(), child.deep_view(), kinds.deep_view()),
                goal == distance_walk(target, parents.deep_view(), kinds.deep_view(), fuel as nat, distance as nat),
                distance + fuel == WALK_LIMIT,
                all_ok(parents.deep_view()),
                forall|i: int| 0 <= i < kinds.deep_view().len() ==> class_ok(#[trigger] kinds.deep_view()[i]),
            decreases fuel,
        {
            let ghost before = parents.deep_view();
            let parent = parents.pop().unwrap();
            proof {
                assert(parents.deep_view() =~= before.drop_last());
                assert(parent.deep_view() == before.last());
                assert(class_ok(before[before.len() - 1]));
            }
            if parent.name.equals(&self.kind.name) {
                return Ok(distance);
            }
            match push_parents(&mut parents, &parent, kinds) {
                Ok(()) => {},
                Err(e) => {
                    return Err(e);
                },
            }
            distance = distance + 1;
            fuel = fuel - 1;
        }
        Ok(u32::MAX)
    }

    /// Whether a value of type `rhs` can be assigned to a variable of this
    /// type (see `assign_model`).
    pub fn assign(
        &self,
        rhs: &Type,
        current: &ClassOrInterfaceEnvironment,
        kinds: &Vec<ClassOrInterfaceEnvironment>,
    ) -> (r: Result<Type, String>)
        requires
            type_ok(self.deep_view().name),
            type_ok(rhs.deep_view().name),
            env_ok(current.deep_view(), kinds.deep_view()),
        ensures
            type_result(r) == assign_model(self.deep_view(), rhs.deep_view(), current.deep_view(), kinds.deep_view()),
    {
        let ghost cur = current.deep_view();
        let ghost ks = kinds.deep_view();
        proof {
            lemma_in_env_ok(self.deep_view().name, cur, ks);
            lemma_in_env_ok(rhs.deep_view().name, cur, ks);
        }
        let lhs = match in_env(&self.kind.name, current, kinds) {
            Ok(c) => Type::new(c),
            Err(e) => return Err(e),
        };
        let rhs = match in_env(&rhs.kind.name, current, kinds) {
            Ok(c) => Type::new(c),
            Err(e) => return Err(e),
        };
        proof {
            lemma_type_ok_arr_ok(lhs.deep_view().name);
            lemma_type_ok_arr_ok(rhs.deep_view().name);
        }
        let result = lhs.clone();
        if lhs.is(TokenKind::Void) && !rhs.is(TokenKind::Null) {
            return Err(message_around("cannot assign ", &rhs.kind.name, " to void"));
        }
        let lhs_array = lexeme_is(&lhs.kind.name.token.lexeme, "ArrayType");
        let rhs_array = lexeme_is(&rhs.kind.name.token.lexeme, "ArrayType");
        if lhs_array {
            if lhs.eq(&rhs) || rhs.is(TokenKind::Null) {
                return Ok(result);
            }
            if !rhs_array {
                let object = qualified_type("java", "lang", "Object");
                proof {
                    object_name_arr_ok();
                }
                if rhs.eq(&object) {
                    return Ok(result);
                }
                return Err(message2("cannot assign class ", &rhs.kind.name, " to array ", &lhs.kind.name));
            }
            proof {
                lemma_model_children(lhs.kind.name);
                lemma_model_children(rhs.kind.name);
                lemma_types_ok(lhs.deep_view().name.children);
                lemma_types_ok(rhs.deep_view().name.children);
                lemma_in_env_ok(lhs.deep_view().name.children[0], cur, ks);
                lemma_in_env_ok(rhs.deep_view().name.children[0], cur, ks);
            }
            let l2 = match in_env(&lhs.kind.name.children[0], current, kinds) {
                Ok(c) => Type::new(c),
                Err(e) => return Err(e),
            };
            let r2 = match in_env(&rhs.kind.name.children[0], current, kinds) {
                Ok(c) => Type::new(c),
                Err(e) => return Err(e),
            };
            return match l2.is_parent(&r2, kinds) {
                Some(Ok(())) => Ok(result),
                Some(Err(e)) => Err(e),
                None => Err(message2("cannot assign non-subtype array ", &r2.kind.name, " to ", &l2.kind.name)),
            };
        }
        if lhs.eq(&rhs) {
            return Ok(result);
        }
        if lhs.is(TokenKind::Byte) && rhs.is(TokenKind::Byte) {
            return Ok(result);
        }
        if lhs.is(TokenKind::Short) && (rhs.is(TokenKind::Byte) || rhs.is(TokenKind::Short)) {
            return Ok(result);
        }
        if lhs.is(TokenKind::Int) && rhs.is_coercible_to_int() {
            return Ok(prim_type(TokenKind::Int));
        }
        if !lhs.is_coercible_to_int() && rhs.is(TokenKind::Null) {
            return Ok(result);
        }
        match lhs.is_parent(&rhs, kinds) {
            Some(Ok(())) => Ok(result),
            Some(Err(e)) => Err(e),
            None => Err(message2("can not assign ", &rhs.kind.name, " to ", &lhs.kind.name)),
        }
    }

    /// How well a value of type `rhs` fits a parameter of this type (see
    /// `edit_model`).
    pub fn edit_distance(
        &self,
        rhs: &Type,
        current: &ClassOrInterfaceEnvironment,
        kinds: &Vec<ClassOrInterfaceEnvironment>,
    ) -> (r: Result<u32, String>)
        requires
            type_ok(self.deep_view().name),
            type_ok(rhs.deep_view().name),
            env_ok(current.deep_view(), kinds.deep_view()),
        ensures
            match r {
                Ok(d) => edit_model(self.deep_view(), rhs.deep_view(), current.deep_view(), kinds.deep_view())
                    == Ok::<nat, ()>(d as nat),
                Err(_) => edit_model(self.deep_view(), rhs.deep_view(), current.deep_view(), kinds.deep_view()) is Err,
            },
    {
        let ghost cur = current.deep_view();
        let ghost ks = kinds.deep_view();
        proof {
            lemma_in_env_ok(self.deep_view().name, cur, ks);
            lemma_in_env_ok(rhs.deep_view().name, cur, ks);
        }
        let lhs = match in_env(&self.kind.name, current, kinds) {
            Ok(c) => Type::new(c),
            Err(e) => return Err(e),
        };
        let rhs = match in_env(&rhs.kind.name, current, kinds) {
            Ok(c) => Type::new(c),
            Err(e) => return Err(e),
        };
        proof {
            lemma_type_ok_arr_ok(lhs.deep_view().name);
            lemma_type_ok_arr_ok(rhs.deep_view().name);
        }
        if lhs.is(TokenKind::Void) && !rhs.is(TokenKind::Null) {
            return Ok(u32::MAX);
        }
        let lhs_array = lexeme_is(&lhs.kind.name.token.lexeme, "ArrayType");
        let rhs_array = lexeme_is(&rhs.kind.name.token.lexeme, "ArrayType");
        if lhs_array {
            if lhs.eq(&rhs) || rhs.is(TokenKind::Null) {
                return Ok(0);
            }
            if !rhs_array {
                return Ok(u32::MAX);
            }
            proof {
                lemma_model_children(lhs.kind.name);
                lemma_model_children(rhs.kind.name);
                lemma_types_ok(lhs.deep_view().name.children);
                lemma_types_ok(rhs.deep_view().name.children);
                lemma_in_env_ok(lhs.deep_view().name.children[0], cur, ks);
                lemma_in_env_ok(rhs.deep_view().name.children[0], cur, ks);
            }
            let l2 = match in_env(&lhs.kind.name.children[0], current, kinds) {
                Ok(c) => Type::new(c),
                Err(e) => return Err(e),
            };
            let r2 = match in_env(&rhs.kind.name.children[0], current, kinds) {
                Ok(c) => Type::new(c),
                Err(e) => return Err(e),
            };
            return l2.inherit_distance(&r2, kinds);
        }
        if lhs.eq(&rhs) {
            return Ok(0);
        }
        if lhs.is(TokenKind::Byte) && rhs.is(TokenKind::Byte) {
            return Ok(0);
        }
        if lhs.is(TokenKind::Short) && (rhs.is(TokenKind::Byte) || rhs.is(TokenKind::Short)) {
            return Ok(1);
        }
        if lhs.is(TokenKind::Int) && rhs.is(TokenKind::Short) {
            return Ok(1);
        }
        if lhs.is(TokenKind::Int) && rhs.is_coercible_to_int() {
            return Ok(2);
        }
        if !lhs.is_coercible_to_int() && rhs.is(TokenKind::Null) {
            return Ok(1);
        }
        lhs.inherit_distance(&rhs, kinds)
    }

    /// The type of a comparison of `self` and `other` (see
    /// `comparison_model`).
    pub fn apply_comparison(
        &self,
        operation: &TokenKind,
        other: &Type,
        current: &ClassOrInterfaceEnvironment,
        kinds: &Vec<ClassOrInterfaceEnvironment>,
    ) -> (r: Result<Type, String>)
        requires
            type_ok(self.deep_view().name),
            type_ok(other.deep_view().name),
            env_ok(current.deep_view(), kinds.deep_view()),
        ensures
            type_result(r) == comparison_model(
                self.deep_view(),
                *operation,
                other.deep_view(),
                current.deep_view(),
                kinds.deep_view(),
            ),
    {
        proof {
            lemma_type_ok_arr_ok(self.deep_view().name);
            lemma_type_ok_arr_ok(other.deep_view().name);
        }
        if self.is(TokenKind::Int) && other.is(TokenKind::Int) {
            let mut result = prim_type(TokenKind::Boolean);
            let vlhs = match lexeme_int(&self.kind.name) {
                Some(x) => x,
                None => return Ok(result),
            };
            let vrhs = match lexeme_int(&other.kind.name) {
                Some(y) => y,
                None => return Ok(result),
            };
            let value = match *operation {
                TokenKind::Equality => Some(bool_text(vlhs == vrhs)),
                TokenKind::NotEqual => Some(bool_text(vlhs != vrhs)),
                TokenKind::LessThan => Some(bool_text(vlhs < vrhs)),
                TokenKind::LessThanOrEqual => Some(bool_text(vlhs <= vrhs)),
                TokenKind::GreaterThan => Some(bool_text(vlhs > vrhs)),
                TokenKind::GreaterThanOrEqual => Some(bool_text(vlhs >= vrhs)),
                _ => None,
            };
            let ghost vm = crate::tokens::lexeme_model(value);
            proof {
                assert(vm == comparison_value(*operation, vlhs, vrhs));
                lemma_model_children(result.kind.name);
                assert(result.kind.name.children@.len() == 0);
            }
            result.kind.name.token.lexeme = value;
            proof {
                lemma_model_children(result.kind.name);
                assert(result.kind.name.model().children =~= Seq::<NodeModel>::empty());
                assert(result.kind.name.model() =~= with_lexeme(prim(TokenKind::Boolean), vm).name);
                assert(result.deep_view() =~= with_lexeme(prim(TokenKind::Boolean), vm));
            }
            return Ok(result);
        }
        let lhs_result = self.assign(other, current, kinds);
        if lhs_result.is_ok() {
            return Ok(prim_type(TokenKind::Boolean));
        }
        let rhs_result = other.assign(self, current, kinds);
        if rhs_result.is_ok() {
            return Ok(prim_type(TokenKind::Boolean));
        }
        Err(message("could not apply comparison to ", &self.kind.name))
    }

    /// The type of a cast of a value of type `other` to this type (see
    /// `cast_model`).
    pub fn apply_cast(
        &self,
        other: &Type,
        current: &ClassOrInterfaceEnvironment,
        kinds: &Vec<ClassOrInterfaceEnvironment>,
    ) -> (r: Result<Type, String>)
        requires
            type_ok(self.deep_view().name),
            type_ok(other.deep_view().name),
            env_ok(current.deep_view(), kinds.deep_view()),
        ensures
            type_result(r) == cast_model(self.deep_view(), other.deep_view(), current.deep_view(), kinds.deep_view()),
    {
        let ghost cur = current.deep_view();
        let ghost ks = kinds.deep_view();
        proof {
            lemma_in_env_ok(self.deep_view().name, cur, ks);
            lemma_in_env_ok(other.deep_view().name, cur, ks);
        }
        let lhs = match in_env(&self.kind.name, current, kinds) {
            Ok(c) => Type::new(c),
            Err(e) => return Err(e),
        };
        let rhs = match in_env(&other.kind.name, current, kinds) {
            Ok(c) => Type::new(c),
            Err(e) => return Err(e),
        };
        proof {
            lemma_type_ok_arr_ok(lhs.deep_view().name);
            lemma_type_ok_arr_ok(rhs.deep_view().name);
        }
        let result = lhs.clone();
        if lhs.is_coercible_to_int() && rhs.is_coercible_to_int() {
            return Ok(result);
        }
        let lhs_result = lhs.assign(&rhs, current, kinds);
        if lhs_result.is_ok() {
            return Ok(result);
        }
        let rhs_result = rhs.assign(&lhs, current, kinds);
        if rhs_result.is_ok() {
            return Ok(result);
        }
        Err(message("could not cast to ", &lhs.kind.name))
    }
}

/// The name `java.lang.Object` is not an array type.
proof fn object_name_arr_ok()
    ensures
        arr_ok(object_model()),
{
    reveal_strlit("Name");
    reveal_strlit("ArrayType");
    assert("Name"@ != "ArrayType"@) by {
        assert("Name"@.len() != "ArrayType"@.len());
    }
}

/// Type equality is symmetric.
pub proof fn type_eq_symmetric(a: NodeModel, b: NodeModel)
    ensures
        type_eq(a, b) == type_eq(b, a),
    decreases a,
{
    if is_array_name(a) && is_array_name(b) && a.children.len() >= 1 && b.children.len() >= 1 {
        type_eq_symmetric(a.children[0], b.children[0]);
    }
}

/// Type equality is reflexive on names whose array types have element
/// types.
pub proof fn type_eq_reflexive(a: NodeModel)
    requires
        arr_ok(a),
    ensures
        type_eq(a, a),
    decreases a,
{
    if is_array_name(a) {
        type_eq_reflexive(a.children[0]);
    }
}

/// A type that resolves, and is not `void`, can be assigned to itself; the
/// result is the type resolved.
pub proof fn assign_reflexive(a: ClassModel, current: ClassModel, kinds: Seq<ClassModel>)
    requires
        type_ok(a.name),
        env_ok(current, kinds),
        in_env_model(a.name, current, kinds) is Ok,
        !is_kind(in_env_model(a.name, current, kinds)->Ok_0, TokenKind::Void),
    ensures
        assign_model(a, a, current, kinds) == in_env_model(a.name, current, kinds),
{
    let l = in_env_model(a.name, current, kinds)->Ok_0;
    lemma_in_env_ok(a.name, current, kinds);
    lemma_type_ok_arr_ok(l.name);
    type_eq_reflexive(l.name);
}

/// Anything assignable is comparable, and comparability does not depend on
/// the order of the operands.
pub proof fn comparison_laws(
    a: ClassModel,
    op: TokenKind,
    b: ClassModel,
    current: ClassModel,
    kinds: Seq<ClassModel>,
)
    ensures
        assign_model(a, b, current, kinds) is Ok ==> comparison_model(a, op, b, current, kinds) is Ok,
        comparison_model(a, op, b, current, kinds) is Ok <==> comparison_model(b, op, a, current, kinds) is Ok,
{
}

/// Arithmetic does not depend on the order of its operands: `a op b` is a
/// type exactly when `b op a` is, and it is the same type, but for the
/// folded value of two `int` constants.
pub proof fn math_symmetric(a: ClassModel, op: TokenKind, b: ClassModel)
    ensures
        math_model(a, op, b) is Ok <==> math_model(b, op, a) is Ok,
        math_model(a, op, b) is Ok ==> with_lexeme(math_model(a, op, b)->Ok_0, None) == with_lexeme(
            math_model(b, op, a)->Ok_0,
            None,
        ),
{
}

/// Only `null` can be assigned to `void`.
pub proof fn assign_to_void(a: ClassModel, b: ClassModel, current: ClassModel, kinds: Seq<ClassModel>)
    requires
        in_env_model(a.name, current, kinds) is Ok,
        in_env_model(b.name, current, kinds) is Ok,
        is_kind(in_env_model(a.name, current, kinds)->Ok_0, TokenKind::Void),
    ensures
        assign_model(a, b, current, kinds) is Ok <==> is_kind(in_env_model(b.name, current, kinds)->Ok_0, TokenKind::Null),
{
}

/// A cast from one type to another is allowed exactly when the reverse
/// cast is; an allowed cast gives the resolved target type.
pub proof fn cast_symmetric(a: ClassModel, b: ClassModel, current: ClassModel, kinds: Seq<ClassModel>)
    ensures
        cast_model(a, b, current, kinds) is Ok <==> cast_model(b, a, current, kinds) is Ok,
        cast_model(a, b, current, kinds) is Ok ==> cast_model(a, b, current, kinds) == in_env_model(
            a.name,
            current,
            kinds,
        ),
        in_env_model(a.name, current, kinds) matches Ok(l) && in_env_model(b.name, current, kinds) matches Ok(r)
            && coercible(l) && coercible(r) ==> cast_model(a, b, current, kinds) is Ok,
{
}

} // verus!
