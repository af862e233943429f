//! Resolving a qualified name to the type of a field.
use vstd::prelude::*;

use crate::analysis::environment::classorinterface::{ClassModel, ClassOrInterfaceEnvironment};
use crate::analysis::environment::field::FieldModel;
use crate::analysis::environment::variable::{VarModel, VariableEnvironment};
use crate::analysis::types::lookup::class::{deep_ok, in_env_model, lemma_in_env_deep_ok, vars_ok, world_ok};
use crate::analysis::types::lookup::class;
use crate::analysis::types::obj::Type;
use crate::ast::{flat_children, flatten, leaf_model, lemma_model_children, lemma_types_ok, rule_model, type_ok, types_ok, ASTNode, NodeModel};
use crate::text::note;
use crate::tokens::TokenKind;

verus! {

/// The most lookup steps that a qualified name takes.
pub const LOOKUP_LIMIT: u32 = 4294967295;

/// Moves the last part of the qualified name `cls` to the front of `member`:
/// `a.b.c` and `d` become `a.b` and `c.d`; none when `cls` has fewer than
/// three nodes.
pub open spec fn move_two_model(cls: NodeModel, member: NodeModel) -> Option<(NodeModel, NodeModel)> {
    if cls.children.len() < 3 {
        None
    } else {
        let last = cls.children.last();
        let c2 = NodeModel { children: cls.children.take(cls.children.len() - 2), ..cls };
        let m2 = NodeModel {
            children: if member.children.len() > 0 {
                seq![last, leaf_model(TokenKind::Dot)] + member.children
            } else {
                seq![last]
            },
            ..member
        };
        Some((c2, m2))
    }
}

/// The first field of `fs`, from the `j`th on, named `n`.
pub open spec fn first_named_field(fs: Seq<FieldModel>, n: NodeModel, j: int) -> Option<FieldModel>
    decreases fs.len() - j,
{
    if j < 0 || j >= fs.len() {
        None
    } else if fs[j].name == n {
        Some(fs[j])
    } else {
        first_named_field(fs, n, j + 1)
    }
}

/// The `Name` of the first `idx + 1` nodes of `n`.
pub open spec fn name_prefix(n: NodeModel, idx: int) -> NodeModel {
    rule_model("Name"@, n.children.take(idx + 1))
}

/// The first prefix of `field`, from the one ending at `idx` on, that names
/// a field of `cls`: where it ends, and the field.
pub open spec fn first_field_match(cls: ClassModel, field: NodeModel, idx: int) -> Option<(int, FieldModel)>
    decreases field.children.len() - idx,
{
    if idx < 0 || idx >= field.children.len() {
        None
    } else {
        match first_named_field(cls.fields, name_prefix(field, idx), 0) {
            Some(f) => Some((idx, f)),
            None => first_field_match(cls, field, idx + 1),
        }
    }
}

/// The type of the field `field` of the type named `canonical` (either may
/// be qualified: `a.b` and `c.d` may be the field `d` of the field `c` of
/// the type `a.b`, or the field `c.d` of `a`, and so on), within `fuel`
/// steps.
pub open spec fn field_in_env(
    canonical: NodeModel,
    field: NodeModel,
    current: ClassModel,
    kinds: Seq<ClassModel>,
    fuel: nat,
) -> Result<ClassModel, ()>
    decreases fuel,
{
    if fuel == 0 {
        Err(())
    } else {
        let via_class = match in_env_model(canonical, current, kinds) {
            Err(_) => None,
            Ok(cls) => match first_field_match(cls, field, 0) {
                None => None,
                Some((idx, f)) => Some(
                    match in_env_model(f.kind, cls, kinds) {
                        Err(_) => Err(()),
                        Ok(result) => if idx + 1 == field.children.len() {
                            Ok(result)
                        } else {
                            field_in_env(
                                result.name,
                                NodeModel { children: field.children.skip(idx + 2), ..field },
                                current,
                                kinds,
                                (fuel - 1) as nat,
                            )
                        },
                    },
                ),
            },
        };
        match via_class {
            Some(r) => r,
            None => match move_two_model(canonical, field) {
                None => Err(()),
                Some((c2, f2)) => field_in_env(c2, f2, current, kinds, (fuel - 1) as nat),
            },
        }
    }
}

/// The type of the field `field` of the variable named `canonical` (see
/// `field_in_env`); a qualified `canonical` may end in field names that move
/// to `field`.
pub open spec fn field_in_variables(
    canonical: NodeModel,
    field: NodeModel,
    current: ClassModel,
    kinds: Seq<ClassModel>,
    variables: Seq<VarModel>,
) -> Result<ClassModel, ()>
    decreases canonical.children.len(),
{
    match first_named_var(variables, canonical, 0) {
        Some(v) => field_in_env(v.kind, field, current, kinds, LOOKUP_LIMIT as nat),
        None => match move_two_model(canonical, field) {
            None => Err(()),
            Some((c2, f2)) => field_in_variables(c2, f2, current, kinds, variables),
        },
    }
}

/// The first variable of `vs`, from the `j`th on, named `n`.
pub open spec fn first_named_var(vs: Seq<VarModel>, n: NodeModel, j: int) -> Option<VarModel>
    decreases vs.len() - j,
{
    if j < 0 || j >= vs.len() {
        None
    } else if vs[j].name == n {
        Some(vs[j])
    } else {
        first_named_var(vs, n, j + 1)
    }
}

/// A splice of a non-empty list of well-formed names is not empty.
proof fn lemma_flat_children_nonempty(t: crate::tokens::TokenModel, cs: Seq<NodeModel>)
    requires
        types_ok(cs),
        cs.len() >= 1,
        t.lexeme == Some("ArrayType"@),
    ensures
        flat_children(t, cs).len() >= 1,
{
    let c = cs.last();
    lemma_types_ok(cs);
    assert(type_ok(cs[cs.len() - 1]));
    if c.token == t {
        assert(crate::ast::kind_ok(c));
        assert(flatten(c).token.lexeme == Some("ArrayType"@));
    }
}

/// What is left of a well-formed qualified name after `move_two` is
/// well-formed.
pub proof fn lemma_move_two_ok(cls: NodeModel, member: NodeModel)
    requires
        type_ok(cls),
        cls.children.len() >= 3,
    ensures
        type_ok(move_two_model(cls, member)->Some_0.0),
{
    let c2 = move_two_model(cls, member)->Some_0.0;
    lemma_types_ok(cls.children);
    assert forall|i: int| 0 <= i < c2.children.len() implies type_ok(#[trigger] c2.children[i]) by {
        assert(c2.children[i] == cls.children[i]);
    }
    lemma_types_ok(c2.children);
    if c2.token.kind == TokenKind::NonTerminal && c2.token.lexeme == Some("ArrayType"@) {
        lemma_flat_children_nonempty(c2.token, c2.children);
    }
    assert(crate::ast::kind_ok(c2));
}

/// Moves the last part of `cls` to the front of `member` (see
/// `move_two_model`).
pub fn move_two(cls: &mut ASTNode, member: &mut ASTNode) -> (r: Result<(), ()>)
    ensures
        r is Ok <==> move_two_model(old(cls).model(), old(member).model()) is Some,
        r is Ok ==> (final(cls).model(), final(member).model()) == move_two_model(
            old(cls).model(),
            old(member).model(),
        )->Some_0,
{
    proof {
        lemma_model_children(*cls);
        lemma_model_children(*member);
    }
    if cls.children.len() < 3 {
        return Err(());
    }
    let ghost cs = cls.model().children;
    let ghost ms = member.model().children;
    let node = cls.children.pop().unwrap();
    cls.children.pop();
    if member.children.len() > 0 {
        member.children.insert(0, ASTNode::leaf(TokenKind::Dot));
    }
    member.children.insert(0, node);
    proof {
        lemma_model_children(*cls);
        lemma_model_children(*member);
        assert(cls.model().children =~= cs.take(cs.len() - 2));
        if ms.len() > 0 {
            assert(member.model().children =~= seq![cs.last(), leaf_model(TokenKind::Dot)] + ms);
        } else {
            assert(member.model().children =~= seq![cs.last()]);
        }
    }
    Ok(())
}

/// The first field of `fs` named `n`.
pub fn find_field(fs: &Vec<crate::analysis::environment::field::FieldEnvironment>, n: &ASTNode) -> (r: Option<usize>)
    ensures
        match r {
            Some(j) => j < fs@.len() && first_named_field(fs.deep_view(), n.model(), 0) == Some(fs.deep_view()[j as int]),
            None => first_named_field(fs.deep_view(), n.model(), 0) is None,
        },
{
    let mut j: usize = 0;
    while j < fs.len()
        invariant
            j <= fs@.len(),
            first_named_field(fs.deep_view(), n.model(), 0) == first_named_field(fs.deep_view(), n.model(), j as int),
        decreases fs@.len() - j,
    {
        proof {
            assert(fs.deep_view()[j as int] == fs@[j as int].deep_view());
        }
        if fs[j].name.equals(n) {
            return Some(j);
        }
        j = j + 1;
    }
    None
}

/// The first variable of `vs` named `n`.
pub fn find_variable(vs: &Vec<VariableEnvironment>, n: &ASTNode) -> (r: Option<usize>)
    ensures
        match r {
            Some(j) => j < vs@.len() && first_named_var(vs.deep_view(), n.model(), 0) == Some(vs.deep_view()[j as int]),
            None => first_named_var(vs.deep_view(), n.model(), 0) is None,
        },
{
    let mut j: usize = 0;
    while j < vs.len()
        invariant
            j <= vs@.len(),
            first_named_var(vs.deep_view(), n.model(), 0) == first_named_var(vs.deep_view(), n.model(), j as int),
        decreases vs@.len() - j,
    {
        proof {
            assert(vs.deep_view()[j as int] == vs@[j as int].deep_view());
        }
        if vs[j].name.equals(n) {
            return Some(j);
        }
        j = j + 1;
    }
    None
}

/// The type of a field, within `fuel` steps (see `field_in_env`).
fn field_within(
    canonical: &ASTNode,
    field: &ASTNode,
    current: &ClassOrInterfaceEnvironment,
    kinds: &Vec<ClassOrInterfaceEnvironment>,
    fuel: u32,
) -> (r: Result<Type, String>)
    requires
        type_ok(canonical.model()),
        world_ok(current.deep_view(), kinds.deep_view()),
    ensures
        crate::analysis::types::obj::type_result(r) == field_in_env(
            canonical.model(),
            field.model(),
            current.deep_view(),
            kinds.deep_view(),
            fuel as nat,
        ),
        r matches Ok(t) ==> deep_ok(t.deep_view()),
    decreases fuel,
{
    if fuel == 0 {
        return Err(note("could not lookup field in environment"));
    }
    let ghost cur = current.deep_view();
    let ghost ks = kinds.deep_view();
    proof {
        lemma_model_children(*field);
        lemma_in_env_deep_ok(canonical.model(), cur, ks);
    }
    match class::in_env(canonical, current, kinds) {
        Ok(cls) => {
            let ghost c = cls.deep_view();
            let mut potential: Vec<ASTNode> = Vec::new();
            let mut idx: usize = 0;
            proof {
                assert(potential.deep_view() =~= field.model().children.take(0));
            }
            while idx < field.children.len()
                invariant
                    idx <= field.children@.len(),
                    c == cls.deep_view(),
                    deep_ok(c),
                    ks == kinds.deep_view(),
                    cur == current.deep_view(),
                    world_ok(cur, ks),
                    fuel > 0,
                    in_env_model(canonical.model(), cur, ks) == Ok::<ClassModel, ()>(c),
                    field.model().children == crate::ast::models(field.children@),
                    potential.deep_view() == field.model().children.take(idx as int),
                    first_field_match(c, field.model(), 0) == first_field_match(c, field.model(), idx as int),
                decreases field.children@.len() - idx,
            {
                let ghost before = potential.deep_view();
                potential.push(field.children[idx].clone());
                proof {
                    assert(potential.deep_view() =~= before.push(field.model().children[idx as int]));
                    assert(field.model().children.take(idx + 1) =~= field.model().children.take(idx as int).push(
                        field.model().children[idx as int],
                    ));
                }
                let pv = crate::ast::clone_nodes(&potential);
                proof {
                    crate::ast::lemma_vec_models(pv);
                }
                let pname = ASTNode::rule("Name", pv);
                proof {
                    assert(pname.model() == name_prefix(field.model(), idx as int));
                }
                match find_field(&cls.fields, &pname) {
                    Some(j) => {
                        let f = &cls.fields[j];
                        proof {
                            assert(c.fields[j as int] == f.deep_view());
                            assert(type_ok(c.fields[j as int].kind));
                            lemma_in_env_deep_ok(f.kind.model(), c, ks);
                            assert(world_ok(c, ks));
                        }
                        let result = match class::in_env(&f.kind, &cls, kinds) {
                            Ok(rc) => rc,
                            Err(e) => return Err(e),
                        };
                        if idx + 1 == field.children.len() {
                            return Ok(Type::new(result));
                        }
                        let mut remaining = field.clone();
                        let ghost rem0 = remaining.children@;
                        proof {
                            lemma_model_children(remaining);
                            lemma_model_children(*field);
                        }
                        let stop = idx + 2;
                        let mut k: usize = 0;
                        while k < stop
                            invariant
                                stop == idx + 2,
                                k <= stop,
                                stop <= rem0.len(),
                                remaining.children@ == rem0.skip(k as int),
                                remaining.token.model() == field.token.model(),
                            decreases stop - k,
                        {
                            remaining.children.remove(0);
                            proof {
                                assert(remaining.children@ =~= rem0.skip(k + 1));
                            }
                            k = k + 1;
                        }
                        proof {
                            lemma_model_children(remaining);
                            assert(remaining.model().children =~= field.model().children.skip(idx + 2));
                            assert(remaining.model() == NodeModel {
                                children: field.model().children.skip(idx + 2),
                                ..field.model()
                            });
                            lemma_types_ok(result.deep_view().name.children);
                        }
                        return field_within(&result.name, &remaining, current, kinds, fuel - 1);
                    },
                    None => {},
                }
                idx = idx + 1;
            }
        },
        Err(_) => {},
    }
    let mut c2 = canonical.clone();
    let mut f2 = field.clone();
    match move_two(&mut c2, &mut f2) {
        Ok(()) => {
            proof {
                lemma_move_two_ok(canonical.model(), field.model());
            }
            field_within(&c2, &f2, current, kinds, fuel - 1)
        },
        Err(()) => Err(note("could not lookup field in environment")),
    }
}

/// The type of the field `field` of the type named `canonical` (see
/// `field_in_env`).
pub fn in_env(
    canonical: &ASTNode,
    field: &ASTNode,
    current: &ClassOrInterfaceEnvironment,
    kinds: &Vec<ClassOrInterfaceEnvironment>,
) -> (r: Result<Type, String>)
    requires
        type_ok(canonical.model()),
        world_ok(current.deep_view(), kinds.deep_view()),
    ensures
        crate::analysis::types::obj::type_result(r) == field_in_env(
            canonical.model(),
            field.model(),
            current.deep_view(),
            kinds.deep_view(),
            LOOKUP_LIMIT as nat,
        ),
        r matches Ok(t) ==> deep_ok(t.deep_view()),
{
    field_within(canonical, field, current, kinds, LOOKUP_LIMIT)
}

/// The type of the field `field` of the variable named `canonical` (see
/// `field_in_variables`).
pub fn in_variables(
    canonical: &ASTNode,
    field: &ASTNode,
    current: &ClassOrInterfaceEnvironment,
    kinds: &Vec<ClassOrInterfaceEnvironment>,
    variables: &Vec<VariableEnvironment>,
) -> (r: Result<Type, String>)
    requires
        type_ok(canonical.model()),
        world_ok(current.deep_view(), kinds.deep_view()),
        vars_ok(variables.deep_view()),
    ensures
        crate::analysis::types::obj::type_result(r) == field_in_variables(
            canonical.model(),
            field.model(),
            current.deep_view(),
            kinds.deep_view(),
            variables.deep_view(),
        ),
        r matches Ok(t) ==> deep_ok(t.deep_view()),
    decreases canonical.model().children.len(),
{
    match find_variable(variables, canonical) {
        Some(j) => {
            proof {
                assert(variables.deep_view()[j as int] == variables@[j as int].deep_view());
                assert(type_ok(variables.deep_view()[j as int].kind));
            }
            return in_env(&variables[j].kind, field, current, kinds);
        },
        None => {},
    }
    let mut c2 = canonical.clone();
    let mut f2 = field.clone();
    match move_two(&mut c2, &mut f2) {
        Ok(()) => {
            proof {
                lemma_move_two_ok(canonical.model(), field.model());
            }
            in_variables(&c2, &f2, current, kinds, variables)
        },
        Err(()) => Err(note("could not lookup field in variables")),
    }
}

} // verus!
