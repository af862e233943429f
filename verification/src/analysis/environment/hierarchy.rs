//! Building a subclass: inheriting from parents, then applying the class's
//! own declarations.
use vstd::prelude::*;

use crate::analysis::environment::classorinterface::{ClassModel, ClassOrInterface, ClassOrInterfaceEnvironment};
use crate::analysis::environment::field::{clone_fields, FieldEnvironment, FieldModel};
use crate::analysis::environment::method::{clone_methods, MethodEnvironment, MethodModel};
use crate::analysis::environment::variable::{same_signature, signature};
use crate::ast::{clone_imports, clone_nodes, contains_node, leaf_model, object_model, prefix_equals, ASTNode, NodeModel};
use crate::analysis::environment::class::object_name;
use crate::text::{message, note};
use crate::tokens::TokenKind;

verus! {

/// `m` carries the modifier `k`.
pub open spec fn has_mod(m: MethodModel, k: TokenKind) -> bool {
    m.modifiers.contains(leaf_model(k))
}

/// Two methods have the same name and parameter signature.
pub open spec fn same_method_signature(a: MethodModel, b: MethodModel) -> bool {
    a.name == b.name && signature(a.parameters) == signature(b.parameters)
}

/// Overriding `existing` by `m` is refused: a different return type, a
/// final method, weaker access, or a change of `static`.
pub open spec fn override_error(m: MethodModel, existing: MethodModel) -> bool {
    ||| m.return_type != existing.return_type
    ||| has_mod(existing, TokenKind::Final)
    ||| has_mod(existing, TokenKind::Public) && (has_mod(m, TokenKind::Protected) || has_mod(
        m,
        TokenKind::Private,
    ))
    ||| has_mod(existing, TokenKind::Protected) && has_mod(m, TokenKind::Private)
    ||| has_mod(existing, TokenKind::Static) != has_mod(m, TokenKind::Static)
}

/// Method equality as the methods compare: every part, parameters by their
/// signature.
pub open spec fn same_method(a: MethodModel, b: MethodModel) -> bool {
    &&& a.modifiers == b.modifiers
    &&& a.return_type == b.return_type
    &&& a.name == b.name
    &&& signature(a.parameters) == signature(b.parameters)
    &&& a.parent == b.parent
    &&& a.body == b.body
}

// A removal pass walks a snapshot `snap` of a list taken before the pass and
// removes, from the live list `cur`, the entry at each snapshot index that
// matches. Indices are not adjusted after a removal; a pass that would remove
// past the end of the live list has no result (`None`).

/// Removal pass: constructors with the signature `sig`.
pub open spec fn sweep_constructors(
    cur: Seq<MethodModel>,
    snap: Seq<MethodModel>,
    idx: int,
    sig: Seq<(NodeModel, bool)>,
) -> Option<Seq<MethodModel>>
    decreases snap.len() - idx,
{
    if idx < 0 || idx >= snap.len() {
        Some(cur)
    } else if signature(snap[idx].parameters) == sig {
        if idx < cur.len() {
            sweep_constructors(cur.remove(idx), snap, idx + 1, sig)
        } else {
            None
        }
    } else {
        sweep_constructors(cur, snap, idx + 1, sig)
    }
}

/// Removal pass: fields named `name`.
pub open spec fn sweep_fields(cur: Seq<FieldModel>, snap: Seq<FieldModel>, idx: int, name: NodeModel) -> Option<
    Seq<FieldModel>,
>
    decreases snap.len() - idx,
{
    if idx < 0 || idx >= snap.len() {
        Some(cur)
    } else if snap[idx].name == name {
        if idx < cur.len() {
            sweep_fields(cur.remove(idx), snap, idx + 1, name)
        } else {
            None
        }
    } else {
        sweep_fields(cur, snap, idx + 1, name)
    }
}

/// Removal pass: the methods that `m` overrides; a refused override stops
/// the pass with the list as it then is (`Err`).
pub open spec fn sweep_overridden(
    cur: Seq<MethodModel>,
    snap: Seq<MethodModel>,
    idx: int,
    m: MethodModel,
) -> Option<Result<Seq<MethodModel>, Seq<MethodModel>>>
    decreases snap.len() - idx,
{
    if idx < 0 || idx >= snap.len() {
        Some(Ok(cur))
    } else if same_method_signature(m, snap[idx]) {
        if override_error(m, snap[idx]) {
            Some(Err(cur))
        } else if idx < cur.len() {
            sweep_overridden(cur.remove(idx), snap, idx + 1, m)
        } else {
            None
        }
    } else {
        sweep_overridden(cur, snap, idx + 1, m)
    }
}

/// Removal pass: constructors equal to the inherited `inh`; one with the
/// same signature that is not equal to it stops the pass (`Err`).
pub open spec fn sweep_inherited(
    cur: Seq<MethodModel>,
    snap: Seq<MethodModel>,
    idx: int,
    inh: MethodModel,
) -> Option<Result<Seq<MethodModel>, Seq<MethodModel>>>
    decreases snap.len() - idx,
{
    if idx < 0 || idx >= snap.len() {
        Some(Ok(cur))
    } else if same_method(inh, snap[idx]) {
        if idx < cur.len() {
            sweep_inherited(cur.remove(idx), snap, idx + 1, inh)
        } else {
            None
        }
    } else if signature(inh.parameters) == signature(snap[idx].parameters) {
        Some(Err(cur))
    } else {
        sweep_inherited(cur, snap, idx + 1, inh)
    }
}

/// A child's constructors, in turn, remove those of the same signature and
/// are added. Each removal pass
/// removes by the indices of the list as it was before the pass, so where
/// more than one entry matches, a later removal takes whatever entry has
/// moved into that place (an unrelated one, or past the end of the list,
/// which has no result); where at most one entry matches, it is replaced
/// (see `apply_keeps_declarations`).
pub open spec fn apply_constructors(cur: Seq<MethodModel>, cs: Seq<MethodModel>) -> Option<Seq<MethodModel>>
    decreases cs.len(),
{
    if cs.len() == 0 {
        Some(cur)
    } else {
        match sweep_constructors(cur, cur, 0, signature(cs[0].parameters)) {
            Some(s) => apply_constructors(s.push(cs[0]), cs.drop_first()),
            None => None,
        }
    }
}

/// A child's fields, in turn, remove those of the same name and are added. Each removal pass
/// removes by the indices of the list as it was before the pass, so where
/// more than one entry matches, a later removal takes whatever entry has
/// moved into that place (an unrelated one, or past the end of the list,
/// which has no result); where at most one entry matches, it is replaced
/// (see `apply_keeps_declarations`).
pub open spec fn apply_fields(cur: Seq<FieldModel>, fs: Seq<FieldModel>) -> Option<Seq<FieldModel>>
    decreases fs.len(),
{
    if fs.len() == 0 {
        Some(cur)
    } else {
        match sweep_fields(cur, cur, 0, fs[0].name) {
            Some(s) => apply_fields(s.push(fs[0]), fs.drop_first()),
            None => None,
        }
    }
}

/// A child's methods, in turn, remove those of the same signature they
/// override and are added; a refused override stops with the list as it
/// then is. Each removal pass
/// removes by the indices of the list as it was before the pass, so where
/// more than one entry matches, a later removal takes whatever entry has
/// moved into that place (an unrelated one, or past the end of the list,
/// which has no result); where at most one entry matches, it is replaced
/// (see `apply_keeps_declarations`).
pub open spec fn apply_methods(cur: Seq<MethodModel>, ms: Seq<MethodModel>) -> Option<
    Result<Seq<MethodModel>, Seq<MethodModel>>,
>
    decreases ms.len(),
{
    if ms.len() == 0 {
        Some(Ok(cur))
    } else {
        match sweep_overridden(cur, cur, 0, ms[0]) {
            Some(Ok(s)) => apply_methods(s.push(ms[0]), ms.drop_first()),
            Some(Err(s)) => Some(Err(s)),
            None => None,
        }
    }
}

/// A parent's constructors, renamed to the child, added in order.
pub open spec fn inherit_constructors(cur: Seq<MethodModel>, cs: Seq<MethodModel>, name: NodeModel) -> Option<
    Result<Seq<MethodModel>, Seq<MethodModel>>,
>
    decreases cs.len(),
{
    if cs.len() == 0 {
        Some(Ok(cur))
    } else {
        let inh = MethodModel { name, ..cs[0] };
        match sweep_inherited(cur, cur, 0, inh) {
            Some(Ok(s)) => inherit_constructors(s.push(inh), cs.drop_first(), name),
            Some(Err(s)) => Some(Err(s)),
            None => None,
        }
    }
}

/// How an inherited method `m` meets the first method of the same signature
/// in `snap` from `idx` on: `Ok(true)` when it implements an abstract one
/// (it is then added once more), `Ok(false)` when it may simply be added,
/// `Err` on a conflict.
pub open spec fn inherit_check(snap: Seq<MethodModel>, idx: int, m: MethodModel) -> Result<bool, ()>
    decreases snap.len() - idx,
{
    if idx < 0 || idx >= snap.len() {
        Ok(false)
    } else if same_method_signature(m, snap[idx]) {
        let e = snap[idx];
        if m.return_type != e.return_type {
            Err(())
        } else if has_mod(e, TokenKind::Abstract) {
            Ok(!has_mod(m, TokenKind::Abstract))
        } else if !has_mod(m, TokenKind::Abstract) {
            Err(())
        } else {
            Ok(false)
        }
    } else {
        inherit_check(snap, idx + 1, m)
    }
}

/// A parent's methods added in order; a conflict stops with the list as it
/// then is (`Err`).
pub open spec fn inherit_methods(cur: Seq<MethodModel>, ms: Seq<MethodModel>) -> Result<
    Seq<MethodModel>,
    Seq<MethodModel>,
>
    decreases ms.len(),
{
    if ms.len() == 0 {
        Ok(cur)
    } else {
        match inherit_check(cur, 0, ms[0]) {
            Ok(twice) => {
                let c = if twice {
                    cur.push(ms[0])
                } else {
                    cur
                };
                inherit_methods(c.push(ms[0]), ms.drop_first())
            },
            Err(_) => Err(cur),
        }
    }
}

/// A method inherited by an interface from `java.lang.Object`: abstract.
pub open spec fn as_abstract(m: MethodModel) -> MethodModel {
    MethodModel { modifiers: m.modifiers.push(leaf_model(TokenKind::Abstract)), ..m }
}

/// The state that an outcome leaves behind, whether it succeeded or not.
pub open spec fn state_of(r: Result<ClassModel, ClassModel>) -> ClassModel {
    match r {
        Ok(c) => c,
        Err(c) => c,
    }
}

/// `c` after inheriting from `parent`: `Ok` with the new state, `Err` with the
/// state at the refusal; `None` where the removal of a constructor would run
/// past the end of the list.
pub open spec fn inherit_model(c: ClassModel, parent: ClassModel) -> Option<Result<ClassModel, ClassModel>> {
    match inherit_constructors(c.constructors, parent.constructors, c.name) {
        None => None,
        Some(Err(cs)) => Some(Err(ClassModel { constructors: cs, ..c })),
        Some(Ok(cs)) => {
            let c1 = ClassModel { constructors: cs, fields: c.fields + parent.fields, ..c };
            if c.kind == ClassOrInterface::INTERFACE && parent.name == object_model() {
                Some(Ok(ClassModel { methods: c1.methods + parent.methods.map_values(|m: MethodModel| as_abstract(m)), ..c1 }))
            } else {
                match inherit_methods(c1.methods, parent.methods) {
                    Ok(ms) => Some(Ok(ClassModel { methods: ms, ..c1 })),
                    Err(ms) => Some(Err(ClassModel { methods: ms, ..c1 })),
                }
            }
        },
    }
}

/// `c` after applying the declarations of `child`: `Ok` with the new state,
/// `Err` with the state at the refusal; `None` where a removal would run past
/// the end of a list.
pub open spec fn apply_model(c: ClassModel, child: ClassModel) -> Option<Result<ClassModel, ClassModel>> {
    match apply_constructors(c.constructors, child.constructors) {
        None => None,
        Some(cs) => match apply_fields(c.fields, child.fields) {
            None => None,
            Some(fs) => match apply_methods(c.methods, child.methods) {
                None => None,
                Some(Err(ms)) => Some(Err(ClassModel { constructors: cs, fields: fs, methods: ms, ..c })),
                Some(Ok(ms)) => Some(Ok(ClassModel {
                    constructors: cs,
                    fields: fs,
                    methods: ms,
                    extends: child.extends,
                    implements: child.implements,
                    imports: child.imports,
                    modifiers: child.modifiers,
                    ..c
                })),
            },
        },
    }
}

/// Whether the modifiers `v` hold the modifier `k`.
fn has_modifier(v: &Vec<ASTNode>, k: TokenKind) -> (r: bool)
    ensures
        r == v.deep_view().contains(leaf_model(k)),
{
    contains_node(v, &ASTNode::leaf(k))
}

/// Whether two lists of nodes are equal.
fn same_nodes(a: &Vec<ASTNode>, b: &Vec<ASTNode>) -> (r: bool)
    ensures
        r == (a.deep_view() == b.deep_view()),
{
    let r = prefix_equals(a, a.len(), b, b.len());
    proof {
        assert(a.deep_view().take(a@.len() as int) =~= a.deep_view());
        assert(b.deep_view().take(b@.len() as int) =~= b.deep_view());
    }
    r
}

/// Whether two optional nodes are equal.
fn same_optional(a: &Option<ASTNode>, b: &Option<ASTNode>) -> (r: bool)
    ensures
        r == (a.deep_view() == b.deep_view()),
{
    match (a, b) {
        (Some(x), Some(y)) => x.equals(y),
        (None, None) => true,
        _ => false,
    }
}

/// Method equality: every part, parameters by their signature.
fn methods_equal(a: &MethodEnvironment, b: &MethodEnvironment) -> (r: bool)
    ensures
        r == same_method(a.deep_view(), b.deep_view()),
{
    same_nodes(&a.modifiers, &b.modifiers) && a.return_type.equals(&b.return_type) && a.name.equals(
        &b.name,
    ) && same_signature(&a.parameters, &b.parameters) && same_optional(&a.parent, &b.parent)
        && same_optional(&a.body, &b.body)
}

/// Removes, pass-wise, the constructors with the signature of `c`.
fn remove_constructors(v: &mut Vec<MethodEnvironment>, c: &MethodEnvironment)
    requires
        sweep_constructors(
            old(v).deep_view(),
            old(v).deep_view(),
            0,
            signature(c.deep_view().parameters),
        ) is Some,
    ensures
        final(v).deep_view() == sweep_constructors(
            old(v).deep_view(),
            old(v).deep_view(),
            0,
            signature(c.deep_view().parameters),
        )->Some_0,
{
    let snap = clone_methods(v);
    let ghost sig = signature(c.deep_view().parameters);
    let ghost goal = sweep_constructors(v.deep_view(), snap.deep_view(), 0, sig);
    let mut idx: usize = 0;
    while idx < snap.len()
        invariant
            idx <= snap@.len(),
            sig == signature(c.deep_view().parameters),
            snap.deep_view() == old(v).deep_view(),
            goal == sweep_constructors(old(v).deep_view(), old(v).deep_view(), 0, sig),
            goal is Some,
            goal == sweep_constructors(v.deep_view(), snap.deep_view(), idx as int, sig),
        decreases snap@.len() - idx,
    {
        proof {
            assert(snap.deep_view()[idx as int] == snap@[idx as int].deep_view());
        }
        if same_signature(&snap[idx].parameters, &c.parameters) {
            let ghost before = v.deep_view();
            v.remove(idx);
            proof {
                assert(v.deep_view() =~= before.remove(idx as int));
            }
        }
        idx = idx + 1;
    }
}

/// Removes, pass-wise, the fields named like `f`.
fn remove_fields(v: &mut Vec<FieldEnvironment>, f: &FieldEnvironment)
    requires
        sweep_fields(old(v).deep_view(), old(v).deep_view(), 0, f.deep_view().name) is Some,
    ensures
        final(v).deep_view() == sweep_fields(
            old(v).deep_view(),
            old(v).deep_view(),
            0,
            f.deep_view().name,
        )->Some_0,
{
    let snap = clone_fields(v);
    let ghost name = f.deep_view().name;
    let ghost goal = sweep_fields(v.deep_view(), snap.deep_view(), 0, name);
    let mut idx: usize = 0;
    while idx < snap.len()
        invariant
            idx <= snap@.len(),
            name == f.deep_view().name,
            snap.deep_view() == old(v).deep_view(),
            goal == sweep_fields(old(v).deep_view(), old(v).deep_view(), 0, name),
            goal is Some,
            goal == sweep_fields(v.deep_view(), snap.deep_view(), idx as int, name),
        decreases snap@.len() - idx,
    {
        proof {
            assert(snap.deep_view()[idx as int] == snap@[idx as int].deep_view());
        }
        if snap[idx].name.equals(&f.name) {
            let ghost before = v.deep_view();
            v.remove(idx);
            proof {
                assert(v.deep_view() =~= before.remove(idx as int));
            }
        }
        idx = idx + 1;
    }
}

/// Why overriding `existing` by `m` is refused, if it is.
fn override_refusal(m: &MethodEnvironment, existing: &MethodEnvironment) -> (r: Option<String>)
    ensures
        r is Some <==> override_error(m.deep_view(), existing.deep_view()),
{
    if !m.return_type.equals(&existing.return_type) {
        let mut e = message("cannot override method ", &m.name);
        e.append(" with different return type");
        return Some(e);
    }
    if has_modifier(&existing.modifiers, TokenKind::Final) {
        return Some(message("cannot override final method ", &existing.name));
    }
    let existing_public = has_modifier(&existing.modifiers, TokenKind::Public);
    let existing_protected = has_modifier(&existing.modifiers, TokenKind::Protected);
    let protected = has_modifier(&m.modifiers, TokenKind::Protected);
    let private = has_modifier(&m.modifiers, TokenKind::Private);
    if existing_public && (protected || private) {
        return Some(message("cannot weaken access controls of public method ", &existing.name));
    } else if existing_protected && private {
        return Some(message("cannot weaken access controls of protected method ", &existing.name));
    }
    if has_modifier(&existing.modifiers, TokenKind::Static) != has_modifier(
        &m.modifiers,
        TokenKind::Static,
    ) {
        let mut e = message("cannot override method ", &existing.name);
        e.append(" with different static");
        return Some(e);
    }
    None
}

/// Removes, pass-wise, the methods that `m` overrides; stops at a refused
/// override.
fn remove_overridden(v: &mut Vec<MethodEnvironment>, m: &MethodEnvironment) -> (r: Result<(), String>)
    requires
        sweep_overridden(old(v).deep_view(), old(v).deep_view(), 0, m.deep_view()) is Some,
    ensures
        r is Ok <==> sweep_overridden(
            old(v).deep_view(),
            old(v).deep_view(),
            0,
            m.deep_view(),
        )->Some_0 is Ok,
        final(v).deep_view() == match sweep_overridden(
            old(v).deep_view(),
            old(v).deep_view(),
            0,
            m.deep_view(),
        )->Some_0 {
            Ok(s) => s,
            Err(s) => s,
        },
{
    let snap = clone_methods(v);
    let ghost goal = sweep_overridden(v.deep_view(), snap.deep_view(), 0, m.deep_view());
    let mut idx: usize = 0;
    while idx < snap.len()
        invariant
            idx <= snap@.len(),
            snap.deep_view() == old(v).deep_view(),
            goal == sweep_overridden(old(v).deep_view(), old(v).deep_view(), 0, m.deep_view()),
            goal is Some,
            goal == sweep_overridden(v.deep_view(), snap.deep_view(), idx as int, m.deep_view()),
        decreases snap@.len() - idx,
    {
        let e = &snap[idx];
        proof {
            assert(snap.deep_view()[idx as int] == e.deep_view());
        }
        if e.name.equals(&m.name) && same_signature(&m.parameters, &e.parameters) {
            match override_refusal(m, e) {
                Some(msg) => {
                    return Err(msg);
                },
                None => {},
            }
            let ghost before = v.deep_view();
            v.remove(idx);
            proof {
                assert(v.deep_view() =~= before.remove(idx as int));
            }
        }
        idx = idx + 1;
    }
    Ok(())
}

/// Removes, pass-wise, the constructors equal to the inherited `inh`; stops
/// at one of the same signature that differs from it.
fn remove_inherited(v: &mut Vec<MethodEnvironment>, inh: &MethodEnvironment) -> (r: Result<(), String>)
    requires
        sweep_inherited(old(v).deep_view(), old(v).deep_view(), 0, inh.deep_view()) is Some,
    ensures
        r is Ok <==> sweep_inherited(
            old(v).deep_view(),
            old(v).deep_view(),
            0,
            inh.deep_view(),
        )->Some_0 is Ok,
        final(v).deep_view() == match sweep_inherited(
            old(v).deep_view(),
            old(v).deep_view(),
            0,
            inh.deep_view(),
        )->Some_0 {
            Ok(s) => s,
            Err(s) => s,
        },
{
    let snap = clone_methods(v);
    let ghost goal = sweep_inherited(v.deep_view(), snap.deep_view(), 0, inh.deep_view());
    let mut idx: usize = 0;
    while idx < snap.len()
        invariant
            idx <= snap@.len(),
            snap.deep_view() == old(v).deep_view(),
            goal == sweep_inherited(old(v).deep_view(), old(v).deep_view(), 0, inh.deep_view()),
            goal is Some,
            goal == sweep_inherited(v.deep_view(), snap.deep_view(), idx as int, inh.deep_view()),
        decreases snap@.len() - idx,
    {
        let e = &snap[idx];
        proof {
            assert(snap.deep_view()[idx as int] == e.deep_view());
        }
        if methods_equal(inh, e) {
            let ghost before = v.deep_view();
            v.remove(idx);
            proof {
                assert(v.deep_view() =~= before.remove(idx as int));
            }
        } else if same_signature(&inh.parameters, &e.parameters) {
            return Err(note("could not inherit conflicting constructors"));
        }
        idx = idx + 1;
    }
    Ok(())
}

/// How an inherited method meets the methods already present.
fn check_inherited_method(snap: &Vec<MethodEnvironment>, m: &MethodEnvironment) -> (r: Result<bool, String>)
    ensures
        r is Ok <==> inherit_check(snap.deep_view(), 0, m.deep_view()) is Ok,
        r is Ok ==> r->Ok_0 == inherit_check(snap.deep_view(), 0, m.deep_view())->Ok_0,
{
    let ghost goal = inherit_check(snap.deep_view(), 0, m.deep_view());
    let mut idx: usize = 0;
    while idx < snap.len()
        invariant
            idx <= snap@.len(),
            goal == inherit_check(snap.deep_view(), 0, m.deep_view()),
            goal == inherit_check(snap.deep_view(), idx as int, m.deep_view()),
        decreases snap@.len() - idx,
    {
        let e = &snap[idx];
        proof {
            assert(snap.deep_view()[idx as int] == e.deep_view());
        }
        if m.name.equals(&e.name) && same_signature(&m.parameters, &e.parameters) {
            if !m.return_type.equals(&e.return_type) {
                let mut msg = message("could not inherit methods ", &m.name);
                msg.append(" with conflicting returns");
                return Err(msg);
            }
            let m_abstract = has_modifier(&m.modifiers, TokenKind::Abstract);
            if has_modifier(&e.modifiers, TokenKind::Abstract) {
                return Ok(!m_abstract);
            } else if !m_abstract {
                return Err(message("could not inherit conflicting methods ", &m.name));
            }
            return Ok(false);
        }
        idx = idx + 1;
    }
    Ok(false)
}

impl ClassOrInterfaceEnvironment {
    /// Applies the declarations of `child` on top of what was inherited:
    /// its constructors and fields remove those of the same signature or
    /// name and are added, its methods override those of the same signature
    /// (a refused override is an error), and its extends, implements,
    /// imports and modifiers are taken over. The removals go by the indices
    /// of the list before each pass, so where several entries match, an
    /// unrelated entry can be removed (see `apply_fields`); where at most one
    /// matches, it is replaced.
    pub fn apply(&mut self, child: &ClassOrInterfaceEnvironment) -> (r: Result<(), String>)
        requires
            apply_model(old(self).deep_view(), child.deep_view()) is Some,
        ensures
            r is Ok <==> apply_model(old(self).deep_view(), child.deep_view())->Some_0 is Ok,
            final(self).deep_view() == state_of(
                apply_model(old(self).deep_view(), child.deep_view())->Some_0,
            ),
    {
        let ghost start = self.deep_view();
        let ghost cs = child.constructors.deep_view();
        let ghost cgoal = apply_constructors(start.constructors, cs);
        proof {
            assert(cs.skip(0) =~= cs);
        }
        let mut i: usize = 0;
        while i < child.constructors.len()
            invariant
                i <= child.constructors@.len(),
                cs == child.constructors.deep_view(),
                start == old(self).deep_view(),
                apply_model(start, child.deep_view()) is Some,
                cgoal == apply_constructors(start.constructors, cs),
                cgoal == apply_constructors(self.constructors.deep_view(), cs.skip(i as int)),
                self.deep_view() == (ClassModel { constructors: self.constructors.deep_view(), ..start }),
            decreases child.constructors@.len() - i,
        {
            let c = &child.constructors[i];
            proof {
                assert(cs[i as int] == c.deep_view());
                assert(cs.skip(i as int)[0] == c.deep_view());
                assert(cs.skip(i as int).drop_first() =~= cs.skip(i + 1));
            }
            remove_constructors(&mut self.constructors, c);
            let ghost before = self.constructors.deep_view();
            self.constructors.push(c.clone());
            proof {
                assert(self.constructors.deep_view() =~= before.push(c.deep_view()));
            }
            i = i + 1;
        }
        proof {
            assert(cs.skip(child.constructors@.len() as int) =~= Seq::<MethodModel>::empty());
        }
        let ghost fs = child.fields.deep_view();
        let ghost fgoal = apply_fields(start.fields, fs);
        let ghost cdone = self.constructors.deep_view();
        proof {
            assert(fs.skip(0) =~= fs);
        }
        let mut i: usize = 0;
        while i < child.fields.len()
            invariant
                i <= child.fields@.len(),
                fs == child.fields.deep_view(),
                start == old(self).deep_view(),
                apply_model(start, child.deep_view()) is Some,
                cdone == apply_constructors(start.constructors, child.constructors.deep_view())->Some_0,
                fgoal == apply_fields(start.fields, fs),
                fgoal == apply_fields(self.fields.deep_view(), fs.skip(i as int)),
                self.deep_view() == (ClassModel {
                    constructors: cdone,
                    fields: self.fields.deep_view(),
                    ..start
                }),
            decreases child.fields@.len() - i,
        {
            let f = &child.fields[i];
            proof {
                assert(fs[i as int] == f.deep_view());
                assert(fs.skip(i as int)[0] == f.deep_view());
                assert(fs.skip(i as int).drop_first() =~= fs.skip(i + 1));
            }
            remove_fields(&mut self.fields, f);
            let ghost before = self.fields.deep_view();
            self.fields.push(f.clone());
            proof {
                assert(self.fields.deep_view() =~= before.push(f.deep_view()));
            }
            i = i + 1;
        }
        proof {
            assert(fs.skip(child.fields@.len() as int) =~= Seq::<FieldModel>::empty());
        }
        let ghost ms = child.methods.deep_view();
        let ghost mgoal = apply_methods(start.methods, ms);
        let ghost fdone = self.fields.deep_view();
        proof {
            assert(ms.skip(0) =~= ms);
        }
        let mut i: usize = 0;
        while i < child.methods.len()
            invariant
                i <= child.methods@.len(),
                ms == child.methods.deep_view(),
                start == old(self).deep_view(),
                apply_model(start, child.deep_view()) is Some,
                cdone == apply_constructors(start.constructors, child.constructors.deep_view())->Some_0,
                fdone == apply_fields(start.fields, child.fields.deep_view())->Some_0,
                mgoal == apply_methods(start.methods, ms),
                mgoal == apply_methods(self.methods.deep_view(), ms.skip(i as int)),
                self.deep_view() == (ClassModel {
                    constructors: cdone,
                    fields: fdone,
                    methods: self.methods.deep_view(),
                    ..start
                }),
            decreases child.methods@.len() - i,
        {
            let m = &child.methods[i];
            proof {
                assert(ms[i as int] == m.deep_view());
                assert(ms.skip(i as int)[0] == m.deep_view());
                assert(ms.skip(i as int).drop_first() =~= ms.skip(i + 1));
            }
            let r = remove_overridden(&mut self.methods, m);
            if r.is_err() {
                return r;
            }
            let ghost before = self.methods.deep_view();
            self.methods.push(m.clone());
            proof {
                assert(self.methods.deep_view() =~= before.push(m.deep_view()));
            }
            i = i + 1;
        }
        proof {
            assert(ms.skip(child.methods@.len() as int) =~= Seq::<MethodModel>::empty());
        }
        self.extends = clone_nodes(&child.extends);
        self.implements = clone_nodes(&child.implements);
        self.imports = clone_imports(&child.imports);
        self.modifiers = clone_nodes(&child.modifiers);
        Ok(())
    }

    /// Inherits from `parent`: its constructors, renamed to this type (one
    /// equal to an existing constructor removes it, by the index it had
    /// before the pass, and is added; one of the same
    /// signature conflicts), its fields, and its methods (a concrete method
    /// may implement an abstract one; otherwise methods of the same signature
    /// conflict). An interface inherits the methods of `java.lang.Object` as
    /// abstract methods.
    pub fn inherit(&mut self, parent: &ClassOrInterfaceEnvironment) -> (r: Result<(), String>)
        requires
            inherit_model(old(self).deep_view(), parent.deep_view()) is Some,
        ensures
            r is Ok <==> inherit_model(old(self).deep_view(), parent.deep_view())->Some_0 is Ok,
            final(self).deep_view() == state_of(
                inherit_model(old(self).deep_view(), parent.deep_view())->Some_0,
            ),
    {
        let ghost start = self.deep_view();
        let ghost cs = parent.constructors.deep_view();
        let ghost cgoal = inherit_constructors(start.constructors, cs, start.name);
        proof {
            assert(cs.skip(0) =~= cs);
        }
        let mut i: usize = 0;
        while i < parent.constructors.len()
            invariant
                i <= parent.constructors@.len(),
                cs == parent.constructors.deep_view(),
                start == old(self).deep_view(),
                inherit_model(start, parent.deep_view()) is Some,
                cgoal == inherit_constructors(start.constructors, cs, start.name),
                cgoal == inherit_constructors(self.constructors.deep_view(), cs.skip(i as int), start.name),
                self.deep_view() == (ClassModel { constructors: self.constructors.deep_view(), ..start }),
            decreases parent.constructors@.len() - i,
        {
            let c = &parent.constructors[i];
            proof {
                assert(cs[i as int] == c.deep_view());
                assert(cs.skip(i as int)[0] == c.deep_view());
                assert(cs.skip(i as int).drop_first() =~= cs.skip(i + 1));
            }
            let mut inh = c.clone();
            inh.name = self.name.clone();
            proof {
                assert(inh.deep_view() == MethodModel { name: start.name, ..cs[i as int] });
            }
            let r = remove_inherited(&mut self.constructors, &inh);
            if r.is_err() {
                return r;
            }
            let ghost before = self.constructors.deep_view();
            let ghost id = inh.deep_view();
            self.constructors.push(inh);
            proof {
                assert(self.constructors.deep_view() =~= before.push(id));
            }
            i = i + 1;
        }
        proof {
            assert(cs.skip(parent.constructors@.len() as int) =~= Seq::<MethodModel>::empty());
        }
        let ghost cdone = self.constructors.deep_view();
        let mut i: usize = 0;
        while i < parent.fields.len()
            invariant
                i <= parent.fields@.len(),
                start == old(self).deep_view(),
                inherit_model(start, parent.deep_view()) is Some,
                cdone == inherit_constructors(start.constructors, parent.constructors.deep_view(), start.name)->Some_0->Ok_0,
                self.deep_view() == (ClassModel {
                    constructors: cdone,
                    fields: start.fields + parent.fields.deep_view().take(i as int),
                    ..start
                }),
            decreases parent.fields@.len() - i,
        {
            let ghost before = self.fields.deep_view();
            let f = parent.fields[i].clone();
            self.fields.push(f);
            proof {
                assert(self.fields.deep_view() =~= before.push(parent.fields@[i as int].deep_view()));
                assert(parent.fields.deep_view().take(i + 1) =~= parent.fields.deep_view().take(i as int).push(
                    parent.fields@[i as int].deep_view(),
                ));
                assert(self.fields.deep_view() =~= start.fields + parent.fields.deep_view().take(i + 1));
            }
            i = i + 1;
        }
        proof {
            assert(parent.fields.deep_view().take(parent.fields@.len() as int) =~= parent.fields.deep_view());
        }
        let ghost c1 = self.deep_view();
        if self.kind == ClassOrInterface::INTERFACE && parent.name.equals(&object_name()) {
            let mut i: usize = 0;
            while i < parent.methods.len()
                invariant
                    i <= parent.methods@.len(),
                    self.deep_view() == (ClassModel {
                        methods: c1.methods + parent.methods.deep_view().take(i as int).map_values(
                            |m: MethodModel| as_abstract(m),
                        ),
                        ..c1
                    }),
                decreases parent.methods@.len() - i,
            {
                let ghost before = self.methods.deep_view();
                let mut inh = parent.methods[i].clone();
                inh.modifiers.push(ASTNode::leaf(TokenKind::Abstract));
                proof {
                    assert(inh.modifiers.deep_view() =~= parent.methods@[i as int].modifiers.deep_view().push(
                        leaf_model(TokenKind::Abstract),
                    ));
                    assert(inh.deep_view() == as_abstract(parent.methods@[i as int].deep_view()));
                }
                let ghost id = inh.deep_view();
                self.methods.push(inh);
                proof {
                    assert(self.methods.deep_view() =~= before.push(id));
                    assert(parent.methods.deep_view().take(i + 1).map_values(|m: MethodModel| as_abstract(m))
                        =~= parent.methods.deep_view().take(i as int).map_values(
                        |m: MethodModel| as_abstract(m),
                    ).push(id));
                }
                i = i + 1;
            }
            proof {
                assert(parent.methods.deep_view().take(parent.methods@.len() as int) =~= parent.methods.deep_view());
            }
            return Ok(());
        }
        let ghost ms = parent.methods.deep_view();
        let ghost mgoal = inherit_methods(c1.methods, ms);
        let ghost outcome = match mgoal {
            Ok(m) => Ok(ClassModel { methods: m, ..c1 }),
            Err(m) => Err(ClassModel { methods: m, ..c1 }),
        };
        proof {
            assert(ms.skip(0) =~= ms);
            assert(inherit_model(start, parent.deep_view()) == Some(outcome));
        }
        let mut i: usize = 0;
        while i < parent.methods.len()
            invariant
                i <= parent.methods@.len(),
                ms == parent.methods.deep_view(),
                mgoal == inherit_methods(c1.methods, ms),
                mgoal == inherit_methods(self.methods.deep_view(), ms.skip(i as int)),
                start == old(self).deep_view(),
                inherit_model(start, parent.deep_view()) == Some(outcome),
                outcome == (match mgoal {
                    Ok(m) => Ok(ClassModel { methods: m, ..c1 }),
                    Err(m) => Err(ClassModel { methods: m, ..c1 }),
                }),
                self.deep_view() == (ClassModel { methods: self.methods.deep_view(), ..c1 }),
            decreases parent.methods@.len() - i,
        {
            let m = &parent.methods[i];
            proof {
                assert(ms[i as int] == m.deep_view());
                assert(ms.skip(i as int)[0] == m.deep_view());
                assert(ms.skip(i as int).drop_first() =~= ms.skip(i + 1));
            }
            match check_inherited_method(&self.methods, m) {
                Ok(twice) => {
                    let ghost before = self.methods.deep_view();
                    if twice {
                        self.methods.push(m.clone());
                    }
                    self.methods.push(m.clone());
                    proof {
                        if twice {
                            assert(self.methods.deep_view() =~= before.push(m.deep_view()).push(m.deep_view()));
                        } else {
                            assert(self.methods.deep_view() =~= before.push(m.deep_view()));
                        }
                    }
                },
                Err(e) => {
                    return Err(e);
                },
            }
            i = i + 1;
        }
        proof {
            assert(ms.skip(parent.methods@.len() as int) =~= Seq::<MethodModel>::empty());
        }
        Ok(())
    }
}

} // verus!
