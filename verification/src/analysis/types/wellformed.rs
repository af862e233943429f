//! Checking the hierarchy keeps a well-formed program well-formed: every
//! type that the checks and the building from supertypes produce is made of
//! the names, members and bodies that were there.
use vstd::prelude::*;

use crate::analysis::environment::classorinterface::{class_new, ClassModel, ClassOrInterface};
use crate::analysis::environment::field::FieldModel;
use crate::analysis::environment::hierarchy::{apply_constructors, apply_fields, apply_methods, apply_model, as_abstract, inherit_constructors, inherit_methods, inherit_model, sweep_constructors, sweep_fields, sweep_inherited, sweep_overridden};
use crate::analysis::environment::method::MethodModel;
use crate::analysis::types::inheritance::{build_class, inherit_parents};
use crate::analysis::types::lookup::array::length_field;
use crate::analysis::types::lookup::class::{class_ok, deep_ok, in_env_model, lemma_in_env_deep_ok, lookup_model, method_ok, on_demand, scan_demand, scan_demand_kinds, scan_named, scan_package, step0_from, step2_from, in_package};
use crate::analysis::types::members::{bodies_ok, class_wf, program_wf};
use crate::analysis::types::{class_extends_check, inheritable_class, inheritable_from, inheritable_model, rebuild_from, rebuild_model, with_parent, kinds_of};
use crate::analysis::types::inheritance::hierarchy_model;
use crate::ast::{lemma_types_ok, type_ok, NodeModel};

verus! {

/// A method with well-formed names and body.
pub open spec fn method_wf(m: MethodModel) -> bool {
    method_ok(m) && (m.body matches Some(b) ==> type_ok(b))
}

/// A field with well-formed names and initial value.
pub open spec fn field_wf(f: FieldModel) -> bool {
    type_ok(f.kind) && type_ok(f.name) && (f.value matches Some(v) ==> type_ok(v))
}

/// Every method of a list is well-formed.
pub open spec fn methods_wf(s: Seq<MethodModel>) -> bool {
    forall|i: int| 0 <= i < s.len() ==> method_wf(#[trigger] s[i])
}

/// Every field of a list is well-formed.
pub open spec fn fields_wf(s: Seq<FieldModel>) -> bool {
    forall|i: int| 0 <= i < s.len() ==> field_wf(#[trigger] s[i])
}

/// A class is well-formed exactly when its names are and each of its
/// members is.
pub proof fn lemma_class_wf(c: ClassModel)
    ensures
        class_wf(c) <==> (class_ok(c) && fields_wf(c.fields) && methods_wf(c.methods) && methods_wf(c.constructors)),
{
    if class_wf(c) {
        assert forall|i: int| 0 <= i < c.fields.len() implies field_wf(#[trigger] c.fields[i]) by {
            assert(type_ok(c.fields[i].kind));
        }
        assert forall|i: int| 0 <= i < c.methods.len() implies method_wf(#[trigger] c.methods[i]) by {
            assert(method_ok(c.methods[i]));
        }
        assert forall|i: int| 0 <= i < c.constructors.len() implies method_wf(#[trigger] c.constructors[i]) by {
            assert(method_ok(c.constructors[i]));
        }
    }
    if class_ok(c) && fields_wf(c.fields) && methods_wf(c.methods) && methods_wf(c.constructors) {
        assert forall|i: int| 0 <= i < c.fields.len() implies type_ok(#[trigger] c.fields[i].kind) && type_ok(
            c.fields[i].name,
        ) by {
            assert(field_wf(c.fields[i]));
        }
        assert forall|i: int| 0 <= i < c.methods.len() implies method_ok(#[trigger] c.methods[i]) by {
            assert(method_wf(c.methods[i]));
        }
        assert forall|i: int| 0 <= i < c.constructors.len() implies method_ok(#[trigger] c.constructors[i]) by {
            assert(method_wf(c.constructors[i]));
        }
        assert forall|i: int| 0 <= i < c.constructors.len() implies ((#[trigger] c.constructors[i]).body matches Some(
            b,
        ) ==> type_ok(b)) by {
            assert(method_wf(c.constructors[i]));
        }
        assert forall|i: int| 0 <= i < c.methods.len() implies ((#[trigger] c.methods[i]).body matches Some(b)
            ==> type_ok(b)) by {
            assert(method_wf(c.methods[i]));
        }
        assert forall|i: int| 0 <= i < c.fields.len() implies ((#[trigger] c.fields[i]).value matches Some(v)
            ==> type_ok(v)) by {
            assert(field_wf(c.fields[i]));
        }
    }
}

proof fn lemma_methods_remove(s: Seq<MethodModel>, i: int)
    requires
        methods_wf(s),
        0 <= i < s.len(),
    ensures
        methods_wf(s.remove(i)),
{
    assert forall|j: int| 0 <= j < s.remove(i).len() implies method_wf(#[trigger] s.remove(i)[j]) by {
        if j < i {
            assert(s.remove(i)[j] == s[j]);
        } else {
            assert(s.remove(i)[j] == s[j + 1]);
        }
    }
}

proof fn lemma_fields_remove(s: Seq<FieldModel>, i: int)
    requires
        fields_wf(s),
        0 <= i < s.len(),
    ensures
        fields_wf(s.remove(i)),
{
    assert forall|j: int| 0 <= j < s.remove(i).len() implies field_wf(#[trigger] s.remove(i)[j]) by {
        if j < i {
            assert(s.remove(i)[j] == s[j]);
        } else {
            assert(s.remove(i)[j] == s[j + 1]);
        }
    }
}

proof fn lemma_methods_push(s: Seq<MethodModel>, m: MethodModel)
    requires
        methods_wf(s),
        method_wf(m),
    ensures
        methods_wf(s.push(m)),
{
    assert forall|j: int| 0 <= j < s.push(m).len() implies method_wf(#[trigger] s.push(m)[j]) by {
        if j < s.len() {
            assert(s.push(m)[j] == s[j]);
        }
    }
}

proof fn lemma_fields_push(s: Seq<FieldModel>, f: FieldModel)
    requires
        fields_wf(s),
        field_wf(f),
    ensures
        fields_wf(s.push(f)),
{
    assert forall|j: int| 0 <= j < s.push(f).len() implies field_wf(#[trigger] s.push(f)[j]) by {
        if j < s.len() {
            assert(s.push(f)[j] == s[j]);
        }
    }
}

proof fn lemma_methods_tail(s: Seq<MethodModel>)
    requires
        methods_wf(s),
        s.len() > 0,
    ensures
        methods_wf(s.drop_first()),
        method_wf(s[0]),
{
    assert forall|j: int| 0 <= j < s.drop_first().len() implies method_wf(#[trigger] s.drop_first()[j]) by {
        assert(s.drop_first()[j] == s[j + 1]);
    }
}

proof fn lemma_fields_tail(s: Seq<FieldModel>)
    requires
        fields_wf(s),
        s.len() > 0,
    ensures
        fields_wf(s.drop_first()),
        field_wf(s[0]),
{
    assert forall|j: int| 0 <= j < s.drop_first().len() implies field_wf(#[trigger] s.drop_first()[j]) by {
        assert(s.drop_first()[j] == s[j + 1]);
    }
}

proof fn lemma_methods_concat(a: Seq<MethodModel>, b: Seq<MethodModel>)
    requires
        methods_wf(a),
        methods_wf(b),
    ensures
        methods_wf(a + b),
{
    assert forall|j: int| 0 <= j < (a + b).len() implies method_wf(#[trigger] (a + b)[j]) by {
        if j < a.len() {
            assert((a + b)[j] == a[j]);
        } else {
            assert((a + b)[j] == b[j - a.len()]);
        }
    }
}

proof fn lemma_fields_concat(a: Seq<FieldModel>, b: Seq<FieldModel>)
    requires
        fields_wf(a),
        fields_wf(b),
    ensures
        fields_wf(a + b),
{
    assert forall|j: int| 0 <= j < (a + b).len() implies field_wf(#[trigger] (a + b)[j]) by {
        if j < a.len() {
            assert((a + b)[j] == a[j]);
        } else {
            assert((a + b)[j] == b[j - a.len()]);
        }
    }
}

proof fn lemma_sweep_constructors(cur: Seq<MethodModel>, snap: Seq<MethodModel>, idx: int, sig: Seq<(NodeModel, bool)>)
    requires
        methods_wf(cur),
    ensures
        sweep_constructors(cur, snap, idx, sig) matches Some(r) ==> methods_wf(r),
    decreases snap.len() - idx,
{
    if 0 <= idx < snap.len() {
        if crate::analysis::environment::variable::signature(snap[idx].parameters) == sig {
            if idx < cur.len() {
                lemma_methods_remove(cur, idx);
                lemma_sweep_constructors(cur.remove(idx), snap, idx + 1, sig);
            }
        } else {
            lemma_sweep_constructors(cur, snap, idx + 1, sig);
        }
    }
}

proof fn lemma_sweep_fields(cur: Seq<FieldModel>, snap: Seq<FieldModel>, idx: int, name: NodeModel)
    requires
        fields_wf(cur),
    ensures
        sweep_fields(cur, snap, idx, name) matches Some(r) ==> fields_wf(r),
    decreases snap.len() - idx,
{
    if 0 <= idx < snap.len() {
        if snap[idx].name == name {
            if idx < cur.len() {
                lemma_fields_remove(cur, idx);
                lemma_sweep_fields(cur.remove(idx), snap, idx + 1, name);
            }
        } else {
            lemma_sweep_fields(cur, snap, idx + 1, name);
        }
    }
}

/// Both outcomes of a pass over methods, by their well-formedness.
pub open spec fn outcome_wf(r: Option<Result<Seq<MethodModel>, Seq<MethodModel>>>) -> bool {
    match r {
        Some(Ok(s)) => methods_wf(s),
        Some(Err(s)) => methods_wf(s),
        None => true,
    }
}

proof fn lemma_sweep_overridden(cur: Seq<MethodModel>, snap: Seq<MethodModel>, idx: int, m: MethodModel)
    requires
        methods_wf(cur),
    ensures
        outcome_wf(sweep_overridden(cur, snap, idx, m)),
    decreases snap.len() - idx,
{
    if 0 <= idx < snap.len() {
        if crate::analysis::environment::hierarchy::same_method_signature(m, snap[idx]) {
            if !crate::analysis::environment::hierarchy::override_error(m, snap[idx]) && idx < cur.len() {
                lemma_methods_remove(cur, idx);
                lemma_sweep_overridden(cur.remove(idx), snap, idx + 1, m);
            }
        } else {
            lemma_sweep_overridden(cur, snap, idx + 1, m);
        }
    }
}

proof fn lemma_sweep_inherited(cur: Seq<MethodModel>, snap: Seq<MethodModel>, idx: int, inh: MethodModel)
    requires
        methods_wf(cur),
    ensures
        outcome_wf(sweep_inherited(cur, snap, idx, inh)),
    decreases snap.len() - idx,
{
    if 0 <= idx < snap.len() {
        if crate::analysis::environment::hierarchy::same_method(inh, snap[idx]) {
            if idx < cur.len() {
                lemma_methods_remove(cur, idx);
                lemma_sweep_inherited(cur.remove(idx), snap, idx + 1, inh);
            }
        } else {
            lemma_sweep_inherited(cur, snap, idx + 1, inh);
        }
    }
}

proof fn lemma_apply_constructors(cur: Seq<MethodModel>, cs: Seq<MethodModel>)
    requires
        methods_wf(cur),
        methods_wf(cs),
    ensures
        apply_constructors(cur, cs) matches Some(r) ==> methods_wf(r),
    decreases cs.len(),
{
    if cs.len() > 0 {
        lemma_methods_tail(cs);
        let sig = crate::analysis::environment::variable::signature(cs[0].parameters);
        lemma_sweep_constructors(cur, cur, 0, sig);
        if let Some(s) = sweep_constructors(cur, cur, 0, sig) {
            lemma_methods_push(s, cs[0]);
            lemma_apply_constructors(s.push(cs[0]), cs.drop_first());
        }
    }
}

proof fn lemma_apply_fields(cur: Seq<FieldModel>, fs: Seq<FieldModel>)
    requires
        fields_wf(cur),
        fields_wf(fs),
    ensures
        apply_fields(cur, fs) matches Some(r) ==> fields_wf(r),
    decreases fs.len(),
{
    if fs.len() > 0 {
        lemma_fields_tail(fs);
        lemma_sweep_fields(cur, cur, 0, fs[0].name);
        if let Some(s) = sweep_fields(cur, cur, 0, fs[0].name) {
            lemma_fields_push(s, fs[0]);
            lemma_apply_fields(s.push(fs[0]), fs.drop_first());
        }
    }
}

proof fn lemma_apply_methods(cur: Seq<MethodModel>, ms: Seq<MethodModel>)
    requires
        methods_wf(cur),
        methods_wf(ms),
    ensures
        outcome_wf(apply_methods(cur, ms)),
    decreases ms.len(),
{
    if ms.len() > 0 {
        lemma_methods_tail(ms);
        lemma_sweep_overridden(cur, cur, 0, ms[0]);
        if let Some(Ok(s)) = sweep_overridden(cur, cur, 0, ms[0]) {
            lemma_methods_push(s, ms[0]);
            lemma_apply_methods(s.push(ms[0]), ms.drop_first());
        }
    }
}

proof fn lemma_inherit_constructors(cur: Seq<MethodModel>, cs: Seq<MethodModel>, name: NodeModel)
    requires
        methods_wf(cur),
        methods_wf(cs),
        type_ok(name),
    ensures
        outcome_wf(inherit_constructors(cur, cs, name)),
    decreases cs.len(),
{
    if cs.len() > 0 {
        lemma_methods_tail(cs);
        let inh = MethodModel { name, ..cs[0] };
        assert(method_wf(inh));
        lemma_sweep_inherited(cur, cur, 0, inh);
        if let Some(Ok(s)) = sweep_inherited(cur, cur, 0, inh) {
            lemma_methods_push(s, inh);
            lemma_inherit_constructors(s.push(inh), cs.drop_first(), name);
        }
    }
}

proof fn lemma_inherit_methods(cur: Seq<MethodModel>, ms: Seq<MethodModel>)
    requires
        methods_wf(cur),
        methods_wf(ms),
    ensures
        match inherit_methods(cur, ms) {
            Ok(s) => methods_wf(s),
            Err(s) => methods_wf(s),
        },
    decreases ms.len(),
{
    if ms.len() > 0 {
        lemma_methods_tail(ms);
        if let Ok(twice) = crate::analysis::environment::hierarchy::inherit_check(cur, 0, ms[0]) {
            let c = if twice {
                cur.push(ms[0])
            } else {
                cur
            };
            lemma_methods_push(cur, ms[0]);
            lemma_methods_push(c, ms[0]);
            lemma_inherit_methods(c.push(ms[0]), ms.drop_first());
        }
    }
}

proof fn lemma_abstract_all(ms: Seq<MethodModel>)
    requires
        methods_wf(ms),
    ensures
        methods_wf(ms.map_values(|m: MethodModel| as_abstract(m))),
{
    let a = ms.map_values(|m: MethodModel| as_abstract(m));
    assert forall|j: int| 0 <= j < a.len() implies method_wf(#[trigger] a[j]) by {
        assert(a[j] == as_abstract(ms[j]));
        assert(method_wf(ms[j]));
    }
}

/// Both outcomes of a step on a class, by their well-formedness.
pub open spec fn class_outcome_wf(r: Option<Result<ClassModel, ClassModel>>) -> bool {
    match r {
        Some(Ok(c)) => class_wf(c),
        Some(Err(c)) => class_wf(c),
        None => true,
    }
}

/// Inheriting from a well-formed parent keeps a class well-formed.
pub proof fn lemma_inherit_model(c: ClassModel, parent: ClassModel)
    requires
        class_wf(c),
        class_wf(parent),
    ensures
        class_outcome_wf(inherit_model(c, parent)),
{
    lemma_class_wf(c);
    lemma_class_wf(parent);
    lemma_inherit_constructors(c.constructors, parent.constructors, c.name);
    lemma_fields_concat(c.fields, parent.fields);
    lemma_abstract_all(parent.methods);
    lemma_methods_concat(c.methods, parent.methods.map_values(|m: MethodModel| as_abstract(m)));
    match inherit_constructors(c.constructors, parent.constructors, c.name) {
        Some(Err(cs)) => {
            lemma_class_wf(ClassModel { constructors: cs, ..c });
        },
        Some(Ok(cs)) => {
            let c1 = ClassModel { constructors: cs, fields: c.fields + parent.fields, ..c };
            lemma_inherit_methods(c1.methods, parent.methods);
            lemma_class_wf(ClassModel {
                methods: c1.methods + parent.methods.map_values(|m: MethodModel| as_abstract(m)),
                ..c1
            });
            match inherit_methods(c1.methods, parent.methods) {
                Ok(ms) => lemma_class_wf(ClassModel { methods: ms, ..c1 }),
                Err(ms) => lemma_class_wf(ClassModel { methods: ms, ..c1 }),
            }
        },
        None => {},
    }
}

/// Applying a well-formed child's declarations keeps a class well-formed.
pub proof fn lemma_apply_model(c: ClassModel, child: ClassModel)
    requires
        class_wf(c),
        class_wf(child),
    ensures
        class_outcome_wf(apply_model(c, child)),
{
    lemma_class_wf(c);
    lemma_class_wf(child);
    lemma_apply_constructors(c.constructors, child.constructors);
    lemma_apply_fields(c.fields, child.fields);
    lemma_apply_methods(c.methods, child.methods);
    if let Some(cs) = apply_constructors(c.constructors, child.constructors) {
        if let Some(fs) = apply_fields(c.fields, child.fields) {
            match apply_methods(c.methods, child.methods) {
                Some(Err(ms)) => lemma_class_wf(ClassModel { constructors: cs, fields: fs, methods: ms, ..c }),
                Some(Ok(ms)) => lemma_class_wf(ClassModel {
                    constructors: cs,
                    fields: fs,
                    methods: ms,
                    extends: child.extends,
                    implements: child.implements,
                    imports: child.imports,
                    modifiers: child.modifiers,
                    ..c
                }),
                None => {},
            }
        }
    }
}

proof fn lemma_step0_in(n: NodeModel, current: ClassModel, kinds: Seq<ClassModel>, i: int)
    ensures
        step0_from(n, current, kinds, i) matches Some(Ok(k)) ==> kinds.contains(k),
    decreases kinds.len() - i,
{
    if 0 <= i < kinds.len() {
        if kinds[i].name == n {
            assert(kinds[i] == kinds[i]);
        } else {
            lemma_step0_in(n, current, kinds, i + 1);
        }
    }
}

proof fn lemma_scan_named_in(kinds: Seq<ClassModel>, name: NodeModel, i: int, found: Option<ClassModel>)
    requires
        found matches Some(f) ==> kinds.contains(f),
    ensures
        scan_named(kinds, name, i, found) matches Ok(Some(k)) ==> kinds.contains(k),
    decreases kinds.len() - i,
{
    if 0 <= i < kinds.len() {
        if kinds[i].name == name {
            if found is None {
                lemma_scan_named_in(kinds, name, i + 1, Some(kinds[i]));
            }
        } else {
            lemma_scan_named_in(kinds, name, i + 1, found);
        }
    }
}

proof fn lemma_step2_in(n: NodeModel, current: ClassModel, kinds: Seq<ClassModel>, j: int)
    ensures
        step2_from(n, current, kinds, j) matches Some(Ok(k)) ==> kinds.contains(k),
    decreases current.imports.len() - j,
{
    if 0 <= j < current.imports.len() {
        lemma_scan_named_in(kinds, current.imports[j], 0, None);
        lemma_step2_in(n, current, kinds, j + 1);
    }
}

proof fn lemma_scan_package_in(kinds: Seq<ClassModel>, current: ClassModel, n: NodeModel, i: int, found: Option<ClassModel>)
    requires
        found matches Some(f) ==> kinds.contains(f),
    ensures
        scan_package(kinds, current, n, i, found) matches Ok(Some(k)) ==> kinds.contains(k),
    decreases kinds.len() - i,
{
    if 0 <= i < kinds.len() {
        if in_package(kinds[i], current, n) {
            if found is None {
                lemma_scan_package_in(kinds, current, n, i + 1, Some(kinds[i]));
            }
        } else {
            lemma_scan_package_in(kinds, current, n, i + 1, found);
        }
    }
}

proof fn lemma_scan_demand_kinds_in(imp: NodeModel, kinds: Seq<ClassModel>, n: NodeModel, i: int, found: Option<ClassModel>)
    requires
        found matches Some(f) ==> kinds.contains(f),
    ensures
        scan_demand_kinds(imp, kinds, n, i, found) matches Ok(Some(k)) ==> kinds.contains(k),
    decreases kinds.len() - i,
{
    if 0 <= i < kinds.len() {
        if on_demand(imp, kinds[i], n) {
            if found is None {
                lemma_scan_demand_kinds_in(imp, kinds, n, i + 1, Some(kinds[i]));
            }
        } else {
            lemma_scan_demand_kinds_in(imp, kinds, n, i + 1, found);
        }
    }
}

proof fn lemma_scan_demand_in(imports: Seq<NodeModel>, kinds: Seq<ClassModel>, n: NodeModel, j: int, found: Option<ClassModel>)
    requires
        found matches Some(f) ==> kinds.contains(f),
    ensures
        scan_demand(imports, kinds, n, j, found) matches Ok(Some(k)) ==> kinds.contains(k),
    decreases imports.len() - j,
{
    if 0 <= j < imports.len() {
        lemma_scan_demand_kinds_in(imports[j], kinds, n, 0, found);
        match scan_demand_kinds(imports[j], kinds, n, 0, found) {
            Ok(f) => lemma_scan_demand_in(imports, kinds, n, j + 1, f),
            Err(_) => {},
        }
    }
}

/// What a type name resolves to in a well-formed program is well-formed,
/// bodies included.
pub proof fn lemma_in_env_wf(name: NodeModel, current: ClassModel, kinds: Seq<ClassModel>)
    requires
        type_ok(name),
        class_wf(current),
        program_wf(kinds),
    ensures
        in_env_model(name, current, kinds) matches Ok(c) ==> class_wf(c),
{
    assert forall|i: int| 0 <= i < kinds.len() implies deep_ok(#[trigger] kinds[i]) by {
        assert(class_wf(kinds[i]));
    }
    lemma_in_env_deep_ok(name, current, kinds);
    let n = crate::ast::flatten(name);
    if let Ok(c) = in_env_model(name, current, kinds) {
        if n.token.lexeme == Some("ArrayType"@) {
            assert(c.fields =~= seq![length_field()]);
            assert(bodies_ok(c));
        } else if c == class_new(n, ClassOrInterface::CLASS) {
            assert(bodies_ok(c));
        } else {
            lemma_step0_in(n, current, kinds, 0);
            lemma_step2_in(n, current, kinds, 0);
            lemma_scan_package_in(kinds, current, n, 0, None);
            lemma_scan_demand_in(current.imports, kinds, n, 0, None);
            assert(lookup_model(n, current, kinds) == Ok::<ClassModel, ()>(c));
            if c != current {
                assert(kinds.contains(c));
                let j = choose|j: int| 0 <= j < kinds.len() && kinds[j] == c;
                assert(class_wf(kinds[j]));
            }
        }
    }
}

/// Building a class from its supertypes, in a well-formed program, gives a
/// well-formed class.
pub proof fn lemma_build_class(kinds: Seq<ClassModel>, current: ClassModel, visited: Seq<NodeModel>, fuel: nat)
    requires
        program_wf(kinds),
        class_wf(current),
    ensures
        build_class(kinds, current, visited, fuel) matches Some(Ok(c)) ==> class_wf(c),
    decreases fuel, 1int, 0int,
{
    if fuel > 0 && !visited.contains(current.name) {
        let vis = visited.push(current.name);
        let child = class_new(current.name, current.kind);
        assert(class_wf(child)) by {
            assert(child.extends =~= Seq::<NodeModel>::empty());
            assert(child.implements =~= Seq::<NodeModel>::empty());
        }
        lemma_types_ok(current.implements);
        lemma_types_ok(current.extends);
        lemma_inherit_parents(kinds, current, child, current.implements, Seq::empty(), (fuel - 1) as nat);
        if let Some(Ok(c1)) = inherit_parents(kinds, current, child, current.implements, Seq::empty(), (fuel - 1) as nat) {
            lemma_inherit_parents(kinds, current, c1, current.extends, vis, (fuel - 1) as nat);
            if let Some(Ok(c2)) = inherit_parents(kinds, current, c1, current.extends, vis, (fuel - 1) as nat) {
                lemma_apply_model(c2, current);
            }
        }
    }
}

/// Inheriting from the supertypes `names`, in a well-formed program, keeps
/// a class well-formed.
pub proof fn lemma_inherit_parents(
    kinds: Seq<ClassModel>,
    current: ClassModel,
    child: ClassModel,
    names: Seq<NodeModel>,
    visited: Seq<NodeModel>,
    fuel: nat,
)
    requires
        program_wf(kinds),
        class_wf(current),
        class_wf(child),
        forall|i: int| 0 <= i < names.len() ==> type_ok(#[trigger] names[i]),
    ensures
        inherit_parents(kinds, current, child, names, visited, fuel) matches Some(Ok(c)) ==> class_wf(c),
    decreases fuel, 2int, names.len(),
{
    if names.len() > 0 {
        lemma_in_env_wf(names[0], current, kinds);
        if let Ok(found) = in_env_model(names[0], current, kinds) {
            lemma_build_class(kinds, found, visited, fuel);
            if let Some(Ok(parent)) = build_class(kinds, found, visited, fuel) {
                lemma_inherit_model(child, parent);
                if let Some(Ok(c)) = inherit_model(child, parent) {
                    assert forall|i: int| 0 <= i < names.drop_first().len() implies type_ok(
                        #[trigger] names.drop_first()[i],
                    ) by {
                        assert(names.drop_first()[i] == names[i + 1]);
                    }
                    lemma_inherit_parents(kinds, current, c, names.drop_first(), visited, fuel);
                }
            }
        }
    }
}

/// Rebuilding the types of a well-formed program keeps it well-formed.
pub proof fn lemma_rebuild_from(old: Seq<ClassModel>, i: int, acc: Seq<ClassModel>)
    requires
        program_wf(old),
        program_wf(acc),
    ensures
        match rebuild_from(old, i, acc) {
            Some(Ok(k)) => program_wf(k),
            Some(Err(k)) => program_wf(k),
            None => true,
        },
    decreases old.len() - i,
{
    if 0 <= i < old.len() {
        assert(class_wf(old[i]));
        lemma_build_class(old, old[i], Seq::empty(), crate::analysis::types::inheritance::DEPTH_LIMIT as nat);
        if let Some(Ok(c)) = hierarchy_model(old, old[i], Seq::empty()) {
            assert(program_wf(acc.push(c))) by {
                assert forall|j: int| 0 <= j < acc.push(c).len() implies class_wf(#[trigger] acc.push(c)[j]) by {
                    if j < acc.len() {
                        assert(acc.push(c)[j] == acc[j]);
                    }
                }
            }
            lemma_rebuild_from(old, i + 1, acc.push(c));
        }
    }
}

proof fn lemma_with_parent(cs: Seq<MethodModel>, p: NodeModel)
    requires
        methods_wf(cs),
    ensures
        methods_wf(with_parent(cs, p)),
{
    let w = with_parent(cs, p);
    assert forall|j: int| 0 <= j < w.len() implies method_wf(#[trigger] w[j]) by {
        assert(method_wf(cs[j]));
        assert(w[j] == MethodModel { parent: Some(p), ..cs[j] });
    }
}

proof fn lemma_class_extends(c: ClassModel, kinds: Seq<ClassModel>, names: Seq<NodeModel>)
    requires
        class_wf(c),
    ensures
        match class_extends_check(c, kinds, names) {
            Ok(x) => class_wf(x),
            Err(x) => class_wf(x),
        },
    decreases names.len(),
{
    if names.len() > 0 {
        if let Ok(found) = in_env_model(names[0], c, kinds) {
            if let Some(ctor) = crate::analysis::types::first_zero_arg(found.constructors, 0) {
                let p = crate::analysis::types::super_constructor_name(found, ctor);
                lemma_class_wf(c);
                lemma_with_parent(c.constructors, p);
                let c2 = ClassModel { constructors: with_parent(c.constructors, p), ..c };
                lemma_class_wf(c2);
                lemma_class_extends(c2, kinds, names.drop_first());
            }
            lemma_class_extends(c, kinds, names.drop_first());
        }
    }
}

proof fn lemma_inheritable_from(kinds: Seq<ClassModel>, cur: Seq<ClassModel>, i: int)
    requires
        program_wf(cur),
    ensures
        match inheritable_from(kinds, cur, i) {
            Ok(k) => program_wf(k),
            Err(k) => program_wf(k),
        },
    decreases cur.len() - i,
{
    if 0 <= i < cur.len() {
        assert(class_wf(cur[i]));
        lemma_class_extends(cur[i], kinds, cur[i].extends);
        let c = match inheritable_class(cur[i], kinds) {
            Ok(c) => c,
            Err(c) => c,
        };
        assert(class_wf(c));
        assert(program_wf(cur.update(i, c))) by {
            assert forall|j: int| 0 <= j < cur.update(i, c).len() implies class_wf(#[trigger] cur.update(i, c)[j]) by {
                if j != i {
                    assert(cur.update(i, c)[j] == cur[j]);
                }
            }
        }
        if inheritable_class(cur[i], kinds) is Ok {
            lemma_inheritable_from(kinds, cur.update(i, c), i + 1);
        }
    }
}

/// Checking the hierarchy and building each type from its supertypes keeps
/// a well-formed program well-formed.
pub proof fn lemma_hierarchy_wf(ks: Seq<ClassModel>)
    requires
        program_wf(ks),
    ensures
        program_wf(kinds_of(inheritable_model(ks))),
        inheritable_model(ks) matches Ok(k1) ==> match rebuild_model(k1) {
            Some(r) => program_wf(kinds_of(r)),
            None => true,
        },
{
    lemma_inheritable_from(ks, ks, 0);
    if let Ok(k1) = inheritable_model(ks) {
        assert(program_wf(Seq::<ClassModel>::empty()));
        lemma_rebuild_from(k1, 0, Seq::empty());
    }
}

} // verus!
