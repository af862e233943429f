//! What applying a type's own declarations keeps: its header, and each of
//! its fields, constructors and methods as the only one of its name or
//! signature.
use vstd::prelude::*;

use crate::analysis::environment::classorinterface::ClassModel;
use crate::analysis::environment::field::FieldModel;
use crate::analysis::environment::hierarchy::{
    apply_constructors, apply_fields, apply_methods, apply_model, override_error, sweep_constructors,
    sweep_fields, sweep_overridden,
};
use crate::analysis::environment::method::MethodModel;
use crate::analysis::environment::variable::signature;
use crate::ast::NodeModel;

verus! {

/// No two fields share a name.
pub open spec fn field_names_distinct(fs: Seq<FieldModel>) -> bool {
    forall|i: int, j: int| 0 <= i < fs.len() && 0 <= j < fs.len() && i != j ==> #[trigger] fs[i].name != #[trigger] fs[j].name
}

/// No two constructors share a parameter signature.
pub open spec fn signatures_distinct(cs: Seq<MethodModel>) -> bool {
    forall|i: int, j: int|
        0 <= i < cs.len() && 0 <= j < cs.len() && i != j ==> signature(#[trigger] cs[i].parameters) != signature(
            #[trigger] cs[j].parameters,
        )
}

/// `f` is in `fs`, and no other field of `fs` has its name.
pub open spec fn sole_field(fs: Seq<FieldModel>, f: FieldModel) -> bool {
    &&& fs.contains(f)
    &&& forall|i: int| 0 <= i < fs.len() && (#[trigger] fs[i]).name == f.name ==> fs[i] == f
}

/// `c` is in `cs`, and no other constructor of `cs` has its signature.
pub open spec fn sole_constructor(cs: Seq<MethodModel>, c: MethodModel) -> bool {
    &&& cs.contains(c)
    &&& forall|i: int| 0 <= i < cs.len() && signature((#[trigger] cs[i]).parameters) == signature(c.parameters) ==> cs[i] == c
}

proof fn lemma_sweep_fields_after(cur: Seq<FieldModel>, snap: Seq<FieldModel>, idx: int, name: NodeModel, m: int)
    requires
        field_names_distinct(snap),
        0 <= m < idx <= snap.len(),
        snap[m].name == name,
        cur == snap.remove(m),
    ensures
        sweep_fields(cur, snap, idx, name) == Some(cur),
    decreases snap.len() - idx,
{
    if idx < snap.len() {
        assert(snap[idx].name != snap[m].name);
        lemma_sweep_fields_after(cur, snap, idx + 1, name, m);
    }
}

proof fn lemma_sweep_fields_before(snap: Seq<FieldModel>, idx: int, name: NodeModel)
    requires
        field_names_distinct(snap),
        0 <= idx <= snap.len(),
        forall|j: int| 0 <= j < idx ==> (#[trigger] snap[j]).name != name,
    ensures
        sweep_fields(snap, snap, idx, name) matches Some(r) && ((r == snap && (forall|j: int| 0 <= j < snap.len() ==> (#[trigger] snap[j]).name != name))
            || (exists|m: int| 0 <= m < snap.len() && snap[m].name == name && r == snap.remove(m))),
    decreases snap.len() - idx,
{
    if idx < snap.len() {
        if snap[idx].name == name {
            lemma_sweep_fields_after(snap.remove(idx), snap, idx + 1, name, idx);
            assert(sweep_fields(snap, snap, idx, name) == Some(snap.remove(idx)));
        } else {
            lemma_sweep_fields_before(snap, idx + 1, name);
        }
    }
}

/// Applying fields in turn: the result has distinct names, holds each
/// applied field, and keeps each earlier field whose name none of them has.
proof fn lemma_apply_fields(cur: Seq<FieldModel>, fs: Seq<FieldModel>)
    requires
        field_names_distinct(cur),
        field_names_distinct(fs),
    ensures
        apply_fields(cur, fs) matches Some(r) && field_names_distinct(r) && (forall|i: int| 0 <= i < fs.len() ==> r.contains(#[trigger] fs[i]))
            && (forall|x: FieldModel| cur.contains(x) && (forall|i: int| 0 <= i < fs.len() ==> (#[trigger] fs[i]).name != x.name) ==> r.contains(x)),
    decreases fs.len(),
{
    if fs.len() > 0 {
        let name = fs[0].name;
        lemma_sweep_fields_before(cur, 0, name);
        let s = sweep_fields(cur, cur, 0, name)->Some_0;
        assert forall|j: int| 0 <= j < s.len() implies (#[trigger] s[j]).name != name by {
            if !(s == cur && (forall|k: int| 0 <= k < cur.len() ==> (#[trigger] cur[k]).name != name)) {
                let m = choose|m: int| 0 <= m < cur.len() && cur[m].name == name && s == cur.remove(m);
                if j < m {
                    assert(s[j] == cur[j]);
                } else {
                    assert(s[j] == cur[j + 1]);
                }
            }
        }
        assert(field_names_distinct(s)) by {
            assert forall|i: int, j: int| 0 <= i < s.len() && 0 <= j < s.len() && i != j implies #[trigger] s[i].name != #[trigger] s[j].name by {
                if !(s == cur && (forall|k: int| 0 <= k < cur.len() ==> (#[trigger] cur[k]).name != name)) {
                    let m = choose|m: int| 0 <= m < cur.len() && cur[m].name == name && s == cur.remove(m);
                    let a = if i < m { i } else { i + 1 };
                    let b = if j < m { j } else { j + 1 };
                    assert(s[i] == cur[a]);
                    assert(s[j] == cur[b]);
                }
            }
        }
        let p = s.push(fs[0]);
        assert(field_names_distinct(p)) by {
            assert forall|i: int, j: int| 0 <= i < p.len() && 0 <= j < p.len() && i != j implies #[trigger] p[i].name != #[trigger] p[j].name by {
                if i < s.len() && j < s.len() {
                    assert(p[i] == s[i] && p[j] == s[j]);
                } else if i < s.len() {
                    assert(p[i] == s[i]);
                } else if j < s.len() {
                    assert(p[j] == s[j]);
                }
            }
        }
        let rest = fs.drop_first();
        assert(field_names_distinct(rest)) by {
            assert forall|i: int, j: int| 0 <= i < rest.len() && 0 <= j < rest.len() && i != j implies #[trigger] rest[i].name != #[trigger] rest[j].name by {
                assert(rest[i] == fs[i + 1] && rest[j] == fs[j + 1]);
            }
        }
        lemma_apply_fields(p, rest);
        let r = apply_fields(p, rest)->Some_0;
        assert(apply_fields(cur, fs) == apply_fields(p, rest));
        assert(p.contains(fs[0])) by {
            assert(p[s.len() as int] == fs[0]);
        }
        assert forall|i: int| 0 < i < rest.len() + 1 implies #[trigger] rest[i - 1].name != fs[0].name by {
            assert(rest[i - 1] == fs[i]);
        }
        assert forall|i: int| 0 <= i < fs.len() implies r.contains(#[trigger] fs[i]) by {
            if i > 0 {
                assert(rest[i - 1] == fs[i]);
            }
        }
        assert forall|x: FieldModel|
            cur.contains(x) && (forall|i: int| 0 <= i < fs.len() ==> (#[trigger] fs[i]).name != x.name) implies r.contains(x) by {
            let w = choose|w: int| 0 <= w < cur.len() && cur[w] == x;
            assert(fs[0].name != x.name);
            if !(s == cur && (forall|k: int| 0 <= k < cur.len() ==> (#[trigger] cur[k]).name != name)) {
                let m = choose|m: int| 0 <= m < cur.len() && cur[m].name == name && s == cur.remove(m);
                assert(w != m);
                if w < m {
                    assert(s[w] == x);
                } else {
                    assert(s[w - 1] == x);
                }
            } else {
                assert(s[w] == x);
            }
            assert(p.contains(x)) by {
                let v = choose|v: int| 0 <= v < s.len() && s[v] == x;
                assert(p[v] == x);
            }
            assert forall|i: int| 0 <= i < rest.len() implies (#[trigger] rest[i]).name != x.name by {
                assert(rest[i] == fs[i + 1]);
            }
        }
    }
}

proof fn lemma_sweep_constructors_after(cur: Seq<MethodModel>, snap: Seq<MethodModel>, idx: int, name: Seq<(NodeModel, bool)>, m: int)
    requires
        signatures_distinct(snap),
        0 <= m < idx <= snap.len(),
        signature(snap[m].parameters) == name,
        cur == snap.remove(m),
    ensures
        sweep_constructors(cur, snap, idx, name) == Some(cur),
    decreases snap.len() - idx,
{
    if idx < snap.len() {
        assert(signature(snap[idx].parameters) != signature(snap[m].parameters));
        lemma_sweep_constructors_after(cur, snap, idx + 1, name, m);
    }
}

proof fn lemma_sweep_constructors_before(snap: Seq<MethodModel>, idx: int, name: Seq<(NodeModel, bool)>)
    requires
        signatures_distinct(snap),
        0 <= idx <= snap.len(),
        forall|j: int| 0 <= j < idx ==> signature((#[trigger] snap[j]).parameters) != name,
    ensures
        sweep_constructors(snap, snap, idx, name) matches Some(r) && ((r == snap && (forall|j: int| 0 <= j < snap.len() ==> signature((#[trigger] snap[j]).parameters) != name))
            || (exists|m: int| 0 <= m < snap.len() && signature(snap[m].parameters) == name && r == snap.remove(m))),
    decreases snap.len() - idx,
{
    if idx < snap.len() {
        if signature(snap[idx].parameters) == name {
            lemma_sweep_constructors_after(snap.remove(idx), snap, idx + 1, name, idx);
            assert(sweep_constructors(snap, snap, idx, name) == Some(snap.remove(idx)));
        } else {
            lemma_sweep_constructors_before(snap, idx + 1, name);
        }
    }
}

/// Applying constructors in turn: the result has distinct signatures, holds
/// each applied constructor, and keeps each earlier constructor whose
/// signature none of them has.
proof fn lemma_apply_constructors(cur: Seq<MethodModel>, fs: Seq<MethodModel>)
    requires
        signatures_distinct(cur),
        signatures_distinct(fs),
    ensures
        apply_constructors(cur, fs) matches Some(r) && signatures_distinct(r) && (forall|i: int| 0 <= i < fs.len() ==> r.contains(#[trigger] fs[i]))
            && (forall|x: MethodModel| cur.contains(x) && (forall|i: int| 0 <= i < fs.len() ==> signature((#[trigger] fs[i]).parameters) != signature(x.parameters)) ==> r.contains(x)),
    decreases fs.len(),
{
    if fs.len() > 0 {
        let name = signature(fs[0].parameters);
        lemma_sweep_constructors_before(cur, 0, name);
        let s = sweep_constructors(cur, cur, 0, name)->Some_0;
        assert forall|j: int| 0 <= j < s.len() implies signature((#[trigger] s[j]).parameters) != name by {
            if !(s == cur && (forall|k: int| 0 <= k < cur.len() ==> signature((#[trigger] cur[k]).parameters) != name)) {
                let m = choose|m: int| 0 <= m < cur.len() && signature(cur[m].parameters) == name && s == cur.remove(m);
                if j < m {
                    assert(s[j] == cur[j]);
                } else {
                    assert(s[j] == cur[j + 1]);
                }
            }
        }
        assert(signatures_distinct(s)) by {
            assert forall|i: int, j: int| 0 <= i < s.len() && 0 <= j < s.len() && i != j implies #[trigger] signature(s[i].parameters) != #[trigger] signature(s[j].parameters) by {
                if !(s == cur && (forall|k: int| 0 <= k < cur.len() ==> signature((#[trigger] cur[k]).parameters) != name)) {
                    let m = choose|m: int| 0 <= m < cur.len() && signature(cur[m].parameters) == name && s == cur.remove(m);
                    let a = if i < m { i } else { i + 1 };
                    let b = if j < m { j } else { j + 1 };
                    assert(s[i] == cur[a]);
                    assert(s[j] == cur[b]);
                }
            }
        }
        let p = s.push(fs[0]);
        assert(signatures_distinct(p)) by {
            assert forall|i: int, j: int| 0 <= i < p.len() && 0 <= j < p.len() && i != j implies #[trigger] signature(p[i].parameters) != #[trigger] signature(p[j].parameters) by {
                if i < s.len() && j < s.len() {
                    assert(p[i] == s[i] && p[j] == s[j]);
                } else if i < s.len() {
                    assert(p[i] == s[i]);
                } else if j < s.len() {
                    assert(p[j] == s[j]);
                }
            }
        }
        let rest = fs.drop_first();
        assert(signatures_distinct(rest)) by {
            assert forall|i: int, j: int| 0 <= i < rest.len() && 0 <= j < rest.len() && i != j implies #[trigger] signature(rest[i].parameters) != #[trigger] signature(rest[j].parameters) by {
                assert(rest[i] == fs[i + 1] && rest[j] == fs[j + 1]);
            }
        }
        lemma_apply_constructors(p, rest);
        let r = apply_constructors(p, rest)->Some_0;
        assert(apply_constructors(cur, fs) == apply_constructors(p, rest));
        assert(p.contains(fs[0])) by {
            assert(p[s.len() as int] == fs[0]);
        }
        assert forall|i: int| 0 < i < rest.len() + 1 implies #[trigger] signature(rest[i - 1].parameters) != signature(fs[0].parameters) by {
            assert(rest[i - 1] == fs[i]);
        }
        assert forall|i: int| 0 <= i < fs.len() implies r.contains(#[trigger] fs[i]) by {
            if i > 0 {
                assert(rest[i - 1] == fs[i]);
            }
        }
        assert forall|x: MethodModel|
            cur.contains(x) && (forall|i: int| 0 <= i < fs.len() ==> signature((#[trigger] fs[i]).parameters) != signature(x.parameters)) implies r.contains(x) by {
            let w = choose|w: int| 0 <= w < cur.len() && cur[w] == x;
            assert(signature(fs[0].parameters) != signature(x.parameters));
            if !(s == cur && (forall|k: int| 0 <= k < cur.len() ==> signature((#[trigger] cur[k]).parameters) != name)) {
                let m = choose|m: int| 0 <= m < cur.len() && signature(cur[m].parameters) == name && s == cur.remove(m);
                assert(w != m);
                if w < m {
                    assert(s[w] == x);
                } else {
                    assert(s[w - 1] == x);
                }
            } else {
                assert(s[w] == x);
            }
            assert(p.contains(x)) by {
                let v = choose|v: int| 0 <= v < s.len() && s[v] == x;
                assert(p[v] == x);
            }
            assert forall|i: int| 0 <= i < rest.len() implies signature((#[trigger] rest[i]).parameters) != signature(x.parameters) by {
                assert(rest[i] == fs[i + 1]);
            }
        }
    }
}

/// The name and parameter signature of a method.
pub open spec fn method_key(m: MethodModel) -> (NodeModel, Seq<(NodeModel, bool)>) {
    (m.name, signature(m.parameters))
}

/// No two methods share a name and parameter signature.
pub open spec fn keys_distinct(ms: Seq<MethodModel>) -> bool {
    forall|i: int, j: int| 0 <= i < ms.len() && 0 <= j < ms.len() && i != j ==> method_key(#[trigger] ms[i]) != method_key(#[trigger] ms[j])
}

/// `m` is in `ms`, and no other method of `ms` has its name and signature.
pub open spec fn sole_method(ms: Seq<MethodModel>, m: MethodModel) -> bool {
    &&& ms.contains(m)
    &&& forall|i: int| 0 <= i < ms.len() && method_key(#[trigger] ms[i]) == method_key(m) ==> ms[i] == m
}

proof fn lemma_sweep_methods_after(cur: Seq<MethodModel>, snap: Seq<MethodModel>, idx: int, mm: MethodModel, m: int)
    requires
        keys_distinct(snap),
        0 <= m < idx <= snap.len(),
        method_key(snap[m]) == method_key(mm),
        cur == snap.remove(m),
    ensures
        sweep_overridden(cur, snap, idx, mm) == Some(Ok::<Seq<MethodModel>, Seq<MethodModel>>(cur)),
    decreases snap.len() - idx,
{
    if idx < snap.len() {
        assert(method_key(snap[idx]) != method_key(snap[m]));
        lemma_sweep_methods_after(cur, snap, idx + 1, mm, m);
    }
}

proof fn lemma_sweep_methods_before(snap: Seq<MethodModel>, idx: int, mm: MethodModel)
    requires
        keys_distinct(snap),
        0 <= idx <= snap.len(),
        forall|j: int| 0 <= j < idx ==> method_key(#[trigger] snap[j]) != method_key(mm),
    ensures
        sweep_overridden(snap, snap, idx, mm) matches Some(res) && (res matches Ok(r) ==> (r == snap && (forall|j: int| 0 <= j < snap.len() ==> method_key(#[trigger] snap[j]) != method_key(mm)))
            || (exists|m: int| 0 <= m < snap.len() && method_key(snap[m]) == method_key(mm) && r == snap.remove(m))),
    decreases snap.len() - idx,
{
    if idx < snap.len() {
        if method_key(snap[idx]) == method_key(mm) {
            if !override_error(mm, snap[idx]) {
                lemma_sweep_methods_after(snap.remove(idx), snap, idx + 1, mm, idx);
                assert(sweep_overridden(snap, snap, idx, mm) == Some(
                    Ok::<Seq<MethodModel>, Seq<MethodModel>>(snap.remove(idx)),
                ));
            }
        } else {
            lemma_sweep_methods_before(snap, idx + 1, mm);
        }
    }
}

/// Applying methods in turn, where no override is refused: the result has
/// distinct signatures, holds each applied method, and keeps each earlier
/// method whose signature none of them has.
proof fn lemma_apply_methods(cur: Seq<MethodModel>, fs: Seq<MethodModel>)
    requires
        keys_distinct(cur),
        keys_distinct(fs),
    ensures
        apply_methods(cur, fs) matches Some(Ok(r)) ==> keys_distinct(r) && (forall|i: int| 0 <= i < fs.len() ==> r.contains(#[trigger] fs[i]))
            && (forall|x: MethodModel| cur.contains(x) && (forall|i: int| 0 <= i < fs.len() ==> method_key(#[trigger] fs[i]) != method_key(x)) ==> r.contains(x)),
    decreases fs.len(),
{
    if fs.len() > 0 {
        let mm = fs[0];
        lemma_sweep_methods_before(cur, 0, mm);
        if sweep_overridden(cur, cur, 0, mm) matches Some(Ok(_)) {
            let s = sweep_overridden(cur, cur, 0, mm)->Some_0->Ok_0;
            assert forall|j: int| 0 <= j < s.len() implies method_key(#[trigger] s[j]) != method_key(mm) by {
                if !(s == cur && (forall|k: int| 0 <= k < cur.len() ==> method_key(#[trigger] cur[k]) != method_key(mm))) {
                    let m = choose|m: int| 0 <= m < cur.len() && method_key(cur[m]) == method_key(mm) && s == cur.remove(m);
                    if j < m {
                        assert(s[j] == cur[j]);
                    } else {
                        assert(s[j] == cur[j + 1]);
                    }
                }
            }
            assert(keys_distinct(s)) by {
                assert forall|i: int, j: int| 0 <= i < s.len() && 0 <= j < s.len() && i != j implies #[trigger] method_key(s[i]) != #[trigger] method_key(s[j]) by {
                    if !(s == cur && (forall|k: int| 0 <= k < cur.len() ==> method_key(#[trigger] cur[k]) != method_key(mm))) {
                        let m = choose|m: int| 0 <= m < cur.len() && method_key(cur[m]) == method_key(mm) && s == cur.remove(m);
                        let a = if i < m { i } else { i + 1 };
                        let b = if j < m { j } else { j + 1 };
                        assert(s[i] == cur[a]);
                        assert(s[j] == cur[b]);
                    }
                }
            }
            let p = s.push(fs[0]);
            assert(keys_distinct(p)) by {
                assert forall|i: int, j: int| 0 <= i < p.len() && 0 <= j < p.len() && i != j implies #[trigger] method_key(p[i]) != #[trigger] method_key(p[j]) by {
                    if i < s.len() && j < s.len() {
                        assert(p[i] == s[i] && p[j] == s[j]);
                    } else if i < s.len() {
                        assert(p[i] == s[i]);
                    } else if j < s.len() {
                        assert(p[j] == s[j]);
                    }
                }
            }
            let rest = fs.drop_first();
            assert(keys_distinct(rest)) by {
                assert forall|i: int, j: int| 0 <= i < rest.len() && 0 <= j < rest.len() && i != j implies #[trigger] method_key(rest[i]) != #[trigger] method_key(rest[j]) by {
                    assert(rest[i] == fs[i + 1] && rest[j] == fs[j + 1]);
                }
            }
            lemma_apply_methods(p, rest);
            if apply_methods(p, rest) matches Some(Ok(_)) {
                let r = apply_methods(p, rest)->Some_0->Ok_0;
                assert(apply_methods(cur, fs) == apply_methods(p, rest));
                assert(p.contains(fs[0])) by {
                    assert(p[s.len() as int] == fs[0]);
                }
                assert forall|i: int| 0 < i < rest.len() + 1 implies #[trigger] method_key(rest[i - 1]) != method_key(fs[0]) by {
                    assert(rest[i - 1] == fs[i]);
                }
                assert forall|i: int| 0 <= i < fs.len() implies r.contains(#[trigger] fs[i]) by {
                    if i > 0 {
                        assert(rest[i - 1] == fs[i]);
                    }
                }
                assert forall|x: MethodModel|
                    cur.contains(x) && (forall|i: int| 0 <= i < fs.len() ==> method_key(#[trigger] fs[i]) != method_key(x)) implies r.contains(x) by {
                    let w = choose|w: int| 0 <= w < cur.len() && cur[w] == x;
                    assert(method_key(fs[0]) != method_key(x));
                    if !(s == cur && (forall|k: int| 0 <= k < cur.len() ==> method_key(#[trigger] cur[k]) != method_key(mm))) {
                        let m = choose|m: int| 0 <= m < cur.len() && method_key(cur[m]) == method_key(mm) && s == cur.remove(m);
                        assert(w != m);
                        if w < m {
                            assert(s[w] == x);
                        } else {
                            assert(s[w - 1] == x);
                        }
                    } else {
                        assert(s[w] == x);
                    }
                    assert(p.contains(x)) by {
                        let v = choose|v: int| 0 <= v < s.len() && s[v] == x;
                        assert(p[v] == x);
                    }
                    assert forall|i: int| 0 <= i < rest.len() implies method_key(#[trigger] rest[i]) != method_key(x) by {
                        assert(rest[i] == fs[i + 1]);
                    }
                }
            }
        }
    }
}

/// Applying a type's own declarations to what it inherited keeps the
/// type's header (its supertypes, imports and modifiers), makes each of its
/// fields the only field of that name, each of its constructors the only
/// constructor of that signature, and each of its methods the only method
/// of that name and signature, where the inherited members, and the type's
/// own, have distinct names and signatures.
pub proof fn apply_keeps_declarations(c: ClassModel, child: ClassModel)
    requires
        field_names_distinct(c.fields),
        field_names_distinct(child.fields),
        signatures_distinct(c.constructors),
        signatures_distinct(child.constructors),
        keys_distinct(c.methods),
        keys_distinct(child.methods),
        apply_model(c, child) matches Some(Ok(_)),
    ensures
        apply_model(c, child)->Some_0->Ok_0.extends == child.extends,
        apply_model(c, child)->Some_0->Ok_0.implements == child.implements,
        apply_model(c, child)->Some_0->Ok_0.imports == child.imports,
        apply_model(c, child)->Some_0->Ok_0.modifiers == child.modifiers,
        forall|i: int|
            0 <= i < child.fields.len() ==> sole_field(apply_model(c, child)->Some_0->Ok_0.fields, #[trigger] child.fields[i]),
        forall|i: int|
            0 <= i < child.constructors.len() ==> sole_constructor(
                apply_model(c, child)->Some_0->Ok_0.constructors,
                #[trigger] child.constructors[i],
            ),
        forall|i: int|
            0 <= i < child.methods.len() ==> sole_method(apply_model(c, child)->Some_0->Ok_0.methods, #[trigger] child.methods[i]),
{
    lemma_apply_fields(c.fields, child.fields);
    lemma_apply_methods(c.methods, child.methods);
    lemma_apply_constructors(c.constructors, child.constructors);
    let r = apply_model(c, child)->Some_0->Ok_0;
    assert(r.fields == apply_fields(c.fields, child.fields)->Some_0);
    assert forall|i: int| 0 <= i < child.fields.len() implies sole_field(r.fields, #[trigger] child.fields[i]) by {
        let f = child.fields[i];
        assert(r.fields.contains(f));
        let w = choose|w: int| 0 <= w < r.fields.len() && r.fields[w] == f;
        assert forall|k: int| 0 <= k < r.fields.len() && (#[trigger] r.fields[k]).name == f.name implies r.fields[k] == f by {
            if k != w {
                assert(r.fields[k].name != r.fields[w].name);
            }
        }
    }
    assert(r.constructors == apply_constructors(c.constructors, child.constructors)->Some_0);
    assert forall|i: int| 0 <= i < child.constructors.len() implies sole_constructor(
        r.constructors,
        #[trigger] child.constructors[i],
    ) by {
        let f = child.constructors[i];
        assert(r.constructors.contains(f));
        let w = choose|w: int| 0 <= w < r.constructors.len() && r.constructors[w] == f;
        assert forall|k: int|
            0 <= k < r.constructors.len() && signature((#[trigger] r.constructors[k]).parameters) == signature(
                f.parameters,
            ) implies r.constructors[k] == f by {
            if k != w {
                assert(signature(r.constructors[k].parameters) != signature(r.constructors[w].parameters));
            }
        }
    }
    assert(apply_methods(c.methods, child.methods) == Some(Ok::<Seq<MethodModel>, Seq<MethodModel>>(r.methods)));
    assert forall|i: int| 0 <= i < child.methods.len() implies sole_method(r.methods, #[trigger] child.methods[i]) by {
        let f = child.methods[i];
        assert(r.methods.contains(f));
        let w = choose|w: int| 0 <= w < r.methods.len() && r.methods[w] == f;
        assert forall|k: int| 0 <= k < r.methods.len() && method_key(#[trigger] r.methods[k]) == method_key(f) implies r.methods[k] == f by {
            if k != w {
                assert(method_key(r.methods[k]) != method_key(r.methods[w]));
            }
        }
    }
}

} // verus!
