//! Resolving a type name to a class, as seen from a class.
use vstd::prelude::*;

use crate::analysis::environment::classorinterface::{
    class_new, ClassModel, ClassOrInterface, ClassOrInterfaceEnvironment,
};
use crate::analysis::types::lookup::array::{array_class, create, length_field};
use crate::analysis::types::verify::prefixes::canonical;
use crate::ast::{
    flatten, ident_model, kind_ok, leaf_model, lemma_flat_children_token, lemma_flat_children_unchanged,
    lemma_model_children, lemma_type_ok_flatten, lemma_types_ok, prefix_equals, rule_model,
    rule_token, type_ok, types_ok, ASTNode, NodeModel,
};
use crate::text::{message, note};
use crate::tokens::{is_primitive_kind, lexeme_is, primitive_kind, TokenKind};

verus! {

broadcast use vstd::seq::axiom_seq_subrange_decreases;

/// A lookup step either does not apply (`None`), or resolves the name, or
/// fails.
pub open spec fn outcome(r: Option<Result<ClassOrInterfaceEnvironment, String>>) -> Option<
    Result<ClassModel, ()>,
> {
    match r {
        None => None,
        Some(Ok(c)) => Some(Ok(c.deep_view())),
        Some(Err(_)) => Some(Err(())),
    }
}

/// An optional class, by its model.
pub open spec fn opt_model(o: Option<ClassOrInterfaceEnvironment>) -> Option<ClassModel> {
    match o {
        Some(k) => Some(k.deep_view()),
        None => None,
    }
}

/// The result of a lookup, by its model.
pub open spec fn found(r: Result<ClassOrInterfaceEnvironment, String>) -> Result<ClassModel, ()> {
    match r {
        Ok(c) => Ok(c.deep_view()),
        Err(_) => Err(()),
    }
}

/// 0 for a `Name` node, 1 for any other node: a `Name` of the same length
/// comes before the node it was built from.
pub open spec fn rank(n: NodeModel) -> int {
    if n.token == rule_token("Name"@) {
        0
    } else {
        1
    }
}

/// The `Name` made of the first `idx + 1` children of `c`.
pub open spec fn prefix_name(c: NodeModel, idx: int) -> NodeModel {
    rule_model("Name"@, c.children.take(idx + 1))
}

/// Step 0: a type whose canonical name is `n`; the first such type decides,
/// and its name's strict prefixes must not resolve to types.
pub open spec fn step0_from(n: NodeModel, current: ClassModel, kinds: Seq<ClassModel>, i: int) -> Option<
    Result<ClassModel, ()>,
>
    decreases n.children.len(), rank(n), 2int, kinds.len() - i,
{
    if i < 0 || i >= kinds.len() {
        None
    } else if kinds[i].name == n {
        match canonical_check(n, current, kinds) {
            Ok(_) => Some(Ok(kinds[i])),
            Err(_) => Some(Err(())),
        }
    } else {
        step0_from(n, current, kinds, i + 1)
    }
}

/// The check on a canonical name `c`: it does not start with a primitive
/// type, and none of its strict prefixes resolves to a type by its canonical
/// name or in the enclosing package.
pub open spec fn canonical_check(c: NodeModel, current: ClassModel, kinds: Seq<ClassModel>) -> Result<(), ()>
    decreases c.children.len(), rank(c), 1int, 0int,
{
    if c.children.len() > 0 && is_primitive_kind(c.children[0].token.kind) {
        Err(())
    } else {
        canonical_from(c, current, kinds, 0)
    }
}

/// The prefix check of `c`, from the child at `idx` on (prefixes end at even
/// indices, so that they do not end in a dot).
pub open spec fn canonical_from(c: NodeModel, current: ClassModel, kinds: Seq<ClassModel>, idx: int) -> Result<
    (),
    (),
>
    decreases c.children.len(), rank(c), 0int, c.children.len() - idx,
{
    if idx < 0 || idx >= c.children.len() {
        Ok(())
    } else if idx % 2 != 0 {
        canonical_from(c, current, kinds, idx + 1)
    } else {
        let p = prefix_name(c, idx);
        if p == c {
            Ok(())
        } else {
            proof {
                if idx + 1 == c.children.len() {
                    assert(c.children.take(idx + 1) =~= c.children);
                }
            }
            if step0_from(p, current, kinds, 0) matches Some(Ok(_)) {
                Err(())
            } else if step3(p, current, kinds) matches Some(Ok(_)) {
                Err(())
            } else {
                canonical_from(c, current, kinds, idx + 1)
            }
        }
    }
}

/// Step 0 over all types.
pub open spec fn step0(n: NodeModel, current: ClassModel, kinds: Seq<ClassModel>) -> Option<
    Result<ClassModel, ()>,
> {
    step0_from(n, current, kinds, 0)
}

/// Step 1: the simple name of the enclosing class.
pub open spec fn step1(n: NodeModel, current: ClassModel) -> Option<Result<ClassModel, ()>> {
    if current.name.children.len() > 0 && current.name.children.last() == n {
        Some(Ok(current))
    } else {
        None
    }
}

/// A scan over `kinds` from `i` for those named `name`, with the match found
/// so far; a second match is an error.
pub open spec fn scan_named(kinds: Seq<ClassModel>, name: NodeModel, i: int, found: Option<ClassModel>) -> Result<
    Option<ClassModel>,
    (),
>
    decreases kinds.len() - i,
{
    if i < 0 || i >= kinds.len() {
        Ok(found)
    } else if kinds[i].name == name {
        if found is Some {
            Err(())
        } else {
            scan_named(kinds, name, i + 1, Some(kinds[i]))
        }
    } else {
        scan_named(kinds, name, i + 1, found)
    }
}

/// Step 2 from the import at `j`: the first single-type import whose simple
/// name is `n` decides; exactly one type must have the imported name.
pub open spec fn step2_from(n: NodeModel, current: ClassModel, kinds: Seq<ClassModel>, j: int) -> Option<
    Result<ClassModel, ()>,
>
    decreases current.imports.len() - j,
{
    if j < 0 || j >= current.imports.len() {
        None
    } else {
        let imp = current.imports[j];
        if imp.children.len() > 0 && imp.children.last() != leaf_model(TokenKind::Star)
            && imp.children.last() == n {
            match scan_named(kinds, imp, 0, None) {
                Ok(Some(k)) => Some(Ok(k)),
                _ => Some(Err(())),
            }
        } else {
            step2_from(n, current, kinds, j + 1)
        }
    }
}

/// `imp` is a single-type import of a type whose simple name is `n`.
pub open spec fn single_import_of(imp: NodeModel, n: NodeModel) -> bool {
    imp.children.len() > 0 && imp.children.last() != leaf_model(TokenKind::Star) && imp.children.last() == n
}

/// Two single-type imports of `current` import different types of the simple
/// name `n`: such imports clash.
pub open spec fn imports_clash(n: NodeModel, current: ClassModel) -> bool {
    exists|i: int, j: int|
        0 <= i < j < current.imports.len() && single_import_of(#[trigger] current.imports[i], n) && single_import_of(
            #[trigger] current.imports[j],
            n,
        ) && current.imports[i] != current.imports[j]
}

/// Step 2: single-type imports; clashing single-type imports of the name are
/// an error.
pub open spec fn step2(n: NodeModel, current: ClassModel, kinds: Seq<ClassModel>) -> Option<
    Result<ClassModel, ()>,
> {
    if imports_clash(n, current) {
        Some(Err(()))
    } else {
        step2_from(n, current, kinds, 0)
    }
}

/// `k` is a type named `n` in the package of `current`.
pub open spec fn in_package(k: ClassModel, current: ClassModel, n: NodeModel) -> bool {
    &&& k.name.children.len() > 0
    &&& current.name.children.len() > 0
    &&& current.name.children.drop_last() == k.name.children.drop_last()
    &&& k.name.children.last() == n
}

/// A scan over `kinds` from `i` for types named `n` in the package of
/// `current`; a second match is an error.
pub open spec fn scan_package(
    kinds: Seq<ClassModel>,
    current: ClassModel,
    n: NodeModel,
    i: int,
    found: Option<ClassModel>,
) -> Result<Option<ClassModel>, ()>
    decreases kinds.len() - i,
{
    if i < 0 || i >= kinds.len() {
        Ok(found)
    } else if in_package(kinds[i], current, n) {
        if found is Some {
            Err(())
        } else {
            scan_package(kinds, current, n, i + 1, Some(kinds[i]))
        }
    } else {
        scan_package(kinds, current, n, i + 1, found)
    }
}

/// Step 3: a type of the enclosing package.
pub open spec fn step3(n: NodeModel, current: ClassModel, kinds: Seq<ClassModel>) -> Option<
    Result<ClassModel, ()>,
> {
    match scan_package(kinds, current, n, 0, None) {
        Ok(Some(k)) => Some(Ok(k)),
        Ok(None) => None,
        Err(_) => Some(Err(())),
    }
}

/// `k` is a type named `n` in the package of the on-demand import `imp`.
pub open spec fn on_demand(imp: NodeModel, k: ClassModel, n: NodeModel) -> bool {
    &&& imp.children.len() > 0
    &&& imp.children.last() == leaf_model(TokenKind::Star)
    &&& k.name.children.len() > 0
    &&& imp.children.drop_last() == k.name.children.drop_last()
    &&& k.name.children.last() == n
}

/// A scan over `kinds` from `i` for types named `n` imported on demand by
/// `imp`; a second match is an error.
pub open spec fn scan_demand_kinds(
    imp: NodeModel,
    kinds: Seq<ClassModel>,
    n: NodeModel,
    i: int,
    found: Option<ClassModel>,
) -> Result<Option<ClassModel>, ()>
    decreases kinds.len() - i,
{
    if i < 0 || i >= kinds.len() {
        Ok(found)
    } else if on_demand(imp, kinds[i], n) {
        if found is Some {
            Err(())
        } else {
            scan_demand_kinds(imp, kinds, n, i + 1, Some(kinds[i]))
        }
    } else {
        scan_demand_kinds(imp, kinds, n, i + 1, found)
    }
}

/// The scan of step 4 over the imports from `j`.
pub open spec fn scan_demand(
    imports: Seq<NodeModel>,
    kinds: Seq<ClassModel>,
    n: NodeModel,
    j: int,
    found: Option<ClassModel>,
) -> Result<Option<ClassModel>, ()>
    decreases imports.len() - j,
{
    if j < 0 || j >= imports.len() {
        Ok(found)
    } else {
        match scan_demand_kinds(imports[j], kinds, n, 0, found) {
            Ok(f) => scan_demand(imports, kinds, n, j + 1, f),
            Err(_) => Err(()),
        }
    }
}

/// Step 4: on-demand imports; the type must be unique over all of them.
pub open spec fn step4(n: NodeModel, current: ClassModel, kinds: Seq<ClassModel>) -> Option<
    Result<ClassModel, ()>,
> {
    match scan_demand(current.imports, kinds, n, 0, None) {
        Ok(Some(k)) => Some(Ok(k)),
        Ok(None) => None,
        Err(_) => Some(Err(())),
    }
}

/// A type name resolved from `current`: the first step that applies decides.
pub open spec fn lookup_model(n: NodeModel, current: ClassModel, kinds: Seq<ClassModel>) -> Result<
    ClassModel,
    (),
> {
    if let Some(r) = step0(n, current, kinds) {
        r
    } else if let Some(r) = step1(n, current) {
        r
    } else if let Some(r) = step2(n, current, kinds) {
        r
    } else if let Some(r) = step3(n, current, kinds) {
        r
    } else if let Some(r) = step4(n, current, kinds) {
        r
    } else {
        Err(())
    }
}

/// The class that a type name denotes from `current`: an array type, a
/// primitive type (bare or as a one-part `Name`), or a class or interface
/// found by lookup.
pub open spec fn in_env_model(name: NodeModel, current: ClassModel, kinds: Seq<ClassModel>) -> Result<
    ClassModel,
    (),
> {
    let n = flatten(name);
    if n.token.lexeme == Some("ArrayType"@) {
        Ok(array_class(n))
    } else if n.token.lexeme == Some("Name"@) && n.children.len() == 1 && is_primitive_kind(
        n.children[0].token.kind,
    ) {
        Ok(class_new(n, ClassOrInterface::CLASS))
    } else if is_primitive_kind(n.token.kind) {
        Ok(class_new(n, ClassOrInterface::CLASS))
    } else {
        lookup_model(n, current, kinds)
    }
}

/// The class of the array type `name`.
fn create_array(name: &ASTNode) -> (r: ClassOrInterfaceEnvironment)
    requires
        name.model().children.len() >= 1,
    ensures
        r.deep_view() == array_class(name.model()),
{
    create(name)
}

/// Resolves the type name `name` as seen from `current`.
pub fn in_env(
    name: &ASTNode,
    current: &ClassOrInterfaceEnvironment,
    kinds: &Vec<ClassOrInterfaceEnvironment>,
) -> (r: Result<ClassOrInterfaceEnvironment, String>)
    requires
        kind_ok(name.model()),
    ensures
        found(r) == in_env_model(name.model(), current.deep_view(), kinds.deep_view()),
{
    let n = name.flattened();
    proof {
        lemma_model_children(n);
    }
    if lexeme_is(&n.token.lexeme, "ArrayType") {
        return Ok(create_array(&n));
    }
    if lexeme_is(&n.token.lexeme, "Name") && n.children.len() == 1 && primitive_kind(
        n.children[0].token.kind,
    ) {
        return Ok(ClassOrInterfaceEnvironment::new(n, ClassOrInterface::CLASS));
    }
    if primitive_kind(n.token.kind) {
        return Ok(ClassOrInterfaceEnvironment::new(n, ClassOrInterface::CLASS));
    }
    lookup(&n, current, kinds)
}

/// Step 0: a type of this canonical name.
pub fn lookup_step0_canonical(
    name: &ASTNode,
    current: &ClassOrInterfaceEnvironment,
    kinds: &Vec<ClassOrInterfaceEnvironment>,
) -> (r: Option<Result<ClassOrInterfaceEnvironment, String>>)
    ensures
        outcome(r) == step0(name.model(), current.deep_view(), kinds.deep_view()),
    decreases name.model().children.len(), rank(name.model()), 2int,
{
    let ghost n = name.model();
    let ghost cur = current.deep_view();
    let ghost ks = kinds.deep_view();
    let mut i: usize = 0;
    while i < kinds.len()
        invariant
            i <= kinds@.len(),
            n == name.model(),
            cur == current.deep_view(),
            ks == kinds.deep_view(),
            step0_from(n, cur, ks, 0) == step0_from(n, cur, ks, i as int),
        decreases kinds@.len() - i,
    {
        proof {
            assert(ks[i as int] == kinds@[i as int].deep_view());
        }
        if kinds[i].name.equals(name) {
            let result = canonical(name, current, kinds);
            return match result {
                Err(e) => Some(Err(e)),
                Ok(()) => Some(Ok(kinds[i].clone())),
            };
        }
        i = i + 1;
    }
    None
}

/// Step 1: the simple name of the enclosing class.
fn lookup_step1_enclosing_class(name: &ASTNode, current: &ClassOrInterfaceEnvironment) -> (r: Option<
    Result<ClassOrInterfaceEnvironment, String>,
>)
    ensures
        outcome(r) == step1(name.model(), current.deep_view()),
{
    proof {
        lemma_model_children(current.name);
    }
    let k = current.name.children.len();
    if k > 0 {
        if !name.equals(&current.name.children[k - 1]) {
            return None;
        }
        return Some(Ok(current.clone()));
    }
    None
}

/// Whether exactly one type has the name `imp`, and which.
fn find_named(kinds: &Vec<ClassOrInterfaceEnvironment>, imp: &ASTNode) -> (r: Result<
    ClassOrInterfaceEnvironment,
    String,
>)
    ensures
        found(r) == match scan_named(kinds.deep_view(), imp.model(), 0, None) {
            Ok(Some(k)) => Ok(k),
            _ => Err(()),
        },
{
    let ghost ks = kinds.deep_view();
    let mut found_kind: Option<ClassOrInterfaceEnvironment> = None;
    let mut i: usize = 0;
    while i < kinds.len()
        invariant
            i <= kinds@.len(),
            ks == kinds.deep_view(),
            scan_named(ks, imp.model(), 0, None) == scan_named(
                ks,
                imp.model(),
                i as int,
                opt_model(found_kind),
            ),
        decreases kinds@.len() - i,
    {
        proof {
            assert(ks[i as int] == kinds@[i as int].deep_view());
        }
        if kinds[i].name.equals(imp) {
            if found_kind.is_some() {
                return Err(message("ambiguous type lookup for import ", imp));
            }
            found_kind = Some(kinds[i].clone());
        }
        i = i + 1;
    }
    match found_kind {
        Some(k) => Ok(k),
        None => Err(message("could not find type for imported lookup ", imp)),
    }
}

/// Whether `imp` is a single-type import of a type whose simple name is `name`.
fn is_single_import_of(imp: &ASTNode, name: &ASTNode) -> (r: bool)
    ensures
        r == single_import_of(imp.model(), name.model()),
{
    proof {
        lemma_model_children(*imp);
    }
    let m = imp.children.len();
    if m == 0 {
        return false;
    }
    let last = &imp.children[m - 1];
    !last.equals(&ASTNode::leaf(TokenKind::Star)) && last.equals(name)
}

/// Whether two single-type imports of `current` import different types of
/// the simple name `name`.
fn has_single_import_clash(name: &ASTNode, current: &ClassOrInterfaceEnvironment) -> (r: bool)
    ensures
        r == imports_clash(name.model(), current.deep_view()),
{
    let ghost cur = current.deep_view();
    let mut j: usize = 0;
    while j < current.imports.len()
        invariant
            j <= current.imports@.len(),
            cur == current.deep_view(),
            forall|a: int, b: int|
                0 <= a < b < j ==> !(single_import_of(#[trigger] cur.imports[a], name.model()) && single_import_of(
                    #[trigger] cur.imports[b],
                    name.model(),
                ) && cur.imports[a] != cur.imports[b]),
        decreases current.imports@.len() - j,
    {
        proof {
            assert(cur.imports[j as int] == current.imports@[j as int].import.model());
        }
        if is_single_import_of(&current.imports[j].import, name) {
            let mut i: usize = 0;
            while i < j
                invariant
                    i <= j < current.imports@.len(),
                    cur == current.deep_view(),
                    single_import_of(cur.imports[j as int], name.model()),
                    forall|a: int| 0 <= a < i ==> !(single_import_of(#[trigger] cur.imports[a], name.model())
                        && cur.imports[a] != cur.imports[j as int]),
                decreases j - i,
            {
                proof {
                    assert(cur.imports[i as int] == current.imports@[i as int].import.model());
                }
                if is_single_import_of(&current.imports[i].import, name) && !current.imports[i].import.equals(
                    &current.imports[j].import,
                ) {
                    return true;
                }
                i = i + 1;
            }
        }
        j = j + 1;
    }
    false
}

/// Step 2: single-type imports.
fn lookup_step2_import_single(
    name: &ASTNode,
    current: &ClassOrInterfaceEnvironment,
    kinds: &Vec<ClassOrInterfaceEnvironment>,
) -> (r: Option<Result<ClassOrInterfaceEnvironment, String>>)
    ensures
        outcome(r) == step2(name.model(), current.deep_view(), kinds.deep_view()),
        imports_clash(name.model(), current.deep_view()) ==> (r matches Some(Err(e)) && e@
            == "single-type-import declarations clash"@),
{
    let ghost cur = current.deep_view();
    let star = ASTNode::leaf(TokenKind::Star);
    if has_single_import_clash(name, current) {
        return Some(Err(note("single-type-import declarations clash")));
    }
    let mut j: usize = 0;
    while j < current.imports.len()
        invariant
            j <= current.imports@.len(),
            cur == current.deep_view(),
            star.model() == leaf_model(TokenKind::Star),
            !imports_clash(name.model(), cur),
            step2_from(name.model(), cur, kinds.deep_view(), 0) == step2_from(
                name.model(),
                cur,
                kinds.deep_view(),
                j as int,
            ),
        decreases current.imports@.len() - j,
    {
        let imp = &current.imports[j].import;
        proof {
            lemma_model_children(*imp);
            assert(cur.imports[j as int] == imp.model());
        }
        let m = imp.children.len();
        if m > 0 {
            let last = &imp.children[m - 1];
            if !(last.equals(&star) || !last.equals(name)) {
                return Some(find_named(kinds, imp));
            }
        }
        j = j + 1;
    }
    None
}

/// Whether `k` is a type named `name` in the package of `current`.
fn is_in_package(k: &ClassOrInterfaceEnvironment, current: &ClassOrInterfaceEnvironment, name: &ASTNode) -> (r:
    bool)
    ensures
        r == in_package(k.deep_view(), current.deep_view(), name.model()),
{
    proof {
        lemma_model_children(k.name);
        lemma_model_children(current.name);
    }
    let a = k.name.children.len();
    let b = current.name.children.len();
    if a == 0 || b == 0 {
        return false;
    }
    let same = prefix_equals(&current.name.children, b - 1, &k.name.children, a - 1);
    proof {
        assert(current.name.children.deep_view() =~= current.name.model().children);
        assert(k.name.children.deep_view() =~= k.name.model().children);
        assert(current.name.model().children.take(b - 1) =~= current.name.model().children.drop_last());
        assert(k.name.model().children.take(a - 1) =~= k.name.model().children.drop_last());
    }
    same && k.name.children[a - 1].equals(name)
}

/// Step 3: a type of the enclosing package.
pub fn lookup_step3_enclosing_package(
    name: &ASTNode,
    current: &ClassOrInterfaceEnvironment,
    kinds: &Vec<ClassOrInterfaceEnvironment>,
) -> (r: Option<Result<ClassOrInterfaceEnvironment, String>>)
    ensures
        outcome(r) == step3(name.model(), current.deep_view(), kinds.deep_view()),
{
    let ghost ks = kinds.deep_view();
    let ghost cur = current.deep_view();
    let mut found_kind: Option<ClassOrInterfaceEnvironment> = None;
    let mut i: usize = 0;
    while i < kinds.len()
        invariant
            i <= kinds@.len(),
            ks == kinds.deep_view(),
            cur == current.deep_view(),
            scan_package(ks, cur, name.model(), 0, None) == scan_package(
                ks,
                cur,
                name.model(),
                i as int,
                opt_model(found_kind),
            ),
        decreases kinds@.len() - i,
    {
        proof {
            assert(ks[i as int] == kinds@[i as int].deep_view());
        }
        if is_in_package(&kinds[i], current, name) {
            if found_kind.is_some() {
                return Some(Err(message("ambiguous type lookup in package of ", &current.name)));
            }
            found_kind = Some(kinds[i].clone());
        }
        i = i + 1;
    }
    match found_kind {
        Some(k) => Some(Ok(k)),
        None => None,
    }
}

/// Whether `k` is a type named `name` imported on demand by `imp`.
fn is_on_demand(imp: &ASTNode, k: &ClassOrInterfaceEnvironment, name: &ASTNode) -> (r: bool)
    ensures
        r == on_demand(imp.model(), k.deep_view(), name.model()),
{
    proof {
        lemma_model_children(k.name);
        lemma_model_children(*imp);
    }
    let a = imp.children.len();
    let b = k.name.children.len();
    if a == 0 || b == 0 {
        return false;
    }
    if !imp.children[a - 1].equals(&ASTNode::leaf(TokenKind::Star)) {
        return false;
    }
    let same = prefix_equals(&imp.children, a - 1, &k.name.children, b - 1);
    proof {
        assert(imp.children.deep_view() =~= imp.model().children);
        assert(k.name.children.deep_view() =~= k.name.model().children);
        assert(imp.model().children.take(a - 1) =~= imp.model().children.drop_last());
        assert(k.name.model().children.take(b - 1) =~= k.name.model().children.drop_last());
    }
    same && k.name.children[b - 1].equals(name)
}

/// Step 4: on-demand imports.
fn lookup_step4_import_ondemand(
    name: &ASTNode,
    current: &ClassOrInterfaceEnvironment,
    kinds: &Vec<ClassOrInterfaceEnvironment>,
) -> (r: Option<Result<ClassOrInterfaceEnvironment, String>>)
    ensures
        outcome(r) == step4(name.model(), current.deep_view(), kinds.deep_view()),
{
    let ghost ks = kinds.deep_view();
    let ghost imps = current.deep_view().imports;
    let ghost goal = scan_demand(imps, ks, name.model(), 0, None);
    let mut found_kind: Option<ClassOrInterfaceEnvironment> = None;
    let mut j: usize = 0;
    while j < current.imports.len()
        invariant
            j <= current.imports@.len(),
            ks == kinds.deep_view(),
            imps == current.deep_view().imports,
            goal == scan_demand(imps, ks, name.model(), 0, None),
            goal == scan_demand(
                imps,
                ks,
                name.model(),
                j as int,
                opt_model(found_kind),
            ),
        decreases current.imports@.len() - j,
    {
        let imp = &current.imports[j].import;
        proof {
            assert(imps[j as int] == imp.model());
        }
        let ghost start = opt_model(found_kind);
        let mut i: usize = 0;
        while i < kinds.len()
            invariant
                i <= kinds@.len(),
                ks == kinds.deep_view(),
                imps == current.deep_view().imports,
                j < imps.len(),
                imps[j as int] == imp.model(),
                goal == scan_demand(imps, ks, name.model(), 0, None),
                goal == match scan_demand_kinds(imp.model(), ks, name.model(), 0, start) {
                    Ok(f) => scan_demand(imps, ks, name.model(), j + 1, f),
                    Err(_) => Err(()),
                },
                scan_demand_kinds(imp.model(), ks, name.model(), 0, start) == scan_demand_kinds(
                    imp.model(),
                    ks,
                    name.model(),
                    i as int,
                    opt_model(found_kind),
                ),
            decreases kinds@.len() - i,
        {
            proof {
                assert(ks[i as int] == kinds@[i as int].deep_view());
            }
            if is_on_demand(imp, &kinds[i], name) {
                if found_kind.is_some() {
                    return Some(Err(message("ambiguous on-demand lookup for ", name)));
                }
                found_kind = Some(kinds[i].clone());
            }
            i = i + 1;
        }
        j = j + 1;
    }
    match found_kind {
        Some(k) => Some(Ok(k)),
        None => None,
    }
}

/// Resolves a (flattened) type name by the lookup steps in order.
fn lookup(name: &ASTNode, current: &ClassOrInterfaceEnvironment, kinds: &Vec<ClassOrInterfaceEnvironment>) -> (r:
    Result<ClassOrInterfaceEnvironment, String>)
    ensures
        found(r) == lookup_model(name.model(), current.deep_view(), kinds.deep_view()),
{
    match lookup_step0_canonical(name, current, kinds) {
        Some(r) => return r,
        None => {},
    }
    match lookup_step1_enclosing_class(name, current) {
        Some(r) => return r,
        None => {},
    }
    match lookup_step2_import_single(name, current, kinds) {
        Some(r) => return r,
        None => {},
    }
    match lookup_step3_enclosing_package(name, current, kinds) {
        Some(r) => return r,
        None => {},
    }
    match lookup_step4_import_ondemand(name, current, kinds) {
        Some(r) => return r,
        None => {},
    }
    let mut e = message("could not lookup kind ", name);
    e.append(" from class ");
    let c = message("", &current.name);
    e.append(c.as_str());
    Err(e)
}

/// The names that a class carries are well-formed type names.
pub open spec fn class_ok(c: ClassModel) -> bool {
    &&& type_ok(c.name)
    &&& types_ok(c.extends)
    &&& types_ok(c.implements)
}

/// The class seen from and all types of the program are well-formed.
pub open spec fn env_ok(current: ClassModel, kinds: Seq<ClassModel>) -> bool {
    &&& class_ok(current)
    &&& forall|i: int| 0 <= i < kinds.len() ==> class_ok(#[trigger] kinds[i])
}

/// A qualified name of three identifiers is well-formed.
pub proof fn lemma_qualified_ok(a: Seq<char>, b: Seq<char>, c: Seq<char>)
    requires
        a != "ArrayType"@,
        b != "ArrayType"@,
        c != "ArrayType"@,
    ensures
        type_ok(crate::ast::qualified3(a, b, c)),
{
    let q = crate::ast::qualified3(a, b, c);
    reveal_strlit("Name");
    reveal_strlit("ArrayType");
    assert forall|i: int| 0 <= i < q.children.len() implies (#[trigger] q.children[i]).token != q.token by {}
    lemma_flat_children_unchanged(q.token, q.children);
    assert(flatten(q) == q);
    assert("Name"@ != "ArrayType"@) by {
        assert("Name"@.len() != "ArrayType"@.len());
    }
    assert(kind_ok(q));
    assert forall|i: int| 0 <= i < q.children.len() implies type_ok(#[trigger] q.children[i]) by {
        let x = q.children[i];
        assert(flatten(x) == x);
        assert(x.children =~= Seq::<NodeModel>::empty());
        assert(types_ok(x.children));
        assert(kind_ok(x));
    }
    lemma_types_ok(q.children);
}

/// The class of a well-formed array type is well-formed.
pub proof fn lemma_array_class_ok(name: NodeModel)
    requires
        type_ok(name),
        flatten(name).token.lexeme == Some("ArrayType"@),
    ensures
        class_ok(array_class(flatten(name))),
{
    let n = flatten(name);
    lemma_type_ok_flatten(name);
    lemma_types_ok(n.children);
    assert(n.children.len() >= 1);
    let c0 = n.children[0];
    assert(type_ok(c0));
    lemma_type_ok_flatten(c0);
    let x = flatten(c0);
    let a = array_class(n).name;
    if n.token.kind == TokenKind::NonTerminal {
        if name.token.kind == TokenKind::NonTerminal {
            lemma_flat_children_token(name.token, name.children);
        }
        assert(n.token == name.token);
        assert(c0.token != n.token);
        assert(x.token == c0.token);
        assert forall|i: int| 0 <= i < a.children.len() implies (#[trigger] a.children[i]).token != a.token by {}
        lemma_flat_children_unchanged(a.token, a.children);
    }
    assert(flatten(a).children.len() >= 1);
    assert(kind_ok(a));
    assert(a.children =~= seq![x]);
    lemma_types_ok(a.children);
    assert(type_ok(a));
    lemma_array_members_ok(n);
}

/// The supertypes of an array class are well-formed, and so is its
/// `length` field.
pub proof fn lemma_array_members_ok(n: NodeModel)
    ensures
        types_ok(array_class(n).extends),
        types_ok(array_class(n).implements),
        forall|i: int|
            0 <= i < array_class(n).fields.len() ==> type_ok(#[trigger] array_class(n).fields[i].kind) && type_ok(
                array_class(n).fields[i].name,
            ),
{
    reveal_strlit("java");
    reveal_strlit("lang");
    reveal_strlit("io");
    reveal_strlit("Object");
    reveal_strlit("Cloneable");
    reveal_strlit("Serializable");
    reveal_strlit("ArrayType");
    assert("java"@ != "ArrayType"@) by {
        assert("java"@.len() != "ArrayType"@.len());
    }
    assert("lang"@ != "ArrayType"@) by {
        assert("lang"@.len() != "ArrayType"@.len());
    }
    assert("io"@ != "ArrayType"@) by {
        assert("io"@.len() != "ArrayType"@.len());
    }
    assert("Object"@ != "ArrayType"@) by {
        assert("Object"@.len() != "ArrayType"@.len());
    }
    assert("Cloneable"@ != "ArrayType"@) by {
        assert("Cloneable"@[0] != "ArrayType"@[0]);
    }
    assert("Serializable"@ != "ArrayType"@) by {
        assert("Serializable"@.len() != "ArrayType"@.len());
    }
    lemma_qualified_ok("java"@, "lang"@, "Object"@);
    lemma_qualified_ok("java"@, "lang"@, "Cloneable"@);
    lemma_qualified_ok("java"@, "io"@, "Serializable"@);
    let c = array_class(n);
    lemma_types_ok(c.extends);
    lemma_types_ok(c.implements);
    let f = length_field();
    reveal_strlit("length");
    assert("length"@ != "ArrayType"@) by {
        assert("length"@.len() != "ArrayType"@.len());
    }
    assert(f.kind.children =~= Seq::<NodeModel>::empty());
    assert(type_ok(f.kind));
    assert(ident_model("length"@).children =~= Seq::<NodeModel>::empty());
    assert(type_ok(f.name));
    assert(c.fields =~= seq![f]);
}

/// An array class whose name is well-formed is well-formed, members
/// included.
pub proof fn lemma_array_deep_ok(n: NodeModel)
    requires
        type_ok(array_class(n).name),
    ensures
        deep_ok(array_class(n)),
{
    lemma_array_members_ok(n);
}

/// A class found by step 0 is one of the types.
proof fn lemma_step0_ok(n: NodeModel, current: ClassModel, kinds: Seq<ClassModel>, i: int)
    requires
        forall|j: int| 0 <= j < kinds.len() ==> class_ok(#[trigger] kinds[j]),
    ensures
        step0_from(n, current, kinds, i) matches Some(Ok(k)) ==> class_ok(k),
    decreases kinds.len() - i,
{
    if 0 <= i < kinds.len() && kinds[i].name != n {
        lemma_step0_ok(n, current, kinds, i + 1);
    }
}

/// A class found by a scan for a name is one of the types.
proof fn lemma_scan_named_ok(kinds: Seq<ClassModel>, name: NodeModel, i: int, found: Option<ClassModel>)
    requires
        forall|j: int| 0 <= j < kinds.len() ==> class_ok(#[trigger] kinds[j]),
        found matches Some(f) ==> class_ok(f),
    ensures
        scan_named(kinds, name, i, found) matches Ok(Some(k)) ==> class_ok(k),
    decreases kinds.len() - i,
{
    if 0 <= i < kinds.len() {
        if kinds[i].name == name {
            if found is None {
                lemma_scan_named_ok(kinds, name, i + 1, Some(kinds[i]));
            }
        } else {
            lemma_scan_named_ok(kinds, name, i + 1, found);
        }
    }
}

/// A class found by step 2 is one of the types.
proof fn lemma_step2_ok(n: NodeModel, current: ClassModel, kinds: Seq<ClassModel>, j: int)
    requires
        forall|i: int| 0 <= i < kinds.len() ==> class_ok(#[trigger] kinds[i]),
    ensures
        step2_from(n, current, kinds, j) matches Some(Ok(k)) ==> class_ok(k),
    decreases current.imports.len() - j,
{
    if 0 <= j < current.imports.len() {
        lemma_scan_named_ok(kinds, current.imports[j], 0, None);
        lemma_step2_ok(n, current, kinds, j + 1);
    }
}

/// A class found in the enclosing package is one of the types.
proof fn lemma_scan_package_ok(
    kinds: Seq<ClassModel>,
    current: ClassModel,
    n: NodeModel,
    i: int,
    found: Option<ClassModel>,
)
    requires
        forall|j: int| 0 <= j < kinds.len() ==> class_ok(#[trigger] kinds[j]),
        found matches Some(f) ==> class_ok(f),
    ensures
        scan_package(kinds, current, n, i, found) matches Ok(Some(k)) ==> class_ok(k),
    decreases kinds.len() - i,
{
    if 0 <= i < kinds.len() {
        if in_package(kinds[i], current, n) {
            if found is None {
                lemma_scan_package_ok(kinds, current, n, i + 1, Some(kinds[i]));
            }
        } else {
            lemma_scan_package_ok(kinds, current, n, i + 1, found);
        }
    }
}

/// A class found by an on-demand import is one of the types.
proof fn lemma_scan_demand_kinds_ok(
    imp: NodeModel,
    kinds: Seq<ClassModel>,
    n: NodeModel,
    i: int,
    found: Option<ClassModel>,
)
    requires
        forall|j: int| 0 <= j < kinds.len() ==> class_ok(#[trigger] kinds[j]),
        found matches Some(f) ==> class_ok(f),
    ensures
        scan_demand_kinds(imp, kinds, n, i, found) matches Ok(Some(k)) ==> class_ok(k),
    decreases kinds.len() - i,
{
    if 0 <= i < kinds.len() {
        if on_demand(imp, kinds[i], n) {
            if found is None {
                lemma_scan_demand_kinds_ok(imp, kinds, n, i + 1, Some(kinds[i]));
            }
        } else {
            lemma_scan_demand_kinds_ok(imp, kinds, n, i + 1, found);
        }
    }
}

/// A class found by the on-demand imports is one of the types.
proof fn lemma_scan_demand_ok(
    imports: Seq<NodeModel>,
    kinds: Seq<ClassModel>,
    n: NodeModel,
    j: int,
    found: Option<ClassModel>,
)
    requires
        forall|i: int| 0 <= i < kinds.len() ==> class_ok(#[trigger] kinds[i]),
        found matches Some(f) ==> class_ok(f),
    ensures
        scan_demand(imports, kinds, n, j, found) matches Ok(Some(k)) ==> class_ok(k),
    decreases imports.len() - j,
{
    if 0 <= j < imports.len() {
        lemma_scan_demand_kinds_ok(imports[j], kinds, n, 0, found);
        match scan_demand_kinds(imports[j], kinds, n, 0, found) {
            Ok(f) => lemma_scan_demand_ok(imports, kinds, n, j + 1, f),
            Err(_) => {},
        }
    }
}

/// Whatever a well-formed name resolves to in a well-formed program is
/// well-formed.
pub proof fn lemma_in_env_ok(name: NodeModel, current: ClassModel, kinds: Seq<ClassModel>)
    requires
        type_ok(name),
        env_ok(current, kinds),
    ensures
        in_env_model(name, current, kinds) matches Ok(c) ==> class_ok(c),
{
    let n = flatten(name);
    lemma_type_ok_flatten(name);
    if n.token.lexeme == Some("ArrayType"@) {
        lemma_array_class_ok(name);
    } else if (n.token.lexeme == Some("Name"@) && n.children.len() == 1 && is_primitive_kind(
        n.children[0].token.kind,
    )) || is_primitive_kind(n.token.kind) {
        let c = class_new(n, ClassOrInterface::CLASS);
        assert(c.extends =~= Seq::<NodeModel>::empty());
        assert(c.implements =~= Seq::<NodeModel>::empty());
    } else {
        lemma_step0_ok(n, current, kinds, 0);
        lemma_step2_ok(n, current, kinds, 0);
        lemma_scan_package_ok(kinds, current, n, 0, None);
        lemma_scan_demand_ok(current.imports, kinds, n, 0, None);
    }
}

/// The names that variables carry are well-formed.
pub open spec fn vars_ok(vs: Seq<crate::analysis::environment::variable::VarModel>) -> bool {
    forall|i: int| 0 <= i < vs.len() ==> type_ok(#[trigger] vs[i].kind) && type_ok(vs[i].name)
}

/// The names that a method carries are well-formed.
pub open spec fn method_ok(m: crate::analysis::environment::method::MethodModel) -> bool {
    &&& type_ok(m.return_type)
    &&& type_ok(m.name)
    &&& vars_ok(m.parameters)
}

/// Every name that a class carries, in its members too, is well-formed.
pub open spec fn deep_ok(c: ClassModel) -> bool {
    &&& class_ok(c)
    &&& forall|i: int| 0 <= i < c.fields.len() ==> type_ok(#[trigger] c.fields[i].kind) && type_ok(c.fields[i].name)
    &&& forall|i: int| 0 <= i < c.methods.len() ==> method_ok(#[trigger] c.methods[i])
    &&& forall|i: int| 0 <= i < c.constructors.len() ==> method_ok(#[trigger] c.constructors[i])
}

/// The class seen from and every type of the program are well-formed,
/// members included.
pub open spec fn world_ok(current: ClassModel, kinds: Seq<ClassModel>) -> bool {
    &&& deep_ok(current)
    &&& forall|i: int| 0 <= i < kinds.len() ==> deep_ok(#[trigger] kinds[i])
}

/// A well-formed world is well-formed at the level of class names.
pub proof fn lemma_world_env(current: ClassModel, kinds: Seq<ClassModel>)
    requires
        world_ok(current, kinds),
    ensures
        env_ok(current, kinds),
{
    assert forall|i: int| 0 <= i < kinds.len() implies class_ok(#[trigger] kinds[i]) by {
        assert(deep_ok(kinds[i]));
    }
}

/// Whatever a well-formed name resolves to in a well-formed world is
/// well-formed, members included.
pub proof fn lemma_in_env_deep_ok(name: NodeModel, current: ClassModel, kinds: Seq<ClassModel>)
    requires
        type_ok(name),
        world_ok(current, kinds),
    ensures
        in_env_model(name, current, kinds) matches Ok(c) ==> deep_ok(c),
{
    lemma_world_env(current, kinds);
    lemma_in_env_ok(name, current, kinds);
    let n = flatten(name);
    lemma_type_ok_flatten(name);
    if n.token.lexeme == Some("ArrayType"@) {
        let c = array_class(n);
        let f = length_field();
        reveal_strlit("length");
        reveal_strlit("ArrayType");
        assert("length"@ != "ArrayType"@) by {
            assert("length"@.len() != "ArrayType"@.len());
        }
        assert(f.kind == leaf_model(TokenKind::Int));
        assert(f.kind.children =~= Seq::<NodeModel>::empty());
        assert(type_ok(f.kind));
        assert(ident_model("length"@).children =~= Seq::<NodeModel>::empty());
        assert(type_ok(f.name));
        assert(c.fields =~= seq![f]);
    } else if (n.token.lexeme == Some("Name"@) && n.children.len() == 1 && is_primitive_kind(
        n.children[0].token.kind,
    )) || is_primitive_kind(n.token.kind) {
    } else {
        lemma_step0_deep(n, current, kinds, 0);
        lemma_step2_deep(n, current, kinds, 0);
        lemma_scan_package_deep(kinds, current, n, 0, None);
        lemma_scan_demand_deep(current.imports, kinds, n, 0, None);
    }
}

proof fn lemma_step0_deep(n: NodeModel, current: ClassModel, kinds: Seq<ClassModel>, i: int)
    requires
        forall|j: int| 0 <= j < kinds.len() ==> deep_ok(#[trigger] kinds[j]),
    ensures
        step0_from(n, current, kinds, i) matches Some(Ok(k)) ==> deep_ok(k),
    decreases kinds.len() - i,
{
    if 0 <= i < kinds.len() && kinds[i].name != n {
        lemma_step0_deep(n, current, kinds, i + 1);
    }
}

proof fn lemma_scan_named_deep(kinds: Seq<ClassModel>, name: NodeModel, i: int, found: Option<ClassModel>)
    requires
        forall|j: int| 0 <= j < kinds.len() ==> deep_ok(#[trigger] kinds[j]),
        found matches Some(f) ==> deep_ok(f),
    ensures
        scan_named(kinds, name, i, found) matches Ok(Some(k)) ==> deep_ok(k),
    decreases kinds.len() - i,
{
    if 0 <= i < kinds.len() {
        if kinds[i].name == name {
            if found is None {
                lemma_scan_named_deep(kinds, name, i + 1, Some(kinds[i]));
            }
        } else {
            lemma_scan_named_deep(kinds, name, i + 1, found);
        }
    }
}

proof fn lemma_step2_deep(n: NodeModel, current: ClassModel, kinds: Seq<ClassModel>, j: int)
    requires
        forall|i: int| 0 <= i < kinds.len() ==> deep_ok(#[trigger] kinds[i]),
    ensures
        step2_from(n, current, kinds, j) matches Some(Ok(k)) ==> deep_ok(k),
    decreases current.imports.len() - j,
{
    if 0 <= j < current.imports.len() {
        lemma_scan_named_deep(kinds, current.imports[j], 0, None);
        lemma_step2_deep(n, current, kinds, j + 1);
    }
}

proof fn lemma_scan_package_deep(
    kinds: Seq<ClassModel>,
    current: ClassModel,
    n: NodeModel,
    i: int,
    found: Option<ClassModel>,
)
    requires
        forall|j: int| 0 <= j < kinds.len() ==> deep_ok(#[trigger] kinds[j]),
        found matches Some(f) ==> deep_ok(f),
    ensures
        scan_package(kinds, current, n, i, found) matches Ok(Some(k)) ==> deep_ok(k),
    decreases kinds.len() - i,
{
    if 0 <= i < kinds.len() {
        if in_package(kinds[i], current, n) {
            if found is None {
                lemma_scan_package_deep(kinds, current, n, i + 1, Some(kinds[i]));
            }
        } else {
            lemma_scan_package_deep(kinds, current, n, i + 1, found);
        }
    }
}

proof fn lemma_scan_demand_kinds_deep(
    imp: NodeModel,
    kinds: Seq<ClassModel>,
    n: NodeModel,
    i: int,
    found: Option<ClassModel>,
)
    requires
        forall|j: int| 0 <= j < kinds.len() ==> deep_ok(#[trigger] kinds[j]),
        found matches Some(f) ==> deep_ok(f),
    ensures
        scan_demand_kinds(imp, kinds, n, i, found) matches Ok(Some(k)) ==> deep_ok(k),
    decreases kinds.len() - i,
{
    if 0 <= i < kinds.len() {
        if on_demand(imp, kinds[i], n) {
            if found is None {
                lemma_scan_demand_kinds_deep(imp, kinds, n, i + 1, Some(kinds[i]));
            }
        } else {
            lemma_scan_demand_kinds_deep(imp, kinds, n, i + 1, found);
        }
    }
}

proof fn lemma_scan_demand_deep(
    imports: Seq<NodeModel>,
    kinds: Seq<ClassModel>,
    n: NodeModel,
    j: int,
    found: Option<ClassModel>,
)
    requires
        forall|i: int| 0 <= i < kinds.len() ==> deep_ok(#[trigger] kinds[i]),
        found matches Some(f) ==> deep_ok(f),
    ensures
        scan_demand(imports, kinds, n, j, found) matches Ok(Some(k)) ==> deep_ok(k),
    decreases imports.len() - j,
{
    if 0 <= j < imports.len() {
        lemma_scan_demand_kinds_deep(imports[j], kinds, n, 0, found);
        match scan_demand_kinds(imports[j], kinds, n, 0, found) {
            Ok(f) => lemma_scan_demand_deep(imports, kinds, n, j + 1, f),
            Err(_) => {},
        }
    }
}


/// The class of the type of the first variable named `n`.
pub open spec fn class_in_variables(
    n: NodeModel,
    current: ClassModel,
    kinds: Seq<ClassModel>,
    vars: Seq<crate::analysis::environment::variable::VarModel>,
) -> Result<ClassModel, ()> {
    match crate::analysis::types::lookup::field::first_named_var(vars, n, 0) {
        Some(v) => in_env_model(v.kind, current, kinds),
        None => Err(()),
    }
}

/// Finds the class of the type of the first variable named `name`.
pub fn in_variables(
    name: &ASTNode,
    current: &ClassOrInterfaceEnvironment,
    kinds: &Vec<ClassOrInterfaceEnvironment>,
    variables: &Vec<crate::analysis::environment::variable::VariableEnvironment>,
) -> (r: Result<ClassOrInterfaceEnvironment, String>)
    requires
        vars_ok(variables.deep_view()),
        world_ok(current.deep_view(), kinds.deep_view()),
    ensures
        found(r) == class_in_variables(name.model(), current.deep_view(), kinds.deep_view(), variables.deep_view()),
        r matches Ok(c) ==> deep_ok(c.deep_view()),
{
    match crate::analysis::types::lookup::field::find_variable(variables, name) {
        Some(j) => {
            proof {
                assert(variables.deep_view()[j as int] == variables@[j as int].deep_view());
                assert(type_ok(variables.deep_view()[j as int].kind));
                lemma_in_env_deep_ok(variables@[j as int].kind.model(), current.deep_view(), kinds.deep_view());
            }
            in_env(&variables[j].kind, current, kinds)
        },
        None => Err(note("no variable of that name")),
    }
}

} // verus!
