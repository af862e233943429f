//! Methods and constructors.
use vstd::prelude::*;

use crate::analysis::environment::variable::{clone_vars, VarModel, VariableEnvironment};
use crate::ast::{clone_nodes, ASTNode, NodeModel};

verus! {

pub struct MethodModel {
    pub modifiers: Seq<NodeModel>,
    pub return_type: NodeModel,
    pub name: NodeModel,
    pub parameters: Seq<VarModel>,
    pub parent: Option<NodeModel>,
    pub body: Option<NodeModel>,
}

#[derive(Debug)]
pub struct MethodEnvironment {
    pub modifiers: Vec<ASTNode>,
    pub return_type: ASTNode,
    pub name: ASTNode,
    pub parameters: Vec<VariableEnvironment>,
    pub parent: Option<ASTNode>,
    pub body: Option<ASTNode>,
}

impl DeepView for MethodEnvironment {
    type V = MethodModel;

    open spec fn deep_view(&self) -> MethodModel {
        MethodModel {
            modifiers: self.modifiers.deep_view(),
            return_type: self.return_type.model(),
            name: self.name.model(),
            parameters: self.parameters.deep_view(),
            parent: self.parent.deep_view(),
            body: self.body.deep_view(),
        }
    }
}

impl Clone for MethodEnvironment {
    fn clone(&self) -> (r: Self)
        ensures
            r.deep_view() == self.deep_view(),
    {
        MethodEnvironment {
            modifiers: clone_nodes(&self.modifiers),
            return_type: self.return_type.clone(),
            name: self.name.clone(),
            parameters: clone_vars(&self.parameters),
            parent: match &self.parent {
                Some(p) => Some(p.clone()),
                None => None,
            },
            body: match &self.body {
                Some(b) => Some(b.clone()),
                None => None,
            },
        }
    }
}

/// A method named `name` returning `return_type`, with nothing else yet.
pub open spec fn method_new(name: NodeModel, return_type: NodeModel) -> MethodModel {
    MethodModel {
        modifiers: Seq::empty(),
        return_type,
        name,
        parameters: Seq::empty(),
        parent: None,
        body: None,
    }
}

impl MethodEnvironment {
    pub fn new(name: ASTNode, return_type: ASTNode) -> (r: MethodEnvironment)
        ensures
            r.deep_view() == method_new(name.model(), return_type.model()),
    {
        let r = MethodEnvironment {
            modifiers: Vec::new(),
            return_type,
            name,
            parameters: Vec::new(),
            parent: None,
            body: None,
        };
        proof {
            assert(r.modifiers.deep_view() =~= Seq::<NodeModel>::empty());
            assert(r.parameters.deep_view() =~= Seq::<VarModel>::empty());
        }
        r
    }
}

/// A copy of a list of methods.
pub fn clone_methods(v: &Vec<MethodEnvironment>) -> (r: Vec<MethodEnvironment>)
    ensures
        r.deep_view() == v.deep_view(),
{
    let r = v.clone();
    proof {
        assert forall|i: int| 0 <= i < v@.len() implies #[trigger] r@[i].deep_view()
            == v@[i].deep_view() by {
            assert(cloned::<MethodEnvironment>(v[i], r[i]));
        }
        assert(r.deep_view() =~= v.deep_view());
    }
    r
}

} // verus!

verus! {

use crate::analysis::environment::classorinterface::{ClassModel, ClassOrInterface, ClassOrInterfaceEnvironment};
use crate::analysis::environment::variable::{same_signature, signature, var_new, var_node_ok};
use crate::ast::{flatten, leaf_model, lemma_model_children, contains_node, models};
use crate::tokens::{lexeme_is, TokenKind};
use crate::text::note;

broadcast use vstd::seq::axiom_seq_subrange_decreases;

/// The nodes of a parameter list: the flattened list, or the single
/// parameter when there is no list.
pub open spec fn param_nodes(p: NodeModel) -> Seq<NodeModel> {
    if p.token.lexeme == Some("ParameterList"@) {
        flatten(p).children
    } else {
        seq![p]
    }
}

/// The parameters declared by `cs`, commas skipped; each counts as
/// initialized.
pub open spec fn params_from(cs: Seq<NodeModel>) -> Seq<VarModel>
    decreases cs.len(),
{
    if cs.len() == 0 {
        Seq::empty()
    } else {
        let rest = params_from(cs.drop_last());
        let c = cs.last();
        if c.token.kind == TokenKind::Comma {
            rest
        } else {
            rest.push(VarModel { initialized: true, ..var_new(c) })
        }
    }
}

/// Every parameter node of a declarator can be read as a variable.
pub open spec fn params_ok(declarator: NodeModel) -> bool {
    declarator.children.len() == 4 ==> forall|i: int|
        0 <= i < param_nodes(declarator.children[2]).len() && #[trigger] param_nodes(
            declarator.children[2],
        )[i].token.kind != TokenKind::Comma ==> var_node_ok(param_nodes(declarator.children[2])[i])
}

/// The parameters of a method declarator `Name ( Params )`; a declarator
/// without parameters has four fewer... it has no third child list.
pub open spec fn declared_params(declarator: NodeModel) -> Seq<VarModel> {
    if declarator.children.len() == 4 {
        params_from(param_nodes(declarator.children[2]))
    } else {
        Seq::empty()
    }
}

/// Reads the parameters of a method or constructor declarator.
pub fn declared_parameters(declarator: &ASTNode) -> (r: Vec<VariableEnvironment>)
    requires
        params_ok(declarator.model()),
    ensures
        r.deep_view() == declared_params(declarator.model()),
{
    proof {
        lemma_model_children(*declarator);
    }
    let mut r: Vec<VariableEnvironment> = Vec::new();
    if declarator.children.len() != 4 {
        proof {
            assert(r.deep_view() =~= Seq::<VarModel>::empty());
        }
        return r;
    }
    let p = &declarator.children[2];
    let list = if lexeme_is(&p.token.lexeme, "ParameterList") {
        p.flattened()
    } else {
        let mut v: Vec<ASTNode> = Vec::new();
        v.push(p.clone());
        ASTNode::rule("ParameterList", v)
    };
    proof {
        lemma_model_children(list);
        assert(list.model().children =~= param_nodes(p.model()));
    }
    let ghost cs = param_nodes(p.model());
    let mut i: usize = 0;
    while i < list.children.len()
        invariant
            i <= list.children@.len(),
            cs == list.model().children,
            cs == models(list.children@),
            forall|k: int| 0 <= k < cs.len() && #[trigger] cs[k].token.kind != TokenKind::Comma
                ==> var_node_ok(cs[k]),
            r.deep_view() == params_from(cs.subrange(0, i as int)),
        decreases list.children@.len() - i,
    {
        proof {
            assert(cs.subrange(0, i + 1).drop_last() =~= cs.subrange(0, i as int));
            assert(cs.subrange(0, i + 1).last() == cs[i as int]);
            assert(cs[i as int] == list.children@[i as int].model());
        }
        let c = &list.children[i];
        if c.token.kind != TokenKind::Comma {
            let ghost before = r.deep_view();
            proof {
                assert(cs[i as int].token.kind != TokenKind::Comma);
            }
            let mut v = VariableEnvironment::new(c.clone());
            v.initialized = true;
            r.push(v);
            proof {
                assert(r.deep_view() =~= before.push(VarModel { initialized: true, ..var_new(cs[i as int]) }));
            }
        }
        i = i + 1;
    }
    proof {
        assert(cs.subrange(0, list.children@.len() as int) =~= cs);
    }
    r
}

/// A method with the same name and signature is already declared.
pub open spec fn method_clash(ms: Seq<MethodModel>, m: MethodModel) -> bool {
    exists|i: int|
        0 <= i < ms.len() && #[trigger] ms[i].name == m.name && signature(ms[i].parameters)
            == signature(m.parameters)
}

/// A constructor with the same signature is already declared.
pub open spec fn constructor_clash(ms: Seq<MethodModel>, m: MethodModel) -> bool {
    exists|i: int| 0 <= i < ms.len() && #[trigger] signature(ms[i].parameters) == signature(m.parameters)
}

fn has_method_clash(ms: &Vec<MethodEnvironment>, m: &MethodEnvironment, by_name: bool) -> (r: bool)
    ensures
        by_name ==> r == method_clash(ms.deep_view(), m.deep_view()),
        !by_name ==> r == constructor_clash(ms.deep_view(), m.deep_view()),
{
    let mut i: usize = 0;
    while i < ms.len()
        invariant
            i <= ms@.len(),
            forall|j: int|
                0 <= j < i ==> !((!by_name || ms@[j].name.model() == m.name.model()) && signature(
                    ms@[j].parameters.deep_view(),
                ) == signature(m.parameters.deep_view())),
        decreases ms@.len() - i,
    {
        if (!by_name || ms[i].name.equals(&m.name)) && same_signature(&ms[i].parameters, &m.parameters) {
            proof {
                assert(ms.deep_view()[i as int] == ms@[i as int].deep_view());
                if by_name {
                    assert(ms.deep_view()[i as int].name == m.deep_view().name && signature(
                        ms.deep_view()[i as int].parameters,
                    ) == signature(m.deep_view().parameters));
                } else {
                    assert(signature(ms.deep_view()[i as int].parameters) == signature(
                        m.deep_view().parameters,
                    ));
                }
            }
            return true;
        }
        i = i + 1;
    }
    proof {
        assert forall|j: int| 0 <= j < ms.deep_view().len() implies !((!by_name
            || #[trigger] ms.deep_view()[j].name == m.deep_view().name) && signature(
            ms.deep_view()[j].parameters,
        ) == signature(m.deep_view().parameters)) by {
            assert(ms.deep_view()[j] == ms@[j].deep_view());
        }
    }
    false
}

/// The shape of a method header `Modifiers Type Declarator` that can be read.
pub open spec fn header_ok(header: NodeModel) -> bool {
    &&& header.children.len() >= 3
    &&& header.children[2].children.len() >= 1
    &&& params_ok(header.children[2])
}

/// The method declared by a header, before its body is attached.
pub open spec fn header_method(header: NodeModel) -> MethodModel {
    MethodModel {
        modifiers: header.children[0].children,
        return_type: header.children[1],
        name: header.children[2].children[0],
        parameters: declared_params(header.children[2]),
        parent: None,
        body: None,
    }
}

/// Adds `m` to the methods of `c`, unless it clashes with one of them.
pub open spec fn add_method(c: ClassModel, m: MethodModel) -> Result<ClassModel, ()> {
    if method_clash(c.methods, m) {
        Err(())
    } else {
        Ok(ClassModel { methods: c.methods.push(m), ..c })
    }
}

/// An abstract method declaration; inside an interface every method is
/// abstract.
pub open spec fn abstract_method_decl(c: ClassModel, header: NodeModel) -> Result<ClassModel, ()> {
    let m = header_method(header);
    let abs = leaf_model(TokenKind::Abstract);
    let modifiers = if !m.modifiers.contains(abs) && c.kind == ClassOrInterface::INTERFACE {
        m.modifiers.push(abs)
    } else {
        m.modifiers
    };
    add_method(c, MethodModel { modifiers, ..m })
}

/// A method declaration with a body.
pub open spec fn method_decl(c: ClassModel, header: NodeModel, body: NodeModel) -> Result<ClassModel, ()> {
    add_method(c, MethodModel { body: Some(body), ..header_method(header) })
}

/// A constructor declaration: it returns its class, and its signature must
/// differ from every other constructor's.
pub open spec fn constructor_decl(
    c: ClassModel,
    modifiers: NodeModel,
    declarator: NodeModel,
    body: NodeModel,
) -> Result<ClassModel, ()> {
    let m = MethodModel {
        modifiers: modifiers.children,
        return_type: c.name,
        name: declarator.children[0],
        parameters: declared_params(declarator),
        parent: None,
        body: Some(body),
    };
    if constructor_clash(c.constructors, m) {
        Err(())
    } else {
        Ok(ClassModel { constructors: c.constructors.push(m), ..c })
    }
}

/// The declaration's method, read from its header.
fn read_header(header: &ASTNode) -> (m: MethodEnvironment)
    requires
        header_ok(header.model()),
    ensures
        m.deep_view() == header_method(header.model()),
{
    proof {
        lemma_model_children(*header);
        lemma_model_children(header.children@[2]);
        lemma_model_children(header.children@[0]);
    }
    let declarator = &header.children[2];
    let mut m = MethodEnvironment::new(declarator.children[0].clone(), header.children[1].clone());
    m.modifiers = clone_nodes(&header.children[0].children);
    m.parameters = declared_parameters(declarator);
    proof {
        assert(header.children@[0].children.deep_view() == header.model().children[0].children) by {
            assert(header.children@[0].children.deep_view() =~= models(header.children@[0].children@));
        }
    }
    m
}

pub fn analyze_abstract_method_declaration(
    current: &mut ClassOrInterfaceEnvironment,
    header: &ASTNode,
) -> (r: Result<(), String>)
    requires
        header_ok(header.model()),
    ensures
        r is Ok <==> abstract_method_decl(old(current).deep_view(), header.model()) is Ok,
        r is Ok ==> final(current).deep_view() == abstract_method_decl(
            old(current).deep_view(),
            header.model(),
        )->Ok_0,
        r is Err ==> final(current).deep_view() == old(current).deep_view(),
        r matches Err(e) ==> e@ == "methods must have unique signatures"@,
{
    let mut m = read_header(header);
    let abs = ASTNode::leaf(TokenKind::Abstract);
    if !contains_node(&m.modifiers, &abs) && current.kind == ClassOrInterface::INTERFACE {
        m.modifiers.push(abs);
    }
    let ghost expected = abstract_method_decl(current.deep_view(), header.model());
    proof {
        assert(m.deep_view().modifiers =~= (if !header_method(header.model()).modifiers.contains(leaf_model(TokenKind::Abstract)) && current.kind == ClassOrInterface::INTERFACE {
            header_method(header.model()).modifiers.push(leaf_model(TokenKind::Abstract))
        } else {
            header_method(header.model()).modifiers
        }));
    }
    if has_method_clash(&current.methods, &m, true) {
        return Err(note("methods must have unique signatures"));
    }
    let ghost before = current.methods.deep_view();
    let ghost md = m.deep_view();
    current.methods.push(m);
    proof {
        assert(current.methods.deep_view() =~= before.push(md));
        assert(current.deep_view() =~= expected->Ok_0);
    }
    Ok(())
}

pub fn analyze_method_declaration(
    current: &mut ClassOrInterfaceEnvironment,
    header: &ASTNode,
    body: &ASTNode,
) -> (r: Result<(), String>)
    requires
        header_ok(header.model()),
    ensures
        r is Ok <==> method_decl(old(current).deep_view(), header.model(), body.model()) is Ok,
        r is Ok ==> final(current).deep_view() == method_decl(
            old(current).deep_view(),
            header.model(),
            body.model(),
        )->Ok_0,
        r is Err ==> final(current).deep_view() == old(current).deep_view(),
        r matches Err(e) ==> e@ == "methods must have unique signatures"@,
{
    let mut m = read_header(header);
    m.body = Some(body.clone());
    let ghost expected = method_decl(current.deep_view(), header.model(), body.model());
    if has_method_clash(&current.methods, &m, true) {
        return Err(note("methods must have unique signatures"));
    }
    let ghost before = current.methods.deep_view();
    let ghost md = m.deep_view();
    current.methods.push(m);
    proof {
        assert(current.methods.deep_view() =~= before.push(md));
        assert(current.deep_view() =~= expected->Ok_0);
    }
    Ok(())
}

pub fn analyze_constructor_declaration(
    current: &mut ClassOrInterfaceEnvironment,
    modifiers: &ASTNode,
    declarator: &ASTNode,
    body: &ASTNode,
) -> (r: Result<(), String>)
    requires
        declarator.model().children.len() >= 1,
        params_ok(declarator.model()),
    ensures
        r is Ok <==> constructor_decl(
            old(current).deep_view(),
            modifiers.model(),
            declarator.model(),
            body.model(),
        ) is Ok,
        r is Ok ==> final(current).deep_view() == constructor_decl(
            old(current).deep_view(),
            modifiers.model(),
            declarator.model(),
            body.model(),
        )->Ok_0,
        r is Err ==> final(current).deep_view() == old(current).deep_view(),
        r matches Err(e) ==> e@ == "constructors must have unique signatures"@,
{
    proof {
        lemma_model_children(*declarator);
        lemma_model_children(*modifiers);
    }
    let mut m = MethodEnvironment::new(declarator.children[0].clone(), current.name.clone());
    m.modifiers = clone_nodes(&modifiers.children);
    m.parameters = declared_parameters(declarator);
    m.body = Some(body.clone());
    proof {
        assert(modifiers.children.deep_view() =~= models(modifiers.children@));
    }
    let ghost expected = constructor_decl(current.deep_view(), modifiers.model(), declarator.model(), body.model());
    if has_method_clash(&current.constructors, &m, false) {
        return Err(note("constructors must have unique signatures"));
    }
    let ghost before = current.constructors.deep_view();
    let ghost md = m.deep_view();
    current.constructors.push(m);
    proof {
        assert(current.constructors.deep_view() =~= before.push(md));
        assert(current.deep_view() =~= expected->Ok_0);
    }
    Ok(())
}

} // verus!
