//! The class of an array type.
use vstd::prelude::*;

use crate::analysis::environment::classorinterface::{
    class_new, ClassModel, ClassOrInterface, ClassOrInterfaceEnvironment,
};
use crate::analysis::environment::field::{field_new, FieldEnvironment, FieldModel};
use crate::analysis::environment::class::qualified3;
use crate::ast::{flatten, ident_model, leaf_model, lemma_model_children, object_model, ASTNode, NodeModel};
use crate::tokens::TokenKind;

verus! {

/// `java.lang.Cloneable`.
pub open spec fn cloneable_model() -> NodeModel {
    crate::ast::qualified3("java"@, "lang"@, "Cloneable"@)
}

/// `java.io.Serializable`.
pub open spec fn serializable_model() -> NodeModel {
    crate::ast::qualified3("java"@, "io"@, "Serializable"@)
}

/// The `public final int length` field of every array.
pub open spec fn length_field() -> FieldModel {
    FieldModel {
        modifiers: seq![leaf_model(TokenKind::Public), leaf_model(TokenKind::Final)],
        ..field_new(ident_model("length"@), leaf_model(TokenKind::Int))
    }
}

/// The class of the array type `name`: its name keeps only the (flattened)
/// element type; it extends `java.lang.Object`, implements `Cloneable` and
/// `Serializable`, and has a `length` field.
pub open spec fn array_class(name: NodeModel) -> ClassModel {
    let n = NodeModel { token: name.token, children: seq![flatten(name.children[0])] };
    ClassModel {
        extends: seq![object_model()],
        implements: seq![cloneable_model(), serializable_model()],
        fields: seq![length_field()],
        ..class_new(n, ClassOrInterface::CLASS)
    }
}

/// The class of the array type `name`, whose first child is the element
/// type.
pub fn create(name: &ASTNode) -> (r: ClassOrInterfaceEnvironment)
    requires
        name.model().children.len() >= 1,
    ensures
        r.deep_view() == array_class(name.model()),
{
    proof {
        lemma_model_children(*name);
    }
    let element = name.children[0].flattened();
    let ghost em = element.model();
    let mut children: Vec<ASTNode> = Vec::new();
    children.push(element);
    let n = ASTNode { token: name.token.clone(), children };
    proof {
        lemma_model_children(n);
        assert(n.model().children =~= seq![em]);
    }
    let mut array = ClassOrInterfaceEnvironment::new(n, ClassOrInterface::CLASS);
    array.extends.push(qualified3("java", "lang", "Object"));
    array.implements.push(qualified3("java", "lang", "Cloneable"));
    array.implements.push(qualified3("java", "io", "Serializable"));
    let mut length = FieldEnvironment::new(ASTNode::ident("length"), ASTNode::leaf(TokenKind::Int));
    length.modifiers.push(ASTNode::leaf(TokenKind::Public));
    length.modifiers.push(ASTNode::leaf(TokenKind::Final));
    proof {
        assert(length.modifiers.deep_view() =~= length_field().modifiers);
        assert(length.deep_view() == length_field());
    }
    array.fields.push(length);
    proof {
        assert(array.extends.deep_view() =~= seq![object_model()]);
        assert(array.implements.deep_view() =~= seq![cloneable_model(), serializable_model()]);
        assert(array.fields.deep_view() =~= seq![length_field()]);
    }
    array
}

} // verus!
