//! The messages of all compiler errors.
use vstd::prelude::*;

verus! {

/// Every error message generated by the compiler throughout each layer of
/// the stack.
#[derive(Clone, Debug)]
pub enum ErrorMessage {
    /// Abstract methods may not have bodies.
    AbstractBody,
    /// Char literals may not contain literal newlines.
    CharNewline,
    /// Char literals may only be of length one.
    CharTooLong,
    /// Char literals may only be of length one; an octal escape such as `'\21'`
    /// also counts, which gives a hint as to why the char may be too long.
    CharTooLongOctal,
    /// Classes must have the same name as the file they are declared in.
    ClassBadName,
    /// Concrete classes must have bodies.
    ConcreteNoBody,
    /// Error reading file. Parameter: filename.
    CouldNotReadFile(String),
    /// Error running the `reduce` function on the parse stack.
    CouldNotReduceStack,
    /// Final methods can not be abstract.
    FinalAbstract,
    /// Final fields must have initializers.
    FinalNoInit,
    /// Single-type import declarations must not clash.
    ImportClashSingleTogether,
    /// Interfaces must have the same name as the file they are declared in.
    InterfaceBadName,
    /// Integers must be within 32-bit range.
    IntOOB,
    /// Cannot cast to expression.
    InvalidCast,
    /// Only \b, \f, \n, \r, and \t are valid.
    InvalidEscape,
    /// Octals must be in range \0 - \399.
    InvalidOctal,
    /// A parse tree is only valid if it can be reduced to a single start symbol.
    InvalidParseTree,
    /// Root parse nodes must be `package`, `import`, or `TypeDeclaration`.
    InvalidRootChild,
    /// Catch-all for un-scannable tokens.
    InvalidToken,
    /// An AST must have a single canonical name identifier.
    MissingName,
    /// A single file may only contain one class.
    MultipleClasses,
    /// Native methods may not have a body.
    NativeBody,
    /// Non-static methods can not be native.
    NonStaticNative,
    /// Static methods cannot be abstract.
    StaticAbstract,
    /// Static methods cannot be final.
    StaticFinal,
    /// String literals may not contain literal newlines.
    StringNewline,
    /// Failure to parse a token kind from a string.
    StringNotToken(String),
    /// Catch-all for un-parseable tokens. Parameter: the token's text.
    UnparseableToken(String),
}

/// The text of a message.
pub open spec fn message_text(m: ErrorMessage) -> Seq<char> {
    match m {
        ErrorMessage::AbstractBody => "abstract method has body"@,
        ErrorMessage::CharNewline => "char contains newline"@,
        ErrorMessage::CharTooLong => "too many character in char"@,
        ErrorMessage::CharTooLongOctal => "too many characters in char (maybe malformed octal?)"@,
        ErrorMessage::ClassBadName => "class is badly named"@,
        ErrorMessage::ConcreteNoBody => "concrete method has no body"@,
        ErrorMessage::CouldNotReadFile(f) => "could not read file "@ + f@,
        ErrorMessage::CouldNotReduceStack => "could not entirely reduce stack"@,
        ErrorMessage::FinalAbstract => "final method is abstract"@,
        ErrorMessage::FinalNoInit => "final field has no initializer"@,
        ErrorMessage::ImportClashSingleTogether => "single-type-import declarations clash"@,
        ErrorMessage::InterfaceBadName => "interface is badly named"@,
        ErrorMessage::IntOOB => "integer out of bounds"@,
        ErrorMessage::InvalidCast => "invalid cast type"@,
        ErrorMessage::InvalidEscape => "invalid escape character"@,
        ErrorMessage::InvalidOctal => "invalid octal value"@,
        ErrorMessage::InvalidParseTree => "parse tree could not be entirely reduced"@,
        ErrorMessage::InvalidRootChild => "invalid child of root token"@,
        ErrorMessage::InvalidToken => "invalid token"@,
        ErrorMessage::MissingName => "missing ast name"@,
        ErrorMessage::MultipleClasses => "multiple classes"@,
        ErrorMessage::NativeBody => "native method has body"@,
        ErrorMessage::NonStaticNative => "non-static method is native"@,
        ErrorMessage::StaticAbstract => "static method is abstract"@,
        ErrorMessage::StaticFinal => "static method is final"@,
        ErrorMessage::StringNewline => "string contains newline"@,
        ErrorMessage::StringNotToken(v) => "could not convert string '"@ + v@ + "' to token"@,
        ErrorMessage::UnparseableToken(t) => "unparseable token ["@ + t@ + "]"@,
    }
}

/// Two messages are the same message: the same variant, with the same
/// text in its parameter if it has one.
pub open spec fn same_message(a: ErrorMessage, b: ErrorMessage) -> bool {
    match (a, b) {
        (ErrorMessage::AbstractBody, ErrorMessage::AbstractBody) => true,
        (ErrorMessage::CharNewline, ErrorMessage::CharNewline) => true,
        (ErrorMessage::CharTooLong, ErrorMessage::CharTooLong) => true,
        (ErrorMessage::CharTooLongOctal, ErrorMessage::CharTooLongOctal) => true,
        (ErrorMessage::ClassBadName, ErrorMessage::ClassBadName) => true,
        (ErrorMessage::ConcreteNoBody, ErrorMessage::ConcreteNoBody) => true,
        (ErrorMessage::CouldNotReadFile(x), ErrorMessage::CouldNotReadFile(y)) => x@ == y@,
        (ErrorMessage::CouldNotReduceStack, ErrorMessage::CouldNotReduceStack) => true,
        (ErrorMessage::FinalAbstract, ErrorMessage::FinalAbstract) => true,
        (ErrorMessage::FinalNoInit, ErrorMessage::FinalNoInit) => true,
        (ErrorMessage::ImportClashSingleTogether, ErrorMessage::ImportClashSingleTogether) => true,
        (ErrorMessage::InterfaceBadName, ErrorMessage::InterfaceBadName) => true,
        (ErrorMessage::IntOOB, ErrorMessage::IntOOB) => true,
        (ErrorMessage::InvalidCast, ErrorMessage::InvalidCast) => true,
        (ErrorMessage::InvalidEscape, ErrorMessage::InvalidEscape) => true,
        (ErrorMessage::InvalidOctal, ErrorMessage::InvalidOctal) => true,
        (ErrorMessage::InvalidParseTree, ErrorMessage::InvalidParseTree) => true,
        (ErrorMessage::InvalidRootChild, ErrorMessage::InvalidRootChild) => true,
        (ErrorMessage::InvalidToken, ErrorMessage::InvalidToken) => true,
        (ErrorMessage::MissingName, ErrorMessage::MissingName) => true,
        (ErrorMessage::MultipleClasses, ErrorMessage::MultipleClasses) => true,
        (ErrorMessage::NativeBody, ErrorMessage::NativeBody) => true,
        (ErrorMessage::NonStaticNative, ErrorMessage::NonStaticNative) => true,
        (ErrorMessage::StaticAbstract, ErrorMessage::StaticAbstract) => true,
        (ErrorMessage::StaticFinal, ErrorMessage::StaticFinal) => true,
        (ErrorMessage::StringNewline, ErrorMessage::StringNewline) => true,
        (ErrorMessage::StringNotToken(x), ErrorMessage::StringNotToken(y)) => x@ == y@,
        (ErrorMessage::UnparseableToken(x), ErrorMessage::UnparseableToken(y)) => x@ == y@,
        _ => false,
    }
}

/// Each message is told apart by its text: two messages with the same
/// text are the same message.
pub proof fn message_text_injective(a: ErrorMessage, b: ErrorMessage)
    ensures
        message_text(a) == message_text(b) ==> same_message(a, b),
{
    reveal_strlit("' to token");
    reveal_strlit("]");
    reveal_strlit("abstract method has body");
    reveal_strlit("char contains newline");
    reveal_strlit("class is badly named");
    reveal_strlit("concrete method has no body");
    reveal_strlit("could not convert string '");
    reveal_strlit("could not entirely reduce stack");
    reveal_strlit("could not read file ");
    reveal_strlit("final field has no initializer");
    reveal_strlit("final method is abstract");
    reveal_strlit("integer out of bounds");
    reveal_strlit("interface is badly named");
    reveal_strlit("invalid cast type");
    reveal_strlit("invalid child of root token");
    reveal_strlit("invalid escape character");
    reveal_strlit("invalid octal value");
    reveal_strlit("invalid token");
    reveal_strlit("missing ast name");
    reveal_strlit("multiple classes");
    reveal_strlit("native method has body");
    reveal_strlit("non-static method is native");
    reveal_strlit("parse tree could not be entirely reduced");
    reveal_strlit("single-type-import declarations clash");
    reveal_strlit("static method is abstract");
    reveal_strlit("static method is final");
    reveal_strlit("string contains newline");
    reveal_strlit("too many character in char");
    reveal_strlit("too many characters in char (maybe malformed octal?)");
    reveal_strlit("unparseable token [");
    match a {
        ErrorMessage::AbstractBody => match b {
            ErrorMessage::CouldNotReadFile(y) => {
                assert(message_text(a)[0] != message_text(b)[0]);
            },
            ErrorMessage::FinalAbstract => {
                assert(message_text(a)[0] != message_text(b)[0]);
            },
            ErrorMessage::InterfaceBadName => {
                assert(message_text(a)[0] != message_text(b)[0]);
            },
            ErrorMessage::InvalidEscape => {
                assert(message_text(a)[0] != message_text(b)[0]);
            },
            ErrorMessage::StringNotToken(y) => {
                assert(message_text(a)[0] != message_text(b)[0]);
            },
            ErrorMessage::UnparseableToken(y) => {
                assert(message_text(a)[0] != message_text(b)[0]);
            },
            ErrorMessage::AbstractBody => {},
            ErrorMessage::CharNewline => {
                assert(message_text(a).len() != message_text(b).len());
            },
            ErrorMessage::CharTooLong => {
                assert(message_text(a).len() != message_text(b).len());
            },
            ErrorMessage::CharTooLongOctal => {
                assert(message_text(a).len() != message_text(b).len());
            },
            ErrorMessage::ClassBadName => {
                assert(message_text(a).len() != message_text(b).len());
            },
            ErrorMessage::ConcreteNoBody => {
                assert(message_text(a).len() != message_text(b).len());
            },
            ErrorMessage::CouldNotReduceStack => {
                assert(message_text(a).len() != message_text(b).len());
            },
            ErrorMessage::FinalNoInit => {
                assert(message_text(a).len() != message_text(b).len());
            },
            ErrorMessage::ImportClashSingleTogether => {
                assert(message_text(a).len() != message_text(b).len());
            },
            ErrorMessage::IntOOB => {
                assert(message_text(a).len() != message_text(b).len());
            },
            ErrorMessage::InvalidCast => {
                assert(message_text(a).len() != message_text(b).len());
            },
            ErrorMessage::InvalidOctal => {
                assert(message_text(a).len() != message_text(b).len());
            },
            ErrorMessage::InvalidParseTree => {
                assert(message_text(a).len() != message_text(b).len());
            },
            ErrorMessage::InvalidRootChild => {
                assert(message_text(a).len() != message_text(b).len());
            },
            ErrorMessage::InvalidToken => {
                assert(message_text(a).len() != message_text(b).len());
            },
            ErrorMessage::MissingName => {
                assert(message_text(a).len() != message_text(b).len());
            },
            ErrorMessage::MultipleClasses => {
                assert(message_text(a).len() != message_text(b).len());
            },
            ErrorMessage::NativeBody => {
                assert(message_text(a).len() != message_text(b).len());
            },
            ErrorMessage::NonStaticNative => {
                assert(message_text(a).len() != message_text(b).len());
            },
            ErrorMessage::StaticAbstract => {
                assert(message_text(a).len() != message_text(b).len());
            },
            ErrorMessage::StaticFinal => {
                assert(message_text(a).len() != message_text(b).len());
            },
            ErrorMessage::StringNewline => {
                assert(message_text(a).len() != message_text(b).len());
            },
        },
        ErrorMessage::CharNewline => match b {
            ErrorMessage::CouldNotReadFile(y) => {
                assert(message_text(a)[1] != message_text(b)[1]);
            },
            ErrorMessage::IntOOB => {
                assert(message_text(a)[0] != message_text(b)[0]);
            },
            ErrorMessage::StringNotToken(y) => {
                assert(message_text(a)[1] != message_text(b)[1]);
            },
            ErrorMessage::UnparseableToken(y) => {
                assert(message_text(a)[0] != message_text(b)[0]);
            },
            ErrorMessage::AbstractBody => {
                assert(message_text(a).len() != message_text(b).len());
            },
            ErrorMessage::CharNewline => {},
            ErrorMessage::CharTooLong => {
                assert(message_text(a).len() != message_text(b).len());
            },
            ErrorMessage::CharTooLongOctal => {
                assert(message_text(a).len() != message_text(b).len());
            },
            ErrorMessage::ClassBadName => {
                assert(message_text(a).len() != message_text(b).len());
            },
            ErrorMessage::ConcreteNoBody => {
                assert(message_text(a).len() != message_text(b).len());
            },
            ErrorMessage::CouldNotReduceStack => {
                assert(message_text(a).len() != message_text(b).len());
            },
            ErrorMessage::FinalAbstract => {
                assert(message_text(a).len() != message_text(b).len());
            },
            ErrorMessage::FinalNoInit => {
                assert(message_text(a).len() != message_text(b).len());
            },
            ErrorMessage::ImportClashSingleTogether => {
                assert(message_text(a).len() != message_text(b).len());
            },
            ErrorMessage::InterfaceBadName => {
                assert(message_text(a).len() != message_text(b).len());
            },
            ErrorMessage::InvalidCast => {
                assert(message_text(a).len() != message_text(b).len());
            },
            ErrorMessage::InvalidEscape => {
                assert(message_text(a).len() != message_text(b).len());
            },
            ErrorMessage::InvalidOctal => {
                assert(message_text(a).len() != message_text(b).len());
            },
            ErrorMessage::InvalidParseTree => {
                assert(message_text(a).len() != message_text(b).len());
            },
            ErrorMessage::InvalidRootChild => {
                assert(message_text(a).len() != message_text(b).len());
            },
            ErrorMessage::InvalidToken => {
                assert(message_text(a).len() != message_text(b).len());
            },
            ErrorMessage::MissingName => {
                assert(message_text(a).len() != message_text(b).len());
            },
            ErrorMessage::MultipleClasses => {
                assert(message_text(a).len() != message_text(b).len());
            },
            ErrorMessage::NativeBody => {
                assert(message_text(a).len() != message_text(b).len());
            },
            ErrorMessage::NonStaticNative => {
                assert(message_text(a).len() != message_text(b).len());
            },
            ErrorMessage::StaticAbstract => {
                assert(message_text(a).len() != message_text(b).len());
            },
            ErrorMessage::StaticFinal => {
                assert(message_text(a).len() != message_text(b).len());
            },
            ErrorMessage::StringNewline => {
                assert(message_text(a).len() != message_text(b).len());
            },
        },
        ErrorMessage::CharTooLong => match b {
            ErrorMessage::CouldNotReadFile(y) => {
                assert(message_text(a)[0] != message_text(b)[0]);
            },
            ErrorMessage::StringNotToken(y) => {
                assert(message_text(a)[0] != message_text(b)[0]);
            },
            ErrorMessage::UnparseableToken(y) => {
                assert(message_text(a)[0] != message_text(b)[0]);
            },
            ErrorMessage::AbstractBody => {
                assert(message_text(a).len() != message_text(b).len());
            },
            ErrorMessage::CharNewline => {
                assert(message_text(a).len() != message_text(b).len());
            },
            ErrorMessage::CharTooLong => {},
            ErrorMessage::CharTooLongOctal => {
                assert(message_text(a).len() != message_text(b).len());
            },
            ErrorMessage::ClassBadName => {
                assert(message_text(a).len() != message_text(b).len());
            },
            ErrorMessage::ConcreteNoBody => {
                assert(message_text(a).len() != message_text(b).len());
            },
            ErrorMessage::CouldNotReduceStack => {
                assert(message_text(a).len() != message_text(b).len());
            },
            ErrorMessage::FinalAbstract => {
                assert(message_text(a).len() != message_text(b).len());
            },
            ErrorMessage::FinalNoInit => {
                assert(message_text(a).len() != message_text(b).len());
            },
            ErrorMessage::ImportClashSingleTogether => {
                assert(message_text(a).len() != message_text(b).len());
            },
            ErrorMessage::InterfaceBadName => {
                assert(message_text(a).len() != message_text(b).len());
            },
            ErrorMessage::IntOOB => {
                assert(message_text(a).len() != message_text(b).len());
            },
            ErrorMessage::InvalidCast => {
                assert(message_text(a).len() != message_text(b).len());
            },
            ErrorMessage::InvalidEscape => {
                assert(message_text(a).len() != message_text(b).len());
            },
            ErrorMessage::InvalidOctal => {
                assert(message_text(a).len() != message_text(b).len());
            },
            ErrorMessage::InvalidParseTree => {
                assert(message_text(a).len() != message_text(b).len());
            },
            ErrorMessage::InvalidRootChild => {
                assert(message_text(a).len() != message_text(b).len());
            },
            ErrorMessage::InvalidToken => {
                assert(message_text(a).len() != message_text(b).len());
            },
            ErrorMessage::MissingName => {
                assert(message_text(a).len() != message_text(b).len());
            },
            ErrorMessage::MultipleClasses => {
                assert(message_text(a).len() != message_text(b).len());
            },
            ErrorMessage::NativeBody => {
                assert(message_text(a).len() != message_text(b).len());
            },
            ErrorMessage::NonStaticNative => {
                assert(message_text(a).len() != message_text(b).len());
            },
            ErrorMessage::StaticAbstract => {
                assert(message_text(a).len() != message_text(b).len());
            },
            ErrorMessage::StaticFinal => {
                assert(message_text(a).len() != message_text(b).len());
            },
            ErrorMessage::StringNewline => {
                assert(message_text(a).len() != message_text(b).len());
            },
        },
        ErrorMessage::CharTooLongOctal => match b {
            ErrorMessage::CouldNotReadFile(y) => {
                assert(message_text(a)[0] != message_text(b)[0]);
            },
            ErrorMessage::StringNotToken(y) => {
                assert(message_text(a)[0] != message_text(b)[0]);
            },
            ErrorMessage::UnparseableToken(y) => {
                assert(message_text(a)[0] != message_text(b)[0]);
            },
            ErrorMessage::AbstractBody => {
                assert(message_text(a).len() != message_text(b).len());
            },
            ErrorMessage::CharNewline => {
                assert(message_text(a).len() != message_text(b).len());
            },
            ErrorMessage::CharTooLong => {
                assert(message_text(a).len() != message_text(b).len());
            },
            ErrorMessage::CharTooLongOctal => {},
            ErrorMessage::ClassBadName => {
                assert(message_text(a).len() != message_text(b).len());
            },
            ErrorMessage::ConcreteNoBody => {
                assert(message_text(a).len() != message_text(b).len());
            },
            ErrorMessage::CouldNotReduceStack => {
                assert(message_text(a).len() != message_text(b).len());
            },
            ErrorMessage::FinalAbstract => {
                assert(message_text(a).len() != message_text(b).len());
            },
            ErrorMessage::FinalNoInit => {
                assert(message_text(a).len() != message_text(b).len());
            },
            ErrorMessage::ImportClashSingleTogether => {
                assert(message_text(a).len() != message_text(b).len());
            },
            ErrorMessage::InterfaceBadName => {
                assert(message_text(a).len() != message_text(b).len());
            },
            ErrorMessage::IntOOB => {
                assert(message_text(a).len() != message_text(b).len());
            },
            ErrorMessage::InvalidCast => {
                assert(message_text(a).len() != message_text(b).len());
            },
            ErrorMessage::InvalidEscape => {
                assert(message_text(a).len() != message_text(b).len());
            },
            ErrorMessage::InvalidOctal => {
                assert(message_text(a).len() != message_text(b).len());
            },
            ErrorMessage::InvalidParseTree => {
                assert(message_text(a).len() != message_text(b).len());
            },
            ErrorMessage::InvalidRootChild => {
                assert(message_text(a).len() != message_text(b).len());
            },
            ErrorMessage::InvalidToken => {
                assert(message_text(a).len() != message_text(b).len());
            },
            ErrorMessage::MissingName => {
                assert(message_text(a).len() != message_text(b).len());
            },
            ErrorMessage::MultipleClasses => {
                assert(message_text(a).len() != message_text(b).len());
            },
            ErrorMessage::NativeBody => {
                assert(message_text(a).len() != message_text(b).len());
            },
            ErrorMessage::NonStaticNative => {
                assert(message_text(a).len() != message_text(b).len());
            },
            ErrorMessage::StaticAbstract => {
                assert(message_text(a).len() != message_text(b).len());
            },
            ErrorMessage::StaticFinal => {
                assert(message_text(a).len() != message_text(b).len());
            },
            ErrorMessage::StringNewline => {
                assert(message_text(a).len() != message_text(b).len());
            },
        },
        ErrorMessage::ClassBadName => match b {
            ErrorMessage::CouldNotReadFile(y) => {
                assert(message_text(a)[1] != message_text(b)[1]);
            },
            ErrorMessage::StringNotToken(y) => {
                assert(message_text(a)[1] != message_text(b)[1]);
            },
            ErrorMessage::UnparseableToken(y) => {
                assert(message_text(a)[0] != message_text(b)[0]);
            },
            ErrorMessage::AbstractBody => {
                assert(message_text(a).len() != message_text(b).len());
            },
            ErrorMessage::CharNewline => {
                assert(message_text(a).len() != message_text(b).len());
            },
            ErrorMessage::CharTooLong => {
                assert(message_text(a).len() != message_text(b).len());
            },
            ErrorMessage::CharTooLongOctal => {
                assert(message_text(a).len() != message_text(b).len());
            },
            ErrorMessage::ClassBadName => {},
            ErrorMessage::ConcreteNoBody => {
                assert(message_text(a).len() != message_text(b).len());
            },
            ErrorMessage::CouldNotReduceStack => {
                assert(message_text(a).len() != message_text(b).len());
            },
            ErrorMessage::FinalAbstract => {
                assert(message_text(a).len() != message_text(b).len());
            },
            ErrorMessage::FinalNoInit => {
                assert(message_text(a).len() != message_text(b).len());
            },
            ErrorMessage::ImportClashSingleTogether => {
                assert(message_text(a).len() != message_text(b).len());
            },
            ErrorMessage::InterfaceBadName => {
                assert(message_text(a).len() != message_text(b).len());
            },
            ErrorMessage::IntOOB => {
                assert(message_text(a).len() != message_text(b).len());
            },
            ErrorMessage::InvalidCast => {
                assert(message_text(a).len() != message_text(b).len());
            },
            ErrorMessage::InvalidEscape => {
                assert(message_text(a).len() != message_text(b).len());
            },
            ErrorMessage::InvalidOctal => {
                assert(message_text(a).len() != message_text(b).len());
            },
            ErrorMessage::InvalidParseTree => {
                assert(message_text(a).len() != message_text(b).len());
            },
            ErrorMessage::InvalidRootChild => {
                assert(message_text(a).len() != message_text(b).len());
            },
            ErrorMessage::InvalidToken => {
                assert(message_text(a).len() != message_text(b).len());
            },
            ErrorMessage::MissingName => {
                assert(message_text(a).len() != message_text(b).len());
            },
            ErrorMessage::MultipleClasses => {
                assert(message_text(a).len() != message_text(b).len());
            },
            ErrorMessage::NativeBody => {
                assert(message_text(a).len() != message_text(b).len());
            },
            ErrorMessage::NonStaticNative => {
                assert(message_text(a).len() != message_text(b).len());
            },
            ErrorMessage::StaticAbstract => {
                assert(message_text(a).len() != message_text(b).len());
            },
            ErrorMessage::StaticFinal => {
                assert(message_text(a).len() != message_text(b).len());
            },
            ErrorMessage::StringNewline => {
                assert(message_text(a).len() != message_text(b).len());
            },
        },
        ErrorMessage::ConcreteNoBody => match b {
            ErrorMessage::CouldNotReadFile(y) => {
                assert(message_text(a)[2] != message_text(b)[2]);
            },
            ErrorMessage::InvalidRootChild => {
                assert(message_text(a)[0] != message_text(b)[0]);
            },
            ErrorMessage::NonStaticNative => {
                assert(message_text(a)[0] != message_text(b)[0]);
            },
            ErrorMessage::StringNotToken(y) => {
                assert(message_text(a)[2] != message_text(b)[2]);
            },
            ErrorMessage::UnparseableToken(y) => {
                assert(message_text(a)[0] != message_text(b)[0]);
            },
            ErrorMessage::AbstractBody => {
                assert(message_text(a).len() != message_text(b).len());
            },
            ErrorMessage::CharNewline => {
                assert(message_text(a).len() != message_text(b).len());
            },
            ErrorMessage::CharTooLong => {
                assert(message_text(a).len() != message_text(b).len());
            },
            ErrorMessage::CharTooLongOctal => {
                assert(message_text(a).len() != message_text(b).len());
            },
            ErrorMessage::ClassBadName => {
                assert(message_text(a).len() != message_text(b).len());
            },
            ErrorMessage::ConcreteNoBody => {},
            ErrorMessage::CouldNotReduceStack => {
                assert(message_text(a).len() != message_text(b).len());
            },
            ErrorMessage::FinalAbstract => {
                assert(message_text(a).len() != message_text(b).len());
            },
            ErrorMessage::FinalNoInit => {
                assert(message_text(a).len() != message_text(b).len());
            },
            ErrorMessage::ImportClashSingleTogether => {
                assert(message_text(a).len() != message_text(b).len());
            },
            ErrorMessage::InterfaceBadName => {
                assert(message_text(a).len() != message_text(b).len());
            },
            ErrorMessage::IntOOB => {
                assert(message_text(a).len() != message_text(b).len());
            },
            ErrorMessage::InvalidCast => {
                assert(message_text(a).len() != message_text(b).len());
            },
            ErrorMessage::InvalidEscape => {
                assert(message_text(a).len() != message_text(b).len());
            },
            ErrorMessage::InvalidOctal => {
                assert(message_text(a).len() != message_text(b).len());
            },
            ErrorMessage::InvalidParseTree => {
                assert(message_text(a).len() != message_text(b).len());
            },
            ErrorMessage::InvalidToken => {
                assert(message_text(a).len() != message_text(b).len());
            },
            ErrorMessage::MissingName => {
                assert(message_text(a).len() != message_text(b).len());
            },
            ErrorMessage::MultipleClasses => {
                assert(message_text(a).len() != message_text(b).len());
            },
            ErrorMessage::NativeBody => {
                assert(message_text(a).len() != message_text(b).len());
            },
            ErrorMessage::StaticAbstract => {
                assert(message_text(a).len() != message_text(b).len());
            },
            ErrorMessage::StaticFinal => {
                assert(message_text(a).len() != message_text(b).len());
            },
            ErrorMessage::StringNewline => {
                assert(message_text(a).len() != message_text(b).len());
            },
        },
        ErrorMessage::CouldNotReadFile(x) => match b {
            ErrorMessage::AbstractBody => {
                assert(message_text(a)[0] != message_text(b)[0]);
            },
            ErrorMessage::CharNewline => {
                assert(message_text(a)[1] != message_text(b)[1]);
            },
            ErrorMessage::CharTooLong => {
                assert(message_text(a)[0] != message_text(b)[0]);
            },
            ErrorMessage::CharTooLongOctal => {
                assert(message_text(a)[0] != message_text(b)[0]);
            },
            ErrorMessage::ClassBadName => {
                assert(message_text(a)[1] != message_text(b)[1]);
            },
            ErrorMessage::ConcreteNoBody => {
                assert(message_text(a)[2] != message_text(b)[2]);
            },
            ErrorMessage::CouldNotReadFile(y) => {
                assert(x@ =~= message_text(a).subrange(20, message_text(a).len() - 0));
                assert(y@ =~= message_text(b).subrange(20, message_text(b).len() - 0));
            },
            ErrorMessage::CouldNotReduceStack => {
                assert(message_text(a)[10] != message_text(b)[10]);
            },
            ErrorMessage::FinalAbstract => {
                assert(message_text(a)[0] != message_text(b)[0]);
            },
            ErrorMessage::FinalNoInit => {
                assert(message_text(a)[0] != message_text(b)[0]);
            },
            ErrorMessage::ImportClashSingleTogether => {
                assert(message_text(a)[0] != message_text(b)[0]);
            },
            ErrorMessage::InterfaceBadName => {
                assert(message_text(a)[0] != message_text(b)[0]);
            },
            ErrorMessage::IntOOB => {
                assert(message_text(a)[0] != message_text(b)[0]);
            },
            ErrorMessage::InvalidCast => {
                assert(message_text(a)[0] != message_text(b)[0]);
            },
            ErrorMessage::InvalidEscape => {
                assert(message_text(a)[0] != message_text(b)[0]);
            },
            ErrorMessage::InvalidOctal => {
                assert(message_text(a)[0] != message_text(b)[0]);
            },
            ErrorMessage::InvalidParseTree => {
                assert(message_text(a)[0] != message_text(b)[0]);
            },
            ErrorMessage::InvalidRootChild => {
                assert(message_text(a)[0] != message_text(b)[0]);
            },
            ErrorMessage::InvalidToken => {
                assert(message_text(a)[0] != message_text(b)[0]);
            },
            ErrorMessage::MissingName => {
                assert(message_text(a)[0] != message_text(b)[0]);
            },
            ErrorMessage::MultipleClasses => {
                assert(message_text(a)[0] != message_text(b)[0]);
            },
            ErrorMessage::NativeBody => {
                assert(message_text(a)[0] != message_text(b)[0]);
            },
            ErrorMessage::NonStaticNative => {
                assert(message_text(a)[0] != message_text(b)[0]);
            },
            ErrorMessage::StaticAbstract => {
                assert(message_text(a)[0] != message_text(b)[0]);
            },
            ErrorMessage::StaticFinal => {
                assert(message_text(a)[0] != message_text(b)[0]);
            },
            ErrorMessage::StringNewline => {
                assert(message_text(a)[0] != message_text(b)[0]);
            },
            ErrorMessage::StringNotToken(y) => {
                assert(message_text(a)[10] != message_text(b)[10]);
            },
            ErrorMessage::UnparseableToken(y) => {
                assert(message_text(a)[0] != message_text(b)[0]);
            },
        },
        ErrorMessage::CouldNotReduceStack => match b {
            ErrorMessage::CouldNotReadFile(y) => {
                assert(message_text(a)[10] != message_text(b)[10]);
            },
            ErrorMessage::StringNotToken(y) => {
                assert(message_text(a)[10] != message_text(b)[10]);
            },
            ErrorMessage::UnparseableToken(y) => {
                assert(message_text(a)[0] != message_text(b)[0]);
            },
            ErrorMessage::AbstractBody => {
                assert(message_text(a).len() != message_text(b).len());
            },
            ErrorMessage::CharNewline => {
                assert(message_text(a).len() != message_text(b).len());
            },
            ErrorMessage::CharTooLong => {
                assert(message_text(a).len() != message_text(b).len());
            },
            ErrorMessage::CharTooLongOctal => {
                assert(message_text(a).len() != message_text(b).len());
            },
            ErrorMessage::ClassBadName => {
                assert(message_text(a).len() != message_text(b).len());
            },
            ErrorMessage::ConcreteNoBody => {
                assert(message_text(a).len() != message_text(b).len());
            },
            ErrorMessage::CouldNotReduceStack => {},
            ErrorMessage::FinalAbstract => {
                assert(message_text(a).len() != message_text(b).len());
            },
            ErrorMessage::FinalNoInit => {
                assert(message_text(a).len() != message_text(b).len());
            },
            ErrorMessage::ImportClashSingleTogether => {
                assert(message_text(a).len() != message_text(b).len());
            },
            ErrorMessage::InterfaceBadName => {
                assert(message_text(a).len() != message_text(b).len());
            },
            ErrorMessage::IntOOB => {
                assert(message_text(a).len() != message_text(b).len());
            },
            ErrorMessage::InvalidCast => {
                assert(message_text(a).len() != message_text(b).len());
            },
            ErrorMessage::InvalidEscape => {
                assert(message_text(a).len() != message_text(b).len());
            },
            ErrorMessage::InvalidOctal => {
                assert(message_text(a).len() != message_text(b).len());
            },
            ErrorMessage::InvalidParseTree => {
                assert(message_text(a).len() != message_text(b).len());
            },
            ErrorMessage::InvalidRootChild => {
                assert(message_text(a).len() != message_text(b).len());
            },
            ErrorMessage::InvalidToken => {
                assert(message_text(a).len() != message_text(b).len());
            },
            ErrorMessage::MissingName => {
                assert(message_text(a).len() != message_text(b).len());
            },
            ErrorMessage::MultipleClasses => {
                assert(message_text(a).len() != message_text(b).len());
            },
            ErrorMessage::NativeBody => {
                assert(message_text(a).len() != message_text(b).len());
            },
            ErrorMessage::NonStaticNative => {
                assert(message_text(a).len() != message_text(b).len());
            },
            ErrorMessage::StaticAbstract => {
                assert(message_text(a).len() != message_text(b).len());
            },
            ErrorMessage::StaticFinal => {
                assert(message_text(a).len() != message_text(b).len());
            },
            ErrorMessage::StringNewline => {
                assert(message_text(a).len() != message_text(b).len());
            },
        },
        ErrorMessage::FinalAbstract => match b {
            ErrorMessage::AbstractBody => {
                assert(message_text(a)[0] != message_text(b)[0]);
            },
            ErrorMessage::CouldNotReadFile(y) => {
                assert(message_text(a)[0] != message_text(b)[0]);
            },
            ErrorMessage::InterfaceBadName => {
                assert(message_text(a)[0] != message_text(b)[0]);
            },
            ErrorMessage::InvalidEscape => {
                assert(message_text(a)[0] != message_text(b)[0]);
            },
            ErrorMessage::StringNotToken(y) => {
                assert(message_text(a)[0] != message_text(b)[0]);
            },
            ErrorMessage::UnparseableToken(y) => {
                assert(message_text(a)[0] != message_text(b)[0]);
            },
            ErrorMessage::CharNewline => {
                assert(message_text(a).len() != message_text(b).len());
            },
            ErrorMessage::CharTooLong => {
                assert(message_text(a).len() != message_text(b).len());
            },
            ErrorMessage::CharTooLongOctal => {
                assert(message_text(a).len() != message_text(b).len());
            },
            ErrorMessage::ClassBadName => {
                assert(message_text(a).len() != message_text(b).len());
            },
            ErrorMessage::ConcreteNoBody => {
                assert(message_text(a).len() != message_text(b).len());
            },
            ErrorMessage::CouldNotReduceStack => {
                assert(message_text(a).len() != message_text(b).len());
            },
            ErrorMessage::FinalAbstract => {},
            ErrorMessage::FinalNoInit => {
                assert(message_text(a).len() != message_text(b).len());
            },
            ErrorMessage::ImportClashSingleTogether => {
                assert(message_text(a).len() != message_text(b).len());
            },
            ErrorMessage::IntOOB => {
                assert(message_text(a).len() != message_text(b).len());
            },
            ErrorMessage::InvalidCast => {
                assert(message_text(a).len() != message_text(b).len());
            },
            ErrorMessage::InvalidOctal => {
                assert(message_text(a).len() != message_text(b).len());
            },
            ErrorMessage::InvalidParseTree => {
                assert(message_text(a).len() != message_text(b).len());
            },
            ErrorMessage::InvalidRootChild => {
                assert(message_text(a).len() != message_text(b).len());
            },
            ErrorMessage::InvalidToken => {
                assert(message_text(a).len() != message_text(b).len());
            },
            ErrorMessage::MissingName => {
                assert(message_text(a).len() != message_text(b).len());
            },
            ErrorMessage::MultipleClasses => {
                assert(message_text(a).len() != message_text(b).len());
            },
            ErrorMessage::NativeBody => {
                assert(message_text(a).len() != message_text(b).len());
            },
            ErrorMessage::NonStaticNative => {
                assert(message_text(a).len() != message_text(b).len());
            },
            ErrorMessage::StaticAbstract => {
                assert(message_text(a).len() != message_text(b).len());
            },
            ErrorMessage::StaticFinal => {
                assert(message_text(a).len() != message_text(b).len());
            },
            ErrorMessage::StringNewline => {
                assert(message_text(a).len() != message_text(b).len());
            },
        },
        ErrorMessage::FinalNoInit => match b {
            ErrorMessage::CouldNotReadFile(y) => {
                assert(message_text(a)[0] != message_text(b)[0]);
            },
            ErrorMessage::StringNotToken(y) => {
                assert(message_text(a)[0] != message_text(b)[0]);
            },
            ErrorMessage::UnparseableToken(y) => {
                assert(message_text(a)[0] != message_text(b)[0]);
            },
            ErrorMessage::AbstractBody => {
                assert(message_text(a).len() != message_text(b).len());
            },
            ErrorMessage::CharNewline => {
                assert(message_text(a).len() != message_text(b).len());
            },
            ErrorMessage::CharTooLong => {
                assert(message_text(a).len() != message_text(b).len());
            },
            ErrorMessage::CharTooLongOctal => {
                assert(message_text(a).len() != message_text(b).len());
            },
            ErrorMessage::ClassBadName => {
                assert(message_text(a).len() != message_text(b).len());
            },
            ErrorMessage::ConcreteNoBody => {
                assert(message_text(a).len() != message_text(b).len());
            },
            ErrorMessage::CouldNotReduceStack => {
                assert(message_text(a).len() != message_text(b).len());
            },
            ErrorMessage::FinalAbstract => {
                assert(message_text(a).len() != message_text(b).len());
            },
            ErrorMessage::FinalNoInit => {},
            ErrorMessage::ImportClashSingleTogether => {
                assert(message_text(a).len() != message_text(b).len());
            },
            ErrorMessage::InterfaceBadName => {
                assert(message_text(a).len() != message_text(b).len());
            },
            ErrorMessage::IntOOB => {
                assert(message_text(a).len() != message_text(b).len());
            },
            ErrorMessage::InvalidCast => {
                assert(message_text(a).len() != message_text(b).len());
            },
            ErrorMessage::InvalidEscape => {
                assert(message_text(a).len() != message_text(b).len());
            },
            ErrorMessage::InvalidOctal => {
                assert(message_text(a).len() != message_text(b).len());
            },
            ErrorMessage::InvalidParseTree => {
                assert(message_text(a).len() != message_text(b).len());
            },
            ErrorMessage::InvalidRootChild => {
                assert(message_text(a).len() != message_text(b).len());
            },
            ErrorMessage::InvalidToken => {
                assert(message_text(a).len() != message_text(b).len());
            },
            ErrorMessage::MissingName => {
                assert(message_text(a).len() != message_text(b).len());
            },
            ErrorMessage::MultipleClasses => {
                assert(message_text(a).len() != message_text(b).len());
            },
            ErrorMessage::NativeBody => {
                assert(message_text(a).len() != message_text(b).len());
            },
            ErrorMessage::NonStaticNative => {
                assert(message_text(a).len() != message_text(b).len());
            },
            ErrorMessage::StaticAbstract => {
                assert(message_text(a).len() != message_text(b).len());
            },
            ErrorMessage::StaticFinal => {
                assert(message_text(a).len() != message_text(b).len());
            },
            ErrorMessage::StringNewline => {
                assert(message_text(a).len() != message_text(b).len());
            },
        },
        ErrorMessage::ImportClashSingleTogether => match b {
            ErrorMessage::CouldNotReadFile(y) => {
                assert(message_text(a)[0] != message_text(b)[0]);
            },
            ErrorMessage::StringNotToken(y) => {
                assert(message_text(a)[0] != message_text(b)[0]);
            },
            ErrorMessage::UnparseableToken(y) => {
                assert(message_text(a)[0] != message_text(b)[0]);
            },
            ErrorMessage::AbstractBody => {
                assert(message_text(a).len() != message_text(b).len());
            },
            ErrorMessage::CharNewline => {
                assert(message_text(a).len() != message_text(b).len());
            },
            ErrorMessage::CharTooLong => {
                assert(message_text(a).len() != message_text(b).len());
            },
            ErrorMessage::CharTooLongOctal => {
                assert(message_text(a).len() != message_text(b).len());
            },
            ErrorMessage::ClassBadName => {
                assert(message_text(a).len() != message_text(b).len());
            },
            ErrorMessage::ConcreteNoBody => {
                assert(message_text(a).len() != message_text(b).len());
            },
            ErrorMessage::CouldNotReduceStack => {
                assert(message_text(a).len() != message_text(b).len());
            },
            ErrorMessage::FinalAbstract => {
                assert(message_text(a).len() != message_text(b).len());
            },
            ErrorMessage::FinalNoInit => {
                assert(message_text(a).len() != message_text(b).len());
            },
            ErrorMessage::ImportClashSingleTogether => {},
            ErrorMessage::InterfaceBadName => {
                assert(message_text(a).len() != message_text(b).len());
            },
            ErrorMessage::IntOOB => {
                assert(message_text(a).len() != message_text(b).len());
            },
            ErrorMessage::InvalidCast => {
                assert(message_text(a).len() != message_text(b).len());
            },
            ErrorMessage::InvalidEscape => {
                assert(message_text(a).len() != message_text(b).len());
            },
            ErrorMessage::InvalidOctal => {
                assert(message_text(a).len() != message_text(b).len());
            },
            ErrorMessage::InvalidParseTree => {
                assert(message_text(a).len() != message_text(b).len());
            },
            ErrorMessage::InvalidRootChild => {
                assert(message_text(a).len() != message_text(b).len());
            },
            ErrorMessage::InvalidToken => {
                assert(message_text(a).len() != message_text(b).len());
            },
            ErrorMessage::MissingName => {
                assert(message_text(a).len() != message_text(b).len());
            },
            ErrorMessage::MultipleClasses => {
                assert(message_text(a).len() != message_text(b).len());
            },
            ErrorMessage::NativeBody => {
                assert(message_text(a).len() != message_text(b).len());
            },
            ErrorMessage::NonStaticNative => {
                assert(message_text(a).len() != message_text(b).len());
            },
            ErrorMessage::StaticAbstract => {
                assert(message_text(a).len() != message_text(b).len());
            },
            ErrorMessage::StaticFinal => {
                assert(message_text(a).len() != message_text(b).len());
            },
            ErrorMessage::StringNewline => {
                assert(message_text(a).len() != message_text(b).len());
            },
        },
        ErrorMessage::InterfaceBadName => match b {
            ErrorMessage::AbstractBody => {
                assert(message_text(a)[0] != message_text(b)[0]);
            },
            ErrorMessage::CouldNotReadFile(y) => {
                assert(message_text(a)[0] != message_text(b)[0]);
            },
            ErrorMessage::FinalAbstract => {
                assert(message_text(a)[0] != message_text(b)[0]);
            },
            ErrorMessage::InvalidEscape => {
                assert(message_text(a)[2] != message_text(b)[2]);
            },
            ErrorMessage::StringNotToken(y) => {
                assert(message_text(a)[0] != message_text(b)[0]);
            },
            ErrorMessage::UnparseableToken(y) => {
                assert(message_text(a)[0] != message_text(b)[0]);
            },
            ErrorMessage::CharNewline => {
                assert(message_text(a).len() != message_text(b).len());
            },
            ErrorMessage::CharTooLong => {
                assert(message_text(a).len() != message_text(b).len());
            },
            ErrorMessage::CharTooLongOctal => {
                assert(message_text(a).len() != message_text(b).len());
            },
            ErrorMessage::ClassBadName => {
                assert(message_text(a).len() != message_text(b).len());
            },
            ErrorMessage::ConcreteNoBody => {
                assert(message_text(a).len() != message_text(b).len());
            },
            ErrorMessage::CouldNotReduceStack => {
                assert(message_text(a).len() != message_text(b).len());
            },
            ErrorMessage::FinalNoInit => {
                assert(message_text(a).len() != message_text(b).len());
            },
            ErrorMessage::ImportClashSingleTogether => {
                assert(message_text(a).len() != message_text(b).len());
            },
            ErrorMessage::InterfaceBadName => {},
            ErrorMessage::IntOOB => {
                assert(message_text(a).len() != message_text(b).len());
            },
            ErrorMessage::InvalidCast => {
                assert(message_text(a).len() != message_text(b).len());
            },
            ErrorMessage::InvalidOctal => {
                assert(message_text(a).len() != message_text(b).len());
            },
            ErrorMessage::InvalidParseTree => {
                assert(message_text(a).len() != message_text(b).len());
            },
            ErrorMessage::InvalidRootChild => {
                assert(message_text(a).len() != message_text(b).len());
            },
            ErrorMessage::InvalidToken => {
                assert(message_text(a).len() != message_text(b).len());
            },
            ErrorMessage::MissingName => {
                assert(message_text(a).len() != message_text(b).len());
            },
            ErrorMessage::MultipleClasses => {
                assert(message_text(a).len() != message_text(b).len());
            },
            ErrorMessage::NativeBody => {
                assert(message_text(a).len() != message_text(b).len());
            },
            ErrorMessage::NonStaticNative => {
                assert(message_text(a).len() != message_text(b).len());
            },
            ErrorMessage::StaticAbstract => {
                assert(message_text(a).len() != message_text(b).len());
            },
            ErrorMessage::StaticFinal => {
                assert(message_text(a).len() != message_text(b).len());
            },
            ErrorMessage::StringNewline => {
                assert(message_text(a).len() != message_text(b).len());
            },
        },
        ErrorMessage::IntOOB => match b {
            ErrorMessage::CharNewline => {
                assert(message_text(a)[0] != message_text(b)[0]);
            },
            ErrorMessage::CouldNotReadFile(y) => {
                assert(message_text(a)[0] != message_text(b)[0]);
            },
            ErrorMessage::StringNotToken(y) => {
                assert(message_text(a)[0] != message_text(b)[0]);
            },
            ErrorMessage::UnparseableToken(y) => {
                assert(message_text(a)[0] != message_text(b)[0]);
            },
            ErrorMessage::AbstractBody => {
                assert(message_text(a).len() != message_text(b).len());
            },
            ErrorMessage::CharTooLong => {
                assert(message_text(a).len() != message_text(b).len());
            },
            ErrorMessage::CharTooLongOctal => {
                assert(message_text(a).len() != message_text(b).len());
            },
            ErrorMessage::ClassBadName => {
                assert(message_text(a).len() != message_text(b).len());
            },
            ErrorMessage::ConcreteNoBody => {
                assert(message_text(a).len() != message_text(b).len());
            },
            ErrorMessage::CouldNotReduceStack => {
                assert(message_text(a).len() != message_text(b).len());
            },
            ErrorMessage::FinalAbstract => {
                assert(message_text(a).len() != message_text(b).len());
            },
            ErrorMessage::FinalNoInit => {
                assert(message_text(a).len() != message_text(b).len());
            },
            ErrorMessage::ImportClashSingleTogether => {
                assert(message_text(a).len() != message_text(b).len());
            },
            ErrorMessage::InterfaceBadName => {
                assert(message_text(a).len() != message_text(b).len());
            },
            ErrorMessage::IntOOB => {},
            ErrorMessage::InvalidCast => {
                assert(message_text(a).len() != message_text(b).len());
            },
            ErrorMessage::InvalidEscape => {
                assert(message_text(a).len() != message_text(b).len());
            },
            ErrorMessage::InvalidOctal => {
                assert(message_text(a).len() != message_text(b).len());
            },
            ErrorMessage::InvalidParseTree => {
                assert(message_text(a).len() != message_text(b).len());
            },
            ErrorMessage::InvalidRootChild => {
                assert(message_text(a).len() != message_text(b).len());
            },
            ErrorMessage::InvalidToken => {
                assert(message_text(a).len() != message_text(b).len());
            },
            ErrorMessage::MissingName => {
                assert(message_text(a).len() != message_text(b).len());
            },
            ErrorMessage::MultipleClasses => {
                assert(message_text(a).len() != message_text(b).len());
            },
            ErrorMessage::NativeBody => {
                assert(message_text(a).len() != message_text(b).len());
            },
            ErrorMessage::NonStaticNative => {
                assert(message_text(a).len() != message_text(b).len());
            },
            ErrorMessage::StaticAbstract => {
                assert(message_text(a).len() != message_text(b).len());
            },
            ErrorMessage::StaticFinal => {
                assert(message_text(a).len() != message_text(b).len());
            },
            ErrorMessage::StringNewline => {
                assert(message_text(a).len() != message_text(b).len());
            },
        },
        ErrorMessage::InvalidCast => match b {
            ErrorMessage::CouldNotReadFile(y) => {
                assert(message_text(a)[0] != message_text(b)[0]);
            },
            ErrorMessage::StringNotToken(y) => {
                assert(message_text(a)[0] != message_text(b)[0]);
            },
            ErrorMessage::UnparseableToken(y) => {
                assert(message_text(a)[0] != message_text(b)[0]);
            },
            ErrorMessage::AbstractBody => {
                assert(message_text(a).len() != message_text(b).len());
            },
            ErrorMessage::CharNewline => {
                assert(message_text(a).len() != message_text(b).len());
            },
            ErrorMessage::CharTooLong => {
                assert(message_text(a).len() != message_text(b).len());
            },
            ErrorMessage::CharTooLongOctal => {
                assert(message_text(a).len() != message_text(b).len());
            },
            ErrorMessage::ClassBadName => {
                assert(message_text(a).len() != message_text(b).len());
            },
            ErrorMessage::ConcreteNoBody => {
                assert(message_text(a).len() != message_text(b).len());
            },
            ErrorMessage::CouldNotReduceStack => {
                assert(message_text(a).len() != message_text(b).len());
            },
            ErrorMessage::FinalAbstract => {
                assert(message_text(a).len() != message_text(b).len());
            },
            ErrorMessage::FinalNoInit => {
                assert(message_text(a).len() != message_text(b).len());
            },
            ErrorMessage::ImportClashSingleTogether => {
                assert(message_text(a).len() != message_text(b).len());
            },
            ErrorMessage::InterfaceBadName => {
                assert(message_text(a).len() != message_text(b).len());
            },
            ErrorMessage::IntOOB => {
                assert(message_text(a).len() != message_text(b).len());
            },
            ErrorMessage::InvalidCast => {},
            ErrorMessage::InvalidEscape => {
                assert(message_text(a).len() != message_text(b).len());
            },
            ErrorMessage::InvalidOctal => {
                assert(message_text(a).len() != message_text(b).len());
            },
            ErrorMessage::InvalidParseTree => {
                assert(message_text(a).len() != message_text(b).len());
            },
            ErrorMessage::InvalidRootChild => {
                assert(message_text(a).len() != message_text(b).len());
            },
            ErrorMessage::InvalidToken => {
                assert(message_text(a).len() != message_text(b).len());
            },
            ErrorMessage::MissingName => {
                assert(message_text(a).len() != message_text(b).len());
            },
            ErrorMessage::MultipleClasses => {
                assert(message_text(a).len() != message_text(b).len());
            },
            ErrorMessage::NativeBody => {
                assert(message_text(a).len() != message_text(b).len());
            },
            ErrorMessage::NonStaticNative => {
                assert(message_text(a).len() != message_text(b).len());
            },
            ErrorMessage::StaticAbstract => {
                assert(message_text(a).len() != message_text(b).len());
            },
            ErrorMessage::StaticFinal => {
                assert(message_text(a).len() != message_text(b).len());
            },
            ErrorMessage::StringNewline => {
                assert(message_text(a).len() != message_text(b).len());
            },
        },
        ErrorMessage::InvalidEscape => match b {
            ErrorMessage::AbstractBody => {
                assert(message_text(a)[0] != message_text(b)[0]);
            },
            ErrorMessage::CouldNotReadFile(y) => {
                assert(message_text(a)[0] != message_text(b)[0]);
            },
            ErrorMessage::FinalAbstract => {
                assert(message_text(a)[0] != message_text(b)[0]);
            },
            ErrorMessage::InterfaceBadName => {
                assert(message_text(a)[2] != message_text(b)[2]);
            },
            ErrorMessage::StringNotToken(y) => {
                assert(message_text(a)[0] != message_text(b)[0]);
            },
            ErrorMessage::UnparseableToken(y) => {
                assert(message_text(a)[0] != message_text(b)[0]);
            },
            ErrorMessage::CharNewline => {
                assert(message_text(a).len() != message_text(b).len());
            },
            ErrorMessage::CharTooLong => {
                assert(message_text(a).len() != message_text(b).len());
            },
            ErrorMessage::CharTooLongOctal => {
                assert(message_text(a).len() != message_text(b).len());
            },
            ErrorMessage::ClassBadName => {
                assert(message_text(a).len() != message_text(b).len());
            },
            ErrorMessage::ConcreteNoBody => {
                assert(message_text(a).len() != message_text(b).len());
            },
            ErrorMessage::CouldNotReduceStack => {
                assert(message_text(a).len() != message_text(b).len());
            },
            ErrorMessage::FinalNoInit => {
                assert(message_text(a).len() != message_text(b).len());
            },
            ErrorMessage::ImportClashSingleTogether => {
                assert(message_text(a).len() != message_text(b).len());
            },
            ErrorMessage::IntOOB => {
                assert(message_text(a).len() != message_text(b).len());
            },
            ErrorMessage::InvalidCast => {
                assert(message_text(a).len() != message_text(b).len());
            },
            ErrorMessage::InvalidEscape => {},
            ErrorMessage::InvalidOctal => {
                assert(message_text(a).len() != message_text(b).len());
            },
            ErrorMessage::InvalidParseTree => {
                assert(message_text(a).len() != message_text(b).len());
            },
            ErrorMessage::InvalidRootChild => {
                assert(message_text(a).len() != message_text(b).len());
            },
            ErrorMessage::InvalidToken => {
                assert(message_text(a).len() != message_text(b).len());
            },
            ErrorMessage::MissingName => {
                assert(message_text(a).len() != message_text(b).len());
            },
            ErrorMessage::MultipleClasses => {
                assert(message_text(a).len() != message_text(b).len());
            },
            ErrorMessage::NativeBody => {
                assert(message_text(a).len() != message_text(b).len());
            },
            ErrorMessage::NonStaticNative => {
                assert(message_text(a).len() != message_text(b).len());
            },
            ErrorMessage::StaticAbstract => {
                assert(message_text(a).len() != message_text(b).len());
            },
            ErrorMessage::StaticFinal => {
                assert(message_text(a).len() != message_text(b).len());
            },
            ErrorMessage::StringNewline => {
                assert(message_text(a).len() != message_text(b).len());
            },
        },
        ErrorMessage::InvalidOctal => match b {
            ErrorMessage::CouldNotReadFile(y) => {
                assert(message_text(a)[0] != message_text(b)[0]);
            },
            ErrorMessage::StringNotToken(y) => {
                assert(message_text(a)[0] != message_text(b)[0]);
            },
            ErrorMessage::UnparseableToken(y) => {
                assert(message_text(a)[0] != message_text(b)[0]);
            },
            ErrorMessage::AbstractBody => {
                assert(message_text(a).len() != message_text(b).len());
            },
            ErrorMessage::CharNewline => {
                assert(message_text(a).len() != message_text(b).len());
            },
            ErrorMessage::CharTooLong => {
                assert(message_text(a).len() != message_text(b).len());
            },
            ErrorMessage::CharTooLongOctal => {
                assert(message_text(a).len() != message_text(b).len());
            },
            ErrorMessage::ClassBadName => {
                assert(message_text(a).len() != message_text(b).len());
            },
            ErrorMessage::ConcreteNoBody => {
                assert(message_text(a).len() != message_text(b).len());
            },
            ErrorMessage::CouldNotReduceStack => {
                assert(message_text(a).len() != message_text(b).len());
            },
            ErrorMessage::FinalAbstract => {
                assert(message_text(a).len() != message_text(b).len());
            },
            ErrorMessage::FinalNoInit => {
                assert(message_text(a).len() != message_text(b).len());
            },
            ErrorMessage::ImportClashSingleTogether => {
                assert(message_text(a).len() != message_text(b).len());
            },
            ErrorMessage::InterfaceBadName => {
                assert(message_text(a).len() != message_text(b).len());
            },
            ErrorMessage::IntOOB => {
                assert(message_text(a).len() != message_text(b).len());
            },
            ErrorMessage::InvalidCast => {
                assert(message_text(a).len() != message_text(b).len());
            },
            ErrorMessage::InvalidEscape => {
                assert(message_text(a).len() != message_text(b).len());
            },
            ErrorMessage::InvalidOctal => {},
            ErrorMessage::InvalidParseTree => {
                assert(message_text(a).len() != message_text(b).len());
            },
            ErrorMessage::InvalidRootChild => {
                assert(message_text(a).len() != message_text(b).len());
            },
            ErrorMessage::InvalidToken => {
                assert(message_text(a).len() != message_text(b).len());
            },
            ErrorMessage::MissingName => {
                assert(message_text(a).len() != message_text(b).len());
            },
            ErrorMessage::MultipleClasses => {
                assert(message_text(a).len() != message_text(b).len());
            },
            ErrorMessage::NativeBody => {
                assert(message_text(a).len() != message_text(b).len());
            },
            ErrorMessage::NonStaticNative => {
                assert(message_text(a).len() != message_text(b).len());
            },
            ErrorMessage::StaticAbstract => {
                assert(message_text(a).len() != message_text(b).len());
            },
            ErrorMessage::StaticFinal => {
                assert(message_text(a).len() != message_text(b).len());
            },
            ErrorMessage::StringNewline => {
                assert(message_text(a).len() != message_text(b).len());
            },
        },
        ErrorMessage::InvalidParseTree => match b {
            ErrorMessage::CouldNotReadFile(y) => {
                assert(message_text(a)[0] != message_text(b)[0]);
            },
            ErrorMessage::StringNotToken(y) => {
                assert(message_text(a)[0] != message_text(b)[0]);
            },
            ErrorMessage::UnparseableToken(y) => {
                assert(message_text(a)[0] != message_text(b)[0]);
            },
            ErrorMessage::AbstractBody => {
                assert(message_text(a).len() != message_text(b).len());
            },
            ErrorMessage::CharNewline => {
                assert(message_text(a).len() != message_text(b).len());
            },
            ErrorMessage::CharTooLong => {
                assert(message_text(a).len() != message_text(b).len());
            },
            ErrorMessage::CharTooLongOctal => {
                assert(message_text(a).len() != message_text(b).len());
            },
            ErrorMessage::ClassBadName => {
                assert(message_text(a).len() != message_text(b).len());
            },
            ErrorMessage::ConcreteNoBody => {
                assert(message_text(a).len() != message_text(b).len());
            },
            ErrorMessage::CouldNotReduceStack => {
                assert(message_text(a).len() != message_text(b).len());
            },
            ErrorMessage::FinalAbstract => {
                assert(message_text(a).len() != message_text(b).len());
            },
            ErrorMessage::FinalNoInit => {
                assert(message_text(a).len() != message_text(b).len());
            },
            ErrorMessage::ImportClashSingleTogether => {
                assert(message_text(a).len() != message_text(b).len());
            },
            ErrorMessage::InterfaceBadName => {
                assert(message_text(a).len() != message_text(b).len());
            },
            ErrorMessage::IntOOB => {
                assert(message_text(a).len() != message_text(b).len());
            },
            ErrorMessage::InvalidCast => {
                assert(message_text(a).len() != message_text(b).len());
            },
            ErrorMessage::InvalidEscape => {
                assert(message_text(a).len() != message_text(b).len());
            },
            ErrorMessage::InvalidOctal => {
                assert(message_text(a).len() != message_text(b).len());
            },
            ErrorMessage::InvalidParseTree => {},
            ErrorMessage::InvalidRootChild => {
                assert(message_text(a).len() != message_text(b).len());
            },
            ErrorMessage::InvalidToken => {
                assert(message_text(a).len() != message_text(b).len());
            },
            ErrorMessage::MissingName => {
                assert(message_text(a).len() != message_text(b).len());
            },
            ErrorMessage::MultipleClasses => {
                assert(message_text(a).len() != message_text(b).len());
            },
            ErrorMessage::NativeBody => {
                assert(message_text(a).len() != message_text(b).len());
            },
            ErrorMessage::NonStaticNative => {
                assert(message_text(a).len() != message_text(b).len());
            },
            ErrorMessage::StaticAbstract => {
                assert(message_text(a).len() != message_text(b).len());
            },
            ErrorMessage::StaticFinal => {
                assert(message_text(a).len() != message_text(b).len());
            },
            ErrorMessage::StringNewline => {
                assert(message_text(a).len() != message_text(b).len());
            },
        },
        ErrorMessage::InvalidRootChild => match b {
            ErrorMessage::ConcreteNoBody => {
                assert(message_text(a)[0] != message_text(b)[0]);
            },
            ErrorMessage::CouldNotReadFile(y) => {
                assert(message_text(a)[0] != message_text(b)[0]);
            },
            ErrorMessage::NonStaticNative => {
                assert(message_text(a)[0] != message_text(b)[0]);
            },
            ErrorMessage::StringNotToken(y) => {
                assert(message_text(a)[0] != message_text(b)[0]);
            },
            ErrorMessage::UnparseableToken(y) => {
                assert(message_text(a)[0] != message_text(b)[0]);
            },
            ErrorMessage::AbstractBody => {
                assert(message_text(a).len() != message_text(b).len());
            },
            ErrorMessage::CharNewline => {
                assert(message_text(a).len() != message_text(b).len());
            },
            ErrorMessage::CharTooLong => {
                assert(message_text(a).len() != message_text(b).len());
            },
            ErrorMessage::CharTooLongOctal => {
                assert(message_text(a).len() != message_text(b).len());
            },
            ErrorMessage::ClassBadName => {
                assert(message_text(a).len() != message_text(b).len());
            },
            ErrorMessage::CouldNotReduceStack => {
                assert(message_text(a).len() != message_text(b).len());
            },
            ErrorMessage::FinalAbstract => {
                assert(message_text(a).len() != message_text(b).len());
            },
            ErrorMessage::FinalNoInit => {
                assert(message_text(a).len() != message_text(b).len());
            },
            ErrorMessage::ImportClashSingleTogether => {
                assert(message_text(a).len() != message_text(b).len());
            },
            ErrorMessage::InterfaceBadName => {
                assert(message_text(a).len() != message_text(b).len());
            },
            ErrorMessage::IntOOB => {
                assert(message_text(a).len() != message_text(b).len());
            },
            ErrorMessage::InvalidCast => {
                assert(message_text(a).len() != message_text(b).len());
            },
            ErrorMessage::InvalidEscape => {
                assert(message_text(a).len() != message_text(b).len());
            },
            ErrorMessage::InvalidOctal => {
                assert(message_text(a).len() != message_text(b).len());
            },
            ErrorMessage::InvalidParseTree => {
                assert(message_text(a).len() != message_text(b).len());
            },
            ErrorMessage::InvalidRootChild => {},
            ErrorMessage::InvalidToken => {
                assert(message_text(a).len() != message_text(b).len());
            },
            ErrorMessage::MissingName => {
                assert(message_text(a).len() != message_text(b).len());
            },
            ErrorMessage::MultipleClasses => {
                assert(message_text(a).len() != message_text(b).len());
            },
            ErrorMessage::NativeBody => {
                assert(message_text(a).len() != message_text(b).len());
            },
            ErrorMessage::StaticAbstract => {
                assert(message_text(a).len() != message_text(b).len());
            },
            ErrorMessage::StaticFinal => {
                assert(message_text(a).len() != message_text(b).len());
            },
            ErrorMessage::StringNewline => {
                assert(message_text(a).len() != message_text(b).len());
            },
        },
        ErrorMessage::InvalidToken => match b {
            ErrorMessage::CouldNotReadFile(y) => {
                assert(message_text(a)[0] != message_text(b)[0]);
            },
            ErrorMessage::StringNotToken(y) => {
                assert(message_text(a)[0] != message_text(b)[0]);
            },
            ErrorMessage::UnparseableToken(y) => {
                assert(message_text(a)[0] != message_text(b)[0]);
            },
            ErrorMessage::AbstractBody => {
                assert(message_text(a).len() != message_text(b).len());
            },
            ErrorMessage::CharNewline => {
                assert(message_text(a).len() != message_text(b).len());
            },
            ErrorMessage::CharTooLong => {
                assert(message_text(a).len() != message_text(b).len());
            },
            ErrorMessage::CharTooLongOctal => {
                assert(message_text(a).len() != message_text(b).len());
            },
            ErrorMessage::ClassBadName => {
                assert(message_text(a).len() != message_text(b).len());
            },
            ErrorMessage::ConcreteNoBody => {
                assert(message_text(a).len() != message_text(b).len());
            },
            ErrorMessage::CouldNotReduceStack => {
                assert(message_text(a).len() != message_text(b).len());
            },
            ErrorMessage::FinalAbstract => {
                assert(message_text(a).len() != message_text(b).len());
            },
            ErrorMessage::FinalNoInit => {
                assert(message_text(a).len() != message_text(b).len());
            },
            ErrorMessage::ImportClashSingleTogether => {
                assert(message_text(a).len() != message_text(b).len());
            },
            ErrorMessage::InterfaceBadName => {
                assert(message_text(a).len() != message_text(b).len());
            },
            ErrorMessage::IntOOB => {
                assert(message_text(a).len() != message_text(b).len());
            },
            ErrorMessage::InvalidCast => {
                assert(message_text(a).len() != message_text(b).len());
            },
            ErrorMessage::InvalidEscape => {
                assert(message_text(a).len() != message_text(b).len());
            },
            ErrorMessage::InvalidOctal => {
                assert(message_text(a).len() != message_text(b).len());
            },
            ErrorMessage::InvalidParseTree => {
                assert(message_text(a).len() != message_text(b).len());
            },
            ErrorMessage::InvalidRootChild => {
                assert(message_text(a).len() != message_text(b).len());
            },
            ErrorMessage::InvalidToken => {},
            ErrorMessage::MissingName => {
                assert(message_text(a).len() != message_text(b).len());
            },
            ErrorMessage::MultipleClasses => {
                assert(message_text(a).len() != message_text(b).len());
            },
            ErrorMessage::NativeBody => {
                assert(message_text(a).len() != message_text(b).len());
            },
            ErrorMessage::NonStaticNative => {
                assert(message_text(a).len() != message_text(b).len());
            },
            ErrorMessage::StaticAbstract => {
                assert(message_text(a).len() != message_text(b).len());
            },
            ErrorMessage::StaticFinal => {
                assert(message_text(a).len() != message_text(b).len());
            },
            ErrorMessage::StringNewline => {
                assert(message_text(a).len() != message_text(b).len());
            },
        },
        ErrorMessage::MissingName => match b {
            ErrorMessage::CouldNotReadFile(y) => {
                assert(message_text(a)[0] != message_text(b)[0]);
            },
            ErrorMessage::MultipleClasses => {
                assert(message_text(a)[1] != message_text(b)[1]);
            },
            ErrorMessage::StringNotToken(y) => {
                assert(message_text(a)[0] != message_text(b)[0]);
            },
            ErrorMessage::UnparseableToken(y) => {
                assert(message_text(a)[0] != message_text(b)[0]);
            },
            ErrorMessage::AbstractBody => {
                assert(message_text(a).len() != message_text(b).len());
            },
            ErrorMessage::CharNewline => {
                assert(message_text(a).len() != message_text(b).len());
            },
            ErrorMessage::CharTooLong => {
                assert(message_text(a).len() != message_text(b).len());
            },
            ErrorMessage::CharTooLongOctal => {
                assert(message_text(a).len() != message_text(b).len());
            },
            ErrorMessage::ClassBadName => {
                assert(message_text(a).len() != message_text(b).len());
            },
            ErrorMessage::ConcreteNoBody => {
                assert(message_text(a).len() != message_text(b).len());
            },
            ErrorMessage::CouldNotReduceStack => {
                assert(message_text(a).len() != message_text(b).len());
            },
            ErrorMessage::FinalAbstract => {
                assert(message_text(a).len() != message_text(b).len());
            },
            ErrorMessage::FinalNoInit => {
                assert(message_text(a).len() != message_text(b).len());
            },
            ErrorMessage::ImportClashSingleTogether => {
                assert(message_text(a).len() != message_text(b).len());
            },
            ErrorMessage::InterfaceBadName => {
                assert(message_text(a).len() != message_text(b).len());
            },
            ErrorMessage::IntOOB => {
                assert(message_text(a).len() != message_text(b).len());
            },
            ErrorMessage::InvalidCast => {
                assert(message_text(a).len() != message_text(b).len());
            },
            ErrorMessage::InvalidEscape => {
                assert(message_text(a).len() != message_text(b).len());
            },
            ErrorMessage::InvalidOctal => {
                assert(message_text(a).len() != message_text(b).len());
            },
            ErrorMessage::InvalidParseTree => {
                assert(message_text(a).len() != message_text(b).len());
            },
            ErrorMessage::InvalidRootChild => {
                assert(message_text(a).len() != message_text(b).len());
            },
            ErrorMessage::InvalidToken => {
                assert(message_text(a).len() != message_text(b).len());
            },
            ErrorMessage::MissingName => {},
            ErrorMessage::NativeBody => {
                assert(message_text(a).len() != message_text(b).len());
            },
            ErrorMessage::NonStaticNative => {
                assert(message_text(a).len() != message_text(b).len());
            },
            ErrorMessage::StaticAbstract => {
                assert(message_text(a).len() != message_text(b).len());
            },
            ErrorMessage::StaticFinal => {
                assert(message_text(a).len() != message_text(b).len());
            },
            ErrorMessage::StringNewline => {
                assert(message_text(a).len() != message_text(b).len());
            },
        },
        ErrorMessage::MultipleClasses => match b {
            ErrorMessage::CouldNotReadFile(y) => {
                assert(message_text(a)[0] != message_text(b)[0]);
            },
            ErrorMessage::MissingName => {
                assert(message_text(a)[1] != message_text(b)[1]);
            },
            ErrorMessage::StringNotToken(y) => {
                assert(message_text(a)[0] != message_text(b)[0]);
            },
            ErrorMessage::UnparseableToken(y) => {
                assert(message_text(a)[0] != message_text(b)[0]);
            },
            ErrorMessage::AbstractBody => {
                assert(message_text(a).len() != message_text(b).len());
            },
            ErrorMessage::CharNewline => {
                assert(message_text(a).len() != message_text(b).len());
            },
            ErrorMessage::CharTooLong => {
                assert(message_text(a).len() != message_text(b).len());
            },
            ErrorMessage::CharTooLongOctal => {
                assert(message_text(a).len() != message_text(b).len());
            },
            ErrorMessage::ClassBadName => {
                assert(message_text(a).len() != message_text(b).len());
            },
            ErrorMessage::ConcreteNoBody => {
                assert(message_text(a).len() != message_text(b).len());
            },
            ErrorMessage::CouldNotReduceStack => {
                assert(message_text(a).len() != message_text(b).len());
            },
            ErrorMessage::FinalAbstract => {
                assert(message_text(a).len() != message_text(b).len());
            },
            ErrorMessage::FinalNoInit => {
                assert(message_text(a).len() != message_text(b).len());
            },
            ErrorMessage::ImportClashSingleTogether => {
                assert(message_text(a).len() != message_text(b).len());
            },
            ErrorMessage::InterfaceBadName => {
                assert(message_text(a).len() != message_text(b).len());
            },
            ErrorMessage::IntOOB => {
                assert(message_text(a).len() != message_text(b).len());
            },
            ErrorMessage::InvalidCast => {
                assert(message_text(a).len() != message_text(b).len());
            },
            ErrorMessage::InvalidEscape => {
                assert(message_text(a).len() != message_text(b).len());
            },
            ErrorMessage::InvalidOctal => {
                assert(message_text(a).len() != message_text(b).len());
            },
            ErrorMessage::InvalidParseTree => {
                assert(message_text(a).len() != message_text(b).len());
            },
            ErrorMessage::InvalidRootChild => {
                assert(message_text(a).len() != message_text(b).len());
            },
            ErrorMessage::InvalidToken => {
                assert(message_text(a).len() != message_text(b).len());
            },
            ErrorMessage::MultipleClasses => {},
            ErrorMessage::NativeBody => {
                assert(message_text(a).len() != message_text(b).len());
            },
            ErrorMessage::NonStaticNative => {
                assert(message_text(a).len() != message_text(b).len());
            },
            ErrorMessage::StaticAbstract => {
                assert(message_text(a).len() != message_text(b).len());
            },
            ErrorMessage::StaticFinal => {
                assert(message_text(a).len() != message_text(b).len());
            },
            ErrorMessage::StringNewline => {
                assert(message_text(a).len() != message_text(b).len());
            },
        },
        ErrorMessage::NativeBody => match b {
            ErrorMessage::CouldNotReadFile(y) => {
                assert(message_text(a)[0] != message_text(b)[0]);
            },
            ErrorMessage::StaticFinal => {
                assert(message_text(a)[0] != message_text(b)[0]);
            },
            ErrorMessage::StringNotToken(y) => {
                assert(message_text(a)[0] != message_text(b)[0]);
            },
            ErrorMessage::UnparseableToken(y) => {
                assert(message_text(a)[0] != message_text(b)[0]);
            },
            ErrorMessage::AbstractBody => {
                assert(message_text(a).len() != message_text(b).len());
            },
            ErrorMessage::CharNewline => {
                assert(message_text(a).len() != message_text(b).len());
            },
            ErrorMessage::CharTooLong => {
                assert(message_text(a).len() != message_text(b).len());
            },
            ErrorMessage::CharTooLongOctal => {
                assert(message_text(a).len() != message_text(b).len());
            },
            ErrorMessage::ClassBadName => {
                assert(message_text(a).len() != message_text(b).len());
            },
            ErrorMessage::ConcreteNoBody => {
                assert(message_text(a).len() != message_text(b).len());
            },
            ErrorMessage::CouldNotReduceStack => {
                assert(message_text(a).len() != message_text(b).len());
            },
            ErrorMessage::FinalAbstract => {
                assert(message_text(a).len() != message_text(b).len());
            },
            ErrorMessage::FinalNoInit => {
                assert(message_text(a).len() != message_text(b).len());
            },
            ErrorMessage::ImportClashSingleTogether => {
                assert(message_text(a).len() != message_text(b).len());
            },
            ErrorMessage::InterfaceBadName => {
                assert(message_text(a).len() != message_text(b).len());
            },
            ErrorMessage::IntOOB => {
                assert(message_text(a).len() != message_text(b).len());
            },
            ErrorMessage::InvalidCast => {
                assert(message_text(a).len() != message_text(b).len());
            },
            ErrorMessage::InvalidEscape => {
                assert(message_text(a).len() != message_text(b).len());
            },
            ErrorMessage::InvalidOctal => {
                assert(message_text(a).len() != message_text(b).len());
            },
            ErrorMessage::InvalidParseTree => {
                assert(message_text(a).len() != message_text(b).len());
            },
            ErrorMessage::InvalidRootChild => {
                assert(message_text(a).len() != message_text(b).len());
            },
            ErrorMessage::InvalidToken => {
                assert(message_text(a).len() != message_text(b).len());
            },
            ErrorMessage::MissingName => {
                assert(message_text(a).len() != message_text(b).len());
            },
            ErrorMessage::MultipleClasses => {
                assert(message_text(a).len() != message_text(b).len());
            },
            ErrorMessage::NativeBody => {},
            ErrorMessage::NonStaticNative => {
                assert(message_text(a).len() != message_text(b).len());
            },
            ErrorMessage::StaticAbstract => {
                assert(message_text(a).len() != message_text(b).len());
            },
            ErrorMessage::StringNewline => {
                assert(message_text(a).len() != message_text(b).len());
            },
        },
        ErrorMessage::NonStaticNative => match b {
            ErrorMessage::ConcreteNoBody => {
                assert(message_text(a)[0] != message_text(b)[0]);
            },
            ErrorMessage::CouldNotReadFile(y) => {
                assert(message_text(a)[0] != message_text(b)[0]);
            },
            ErrorMessage::InvalidRootChild => {
                assert(message_text(a)[0] != message_text(b)[0]);
            },
            ErrorMessage::StringNotToken(y) => {
                assert(message_text(a)[0] != message_text(b)[0]);
            },
            ErrorMessage::UnparseableToken(y) => {
                assert(message_text(a)[0] != message_text(b)[0]);
            },
            ErrorMessage::AbstractBody => {
                assert(message_text(a).len() != message_text(b).len());
            },
            ErrorMessage::CharNewline => {
                assert(message_text(a).len() != message_text(b).len());
            },
            ErrorMessage::CharTooLong => {
                assert(message_text(a).len() != message_text(b).len());
            },
            ErrorMessage::CharTooLongOctal => {
                assert(message_text(a).len() != message_text(b).len());
            },
            ErrorMessage::ClassBadName => {
                assert(message_text(a).len() != message_text(b).len());
            },
            ErrorMessage::CouldNotReduceStack => {
                assert(message_text(a).len() != message_text(b).len());
            },
            ErrorMessage::FinalAbstract => {
                assert(message_text(a).len() != message_text(b).len());
            },
            ErrorMessage::FinalNoInit => {
                assert(message_text(a).len() != message_text(b).len());
            },
            ErrorMessage::ImportClashSingleTogether => {
                assert(message_text(a).len() != message_text(b).len());
            },
            ErrorMessage::InterfaceBadName => {
                assert(message_text(a).len() != message_text(b).len());
            },
            ErrorMessage::IntOOB => {
                assert(message_text(a).len() != message_text(b).len());
            },
            ErrorMessage::InvalidCast => {
                assert(message_text(a).len() != message_text(b).len());
            },
            ErrorMessage::InvalidEscape => {
                assert(message_text(a).len() != message_text(b).len());
            },
            ErrorMessage::InvalidOctal => {
                assert(message_text(a).len() != message_text(b).len());
            },
            ErrorMessage::InvalidParseTree => {
                assert(message_text(a).len() != message_text(b).len());
            },
            ErrorMessage::InvalidToken => {
                assert(message_text(a).len() != message_text(b).len());
            },
            ErrorMessage::MissingName => {
                assert(message_text(a).len() != message_text(b).len());
            },
            ErrorMessage::MultipleClasses => {
                assert(message_text(a).len() != message_text(b).len());
            },
            ErrorMessage::NativeBody => {
                assert(message_text(a).len() != message_text(b).len());
            },
            ErrorMessage::NonStaticNative => {},
            ErrorMessage::StaticAbstract => {
                assert(message_text(a).len() != message_text(b).len());
            },
            ErrorMessage::StaticFinal => {
                assert(message_text(a).len() != message_text(b).len());
            },
            ErrorMessage::StringNewline => {
                assert(message_text(a).len() != message_text(b).len());
            },
        },
        ErrorMessage::StaticAbstract => match b {
            ErrorMessage::CouldNotReadFile(y) => {
                assert(message_text(a)[0] != message_text(b)[0]);
            },
            ErrorMessage::StringNotToken(y) => {
                assert(message_text(a)[0] != message_text(b)[0]);
            },
            ErrorMessage::UnparseableToken(y) => {
                assert(message_text(a)[0] != message_text(b)[0]);
            },
            ErrorMessage::AbstractBody => {
                assert(message_text(a).len() != message_text(b).len());
            },
            ErrorMessage::CharNewline => {
                assert(message_text(a).len() != message_text(b).len());
            },
            ErrorMessage::CharTooLong => {
                assert(message_text(a).len() != message_text(b).len());
            },
            ErrorMessage::CharTooLongOctal => {
                assert(message_text(a).len() != message_text(b).len());
            },
            ErrorMessage::ClassBadName => {
                assert(message_text(a).len() != message_text(b).len());
            },
            ErrorMessage::ConcreteNoBody => {
                assert(message_text(a).len() != message_text(b).len());
            },
            ErrorMessage::CouldNotReduceStack => {
                assert(message_text(a).len() != message_text(b).len());
            },
            ErrorMessage::FinalAbstract => {
                assert(message_text(a).len() != message_text(b).len());
            },
            ErrorMessage::FinalNoInit => {
                assert(message_text(a).len() != message_text(b).len());
            },
            ErrorMessage::ImportClashSingleTogether => {
                assert(message_text(a).len() != message_text(b).len());
            },
            ErrorMessage::InterfaceBadName => {
                assert(message_text(a).len() != message_text(b).len());
            },
            ErrorMessage::IntOOB => {
                assert(message_text(a).len() != message_text(b).len());
            },
            ErrorMessage::InvalidCast => {
                assert(message_text(a).len() != message_text(b).len());
            },
            ErrorMessage::InvalidEscape => {
                assert(message_text(a).len() != message_text(b).len());
            },
            ErrorMessage::InvalidOctal => {
                assert(message_text(a).len() != message_text(b).len());
            },
            ErrorMessage::InvalidParseTree => {
                assert(message_text(a).len() != message_text(b).len());
            },
            ErrorMessage::InvalidRootChild => {
                assert(message_text(a).len() != message_text(b).len());
            },
            ErrorMessage::InvalidToken => {
                assert(message_text(a).len() != message_text(b).len());
            },
            ErrorMessage::MissingName => {
                assert(message_text(a).len() != message_text(b).len());
            },
            ErrorMessage::MultipleClasses => {
                assert(message_text(a).len() != message_text(b).len());
            },
            ErrorMessage::NativeBody => {
                assert(message_text(a).len() != message_text(b).len());
            },
            ErrorMessage::NonStaticNative => {
                assert(message_text(a).len() != message_text(b).len());
            },
            ErrorMessage::StaticAbstract => {},
            ErrorMessage::StaticFinal => {
                assert(message_text(a).len() != message_text(b).len());
            },
            ErrorMessage::StringNewline => {
                assert(message_text(a).len() != message_text(b).len());
            },
        },
        ErrorMessage::StaticFinal => match b {
            ErrorMessage::CouldNotReadFile(y) => {
                assert(message_text(a)[0] != message_text(b)[0]);
            },
            ErrorMessage::NativeBody => {
                assert(message_text(a)[0] != message_text(b)[0]);
            },
            ErrorMessage::StringNotToken(y) => {
                assert(message_text(a)[0] != message_text(b)[0]);
            },
            ErrorMessage::UnparseableToken(y) => {
                assert(message_text(a)[0] != message_text(b)[0]);
            },
            ErrorMessage::AbstractBody => {
                assert(message_text(a).len() != message_text(b).len());
            },
            ErrorMessage::CharNewline => {
                assert(message_text(a).len() != message_text(b).len());
            },
            ErrorMessage::CharTooLong => {
                assert(message_text(a).len() != message_text(b).len());
            },
            ErrorMessage::CharTooLongOctal => {
                assert(message_text(a).len() != message_text(b).len());
            },
            ErrorMessage::ClassBadName => {
                assert(message_text(a).len() != message_text(b).len());
            },
            ErrorMessage::ConcreteNoBody => {
                assert(message_text(a).len() != message_text(b).len());
            },
            ErrorMessage::CouldNotReduceStack => {
                assert(message_text(a).len() != message_text(b).len());
            },
            ErrorMessage::FinalAbstract => {
                assert(message_text(a).len() != message_text(b).len());
            },
            ErrorMessage::FinalNoInit => {
                assert(message_text(a).len() != message_text(b).len());
            },
            ErrorMessage::ImportClashSingleTogether => {
                assert(message_text(a).len() != message_text(b).len());
            },
            ErrorMessage::InterfaceBadName => {
                assert(message_text(a).len() != message_text(b).len());
            },
            ErrorMessage::IntOOB => {
                assert(message_text(a).len() != message_text(b).len());
            },
            ErrorMessage::InvalidCast => {
                assert(message_text(a).len() != message_text(b).len());
            },
            ErrorMessage::InvalidEscape => {
                assert(message_text(a).len() != message_text(b).len());
            },
            ErrorMessage::InvalidOctal => {
                assert(message_text(a).len() != message_text(b).len());
            },
            ErrorMessage::InvalidParseTree => {
                assert(message_text(a).len() != message_text(b).len());
            },
            ErrorMessage::InvalidRootChild => {
                assert(message_text(a).len() != message_text(b).len());
            },
            ErrorMessage::InvalidToken => {
                assert(message_text(a).len() != message_text(b).len());
            },
            ErrorMessage::MissingName => {
                assert(message_text(a).len() != message_text(b).len());
            },
            ErrorMessage::MultipleClasses => {
                assert(message_text(a).len() != message_text(b).len());
            },
            ErrorMessage::NonStaticNative => {
                assert(message_text(a).len() != message_text(b).len());
            },
            ErrorMessage::StaticAbstract => {
                assert(message_text(a).len() != message_text(b).len());
            },
            ErrorMessage::StaticFinal => {},
            ErrorMessage::StringNewline => {
                assert(message_text(a).len() != message_text(b).len());
            },
        },
        ErrorMessage::StringNewline => match b {
            ErrorMessage::CouldNotReadFile(y) => {
                assert(message_text(a)[0] != message_text(b)[0]);
            },
            ErrorMessage::StringNotToken(y) => {
                assert(message_text(a)[0] != message_text(b)[0]);
            },
            ErrorMessage::UnparseableToken(y) => {
                assert(message_text(a)[0] != message_text(b)[0]);
            },
            ErrorMessage::AbstractBody => {
                assert(message_text(a).len() != message_text(b).len());
            },
            ErrorMessage::CharNewline => {
                assert(message_text(a).len() != message_text(b).len());
            },
            ErrorMessage::CharTooLong => {
                assert(message_text(a).len() != message_text(b).len());
            },
            ErrorMessage::CharTooLongOctal => {
                assert(message_text(a).len() != message_text(b).len());
            },
            ErrorMessage::ClassBadName => {
                assert(message_text(a).len() != message_text(b).len());
            },
            ErrorMessage::ConcreteNoBody => {
                assert(message_text(a).len() != message_text(b).len());
            },
            ErrorMessage::CouldNotReduceStack => {
                assert(message_text(a).len() != message_text(b).len());
            },
            ErrorMessage::FinalAbstract => {
                assert(message_text(a).len() != message_text(b).len());
            },
            ErrorMessage::FinalNoInit => {
                assert(message_text(a).len() != message_text(b).len());
            },
            ErrorMessage::ImportClashSingleTogether => {
                assert(message_text(a).len() != message_text(b).len());
            },
            ErrorMessage::InterfaceBadName => {
                assert(message_text(a).len() != message_text(b).len());
            },
            ErrorMessage::IntOOB => {
                assert(message_text(a).len() != message_text(b).len());
            },
            ErrorMessage::InvalidCast => {
                assert(message_text(a).len() != message_text(b).len());
            },
            ErrorMessage::InvalidEscape => {
                assert(message_text(a).len() != message_text(b).len());
            },
            ErrorMessage::InvalidOctal => {
                assert(message_text(a).len() != message_text(b).len());
            },
            ErrorMessage::InvalidParseTree => {
                assert(message_text(a).len() != message_text(b).len());
            },
            ErrorMessage::InvalidRootChild => {
                assert(message_text(a).len() != message_text(b).len());
            },
            ErrorMessage::InvalidToken => {
                assert(message_text(a).len() != message_text(b).len());
            },
            ErrorMessage::MissingName => {
                assert(message_text(a).len() != message_text(b).len());
            },
            ErrorMessage::MultipleClasses => {
                assert(message_text(a).len() != message_text(b).len());
            },
            ErrorMessage::NativeBody => {
                assert(message_text(a).len() != message_text(b).len());
            },
            ErrorMessage::NonStaticNative => {
                assert(message_text(a).len() != message_text(b).len());
            },
            ErrorMessage::StaticAbstract => {
                assert(message_text(a).len() != message_text(b).len());
            },
            ErrorMessage::StaticFinal => {
                assert(message_text(a).len() != message_text(b).len());
            },
            ErrorMessage::StringNewline => {},
        },
        ErrorMessage::StringNotToken(x) => match b {
            ErrorMessage::AbstractBody => {
                assert(message_text(a)[0] != message_text(b)[0]);
            },
            ErrorMessage::CharNewline => {
                assert(message_text(a)[1] != message_text(b)[1]);
            },
            ErrorMessage::CharTooLong => {
                assert(message_text(a)[0] != message_text(b)[0]);
            },
            ErrorMessage::CharTooLongOctal => {
                assert(message_text(a)[0] != message_text(b)[0]);
            },
            ErrorMessage::ClassBadName => {
                assert(message_text(a)[1] != message_text(b)[1]);
            },
            ErrorMessage::ConcreteNoBody => {
                assert(message_text(a)[2] != message_text(b)[2]);
            },
            ErrorMessage::CouldNotReadFile(y) => {
                assert(message_text(a)[10] != message_text(b)[10]);
            },
            ErrorMessage::CouldNotReduceStack => {
                assert(message_text(a)[10] != message_text(b)[10]);
            },
            ErrorMessage::FinalAbstract => {
                assert(message_text(a)[0] != message_text(b)[0]);
            },
            ErrorMessage::FinalNoInit => {
                assert(message_text(a)[0] != message_text(b)[0]);
            },
            ErrorMessage::ImportClashSingleTogether => {
                assert(message_text(a)[0] != message_text(b)[0]);
            },
            ErrorMessage::InterfaceBadName => {
                assert(message_text(a)[0] != message_text(b)[0]);
            },
            ErrorMessage::IntOOB => {
                assert(message_text(a)[0] != message_text(b)[0]);
            },
            ErrorMessage::InvalidCast => {
                assert(message_text(a)[0] != message_text(b)[0]);
            },
            ErrorMessage::InvalidEscape => {
                assert(message_text(a)[0] != message_text(b)[0]);
            },
            ErrorMessage::InvalidOctal => {
                assert(message_text(a)[0] != message_text(b)[0]);
            },
            ErrorMessage::InvalidParseTree => {
                assert(message_text(a)[0] != message_text(b)[0]);
            },
            ErrorMessage::InvalidRootChild => {
                assert(message_text(a)[0] != message_text(b)[0]);
            },
            ErrorMessage::InvalidToken => {
                assert(message_text(a)[0] != message_text(b)[0]);
            },
            ErrorMessage::MissingName => {
                assert(message_text(a)[0] != message_text(b)[0]);
            },
            ErrorMessage::MultipleClasses => {
                assert(message_text(a)[0] != message_text(b)[0]);
            },
            ErrorMessage::NativeBody => {
                assert(message_text(a)[0] != message_text(b)[0]);
            },
            ErrorMessage::NonStaticNative => {
                assert(message_text(a)[0] != message_text(b)[0]);
            },
            ErrorMessage::StaticAbstract => {
                assert(message_text(a)[0] != message_text(b)[0]);
            },
            ErrorMessage::StaticFinal => {
                assert(message_text(a)[0] != message_text(b)[0]);
            },
            ErrorMessage::StringNewline => {
                assert(message_text(a)[0] != message_text(b)[0]);
            },
            ErrorMessage::StringNotToken(y) => {
                assert(x@ =~= message_text(a).subrange(26, message_text(a).len() - 10));
                assert(y@ =~= message_text(b).subrange(26, message_text(b).len() - 10));
            },
            ErrorMessage::UnparseableToken(y) => {
                assert(message_text(a)[0] != message_text(b)[0]);
            },
        },
        ErrorMessage::UnparseableToken(x) => match b {
            ErrorMessage::AbstractBody => {
                assert(message_text(a)[0] != message_text(b)[0]);
            },
            ErrorMessage::CharNewline => {
                assert(message_text(a)[0] != message_text(b)[0]);
            },
            ErrorMessage::CharTooLong => {
                assert(message_text(a)[0] != message_text(b)[0]);
            },
            ErrorMessage::CharTooLongOctal => {
                assert(message_text(a)[0] != message_text(b)[0]);
            },
            ErrorMessage::ClassBadName => {
                assert(message_text(a)[0] != message_text(b)[0]);
            },
            ErrorMessage::ConcreteNoBody => {
                assert(message_text(a)[0] != message_text(b)[0]);
            },
            ErrorMessage::CouldNotReadFile(y) => {
                assert(message_text(a)[0] != message_text(b)[0]);
            },
            ErrorMessage::CouldNotReduceStack => {
                assert(message_text(a)[0] != message_text(b)[0]);
            },
            ErrorMessage::FinalAbstract => {
                assert(message_text(a)[0] != message_text(b)[0]);
            },
            ErrorMessage::FinalNoInit => {
                assert(message_text(a)[0] != message_text(b)[0]);
            },
            ErrorMessage::ImportClashSingleTogether => {
                assert(message_text(a)[0] != message_text(b)[0]);
            },
            ErrorMessage::InterfaceBadName => {
                assert(message_text(a)[0] != message_text(b)[0]);
            },
            ErrorMessage::IntOOB => {
                assert(message_text(a)[0] != message_text(b)[0]);
            },
            ErrorMessage::InvalidCast => {
                assert(message_text(a)[0] != message_text(b)[0]);
            },
            ErrorMessage::InvalidEscape => {
                assert(message_text(a)[0] != message_text(b)[0]);
            },
            ErrorMessage::InvalidOctal => {
                assert(message_text(a)[0] != message_text(b)[0]);
            },
            ErrorMessage::InvalidParseTree => {
                assert(message_text(a)[0] != message_text(b)[0]);
            },
            ErrorMessage::InvalidRootChild => {
                assert(message_text(a)[0] != message_text(b)[0]);
            },
            ErrorMessage::InvalidToken => {
                assert(message_text(a)[0] != message_text(b)[0]);
            },
            ErrorMessage::MissingName => {
                assert(message_text(a)[0] != message_text(b)[0]);
            },
            ErrorMessage::MultipleClasses => {
                assert(message_text(a)[0] != message_text(b)[0]);
            },
            ErrorMessage::NativeBody => {
                assert(message_text(a)[0] != message_text(b)[0]);
            },
            ErrorMessage::NonStaticNative => {
                assert(message_text(a)[0] != message_text(b)[0]);
            },
            ErrorMessage::StaticAbstract => {
                assert(message_text(a)[0] != message_text(b)[0]);
            },
            ErrorMessage::StaticFinal => {
                assert(message_text(a)[0] != message_text(b)[0]);
            },
            ErrorMessage::StringNewline => {
                assert(message_text(a)[0] != message_text(b)[0]);
            },
            ErrorMessage::StringNotToken(y) => {
                assert(message_text(a)[0] != message_text(b)[0]);
            },
            ErrorMessage::UnparseableToken(y) => {
                assert(x@ =~= message_text(a).subrange(19, message_text(a).len() - 1));
                assert(y@ =~= message_text(b).subrange(19, message_text(b).len() - 1));
            },
        },
    }
}

impl ErrorMessage {
    /// The text of this message.
    pub fn text(&self) -> (r: String)
        ensures
            r@ == message_text(*self),
    {
        match self {
            ErrorMessage::AbstractBody => String::from_str("abstract method has body"),
            ErrorMessage::CharNewline => String::from_str("char contains newline"),
            ErrorMessage::CharTooLong => String::from_str("too many character in char"),
            ErrorMessage::CharTooLongOctal => String::from_str("too many characters in char (maybe malformed octal?)"),
            ErrorMessage::ClassBadName => String::from_str("class is badly named"),
            ErrorMessage::ConcreteNoBody => String::from_str("concrete method has no body"),
            ErrorMessage::CouldNotReadFile(f) => {
                let mut s = String::from_str("could not read file ");
                s.append(f.as_str());
                s
            },
            ErrorMessage::CouldNotReduceStack => String::from_str("could not entirely reduce stack"),
            ErrorMessage::FinalAbstract => String::from_str("final method is abstract"),
            ErrorMessage::FinalNoInit => String::from_str("final field has no initializer"),
            ErrorMessage::ImportClashSingleTogether => String::from_str("single-type-import declarations clash"),
            ErrorMessage::InterfaceBadName => String::from_str("interface is badly named"),
            ErrorMessage::IntOOB => String::from_str("integer out of bounds"),
            ErrorMessage::InvalidCast => String::from_str("invalid cast type"),
            ErrorMessage::InvalidEscape => String::from_str("invalid escape character"),
            ErrorMessage::InvalidOctal => String::from_str("invalid octal value"),
            ErrorMessage::InvalidParseTree => String::from_str("parse tree could not be entirely reduced"),
            ErrorMessage::InvalidRootChild => String::from_str("invalid child of root token"),
            ErrorMessage::InvalidToken => String::from_str("invalid token"),
            ErrorMessage::MissingName => String::from_str("missing ast name"),
            ErrorMessage::MultipleClasses => String::from_str("multiple classes"),
            ErrorMessage::NativeBody => String::from_str("native method has body"),
            ErrorMessage::NonStaticNative => String::from_str("non-static method is native"),
            ErrorMessage::StaticAbstract => String::from_str("static method is abstract"),
            ErrorMessage::StaticFinal => String::from_str("static method is final"),
            ErrorMessage::StringNewline => String::from_str("string contains newline"),
            ErrorMessage::StringNotToken(v) => {
                let mut s = String::from_str("could not convert string '");
                s.append(v.as_str());
                s.append("' to token");
                s
            },
            ErrorMessage::UnparseableToken(t) => {
                let mut s = String::from_str("unparseable token [");
                s.append(t.as_str());
                s.append("]");
                s
            },
        }
    }
}

} // verus!
