use juicyj::error::ASTError;
use juicyj::error::ErrorMessage;
use juicyj::error::LexerError;
use juicyj::error::ParserError;
use juicyj::error::WeederError;

#[test]
fn message_texts() {
    assert_eq!(ErrorMessage::AbstractBody.text(), "abstract method has body");
    assert_eq!(ErrorMessage::IntOOB.text(), "integer out of bounds");
    assert_eq!(
        ErrorMessage::CharTooLongOctal.text(),
        "too many characters in char (maybe malformed octal?)"
    );
    assert_eq!(
        ErrorMessage::CouldNotReadFile("A.java".to_string()).text(),
        "could not read file A.java"
    );
    assert_eq!(
        ErrorMessage::StringNotToken("+=".to_string()).text(),
        "could not convert string '+=' to token"
    );
    assert_eq!(
        ErrorMessage::UnparseableToken("@".to_string()).text(),
        "unparseable token [@]"
    );
}

#[test]
fn ast_error_report() {
    let e = ASTError::new(ErrorMessage::MissingName, "CompilationUnit");
    assert_eq!(e.text(), "error: missing ast name\n\nCompilationUnit");
}

#[test]
fn weeder_error_report() {
    let e = WeederError::new("Sample.java".to_string(), ErrorMessage::IntOOB, "I am a node");
    assert_eq!(e.text(), "error: integer out of bounds\n --> Sample.java\n\nI am a node");
}

#[test]
fn parser_error_report() {
    let e = ParserError::new(ErrorMessage::InvalidParseTree, None);
    assert_eq!(e.text(), "error: parse tree could not be entirely reduced");
    let e = ParserError::new(ErrorMessage::InvalidParseTree, Some("near x".to_string()))
        .with_nodes(vec!["a".to_string(), "b".to_string()]);
    assert_eq!(e.nodes, Some("a\nb".to_string()));
    assert_eq!(e.text(), "error: parse tree could not be entirely reduced\nnear x\n\na\nb");
    let e = ParserError::new(ErrorMessage::InvalidToken, None).with_nodes(Vec::new());
    assert_eq!(e.text(), "error: invalid token\n\n");
}

#[test]
fn lexer_error_report() {
    let e = LexerError {
        file: "A.java".to_string(),
        index: 2,
        line: "int x;".to_string(),
        line_number: 12,
        message: ErrorMessage::InvalidToken,
    };
    assert_eq!(
        e.text(),
        "error: invalid token\n  --> A.java\n   |\n12 | int x;\n   |\n      ^"
    );
}
