//! Errors of each layer of the compiler, and the messages they carry.
pub mod ast;
pub mod lexer;
pub mod message;
pub mod parser;
pub mod weeder;

pub use self::ast::ASTError;
pub use self::lexer::LexerError;
pub use self::message::ErrorMessage;
pub use self::parser::ParserError;
pub use self::weeder::WeederError;
