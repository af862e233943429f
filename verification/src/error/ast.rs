//! Errors found in the abstract syntax tree.
use vstd::prelude::*;

use crate::error::message::{message_text, ErrorMessage};

verus! {

/// An error about a tree node, with the node's text.
#[derive(Debug)]
pub struct ASTError {
    pub message: ErrorMessage,
    pub node: String,
}

/// The report of an `ASTError`.
pub open spec fn ast_error_text(message: ErrorMessage, node: Seq<char>) -> Seq<char> {
    "error: "@ + message_text(message) + "\n\n"@ + node
}

impl ASTError {
    /// An error about the node whose text is `node`.
    pub fn new(message: ErrorMessage, node: &str) -> (r: ASTError)
        ensures
            r.message == message,
            r.node@ == node@,
    {
        ASTError { message, node: String::from_str(node) }
    }

    /// The report: the message, a blank line, and the node.
    pub fn text(&self) -> (r: String)
        ensures
            r@ == ast_error_text(self.message, self.node@),
    {
        let mut s = String::from_str("error: ");
        let m = self.message.text();
        s.append(m.as_str());
        s.append("\n\n");
        s.append(self.node.as_str());
        s
    }
}

} // verus!
