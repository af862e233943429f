//! Errors found by the weeder.
use vstd::prelude::*;

use crate::error::message::{message_text, ErrorMessage};

verus! {

/// An error found while weeding a file, with the text of nearby nodes.
#[derive(Debug)]
pub struct WeederError {
    pub filename: String,
    pub message: ErrorMessage,
    pub node: String,
}

/// The report of a `WeederError`.
pub open spec fn weeder_error_text(message: ErrorMessage, filename: Seq<char>, node: Seq<char>) -> Seq<char> {
    "error: "@ + message_text(message) + "\n --> "@ + filename + "\n\n"@ + node
}

impl WeederError {
    /// An error in `filename` near the node whose text is `node`.
    pub fn new(filename: String, message: ErrorMessage, node: &str) -> (r: WeederError)
        ensures
            r.filename == filename,
            r.message == message,
            r.node@ == node@,
    {
        WeederError { filename, message, node: String::from_str(node) }
    }

    /// The report: the message, the file, a blank line, and the node.
    pub fn text(&self) -> (r: String)
        ensures
            r@ == weeder_error_text(self.message, self.filename@, self.node@),
    {
        let mut s = String::from_str("error: ");
        let m = self.message.text();
        s.append(m.as_str());
        s.append("\n --> ");
        s.append(self.filename.as_str());
        s.append("\n\n");
        s.append(self.node.as_str());
        s
    }
}

} // verus!
