//! Errors found by the lexer.
use vstd::prelude::*;

use crate::error::message::{message_text, ErrorMessage};
use crate::numbers::{decimal, push_spaces, spaces, u32_text};

verus! {

/// An error at a position of a source line.
#[derive(Debug)]
pub struct LexerError {
    pub file: String,
    pub index: u32,
    pub line: String,
    pub line_number: u32,
    pub message: ErrorMessage,
}

/// The report of a `LexerError`: the message, the file, and the line with a
/// caret under the position, indented past the line number.
pub open spec fn lexer_error_text(e: LexerError) -> Seq<char> {
    let number = decimal(e.line_number as nat);
    let width = number.len();
    let bar = spaces(width) + " |"@;
    "error: "@ + message_text(e.message) + "\n"@ + spaces(width) + "-->"@ + " "@ + e.file@ + "\n"@
        + bar + "\n"@ + number + " | "@ + e.line@ + "\n"@ + bar + "\n"@ + spaces(
        (width + e.index + 1) as nat,
    ) + " ^"@
}

impl LexerError {
    /// The report of this error.
    pub fn text(&self) -> (r: String)
        requires
            decimal(self.line_number as nat).len() + self.index + 1 <= u32::MAX,
        ensures
            r@ == lexer_error_text(*self),
    {
        let number = u32_text(self.line_number);
        let width = number.as_str().unicode_len();
        proof {
            assert(width == decimal(self.line_number as nat).len());
        }
        let indent_bar = width as u32;
        let indent_ptr = indent_bar + self.index + 1;
        let mut s = String::from_str("error: ");
        let m = self.message.text();
        s.append(m.as_str());
        s.append("\n");
        push_spaces(&mut s, indent_bar);
        s.append("-->");
        s.append(" ");
        s.append(self.file.as_str());
        s.append("\n");
        push_spaces(&mut s, indent_bar);
        s.append(" |");
        s.append("\n");
        s.append(number.as_str());
        s.append(" | ");
        s.append(self.line.as_str());
        s.append("\n");
        push_spaces(&mut s, indent_bar);
        s.append(" |");
        s.append("\n");
        push_spaces(&mut s, indent_ptr);
        s.append(" ^");
        proof {
            assert(s@ =~= lexer_error_text(*self));
        }
        s
    }
}

} // verus!
