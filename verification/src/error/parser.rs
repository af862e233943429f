//! Errors found by the parser.
use vstd::prelude::*;

use crate::error::message::{message_text, ErrorMessage};

verus! {

/// An error found while parsing, with an optional argument and the text of
/// the nodes involved.
#[derive(Debug)]
pub struct ParserError {
    pub arg: Option<String>,
    pub message: ErrorMessage,
    pub nodes: Option<String>,
}

/// Texts joined by newlines.
pub open spec fn joined_lines(texts: Seq<Seq<char>>) -> Seq<char>
    decreases texts.len(),
{
    if texts.len() == 0 {
        Seq::empty()
    } else if texts.len() == 1 {
        texts[0]
    } else {
        joined_lines(texts.drop_last()) + "\n"@ + texts.last()
    }
}

/// The report of a `ParserError`.
pub open spec fn parser_error_text(
    message: ErrorMessage,
    arg: Option<Seq<char>>,
    nodes: Option<Seq<char>>,
) -> Seq<char> {
    let head = "error: "@ + message_text(message);
    let with_arg = match arg {
        Some(a) => head + "\n"@ + a,
        None => head,
    };
    match nodes {
        Some(n) => with_arg + "\n\n"@ + n,
        None => with_arg,
    }
}

impl ParserError {
    /// An error with `message` and an optional argument, without nodes.
    pub fn new(message: ErrorMessage, arg: Option<String>) -> (r: ParserError)
        ensures
            r.message == message,
            r.arg == arg,
            r.nodes is None,
    {
        ParserError { arg, message, nodes: None }
    }

    /// The same error with the texts of the nodes involved, one per line.
    pub fn with_nodes(self, nodes: Vec<String>) -> (r: ParserError)
        ensures
            r.message == self.message,
            r.arg == self.arg,
            r.nodes is Some,
            r.nodes->Some_0@ == joined_lines(nodes.deep_view()),
    {
        let mut s = String::new();
        let mut i: usize = 0;
        proof {
            assert(nodes.deep_view().take(0) =~= Seq::<Seq<char>>::empty());
        }
        while i < nodes.len()
            invariant
                i <= nodes@.len(),
                s@ == joined_lines(nodes.deep_view().take(i as int)),
            decreases nodes@.len() - i,
        {
            proof {
                assert(nodes.deep_view().take(i + 1).drop_last() =~= nodes.deep_view().take(i as int));
                assert(nodes.deep_view().take(i + 1).last() == nodes@[i as int]@);
            }
            if i > 0 {
                s.append("\n");
            } else {
                proof {
                    assert(nodes.deep_view().take(1) =~= seq![nodes@[0]@]);
                }
            }
            s.append(nodes[i].as_str());
            i = i + 1;
        }
        proof {
            assert(nodes.deep_view().take(nodes@.len() as int) =~= nodes.deep_view());
        }
        ParserError { arg: self.arg, message: self.message, nodes: Some(s) }
    }

    /// The report: the message, the argument on its own line, and the nodes
    /// after a blank line.
    pub fn text(&self) -> (r: String)
        ensures
            r@ == parser_error_text(
                self.message,
                match self.arg {
                    Some(a) => Some(a@),
                    None => None,
                },
                match self.nodes {
                    Some(n) => Some(n@),
                    None => None,
                },
            ),
    {
        let mut s = String::from_str("error: ");
        let m = self.message.text();
        s.append(m.as_str());
        match &self.arg {
            Some(a) => {
                s.append("\n");
                s.append(a.as_str());
            },
            None => {},
        }
        match &self.nodes {
            Some(n) => {
                s.append("\n\n");
                s.append(n.as_str());
            },
            None => {},
        }
        s
    }
}

} // verus!
