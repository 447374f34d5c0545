//! Compiles a dialogue script, given as the ordered tree of nodes that a
//! grammar matcher found in its text, into a flat sequence of lines and
//! choice groups in which every line and every choice knows its successor.
//!
//! The sequencer ([`parser::parse`]) walks the nodes once and builds the
//! entries and the table of branch labels. The resolver
//! ([`resolver::resolve`]) then gives every line and every choice the
//! position it leads to: the target of its goto, or the entry after it.
//! [`chatter`] runs both on what the matcher returned.

use vstd::prelude::*;
use vstd::string::StrSliceExecFns;
use vstd::string::StringExecFns;

pub mod branch;
pub mod error;
pub mod laws;
pub mod node;
pub mod parser;
pub mod resolver;
pub mod script;

use crate::error::{ChatterError, ChatterErrorView, SyntaxError};
use crate::node::Node;
use crate::parser::{parse, sequenced};
use crate::resolver::{missing_label, resolve, resolved, unresolved};
use crate::script::{resolved_chats_view, ResolvedChat, ResolvedChatView};

verus! {

/// What lies between the opening `r#"` and the closing `"#` of a raw
/// string literal. A text that is no such literal has no contents.
pub open spec fn raw_contents(input: Seq<char>) -> Option<Seq<char>> {
    let length = input.len() as int;
    if length >= 5 && input[0] == 'r' && input[1] == '#' && input[2] == '"' && input[length - 2]
        == '"' && input[length - 1] == '#' {
        Some(input.subrange(3, length - 2))
    } else {
        None
    }
}

/// The script inside the raw string literal `input`, or `None` where
/// `input` is not of that form.
pub fn get_contents(input: &str) -> (contents: Option<String>)
    ensures
        match contents {
            Some(text) => raw_contents(input@) == Some(text@),
            None => raw_contents(input@) is None,
        },
{
    let length = input.unicode_len();
    if length >= 5 && input.get_char(0) == 'r' && input.get_char(1) == '#' && input.get_char(2)
        == '"' && input.get_char(length - 2) == '"' && input.get_char(length - 1) == '#' {
        Some(String::from_str(input.substring_char(3, length - 2)))
    } else {
        None
    }
}

/// What compiling the nodes of a document gives: the resolved sequence of
/// its script, or the one error that stops the compilation.
pub open spec fn compiled(nodes: Seq<Node>) -> Result<Seq<ResolvedChatView>, ChatterErrorView> {
    match sequenced(nodes) {
        None => Err(ChatterErrorView::InternalContract),
        Some(script) => match missing_label(script.entries, script.branches) {
            Some(name) => Err(unresolved(name)),
            None => Ok(resolved(script.entries, script.branches)),
        },
    }
}

/// Compiles what the grammar matcher returned for a document.
///
/// A text that the matcher rejected fails with the matcher's report.
/// Otherwise the nodes are sequenced and every goto is resolved: the
/// result is the resolved sequence, or the first error on the way, and
/// never a part of a sequence.
pub fn chatter(matched: Result<Vec<Node>, SyntaxError>) -> (r: Result<
    Vec<ResolvedChat>,
    ChatterError,
>)
    ensures
        match matched {
            Err(fault) => r matches Err(e) && e@ == ChatterErrorView::Syntax(fault@),
            Ok(nodes) => match compiled(nodes@) {
                Ok(sequence) => r matches Ok(content) && resolved_chats_view(content@) == sequence,
                Err(error) => r matches Err(e) && e@ == error,
            },
        },
{
    match matched {
        Err(fault) => Err(ChatterError::Syntax(fault)),
        Ok(nodes) => match parse(&nodes) {
            Ok((content, branches)) => resolve(&content, &branches),
            Err(e) => Err(e),
        },
    }
}

} // verus!
